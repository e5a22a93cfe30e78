use std::collections::HashSet;

use riiman::query::{DefaultButton, QueryIcon, QueryKind, QueryResult};
use riiman::image_form::{
    image_form_enabled, size_label, ImageFormSwitches, InfillTechnique, PreviewState,
    ScaleAlgorithm,
};
use riiman::transform::{
    confirm_message, confirm_options, confirm_query, CONFIRM_REQUEST, count_conflicts, count_duplicates, on_confirm_answer,
    on_transform_clicked, summary_rows, ConfirmOutcome, PathsListing, SummaryCounts,
    DestinationExistingBehaviour, DestinationKind, SourceKind, TransformAction,
    TransformBulkParams, TransformDestination, TransformSource,
};

fn params(kind: DestinationKind) -> TransformBulkParams {
    TransformBulkParams {
        source: TransformSource { kind: SourceKind::Selection, delete_source: false },
        destination: TransformDestination {
            kind,
            other_vault_name: String::new(),
            directory_path: String::new(),
            archive_path: String::new(),
            use_subdirectory: false,
            vault_subdirectory: String::new(),
            item_existing_behaviour: DestinationExistingBehaviour::Skip,
            archive_existing_behaviour: DestinationExistingBehaviour::Skip,
            preserve_directory_structure: true,
        },
    }
}

fn strings(v: &[&str]) -> Vec<String> {
    v.iter().map(|s| s.to_string()).collect()
}

#[test]
fn duplicates_are_paths_less_distinct_paths() {
    let paths = strings(&["a", "b", "a", "c", "b", "a"]);
    let distinct: HashSet<&String> = paths.iter().collect();
    assert_eq!(paths.len() - distinct.len(), count_duplicates(&paths));
    assert_eq!(3, count_duplicates(&paths));
    assert_eq!(0, count_duplicates(&[]));
}

#[test]
fn conflicts_with_existing_paths() {
    let new = strings(&["x/1.png", "x/2.png", "x/3.png"]);
    let current = vec![Some("x/1.png".to_string()), Some("old/2.png".to_string()), None];
    let existing = strings(&["x/1.png", "x/2.png"]);
    // In the same vault an item that keeps its path does not collide.
    assert_eq!(1, count_conflicts(&new, &current, &existing, true));
    assert_eq!(2, count_conflicts(&new, &current, &existing, false));
    assert_eq!(0, count_conflicts(&new, &current, &[], false));
}

#[test]
fn transform_settings_are_checked() {
    assert_eq!(Ok(()), params(DestinationKind::SameVault).validate(false));
    let mut p = params(DestinationKind::OtherVault);
    assert_eq!(Err("Name of destination vault is required."), p.validate(true));
    p.destination.other_vault_name = "other".to_string();
    assert_eq!(Err("Chosen destination vault was not found."), p.validate(false));
    assert_eq!(Ok(()), p.validate(true));
    let mut p = params(DestinationKind::Directory);
    assert_eq!(Err("Name of destination directory is required."), p.validate(true));
    p.destination.directory_path = "/out".to_string();
    assert_eq!(Ok(()), p.validate(true));
    let mut p = params(DestinationKind::Archive);
    assert_eq!(Err("Name of destination archive is required."), p.validate(true));
    p.destination.archive_path = "a.zip".to_string();
    assert_eq!(Err("Archive destinations are not yet supported."), p.validate(true));
    let mut p = params(DestinationKind::SameVault);
    p.destination.use_subdirectory = true;
    assert_eq!(Err("Name of vault destination subdirectory is required."), p.validate(true));
    p.destination.vault_subdirectory = "sub".to_string();
    p.destination.item_existing_behaviour = DestinationExistingBehaviour::Remove;
    assert_eq!(
        Err("Behaviour when item already exists cannot be 'Remove' when copying items."),
        p.validate(true)
    );
    p.source.delete_source = true;
    assert_eq!(Ok(()), p.validate(true));
    assert_eq!("Remove", DestinationExistingBehaviour::Remove.label());
}

#[test]
fn transform_button_outcomes() {
    let p = params(DestinationKind::SameVault);
    assert_eq!(TransformAction::Perform, on_transform_clicked(&p, true, 0, 0));
    assert_eq!(
        TransformAction::AskConfirm(
            "There will be 2 items with the same transformed path.\n\nCurrent duplicate behaviour: Skip\n\nContinue?"
                .to_string()
        ),
        on_transform_clicked(&p, true, 2, 0)
    );
    let bad = params(DestinationKind::Directory);
    assert_eq!(
        TransformAction::ShowError("Name of destination directory is required.".to_string()),
        on_transform_clicked(&bad, true, 3, 3)
    );
    assert_eq!(
        "There will be 1 items with the same transformed path.\nThere will be 4 items with transformed paths that are the same as existing items.\n\nCurrent duplicate behaviour: Rename\n\nContinue?",
        confirm_message(1, 4, DestinationExistingBehaviour::Rename)
    );
}

fn switches() -> ImageFormSwitches {
    ImageFormSwitches {
        scale_enabled: true,
        use_target_width: true,
        use_target_height: false,
        use_maximum_scaling: false,
        scale_algorithm: ScaleAlgorithm::Bicubic,
        infill_enabled: true,
        infill_technique: InfillTechnique::Blur,
        use_gaussian: true,
        use_brightness: false,
        use_contrast: true,
        compression_enabled: false,
    }
}

#[test]
fn image_form_controls_follow_their_switches() {
    let e = image_form_enabled(&switches());
    assert!(e.target_width && !e.target_height && !e.fit_algorithm);
    assert!(!e.esrgan_model && !e.maximum_scaling && e.other_scaling);
    assert!(e.infill_colour && e.gaussian_radius && !e.brightness && e.contrast);
    assert!(e.other_infill && !e.compression);
    let mut s = switches();
    s.use_target_height = true;
    s.scale_algorithm = ScaleAlgorithm::Esrgan;
    s.infill_technique = InfillTechnique::Solid;
    let e = image_form_enabled(&s);
    assert!(e.fit_algorithm && e.esrgan_model && !e.infill_colour);
    s.scale_enabled = false;
    s.infill_enabled = false;
    let e = image_form_enabled(&s);
    assert!(!e.target_width && !e.fit_algorithm && !e.esrgan_model && !e.other_scaling);
    assert!(!e.gaussian_radius && !e.contrast && !e.other_infill);
}

#[test]
fn preview_list_is_marked_for_one_frame() {
    let mut p = PreviewState::new();
    assert!(p.lists_items_at_start());
    p.end_frame(true, false, true);
    assert!(p.source_items_updated && p.opened);
    assert!(!p.lists_items_at_start());
    p.end_frame(false, false, true);
    assert!(!p.source_items_updated);
    p.end_frame(false, true, true);
    assert!(p.source_items_updated);
    p.end_frame(true, false, false);
    assert!(!p.source_items_updated && !p.opened);
}

#[test]
fn preview_is_asked_once_per_item_and_settings() {
    let mut p = PreviewState::new();
    assert_eq!(None, p.preview_request(None, true));
    assert_eq!(Some(4), p.preview_request(Some(4), true));
    assert_eq!(None, p.preview_request(Some(4), true));
    assert_eq!(Some(4), p.preview_request(Some(4), false));
    assert_eq!(Some(5), p.preview_request(Some(5), true));
    assert_eq!(Some(5), p.selected_item_id);
}

#[test]
fn size_labels() {
    assert_eq!("Original: 640\u{00d7}480", size_label(true, 640, 480));
    assert_eq!("Transformed: 1280\u{00d7}0", size_label(false, 1280, 0));
}

#[test]
fn summary_lists_the_transformation() {
    let mut p = params(DestinationKind::Directory);
    p.destination.directory_path = "/out".to_string();
    let c = SummaryCounts {
        source_len: 4,
        source_items: 4,
        valid_paths: 3,
        unique_paths: 2,
        conflicts: 0,
        duplicates: 1,
    };
    let rows = summary_rows(&p, true, c);
    let texts: Vec<(String, String, bool)> =
        rows.into_iter().map(|r| (r.label, r.value, r.error)).collect();
    let expected: Vec<(&str, &str, bool)> = vec![
        ("Source: ", "Selection (4)", false),
        ("Destination:", "Directory: /out", false),
        ("# of source items: ", "4", false),
        ("# of source items with valid transformed paths: ", "3", false),
        ("# of transformed paths: ", "2", false),
        ("# of conflicts with other transformed paths: ", "1", true),
        ("Operation: ", "Copy (retain originals)", false),
        ("Dry run: ", "Yes", false),
        ("Behaviour when item already exists: ", "Skip", false),
    ];
    assert_eq!(expected.len(), texts.len());
    for (e, t) in expected.iter().zip(texts.iter()) {
        assert_eq!(e.0, t.0);
        assert_eq!(e.1, t.1);
        assert_eq!(e.2, t.2);
    }
}

#[test]
fn confirmation_runs_only_on_yes() {
    let o = confirm_options();
    assert_eq!(QueryKind::YesNo, o.kind);
    assert_eq!(QueryIcon::Warning, o.icon);
    assert_eq!(DefaultButton::Button2, o.default_button);
    let p = params(DestinationKind::SameVault);
    assert_eq!(ConfirmOutcome::Ignored, on_confirm_answer(&p, true, QueryResult::No));
    assert_eq!(ConfirmOutcome::Perform, on_confirm_answer(&p, true, QueryResult::Yes));
    let q = params(DestinationKind::OtherVault);
    assert_eq!(
        ConfirmOutcome::ShowError("Name of destination vault is required.".to_string()),
        on_confirm_answer(&q, true, QueryResult::Yes)
    );
}

#[test]
fn path_listing_is_repeated_once_after_a_change() {
    let mut l = PathsListing::new();
    assert!(l.lists_items_at_start());
    l.end_frame(true, false, false, true);
    assert!(l.lists_items_at_start());
    l.end_frame(true, false, false, true);
    assert!(!l.lists_items_at_start());
    l.end_frame(false, false, true, true);
    assert!(l.lists_items_at_start());
    l.end_frame(true, true, false, true);
    assert!(l.lists_items_at_start());
    l.end_frame(true, false, false, false);
    assert!(l.lists_items_at_start());
    assert!(!l.source_items_updated && !l.opened);
}

#[test]
fn confirm_query_is_filed_under_its_id() {
    let q = confirm_query(77, 2, 0, DestinationExistingBehaviour::Rename);
    assert_eq!(77, q.id);
    assert_eq!("Confirm", q.title);
    assert_eq!(confirm_message(2, 0, DestinationExistingBehaviour::Rename), q.message);
    assert_eq!(QueryKind::YesNo, q.options.kind);
    assert_eq!(QueryIcon::Warning, q.options.icon);
    assert_eq!(DefaultButton::Button2, q.options.default_button);
    assert!(!q.opened);
    assert_eq!("query_confirm", CONFIRM_REQUEST);
}
