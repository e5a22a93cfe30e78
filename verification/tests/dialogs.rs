use riiman::item_cache::{ItemCache, ItemCacheParams};
use riiman::link_vault::{link_choices, LinkVaultState};
use riiman::message::import_summary;
use riiman::delete_def::{tagged_items_message, DeleteDefinition};
use riiman::download::{
    DownloadState, ExecutableStatus, FindOutcome, GalleryDLLogin, GalleryDLLoginKind,
    GalleryDLParams, GalleryDLSource, GalleryDLSourceKind,
};
use riiman::forms::{
    is_blank, validate_definition, validate_link_vault, validate_new_vault_name, NewVaultState,
};
use riiman::message::{ErrorDialog, MessageDialog, MessageType};
use riiman::query::{
    DefaultButton, Query, QueryDeclaration, QueryIcon, QueryKind, QueryOptions, QueryResult,
    TaskError,
};
use riiman::tag::{FieldDefinition, FieldType};
use riiman::transform_results::{result_type, ResultType, TransformResult, TransformResults};
use riiman::vaults::{
    first_line, load_message, row_kind, unresolved_status_text, LoadOutcome, VaultRowKind,
};

fn params() -> GalleryDLParams {
    GalleryDLParams {
        location: Some("/usr/bin/gallery-dl".to_string()),
        version: Some("1.26".to_string()),
        source: GalleryDLSource::TwitterLikes { username: "me".to_string() },
        login: GalleryDLLogin::ChromeCookies,
        cli_arguments: String::new(),
        json_config: "{}".to_string(),
        log_file: None,
    }
}

#[test]
fn download_settings_are_checked_in_order() {
    let mut p = params();
    assert_eq!(Ok(()), p.validate());
    p.json_config = "[1, 2]".to_string();
    assert_eq!(Err("Configuration must be a valid JSON object."), p.validate());
    p.json_config = "{\"a\": 1".to_string();
    assert_eq!(Err("Configuration must be a valid JSON object."), p.validate());
    p.json_config = "{\"a\": 1}".to_string();
    p.login = GalleryDLLogin::UsernamePassword { username: "u".to_string(), password: String::new() };
    assert_eq!(Err("Please enter a username and password."), p.validate());
    p.login = GalleryDLLogin::NoLogin;
    assert_eq!(Err("Please select a login method."), p.validate());
    p.source = GalleryDLSource::CustomURL { url: "not a url".to_string() };
    assert_eq!(Err("Please enter a valid URL."), p.validate());
    p.source = GalleryDLSource::CustomURL { url: "https://example.com/a".to_string() };
    assert_eq!(Err("Please select a login method."), p.validate());
    p.source = GalleryDLSource::TwitterLikes { username: String::new() };
    assert_eq!(Err("Please enter your Twitter username."), p.validate());
    p.source = GalleryDLSource::NoSource;
    assert_eq!(Err("Please select an image source."), p.validate());
    p.version = None;
    assert_eq!(Err("A valid gallery-dl executable is required."), p.validate());
}

#[test]
fn download_checks_given_the_parses() {
    let mut p = params();
    p.source = GalleryDLSource::CustomURL { url: "x".to_string() };
    assert_eq!(Err("Please enter a valid URL."), p.validate_with(false, true));
    assert_eq!(Ok(()), p.validate_with(true, true));
    assert_eq!(Err("Configuration must be a valid JSON object."), p.validate_with(true, false));
}

#[test]
fn choosing_a_kind_resets_the_fields() {
    let mut p = params();
    p.select_source_kind(GalleryDLSourceKind::CustomURL);
    assert_eq!(GalleryDLSource::CustomURL { url: String::new() }, p.source);
    assert_eq!(GalleryDLSourceKind::CustomURL, p.source.kind());
    p.select_login_kind(GalleryDLLoginKind::UsernamePassword);
    assert_eq!(
        GalleryDLLogin::UsernamePassword { username: String::new(), password: String::new() },
        p.login
    );
    assert_eq!(GalleryDLLoginKind::UsernamePassword, p.login.kind());
}

#[test]
fn blank_names_are_refused() {
    assert!(is_blank(""));
    assert!(is_blank(" \t\u{3000}"));
    assert!(!is_blank(" a "));
    assert_eq!(Err("Please enter a vault name."), validate_new_vault_name("  "));
    assert_eq!(Ok(()), validate_new_vault_name("photos"));
    assert_eq!(Err("Please select a vault to link.".to_string()), validate_link_vault(""));
    assert_eq!(Ok(()), validate_link_vault("other"));
}

#[test]
fn definition_checks() {
    assert_eq!(Err("Definition does not exist".to_string()), validate_definition(None, true, None));
    assert_eq!(Err("Name must not be empty".to_string()), validate_definition(Some(" "), true, None));
    assert_eq!(Err("No vault found".to_string()), validate_definition(Some("cat"), false, None));
    assert_eq!(
        Err("Hierarchy error: loop".to_string()),
        validate_definition(Some("cat"), true, Some("loop"))
    );
    assert_eq!(Ok(()), validate_definition(Some("cat"), true, None));
}

#[test]
fn message_titles_and_bodies() {
    let e = MessageDialog::error("disk full".to_string());
    assert_eq!(MessageType::Error, e.msg_type);
    assert_eq!("Error", e.display_title());
    assert_eq!("An error has occurred disk full", e.display_body());
    let i = MessageDialog::info("hello".to_string());
    assert_eq!("Info", i.display_title());
    assert_eq!("hello", i.display_body());
    let s = MessageDialog::success("done".to_string()).with_title("Saved".to_string());
    assert_eq!("Saved", s.display_title());
    assert_eq!("done", s.display_body());
    // Identifiers are random version-4 UUIDs.
    assert_eq!(4, (e.id >> 76) & 0xf);
    assert_eq!(2, (e.id >> 62) & 0x3);
    assert_ne!(e.id, i.id);
    let mut d = e;
    assert!(!d.opened);
    d.mark_opened();
    assert!(d.opened);
}

#[test]
fn error_dialog_body() {
    let mut d = ErrorDialog::new();
    d.set_message("bad".to_string());
    assert_eq!("An error has occurred:\nbad", d.display_body());
}

#[test]
fn query_buttons() {
    assert_eq!(vec![QueryResult::Okay], QueryKind::OkOnly.buttons());
    assert_eq!(
        vec![QueryResult::Cancel, QueryResult::Retry, QueryResult::Continue],
        QueryKind::CancelRetryContinue.buttons()
    );
    assert!(DefaultButton::Button2.matches_index(1));
    assert!(!DefaultButton::Button2.matches_index(0));
    assert_eq!("Ok", QueryResult::Okay.label());
    assert_eq!("Continue", QueryResult::Continue.label());
    let opts = QueryOptions {
        kind: QueryKind::YesNoCancel,
        icon: QueryIcon::Warning,
        default_button: DefaultButton::Button1,
    };
    let q = Query::new(7, "Title".to_string(), "Sure?".to_string(), opts);
    assert_eq!(
        vec![(QueryResult::Cancel, false), (QueryResult::No, false), (QueryResult::Yes, true)],
        q.button_row()
    );
}

#[test]
fn query_declaration_asks_once() {
    let mut d = QueryDeclaration::new(3, "Confirm".to_string(), QueryOptions::default());
    let q = d.open("Go?".to_string()).unwrap();
    assert_eq!("Go?", q.message);
    assert_eq!(3, q.id);
    assert!(d.open("Again?".to_string()).is_none());
    assert_eq!(None, d.try_take::<QueryResult>(None));
    assert!(d.opened);
    assert_eq!(Some(QueryResult::Yes), d.try_take(Some(Ok(QueryResult::Yes))));
    assert!(!d.opened);
    assert!(d.open("Once more?".to_string()).is_some());
    assert_eq!(None, d.try_take::<QueryResult>(Some(Err(TaskError::UserCancelled))));
    assert_eq!(None, d.error);
    d.open("Last?".to_string());
    assert_eq!(None, d.try_take::<QueryResult>(Some(Err(TaskError::Failed("boom".to_string())))));
    assert_eq!(Some("boom".to_string()), d.error);
}

#[test]
fn tagged_item_counts() {
    assert_eq!(None, tagged_items_message(0));
    assert_eq!(
        Some("There is currently 1 item with this tag.".to_string()),
        tagged_items_message(1)
    );
    assert_eq!(
        Some("There are currently 12 items with this tag.".to_string()),
        tagged_items_message(12)
    );
}

#[test]
fn delete_dialog_counts_once_and_opens_once() {
    let def = FieldDefinition {
        id: 5,
        name: "cat".to_string(),
        field_type: FieldType::Tag,
        colour: None,
        parent_ids: vec![],
        child_ids: vec![],
        aliases: vec![],
    };
    let mut d = DeleteDefinition::new(def);
    assert_eq!(3, d.item_count(3));
    assert_eq!(3, d.item_count(9));
    assert!(d.mark_opened());
    assert!(!d.mark_opened());
}

#[test]
fn transform_result_kinds() {
    let rows: Vec<Result<TransformResult, String>> = vec![
        Ok(TransformResult::CopySuccess { from: "a".to_string(), to: "b".to_string() }),
        Ok(TransformResult::MoveSuccess { from: "a".to_string(), to: "b".to_string() }),
        Ok(TransformResult::InPlaceTransform("a".to_string())),
        Ok(TransformResult::RemovedWithoutTransform("a".to_string())),
        Ok(TransformResult::NoTransform("a".to_string())),
        Err("failed".to_string()),
    ];
    let kinds: Vec<ResultType> = rows.iter().map(result_type).collect();
    assert_eq!(
        vec![
            ResultType::Copy,
            ResultType::Move,
            ResultType::InPlace,
            ResultType::Delete,
            ResultType::Skip,
            ResultType::Error
        ],
        kinds
    );
    let labels: Vec<&str> = kinds.iter().map(|k| k.label()).collect();
    assert_eq!(vec!["Copy", "Move", "InPlace", "Delete", "Skip", "Error"], labels);
    let mut w = TransformResults::new(rows);
    assert_eq!(Some(&"failed".to_string()), w.error_of(5));
    assert_eq!(None, w.error_of(0));
    assert_eq!(None, w.error_of(6));
    w.end_frame(true, false);
    assert!(w.is_open);
    w.end_frame(true, true);
    assert!(!w.is_open);
}

#[test]
fn vault_rows() {
    assert_eq!(VaultRowKind::Unresolved, row_kind(false, true));
    assert_eq!(VaultRowKind::Current, row_kind(true, true));
    assert_eq!(VaultRowKind::Other, row_kind(true, false));
    assert_eq!(Some("first".to_string()), first_line("first\r\nsecond"));
    assert_eq!(Some("only\r".to_string()), first_line("only\r"));
    assert_eq!(Some(String::new()), first_line("\nx"));
    assert_eq!(None, first_line(""));
    assert_eq!("?", unresolved_status_text(Some("")));
    assert_eq!("oops", unresolved_status_text(Some("oops\nmore")));
    assert_eq!("Not resolved", unresolved_status_text(None));
}

#[test]
fn first_line_agrees_with_lines() {
    for s in ["a\nb", "a\r\nb", "a\r", "\r\n", "abc", "x\n", "é\r\r\nz"] {
        assert_eq!(s.lines().next().map(|l| l.to_string()), first_line(s));
    }
}

#[test]
fn vault_load_messages() {
    assert_eq!(None, load_message("home", LoadOutcome::Loaded("home".to_string())));
    assert_eq!(
        Some("Vault has wrong name (expected home, got work)".to_string()),
        load_message("home", LoadOutcome::Loaded("work".to_string()))
    );
    assert_eq!(
        Some("Unexpected task result: NextItem".to_string()),
        load_message("home", LoadOutcome::Unexpected("NextItem".to_string()))
    );
    assert_eq!(None, load_message("home", LoadOutcome::Failed(TaskError::UserCancelled)));
    assert_eq!(
        Some("no file".to_string()),
        load_message("home", LoadOutcome::Failed(TaskError::Failed("no file".to_string())))
    );
}

#[test]
fn import_summaries() {
    assert_eq!(
        "Import of /pics complete. 2/3 images imported successfully.",
        import_summary("/pics", &[true, false, true])
    );
    assert_eq!("Import of x complete. 0/0 images imported successfully.", import_summary("x", &[]));
}

#[test]
fn item_cache_tracks_its_parameters() {
    let p = |name: &str, t: i64, sorts: &[&str]| ItemCacheParams {
        vault_name: name.to_string(),
        last_updated_ms: t,
        filter: "tag:image".to_string(),
        sorts: sorts.iter().map(|s| s.to_string()).collect(),
    };
    let c = ItemCache::new(p("v", 1, &["path"]), vec!["a.png".to_string(), "b.png".to_string()]);
    assert!(!c.needs_update(&p("v", 1, &["path"])));
    assert!(c.needs_update(&p("w", 1, &["path"])));
    assert!(c.needs_update(&p("v", 2, &["path"])));
    assert!(c.needs_update(&p("v", 1, &["path", "size"])));
    assert!(c.needs_update(&p("v", 1, &["size"])));
    let mut other = p("v", 1, &["path"]);
    other.filter = "tag:video".to_string();
    assert!(c.needs_update(&other));
    assert_eq!(2, c.len_items());
    let asked = vec!["b.png".to_string(), "z.png".to_string(), "a.png".to_string()];
    assert_eq!(vec![0, 2], c.existing_paths(&asked));
    let mut c = c;
    c.replace(p("v", 3, &[]), vec![]);
    assert_eq!(0, c.len_items());
    assert!(c.existing_paths(&asked).is_empty());
}

#[test]
fn executable_search_goes_through_its_states() {
    let mut d = DownloadState::new();
    let mut p = params();
    assert_eq!(ExecutableStatus::Found("1.26".to_string()), d.executable_status(&p));
    assert!(d.open(&mut p, "/tmp/log.txt".to_string()));
    assert_eq!(Some("/tmp/log.txt".to_string()), p.log_file);
    assert_eq!(ExecutableStatus::Detecting, d.executable_status(&p));
    assert!(!d.open(&mut p, "/tmp/other.txt".to_string()));
    assert_eq!(Some("/tmp/log.txt".to_string()), p.log_file);
    d.on_find_result(&mut p, FindOutcome::Cancelled);
    assert_eq!(ExecutableStatus::Found("1.26".to_string()), d.executable_status(&p));
    d.select_gallery_dl(&mut p);
    assert_eq!(None, p.location);
    assert_eq!(ExecutableStatus::Detecting, d.executable_status(&p));
    d.on_find_result(&mut p, FindOutcome::Failed("no such file".to_string()));
    assert_eq!(Some("no such file".to_string()), d.find_error);
    assert_eq!(ExecutableStatus::NotFound, d.executable_status(&p));
    d.select_gallery_dl(&mut p);
    d.on_find_result(
        &mut p,
        FindOutcome::Found { path: "/bin/gdl".to_string(), version: "1.27".to_string() },
    );
    assert_eq!(Some("/bin/gdl".to_string()), p.location);
    assert_eq!(ExecutableStatus::Found("1.27".to_string()), d.executable_status(&p));
    d.select_gallery_dl(&mut p);
    d.on_find_result(&mut p, FindOutcome::Other);
    assert_eq!(ExecutableStatus::NotFound, d.executable_status(&p));
}

#[test]
fn download_click_checks_the_settings() {
    let mut d = DownloadState::new();
    let mut p = params();
    assert!(d.on_download_clicked(&p));
    assert_eq!(None, d.error_message);
    p.json_config = "[1, 2]".to_string();
    assert!(!d.on_download_clicked(&p));
    assert_eq!(Some("Configuration must be a valid JSON object.".to_string()), d.error_message);
    p.json_config = "{}".to_string();
    p.source = GalleryDLSource::CustomURL { url: "not a url".to_string() };
    assert!(!d.on_download_clicked(&p));
    assert_eq!(Some("Please enter a valid URL.".to_string()), d.error_message);
}

#[test]
fn link_offers_the_other_vaults() {
    let names = vec!["a".to_string(), "mine".to_string(), "b".to_string()];
    assert_eq!(vec!["a".to_string(), "b".to_string()], link_choices(&names, "mine"));
    assert!(link_choices(&[], "mine").is_empty());
}

#[test]
fn link_needs_a_chosen_vault() {
    let mut s = LinkVaultState::new();
    assert_eq!(None, s.on_link_clicked());
    assert_eq!(Some("Please select a vault to link.".to_string()), s.error_message);
    s.on_load_result(LoadOutcome::Failed(TaskError::UserCancelled));
    assert_eq!("", s.selected_vault_name);
    s.on_load_result(LoadOutcome::Loaded("other".to_string()));
    assert_eq!("other", s.selected_vault_name);
    assert_eq!(Some("Link with other".to_string()), s.on_link_clicked());
    s.on_load_result(LoadOutcome::Unexpected("Saved".to_string()));
    assert_eq!(Some("Unexpected task result: Saved".to_string()), s.error_message);
    s.on_load_result(LoadOutcome::Failed(TaskError::Failed("bad file".to_string())));
    assert_eq!(Some("bad file".to_string()), s.error_message);
    assert_eq!("other", s.selected_vault_name);
}

#[test]
fn new_vault_needs_a_name() {
    let mut s = NewVaultState::new();
    s.name = " \t".to_string();
    assert_eq!(None, s.on_create_clicked());
    assert_eq!(Some("Please enter a vault name.".to_string()), s.error_message);
    s.opened = true;
    s.name = " photos ".to_string();
    assert_eq!(Some(" photos ".to_string()), s.on_create_clicked());
    assert_eq!("", s.name);
    assert_eq!(None, s.error_message);
    assert!(!s.opened);
}
