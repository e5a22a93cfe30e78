use riiman::list_edit::RowInput;
use riiman::edit_tag::{
    edit_aliases, exclude_ids, shortcut_operation, shows_children, EditTag, Operation,
};
use riiman::fmt::{format_i64, format_u64};
use riiman::item_panel::{
    apply_list_edit, created_field, edited_value, items_label, values_equal, CreateState,
    FieldStore, PanelState, ViewInput,
};
use riiman::list_edit::{ListEditResult, ListEditState};
use riiman::shortcuts::{run_shortcut, toggle_tag, update_row_action, ShortcutAction, ShortcutBehaviour};
use riiman::tag::{
    hanger, label_rounding, relative_text, value_text, value_text_at, FieldDefinition, FieldType,
    FieldValue, Hanger, Tag, ValueText,
};
use riiman::value_edit::{
    boolean_start, colour_start, datetime_begin, datetime_begin_now, datetime_edit_value,
    datetime_value_with, fixed_value, int_edit_value, item_ref_text, parse_i64, text_edit_value,
    time_text, DateTimeEdit,
};

fn def(id: u128, name: &str, t: FieldType) -> FieldDefinition {
    FieldDefinition {
        id,
        name: name.to_string(),
        field_type: t,
        colour: None,
        parent_ids: vec![],
        child_ids: vec![],
        aliases: vec![],
    }
}

fn has(store: &FieldStore, id: u128) -> bool {
    store.has_field(id)
}

#[test]
fn field_store_sets_and_removes() {
    let mut s = FieldStore::new();
    assert_eq!(0, s.len());
    s.set_field_value(1, FieldValue::Int(5));
    s.set_field_value(2, FieldValue::Tag);
    s.set_field_value(1, FieldValue::Int(6));
    assert_eq!(2, s.len());
    assert!(has(&s, 1) && has(&s, 2));
    s.remove_field(1);
    assert!(!has(&s, 1));
    s.remove_field(1);
    assert_eq!(1, s.len());
    s.clear();
    assert_eq!(0, s.len());
}

#[test]
fn list_edits_change_the_fields() {
    let mut s = FieldStore::from_fields(vec![(1, FieldValue::Tag), (2, FieldValue::Int(3))]);
    let rows = [1u128, 2];
    apply_list_edit(&mut s, &rows, ListEditResult::Remove(0));
    assert!(!has(&s, 1));
    apply_list_edit(&mut s, &rows, ListEditResult::Edit(1, FieldValue::Int(4)));
    assert_eq!(1, s.len());
    apply_list_edit(&mut s, &rows, ListEditResult::Add((9, FieldValue::Tag)));
    assert!(has(&s, 9));
    apply_list_edit(&mut s, &rows, ListEditResult::Unchanged);
    assert_eq!(2, s.len());
}

#[test]
fn created_fields() {
    assert_eq!(
        Some((3, FieldValue::Tag)),
        created_field(3, FieldType::Tag, Some(FieldValue::Int(1)), false)
    );
    assert_eq!(
        Some((3, FieldValue::Int(1))),
        created_field(3, FieldType::Int, Some(FieldValue::Int(1)), true)
    );
    assert_eq!(None, created_field(3, FieldType::Int, Some(FieldValue::Int(1)), false));
    assert_eq!(None, created_field(3, FieldType::Str, Some(FieldValue::Int(1)), true));
    assert_eq!(None, created_field(3, FieldType::Int, None, true));
}

#[test]
fn edited_values_must_differ_and_fit() {
    assert_eq!(
        Some(FieldValue::Int(2)),
        edited_value(FieldType::Int, &FieldValue::Int(1), Some(FieldValue::Int(2)))
    );
    assert_eq!(None, edited_value(FieldType::Int, &FieldValue::Int(1), Some(FieldValue::Int(1))));
    assert_eq!(None, edited_value(FieldType::Str, &FieldValue::Int(1), Some(FieldValue::Int(2))));
    assert_eq!(None, edited_value(FieldType::Int, &FieldValue::Int(1), None));
}

#[test]
fn value_equality() {
    let nan1 = f64::NAN.to_bits();
    let nan2 = (-f64::NAN).to_bits();
    assert!(values_equal(&FieldValue::Float(nan1), &FieldValue::Float(nan2)));
    assert!(values_equal(&FieldValue::Float(0.0f64.to_bits()), &FieldValue::Float((-0.0f64).to_bits())));
    assert!(!values_equal(&FieldValue::Float(1.0f64.to_bits()), &FieldValue::Float(2.0f64.to_bits())));
    assert!(!values_equal(&FieldValue::Float(nan1), &FieldValue::Float(1.0f64.to_bits())));
    assert!(values_equal(
        &FieldValue::List(vec![FieldValue::Str("a".to_string()), FieldValue::Boolean(true)]),
        &FieldValue::List(vec![FieldValue::Str("a".to_string()), FieldValue::Boolean(true)])
    ));
    assert!(!values_equal(
        &FieldValue::List(vec![FieldValue::Int(1)]),
        &FieldValue::List(vec![FieldValue::Int(1), FieldValue::Int(2)])
    ));
    assert!(values_equal(
        &FieldValue::Dictionary(vec![("k".to_string(), FieldValue::Colour(1, 2, 3))]),
        &FieldValue::Dictionary(vec![("k".to_string(), FieldValue::Colour(1, 2, 3))])
    ));
    assert!(!values_equal(
        &FieldValue::Dictionary(vec![("k".to_string(), FieldValue::Tag)]),
        &FieldValue::Dictionary(vec![("j".to_string(), FieldValue::Tag)])
    ));
    assert!(!values_equal(&FieldValue::Tag, &FieldValue::Container));
    assert!(values_equal(
        &FieldValue::ItemRef("v".to_string(), "p".to_string()),
        &FieldValue::ItemRef("v".to_string(), "p".to_string())
    ));
}

#[test]
fn panel_modes() {
    let mut p = PanelState::new();
    let none = ViewInput { edit_clicked: false, edit_key: false, add_clicked: false, add_key: false };
    p.view_buttons(&none, vec![]);
    assert!(!p.is_editing && !p.is_adding);
    let edit = ViewInput { edit_clicked: false, edit_key: true, add_clicked: false, add_key: false };
    p.view_buttons(&edit, vec![(1, FieldValue::Tag), (2, FieldValue::Int(7))]);
    assert!(p.is_editing);
    assert_eq!(2, p.field_store.len());
    assert!(!p.end_editing(false));
    assert!(!p.is_editing);
    let add = ViewInput { edit_clicked: false, edit_key: false, add_clicked: false, add_key: true };
    p.view_buttons(&add, vec![]);
    assert!(p.is_adding);
    assert!(p.quick_create_state.focused);
    // Keys only act while the panel only views.
    p.view_buttons(&edit, vec![]);
    assert!(!p.is_editing);
    assert_eq!(None, p.finish_add_row(None));
    assert!(p.is_adding);
    assert_eq!(Some((4, FieldValue::Tag)), p.finish_add_row(Some((4, FieldValue::Tag))));
    assert!(!p.is_adding);
    p.view_buttons(&add, vec![]);
    p.quick_create_state.cancelled = true;
    p.finish_add_row(None);
    assert!(!p.is_adding);
    let c = CreateState::new();
    assert!(c.tag_id.is_none() && !c.cancelled);
}

#[test]
fn item_count_labels() {
    assert_eq!("0 items", items_label(0));
    assert_eq!("1 item", items_label(1));
    assert_eq!("25 items", items_label(25));
}

#[test]
fn shortcuts_toggle_tags() {
    let mut s = FieldStore::new();
    toggle_tag(&mut s, 5, Some(FieldType::Tag));
    assert!(has(&s, 5));
    toggle_tag(&mut s, 5, Some(FieldType::Tag));
    assert!(!has(&s, 5));
    toggle_tag(&mut s, 6, Some(FieldType::Int));
    assert!(!has(&s, 6));
    toggle_tag(&mut s, 6, None);
    assert!(!has(&s, 6));
    let b = ShortcutBehaviour { action: ShortcutAction::ToggleTag(8), move_next: true };
    assert!(run_shortcut(&mut s, b, Some(FieldType::Tag)));
    assert!(has(&s, 8));
    let none = ShortcutBehaviour { action: ShortcutAction::Unassigned, move_next: false };
    assert!(!run_shortcut(&mut s, none, Some(FieldType::Tag)));
    assert_eq!(1, s.len());
}

#[test]
fn shortcut_rows() {
    assert_eq!(ShortcutAction::ToggleTag(3), update_row_action(ShortcutAction::Unassigned, Some(3), false));
    assert_eq!(ShortcutAction::ToggleTag(4), update_row_action(ShortcutAction::ToggleTag(3), Some(4), false));
    assert_eq!(ShortcutAction::ToggleTag(3), update_row_action(ShortcutAction::ToggleTag(3), Some(3), false));
    assert_eq!(ShortcutAction::Unassigned, update_row_action(ShortcutAction::ToggleTag(3), None, true));
    assert_eq!(ShortcutAction::Unassigned, update_row_action(ShortcutAction::Unassigned, None, true));
    assert_eq!(ShortcutAction::Unassigned, update_row_action(ShortcutAction::Unassigned, Some(2), true));
}

#[test]
fn integer_parsing_agrees_with_std() {
    for s in [
        "0", "42", "-42", "+7", "", "-", "+", " 1", "1 ", "1_000", "9223372036854775807",
        "9223372036854775808", "-9223372036854775808", "-9223372036854775809", "007",
        "99999999999999999999999", "1a", "--1", "+-1", "١",
    ] {
        assert_eq!(s.parse::<i64>().ok(), parse_i64(s), "{s:?}");
    }
    assert_eq!(Some(FieldValue::Int(-3)), int_edit_value("-3"));
    assert_eq!(None, int_edit_value("three"));
}

#[test]
fn value_editors() {
    assert_eq!(FieldValue::Str("x y".to_string()), text_edit_value("x y"));
    assert_eq!("v:a/b", item_ref_text("v", "a/b"));
    assert!(boolean_start(&Some(FieldValue::Boolean(true))));
    assert!(!boolean_start(&Some(FieldValue::Int(1))));
    assert!(!boolean_start(&None));
    assert_eq!((1, 2, 3), colour_start(&Some(FieldValue::Colour(1, 2, 3))));
    assert_eq!((0, 0, 0), colour_start(&None));
    assert_eq!(Some(FieldValue::Tag), fixed_value(FieldType::Tag));
    assert_eq!(Some(FieldValue::Container), fixed_value(FieldType::Container));
    assert_eq!(None, fixed_value(FieldType::Int));
}

#[test]
fn decimal_text() {
    assert_eq!("0", format_u64(0));
    assert_eq!("18446744073709551615", format_u64(u64::MAX));
    assert_eq!("-9223372036854775808", format_i64(i64::MIN));
    assert_eq!("-5", format_i64(-5));
    assert_eq!("120", format_i64(120));
}

#[test]
fn tag_widget_parts() {
    let d = def(1, "cat", FieldType::Int);
    let v = FieldValue::Int(-12);
    let t = Tag::new(&d).small(true).value(&v).selected(true);
    assert!(t.use_small && t.selected);
    assert_eq!(Some(&v), t.value);
    assert!(matches!(hanger(FieldType::Tag), Hanger::Ring));
    assert!(matches!(hanger(FieldType::Container), Hanger::NoHanger));
    assert!(matches!(hanger(FieldType::Int), Hanger::Symbol { text: "#", r: 0, g: 127, b: 255 }));
    assert_eq!(ValueText::Text("-12".to_string()), value_text(&v));
    assert_eq!(ValueText::Hidden, value_text(&FieldValue::Tag));
    assert_eq!(ValueText::Text("\u{2714}".to_string()), value_text(&FieldValue::Boolean(true)));
    assert_eq!(ValueText::Text("v:p".to_string()), value_text(&FieldValue::ItemRef("v".to_string(), "p".to_string())));
    match value_text(&FieldValue::DateTime(100)) {
        ValueText::Text(t) => assert!(t.ends_with(" years ago"), "{t}"),
        other => panic!("a moment shows {other:?}"),
    }
    assert_eq!((true, true), label_rounding(FieldType::Container, false));
    assert_eq!((false, false), label_rounding(FieldType::Int, true));
    assert_eq!(FieldType::Int, v.get_type());
}

#[test]
fn editor_lists_and_ids() {
    let mut d = def(1, "cat", FieldType::Tag);
    d.add_parent(2);
    d.add_parent(2);
    d.add_child(3);
    assert_eq!(vec![2], d.parent_ids);
    assert_eq!(vec![1, 2, 3], exclude_ids(&d));
    d.remove_parent(2);
    assert!(d.parent_ids.is_empty());
    let aliases = vec!["a".to_string(), "b".to_string(), "a".to_string()];
    assert_eq!(Some(vec!["b".to_string()]), edit_aliases(&aliases, ListEditResult::Remove(0)));
    assert_eq!(None, edit_aliases(&aliases, ListEditResult::Unchanged));
    let mut l = ListEditState::new();
    l.start_adding();
    assert!(l.is_adding);
    l.stop_adding();
    assert!(!l.is_adding);
}

#[test]
fn editor_shortcuts_take_precedence() {
    assert_eq!(Operation::Close, shortcut_operation(true, true, true, true, Operation::Idle));
    assert_eq!(Operation::Add, shortcut_operation(false, true, true, true, Operation::Idle));
    assert_eq!(Operation::Reset, shortcut_operation(false, false, true, true, Operation::Idle));
    assert_eq!(Operation::Save, shortcut_operation(false, false, false, true, Operation::Idle));
    assert_eq!(Operation::Add, shortcut_operation(false, false, false, false, Operation::Add));
}

#[test]
fn editor_saves_and_unlinks() {
    let mut e = EditTag::edit(def(1, "cat", FieldType::Tag));
    e.apply_parent_edit(&vec![], ListEditResult::Add(5));
    e.apply_parent_edit(&vec![5], ListEditResult::Remove(0));
    assert_eq!(vec![5], e.removed_parents);
    e.operation = Operation::Save;
    let (open, plan) = e.end_frame(false, true, true, None, None);
    assert!(open);
    let plan = plan.unwrap();
    assert_eq!(vec![5], plan.unlink_parents);
    assert_eq!(1, plan.store.id);
    assert_eq!("cat", plan.store.name);
    assert!(plan.store.parent_ids.is_empty());
    assert!(e.removed_parents.is_empty());
    assert_eq!(Operation::Idle, e.operation);
    // A blank name is refused.
    e.definition.as_mut().unwrap().name = " ".to_string();
    e.updated = false;
    assert!(e.save(true, None).is_none());
    assert_eq!(Some("Name must not be empty".to_string()), e.error_message);
    assert!(!e.updated);
    e.definition.as_mut().unwrap().name = "cat".to_string();
    assert!(e.save(true, Some("loop")).is_none());
    assert_eq!(Some("Hierarchy error: loop".to_string()), e.error_message);
    // Close and add.
    e.operation = Operation::Close;
    assert!(!e.end_frame(false, true, true, None, None).0);
    e.operation = Operation::Add;
    e.end_frame(false, true, true, None, None);
    assert!(e.is_new);
    assert_eq!("", e.definition.as_ref().unwrap().name);
    // Reset of an existing definition takes the stored version.
    let mut e = EditTag::edit(def(1, "cat", FieldType::Tag));
    e.definition.as_mut().unwrap().name = "dog".to_string();
    e.operation = Operation::Reset;
    e.end_frame(false, true, true, None, Some(def(1, "cat", FieldType::Tag)));
    assert_eq!("cat", e.definition.as_ref().unwrap().name);
}

#[test]
fn new_definitions_get_random_ids() {
    let a = FieldDefinition::new();
    let b = FieldDefinition::new();
    assert_ne!(a.id, b.id);
    let mut e = EditTag::create();
    assert!(e.is_new);
    e.new_definition_with_parent(4);
    assert_eq!(vec![4], e.definition.as_ref().unwrap().parent_ids);
}

#[test]
fn list_editor_frames() {
    let row = |remove: bool, edited: Option<i32>| RowInput { remove_clicked: remove, edited };
    let mut st = ListEditState::new();
    let r: ListEditResult<i32, u8> =
        st.frame(vec![row(false, None), row(true, None), row(false, None)], false, None, false);
    assert_eq!(ListEditResult::Remove(1), r);
    let r: ListEditResult<i32, u8> =
        st.frame(vec![row(true, Some(5)), row(false, None)], false, None, false);
    assert_eq!(ListEditResult::Edit(0, 5), r);
    let r: ListEditResult<i32, u8> = st.frame(vec![row(true, None), row(true, None)], false, None, false);
    assert_eq!(ListEditResult::Remove(1), r);
    let r: ListEditResult<i32, u8> = st.frame(vec![], false, Some(9), false);
    assert_eq!(ListEditResult::Unchanged, r);
    // The create button opens the add row; an entry made there wins.
    let r: ListEditResult<i32, u8> = st.frame(vec![], false, None, true);
    assert_eq!(ListEditResult::Unchanged, r);
    assert!(st.is_adding);
    let r: ListEditResult<i32, u8> = st.frame(vec![row(true, None)], false, Some(9), false);
    assert_eq!(ListEditResult::Add(9), r);
    assert!(!st.is_adding);
    st.frame::<i32, u8>(vec![], false, None, true);
    st.frame::<i32, u8>(vec![], true, None, false);
    assert!(!st.is_adding);
}

#[test]
fn editor_related_definitions() {
    let mut e = EditTag::edit(def(7, "animal", FieldType::Container));
    assert!(e.can_delete());
    assert_eq!("Save", e.save_label());
    let plan = e.add_new_related(false, true, None);
    assert!(plan.is_some());
    assert!(e.is_new);
    assert_eq!("Create", e.save_label());
    assert!(!e.can_delete());
    assert_eq!(vec![7], e.definition.as_ref().unwrap().parent_ids);
    // The new definition has no name, so saving it again fails.
    assert!(e.add_new_related(true, true, None).is_none());
    assert!(shows_children(FieldType::Container));
    assert!(!shows_children(FieldType::Tag));
}

#[test]
fn side_tree_picks() {
    let mut e = EditTag::edit(def(7, "animal", FieldType::Tag));
    assert_eq!(Some(7), e.definition_to_load(Some(7)));
    e.updated = false;
    assert_eq!(None, e.definition_to_load(Some(7)));
    assert_eq!(Some(8), e.definition_to_load(Some(8)));
    assert_eq!(None, e.definition_to_load(None));
}

#[test]
fn time_of_day_is_written_with_two_digit_fields() {
    assert_eq!("00:00:00", time_text(0));
    assert_eq!("01:02:03", time_text(3723));
    assert_eq!("23:59:59", time_text(86399));
}

#[test]
fn datetime_editor_starts_from_the_field_or_now() {
    let mut typed = String::new();
    let e = datetime_begin(&Some(FieldValue::DateTime(86400 * 3 + 3723)), 0, &mut typed);
    assert_eq!(DateTimeEdit { day: 3, time_of_day: 3723 }, e);
    assert_eq!("01:02:03", typed);
    let mut kept = "12:00:00".to_string();
    let e = datetime_begin(&None, -1, &mut kept);
    assert_eq!(DateTimeEdit { day: -1, time_of_day: 86399 }, e);
    assert_eq!("12:00:00", kept);
    let mut typed = String::new();
    let e = datetime_begin_now(&Some(FieldValue::DateTime(60)), &mut typed);
    assert_eq!(DateTimeEdit { day: 0, time_of_day: 60 }, e);
    assert_eq!("00:01:00", typed);
}

#[test]
fn datetime_editor_reads_the_typed_time() {
    assert_eq!(FieldValue::DateTime(86400 + 3723), datetime_edit_value(1, "01:02:03", 5));
    assert_eq!(FieldValue::DateTime(86400 + 5), datetime_edit_value(1, "not a time", 5));
    assert_eq!(FieldValue::DateTime(86400 + 5), datetime_edit_value(1, "24:00:00", 5));
    assert_eq!(FieldValue::DateTime(-86400 + 7), datetime_value_with(-1, Some(7), 0));
    assert_eq!(FieldValue::DateTime(9), datetime_value_with(0, None, 9));
}

#[test]
fn new_definitions_get_version_4_ids() {
    let a = FieldDefinition::new();
    let b = FieldDefinition::new();
    assert_eq!(4, (a.id >> 76) & 0xf);
    assert_eq!(2, (a.id >> 62) & 0x3);
    assert_ne!(a.id, b.id);
    assert!(a.name.is_empty());
}

#[test]
fn moments_are_written_relative_to_now() {
    assert_eq!("in a few seconds", relative_text(100, 100_000));
    assert_eq!("in a few seconds", relative_text(100, 100_999));
    assert_eq!("a few seconds ago", relative_text(100, 101_000));
    assert_eq!("2 minutes ago", relative_text(0, 120_000));
    assert_eq!("in 3 hours", relative_text(3 * 3600, 0));
    assert_eq!("a day ago", relative_text(0, 30 * 3600 * 1000));
    assert_eq!(
        ValueText::Text("in 10 minutes".to_string()),
        value_text_at(&FieldValue::DateTime(600), 0)
    );
    assert_eq!(ValueText::Text("-12".to_string()), value_text_at(&FieldValue::Int(-12), 0));
}

#[test]
fn new_editors_start_with_a_fresh_definition() {
    let e = EditTag::create();
    let d = e.definition.as_ref().unwrap();
    assert_eq!(4, (d.id >> 76) & 0xf);
    assert_eq!(2, (d.id >> 62) & 0x3);
    assert!(d.name.is_empty() && d.parent_ids.is_empty() && d.child_ids.is_empty());
    assert!(d.aliases.is_empty());
    assert_eq!(FieldType::Tag, d.field_type);
    assert_eq!(None, d.colour);
    assert!(e.is_new && e.opened && e.updated);
    assert_eq!(None, e.error_message);
    assert!(e.removed_parents.is_empty() && e.removed_children.is_empty());
    assert!(e.selected_tag_ids.is_empty());
    assert_eq!(Operation::Idle, e.operation);
    let mut e = EditTag::edit(def(7, "dog", FieldType::Int));
    assert!(!e.is_new && e.opened && e.updated);
    assert_eq!(Operation::Idle, e.operation);
    e.new_definition_with_parent(7);
    let d = e.definition.as_ref().unwrap();
    assert_eq!(vec![7], d.parent_ids);
    assert_eq!(FieldType::Tag, d.field_type);
    assert!(d.name.is_empty() && d.aliases.is_empty());
}
