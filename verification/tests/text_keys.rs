use riiman::text_edit::{
    event_action, events_handled, FieldAction, FieldEvent, FieldKey,
    delete_char_range, ends_input, history_step, inserts_text, key_text_change, EditKey, FieldCursor, HistoryStep,
    KeyModifiers, TextChange,
};

const NONE: KeyModifiers = KeyModifiers { alt: false, ctrl: false, shift: false };
const CTRL: KeyModifiers = KeyModifiers { alt: false, ctrl: true, shift: false };
const SHIFT: KeyModifiers = KeyModifiers { alt: false, ctrl: false, shift: true };
const CTRL_SHIFT: KeyModifiers = KeyModifiers { alt: false, ctrl: true, shift: true };

#[test]
fn backspace_deletes_backwards() {
    let at = FieldCursor::At(4);
    assert_eq!(Some(TextChange::DeleteRange(3, 4)), key_text_change(EditKey::Backspace, NONE, false, at, 10));
    assert_eq!(Some(TextChange::DeletePreviousWord(4)), key_text_change(EditKey::Backspace, CTRL, false, at, 10));
    assert_eq!(None, key_text_change(EditKey::Backspace, NONE, false, FieldCursor::At(0), 10));
    assert_eq!(
        Some(TextChange::DeleteSelection),
        key_text_change(EditKey::Backspace, NONE, false, FieldCursor::Selection(2), 10)
    );
}

#[test]
fn delete_deletes_forwards() {
    let at = FieldCursor::At(4);
    assert_eq!(Some(TextChange::DeleteRange(4, 5)), key_text_change(EditKey::Delete, NONE, true, at, 10));
    let alt = KeyModifiers { alt: true, ctrl: false, shift: false };
    assert_eq!(Some(TextChange::DeleteNextWord(4)), key_text_change(EditKey::Delete, alt, false, at, 10));
    // Shift+Delete on Windows is left to the clipboard.
    assert_eq!(None, key_text_change(EditKey::Delete, SHIFT, true, at, 10));
    assert_eq!(Some(TextChange::DeleteRange(4, 5)), key_text_change(EditKey::Delete, SHIFT, false, at, 10));
}

#[test]
fn control_letters() {
    let at = FieldCursor::At(2);
    assert_eq!(Some(TextChange::DeleteRange(1, 2)), key_text_change(EditKey::H, CTRL, false, at, 10));
    assert_eq!(None, key_text_change(EditKey::H, CTRL, false, FieldCursor::Selection(0), 10));
    assert_eq!(None, key_text_change(EditKey::H, NONE, false, at, 10));
    assert_eq!(Some(TextChange::DeleteParagraphAfter), key_text_change(EditKey::K, CTRL, false, at, 10));
    assert_eq!(Some(TextChange::DeleteParagraphBefore), key_text_change(EditKey::U, CTRL, false, at, 10));
    assert_eq!(Some(TextChange::DeletePreviousWord(2)), key_text_change(EditKey::W, CTRL, false, at, 10));
    assert_eq!(
        Some(TextChange::DeleteSelection),
        key_text_change(EditKey::W, CTRL, false, FieldCursor::Selection(5), 10)
    );
    assert_eq!(None, key_text_change(EditKey::Other, CTRL, false, at, 10));
}

#[test]
fn typed_text() {
    assert!(inserts_text("a"));
    assert!(inserts_text("\n\n"));
    assert!(!inserts_text(""));
    assert!(!inserts_text("\n"));
    assert!(!inserts_text("\r"));
}

#[test]
fn history_keys() {
    assert_eq!(Some(HistoryStep::Undo), history_step(false, true, CTRL));
    // Ctrl+Z is tried first, so Ctrl+Shift+Z undoes as well.
    assert_eq!(Some(HistoryStep::Undo), history_step(false, true, CTRL_SHIFT));
    assert_eq!(Some(HistoryStep::Redo), history_step(true, false, CTRL));
    assert_eq!(None, history_step(true, true, NONE));
    assert!(ends_input(true, SHIFT));
    assert!(!ends_input(true, CTRL));
    assert!(!ends_input(false, NONE));
}

#[test]
fn deleting_a_character_range() {
    let mut t = "h\u{e9}llo".to_string();
    assert_eq!(1, delete_char_range(&mut t, 1, 2));
    assert_eq!("hllo", t);
    assert_eq!(4, delete_char_range(&mut t, 7, 9));
    assert_eq!("hllo", t);
    assert_eq!(2, delete_char_range(&mut t, 2, 9));
    assert_eq!("hl", t);
    assert_eq!(0, delete_char_range(&mut t, 0, 0));
    assert_eq!("hl", t);
}

#[test]
fn keys_that_would_change_nothing_report_nothing() {
    let alt = KeyModifiers { alt: true, ctrl: false, shift: false };
    let start = FieldCursor::At(0);
    let end = FieldCursor::At(5);
    assert_eq!(None, key_text_change(EditKey::Delete, NONE, false, end, 5));
    assert_eq!(None, key_text_change(EditKey::Delete, alt, false, end, 5));
    assert_eq!(Some(TextChange::DeleteRange(4, 5)), key_text_change(EditKey::Delete, NONE, false, FieldCursor::At(4), 5));
    assert_eq!(None, key_text_change(EditKey::Backspace, alt, false, start, 5));
    assert_eq!(None, key_text_change(EditKey::Backspace, CTRL, false, start, 5));
    assert_eq!(None, key_text_change(EditKey::W, CTRL, false, start, 5));
    assert_eq!(None, key_text_change(EditKey::K, CTRL, false, end, 5));
    assert_eq!(None, key_text_change(EditKey::U, CTRL, false, start, 5));
    assert_eq!(Some(TextChange::DeleteParagraphAfter), key_text_change(EditKey::K, CTRL, false, start, 5));
    assert_eq!(Some(TextChange::DeleteParagraphBefore), key_text_change(EditKey::U, CTRL, false, end, 5));
    assert_eq!(Some(TextChange::DeleteParagraphAfter), key_text_change(EditKey::K, CTRL, false, FieldCursor::Selection(5), 5));
    assert_eq!(None, key_text_change(EditKey::Delete, NONE, false, FieldCursor::At(0), 0));
    // Applying a reported range changes the text.
    let mut t = "hello".to_string();
    if let Some(TextChange::DeleteRange(a, b)) = key_text_change(EditKey::Backspace, NONE, false, end, 5) {
        delete_char_range(&mut t, a, b);
    }
    assert_eq!("hell", t);
}

#[test]
fn events_of_the_search_field() {
    let at = FieldCursor::At(2);
    let sel = FieldCursor::Selection(2);
    assert_eq!((FieldAction::CopyAll, false), event_action(FieldEvent::Copy, at, 5, false, false, false));
    assert_eq!((FieldAction::CutSelection, false), event_action(FieldEvent::Cut, sel, 5, false, false, false));
    assert_eq!((FieldAction::Nothing, false), event_action(FieldEvent::Paste(String::new()), at, 5, false, false, false));
    assert_eq!(
        (FieldAction::Insert("ab".to_string()), false),
        event_action(FieldEvent::Text("ab".to_string()), at, 5, false, false, false)
    );
    assert_eq!((FieldAction::Nothing, false), event_action(FieldEvent::Text("\n".to_string()), at, 5, false, false, false));
    assert_eq!(
        (FieldAction::EndInput, false),
        event_action(FieldEvent::Key(FieldKey::Enter, SHIFT), at, 5, false, false, false)
    );
    assert_eq!(
        (FieldAction::History(HistoryStep::Undo), false),
        event_action(FieldEvent::Key(FieldKey::Z, CTRL), at, 5, false, false, false)
    );
    assert_eq!(
        (FieldAction::History(HistoryStep::Redo), false),
        event_action(FieldEvent::Key(FieldKey::Y, CTRL), at, 5, false, false, false)
    );
    assert_eq!(
        (FieldAction::Edit(TextChange::DeleteRange(1, 2)), false),
        event_action(FieldEvent::Key(FieldKey::Edit(EditKey::Backspace), NONE), at, 5, false, false, false)
    );
    assert_eq!((FieldAction::Nothing, true), event_action(FieldEvent::CompositionStart, at, 5, false, false, false));
    assert_eq!(
        (FieldAction::ImeUpdate("ka".to_string()), true),
        event_action(FieldEvent::CompositionUpdate("ka".to_string()), at, 5, false, true, false)
    );
    assert_eq!(
        (FieldAction::Nothing, false),
        event_action(FieldEvent::CompositionUpdate("ka".to_string()), at, 5, false, false, false)
    );
    assert_eq!(
        (FieldAction::ImeCommit("か".to_string()), false),
        event_action(FieldEvent::CompositionEnd("か".to_string()), at, 5, false, true, true)
    );
    assert_eq!(
        (FieldAction::ImeKeepCursor, false),
        event_action(FieldEvent::CompositionEnd("か".to_string()), at, 5, false, true, false)
    );
}

#[test]
fn enter_ends_the_frame_of_events() {
    let events = vec![
        FieldEvent::Text("a".to_string()),
        FieldEvent::Key(FieldKey::Enter, CTRL),
        FieldEvent::Key(FieldKey::Enter, NONE),
        FieldEvent::Text("b".to_string()),
    ];
    assert_eq!(3, events_handled(&events));
    assert_eq!(1, events_handled(&events[3..]));
    assert_eq!(0, events_handled(&[]));
}
