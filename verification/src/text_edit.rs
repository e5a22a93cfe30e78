//! Keys and events of the search field: which of them change the text, and
//! how.

use vstd::prelude::*;

verus! {

/// The keys that can change the text of the search field.
#[derive(Debug, Copy, Clone, PartialEq, Eq, Structural)]
pub enum EditKey {
    Backspace,
    Delete,
    H,
    K,
    U,
    W,
    Other,
}

/// The modifier keys held with a key.
#[derive(Debug, Copy, Clone, PartialEq, Eq, Structural)]
pub struct KeyModifiers {
    pub alt: bool,
    pub ctrl: bool,
    pub shift: bool,
}

/// The cursor of the field: a position, or a selection.
#[derive(Debug, Copy, Clone, PartialEq, Eq, Structural)]
pub enum FieldCursor {
    /// A cursor between characters, at this character index.
    At(usize),
    /// A selection of at least one character, with its primary end at this
    /// index.
    Selection(usize),
}

/// How a key changes the text; character positions are those of the field.
#[derive(Debug, Copy, Clone, PartialEq, Eq, Structural)]
pub enum TextChange {
    /// Delete the word before this position.
    DeletePreviousWord(usize),
    /// Delete the word after this position.
    DeleteNextWord(usize),
    /// Delete the characters from the first position to the second.
    DeleteRange(usize, usize),
    /// Delete the selected characters.
    DeleteSelection,
    /// Delete from the cursor to the end of its paragraph.
    DeleteParagraphAfter,
    /// Delete from the start of the cursor's paragraph to the cursor.
    DeleteParagraphBefore,
}

/// What a pressed key does to a text of `text_len` characters, `None`
/// exactly when the text stays as it is: Backspace deletes the character
/// (with Alt or Ctrl, the word) before the cursor, or the selection; Delete
/// (except Shift+Delete on Windows) the character or word after it, or the
/// selection; Ctrl+H the character before the primary end; Ctrl+K and Ctrl+U
/// the rest of the paragraph after and before the cursor (at a paragraph's
/// end or start, the line break beyond it); Ctrl+W the word before the cursor
/// or the selection. A selection is never empty, and a word or paragraph
/// deletion reaches at least one character whenever there is one on its side
/// of the cursor; so with a cursor at the start of the text nothing before
/// it is deleted, and at the end nothing after it.
pub open spec fn key_change(
    key: EditKey,
    mods: KeyModifiers,
    on_windows: bool,
    cursor: FieldCursor,
    text_len: usize,
) -> Option<TextChange> {
    let word = mods.alt || mods.ctrl;
    match key {
        EditKey::Backspace => match cursor {
            FieldCursor::At(c) => if c == 0 {
                None
            } else if word {
                Some(TextChange::DeletePreviousWord(c))
            } else {
                Some(TextChange::DeleteRange((c - 1) as usize, c))
            },
            FieldCursor::Selection(_) => Some(TextChange::DeleteSelection),
        },
        EditKey::Delete => if !mods.shift || !on_windows {
            match cursor {
                FieldCursor::At(c) => if c >= text_len {
                    None
                } else if word {
                    Some(TextChange::DeleteNextWord(c))
                } else {
                    Some(TextChange::DeleteRange(c, (c + 1) as usize))
                },
                FieldCursor::Selection(_) => Some(TextChange::DeleteSelection),
            }
        } else {
            None
        },
        EditKey::H => if mods.ctrl {
            let p = match cursor {
                FieldCursor::At(c) => c,
                FieldCursor::Selection(c) => c,
            };
            if p > 0 {
                Some(TextChange::DeleteRange((p - 1) as usize, p))
            } else {
                None
            }
        } else {
            None
        },
        EditKey::K => if mods.ctrl {
            match cursor {
                FieldCursor::At(c) => if c >= text_len {
                    None
                } else {
                    Some(TextChange::DeleteParagraphAfter)
                },
                FieldCursor::Selection(_) => Some(TextChange::DeleteParagraphAfter),
            }
        } else {
            None
        },
        EditKey::U => if mods.ctrl {
            match cursor {
                FieldCursor::At(c) => if c == 0 {
                    None
                } else {
                    Some(TextChange::DeleteParagraphBefore)
                },
                FieldCursor::Selection(_) => Some(TextChange::DeleteParagraphBefore),
            }
        } else {
            None
        },
        EditKey::W => if mods.ctrl {
            match cursor {
                FieldCursor::At(c) => if c == 0 {
                    None
                } else {
                    Some(TextChange::DeletePreviousWord(c))
                },
                FieldCursor::Selection(_) => Some(TextChange::DeleteSelection),
            }
        } else {
            None
        },
        EditKey::Other => None,
    }
}

/// What a pressed key does to the search field's text of `text_len`
/// characters, with the cursor within the text.
pub fn key_text_change(
    key: EditKey,
    mods: KeyModifiers,
    on_windows: bool,
    cursor: FieldCursor,
    text_len: usize,
) -> (r: Option<TextChange>)
    requires
        cursor matches FieldCursor::At(c) ==> c <= text_len,
    ensures
        r == key_change(key, mods, on_windows, cursor, text_len),
{
    let word = mods.alt || mods.ctrl;
    match key {
        EditKey::Backspace => match cursor {
            FieldCursor::At(c) => if c == 0 {
                None
            } else if word {
                Some(TextChange::DeletePreviousWord(c))
            } else {
                Some(TextChange::DeleteRange(c - 1, c))
            },
            FieldCursor::Selection(_) => Some(TextChange::DeleteSelection),
        },
        EditKey::Delete => if !mods.shift || !on_windows {
            match cursor {
                FieldCursor::At(c) => if c >= text_len {
                    None
                } else if word {
                    Some(TextChange::DeleteNextWord(c))
                } else {
                    Some(TextChange::DeleteRange(c, c + 1))
                },
                FieldCursor::Selection(_) => Some(TextChange::DeleteSelection),
            }
        } else {
            None
        },
        EditKey::H => if mods.ctrl {
            let p = match cursor {
                FieldCursor::At(c) => c,
                FieldCursor::Selection(c) => c,
            };
            if p > 0 {
                Some(TextChange::DeleteRange(p - 1, p))
            } else {
                None
            }
        } else {
            None
        },
        EditKey::K => if mods.ctrl {
            match cursor {
                FieldCursor::At(c) => if c >= text_len {
                    None
                } else {
                    Some(TextChange::DeleteParagraphAfter)
                },
                FieldCursor::Selection(_) => Some(TextChange::DeleteParagraphAfter),
            }
        } else {
            None
        },
        EditKey::U => if mods.ctrl {
            match cursor {
                FieldCursor::At(c) => if c == 0 {
                    None
                } else {
                    Some(TextChange::DeleteParagraphBefore)
                },
                FieldCursor::Selection(_) => Some(TextChange::DeleteParagraphBefore),
            }
        } else {
            None
        },
        EditKey::W => if mods.ctrl {
            match cursor {
                FieldCursor::At(c) => if c == 0 {
                    None
                } else {
                    Some(TextChange::DeletePreviousWord(c))
                },
                FieldCursor::Selection(_) => Some(TextChange::DeleteSelection),
            }
        } else {
            None
        },
        EditKey::Other => None,
    }
}

/// `n` capped at `len`.
pub open spec fn cap(n: int, len: int) -> int {
    if n < len {
        n
    } else {
        len
    }
}

/// The text without its characters from position `start` up to `end`;
/// positions past the end of the text count as its end.
pub open spec fn without_chars(s: Seq<char>, start: int, end: int) -> Seq<char> {
    s.take(cap(start, s.len() as int)) + s.skip(cap(end, s.len() as int))
}

/// Deletes the characters from position `start` up to `end` (a
/// `DeleteRange`, or the character range of a selection), as a text buffer
/// does; positions past the end of the text count as its end. Hands back
/// the cursor position after the deletion.
pub fn delete_char_range(text: &mut String, start: usize, end: usize) -> (cursor: usize)
    requires
        start <= end,
    ensures
        final(text)@ == without_chars(old(text)@, start as int, end as int),
        cursor == cap(start as int, old(text)@.len() as int),
{
    broadcast use vstd::string::group_string_axioms;

    let ghost sv = text@;
    let total = text.as_str().as_bytes().len();
    proof {
        crate::text::lemma_byte_offset_total(sv);
        crate::text::lemma_byte_offset_at_least(sv, sv.len() as int);
    }
    let mut out = String::new();
    let mut count: usize = 0;
    for c in it: text.chars()
        invariant
            it.seq() == sv,
            sv == text@,
            count == it.index(),
            count <= sv.len(),
            sv.len() <= total,
            start <= end,
            out@ == without_chars(sv.take(count as int), start as int, end as int),
    {
        assert(count < sv.len());
        proof {
            let t = sv.take(count + 1);
            assert(t =~= sv.take(count as int).push(c));
            assert(t.take(cap(start as int, t.len() as int)) =~= if start <= count {
                sv.take(count as int).take(cap(start as int, count as int))
            } else {
                t
            });
        }
        if count < start || count >= end {
            crate::fmt::string_push(&mut out, c);
            proof {
                let p = sv.take(count as int);
                let t = sv.take(count + 1);
                if count < start {
                    assert(without_chars(t, start as int, end as int) =~= t);
                    assert(without_chars(p, start as int, end as int) =~= p);
                } else {
                    assert(without_chars(t, start as int, end as int) =~= without_chars(
                        p,
                        start as int,
                        end as int,
                    ).push(c));
                }
            }
        } else {
            proof {
                let p = sv.take(count as int);
                let t = sv.take(count + 1);
                assert(without_chars(t, start as int, end as int) =~= without_chars(
                    p,
                    start as int,
                    end as int,
                ));
            }
        }
        count = count + 1;
    }
    assert(sv.take(count as int) =~= sv);
    let cursor = if start < count { start } else { count };
    *text = out;
    cursor
}

/// Typed or pasted text is inserted unless it is empty or a lone line
/// break (line breaks are the Enter key's).
pub fn inserts_text(t: &str) -> (r: bool)
    ensures
        r == (t@.len() > 0 && t@ != seq!['\n'] && t@ != seq!['\r']),
{
    proof {
        reveal_strlit("\n");
        reveal_strlit("\r");
    }
    let s = t.to_owned();
    let nl = "\n".to_owned();
    let cr = "\r".to_owned();
    assert(nl@ =~= seq!['\n']);
    assert(cr@ =~= seq!['\r']);
    !t.is_empty() && !(s == nl) && !(s == cr)
}

/// A step through the field's edit history.
#[derive(Debug, Copy, Clone, PartialEq, Eq, Structural)]
pub enum HistoryStep {
    Undo,
    Redo,
}

/// The history step of a pressed key, tried in this order: Ctrl+Z undoes
/// (Shift and Alt may be held), Ctrl+Y redoes, and Ctrl+Shift+Z redoes
/// (which Ctrl+Z has already taken).
pub open spec fn history_step_spec(key_y: bool, key_z: bool, mods: KeyModifiers) -> Option<
    HistoryStep,
> {
    if key_z && mods.ctrl {
        Some(HistoryStep::Undo)
    } else if (mods.ctrl && key_y) || (mods.ctrl && mods.shift && key_z) {
        Some(HistoryStep::Redo)
    } else {
        None
    }
}

/// The history step of a pressed key.
pub fn history_step(key_y: bool, key_z: bool, mods: KeyModifiers) -> (r: Option<HistoryStep>)
    ensures
        r == history_step_spec(key_y, key_z, mods),
{
    if key_z && mods.ctrl {
        Some(HistoryStep::Undo)
    } else if (mods.ctrl && key_y) || (mods.ctrl && mods.shift && key_z) {
        Some(HistoryStep::Redo)
    } else {
        None
    }
}

/// Enter without Ctrl ends the input (Shift and Alt may be held).
pub fn ends_input(key_enter: bool, mods: KeyModifiers) -> (r: bool)
    ensures
        r == (key_enter && !mods.ctrl),
{
    key_enter && !mods.ctrl
}

/// A key that the search field reacts to.
#[derive(Debug, Copy, Clone, PartialEq, Eq, Structural)]
pub enum FieldKey {
    Enter,
    Z,
    Y,
    /// A key that may edit the text.
    Edit(EditKey),
}

/// An input event of the search field, as the field sees it.
#[derive(Debug, Clone, PartialEq, Eq)]
pub enum FieldEvent {
    /// An event that the cursor handling takes: it only moves the cursor.
    CursorMotion,
    Copy,
    Cut,
    Paste(String),
    Text(String),
    /// A pressed key with the modifiers held.
    Key(FieldKey, KeyModifiers),
    /// An input method starts composing.
    CompositionStart,
    /// The input method's text so far.
    CompositionUpdate(String),
    /// The input method's final text.
    CompositionEnd(String),
    /// Any other event, which the field ignores.
    Other,
}

/// What the search field does with an event.
#[derive(Debug, Clone, PartialEq, Eq)]
pub enum FieldAction {
    /// Nothing to the text.
    Nothing,
    /// Copy the whole text: there is no selection.
    CopyAll,
    /// Copy the selected text.
    CopySelection,
    /// Move the whole text to the clipboard, leaving the field empty.
    CutAll,
    /// Move the selected text to the clipboard.
    CutSelection,
    /// Replace the selection (or insert at the cursor) with this text.
    Insert(String),
    /// Give up the keyboard focus; no later event of the frame is handled.
    EndInput,
    /// Go back or forward in the edit history.
    History(HistoryStep),
    /// Change the text as a key does.
    Edit(TextChange),
    /// Replace the selection with the input method's text so far (nothing
    /// when it is empty), and remember the cursor.
    ImeUpdate(String),
    /// Replace the selection with the input method's final text.
    ImeCommit(String),
    /// Leave the text, with the cursor at its primary end.
    ImeKeepCursor,
}

/// `s` is a lone line break.
pub open spec fn is_line_break(s: Seq<char>) -> bool {
    s == seq!['\n'] || s == seq!['\r']
}

/// What the field does with `e`, and whether an input method is composing
/// afterwards. `has_ime` tells whether one was composing, `cursor` is the
/// cursor in a text of `text_len` characters, and `ime_same_start` whether
/// the selection starts where it did when the input method last updated.
pub open spec fn event_action_spec(
    e: FieldEvent,
    cursor: FieldCursor,
    text_len: usize,
    on_windows: bool,
    has_ime: bool,
    ime_same_start: bool,
) -> (FieldAction, bool) {
    match e {
        FieldEvent::CursorMotion => (FieldAction::Nothing, has_ime),
        FieldEvent::Copy => (if cursor is Selection {
            FieldAction::CopySelection
        } else {
            FieldAction::CopyAll
        }, has_ime),
        FieldEvent::Cut => (if cursor is Selection {
            FieldAction::CutSelection
        } else {
            FieldAction::CutAll
        }, has_ime),
        FieldEvent::Paste(t) => (if t@.len() == 0 {
            FieldAction::Nothing
        } else {
            FieldAction::Insert(t)
        }, has_ime),
        FieldEvent::Text(t) => (if t@.len() > 0 && !is_line_break(t@) {
            FieldAction::Insert(t)
        } else {
            FieldAction::Nothing
        }, has_ime),
        FieldEvent::Key(k, mods) => (match k {
            FieldKey::Enter => if !mods.ctrl {
                FieldAction::EndInput
            } else {
                FieldAction::Nothing
            },
            FieldKey::Z => match history_step_spec(false, true, mods) {
                Some(h) => FieldAction::History(h),
                None => FieldAction::Nothing,
            },
            FieldKey::Y => match history_step_spec(true, false, mods) {
                Some(h) => FieldAction::History(h),
                None => FieldAction::Nothing,
            },
            FieldKey::Edit(ek) => match key_change(ek, mods, on_windows, cursor, text_len) {
                Some(c) => FieldAction::Edit(c),
                None => FieldAction::Nothing,
            },
        }, has_ime),
        FieldEvent::CompositionStart => (FieldAction::Nothing, true),
        FieldEvent::CompositionUpdate(m) => (if !is_line_break(m@) && has_ime {
            FieldAction::ImeUpdate(m)
        } else {
            FieldAction::Nothing
        }, has_ime),
        FieldEvent::CompositionEnd(p) => if !is_line_break(p@) {
            (if p@.len() > 0 && ime_same_start {
                FieldAction::ImeCommit(p)
            } else {
                FieldAction::ImeKeepCursor
            }, false)
        } else {
            (FieldAction::Nothing, has_ime)
        },
        FieldEvent::Other => (FieldAction::Nothing, has_ime),
    }
}

/// Whether `t` is a lone line break.
fn line_break(t: &String) -> (r: bool)
    ensures
        r == is_line_break(t@),
{
    proof {
        reveal_strlit("\n");
        reveal_strlit("\r");
    }
    let nl = "\n".to_owned();
    let cr = "\r".to_owned();
    assert(nl@ =~= seq!['\n']);
    assert(cr@ =~= seq!['\r']);
    *t == nl || *t == cr
}

/// What the search field does with an input event, and whether an input
/// method is composing afterwards: copying and cutting take the selection
/// (the whole text without one); pasted text and typed text (but a lone line
/// break) replace the selection; Enter without Ctrl ends the input; Ctrl+Z,
/// Ctrl+Y and Ctrl+Shift+Z step through the history; other keys edit as
/// `key_change` says; an input method's updates and final text replace the
/// selection while it composes.
pub fn event_action(
    e: FieldEvent,
    cursor: FieldCursor,
    text_len: usize,
    on_windows: bool,
    has_ime: bool,
    ime_same_start: bool,
) -> (r: (FieldAction, bool))
    requires
        cursor matches FieldCursor::At(c) ==> c <= text_len,
    ensures
        r == event_action_spec(e, cursor, text_len, on_windows, has_ime, ime_same_start),
{
    let selected = match cursor {
        FieldCursor::Selection(_) => true,
        FieldCursor::At(_) => false,
    };
    match e {
        FieldEvent::CursorMotion => (FieldAction::Nothing, has_ime),
        FieldEvent::Copy => (if selected {
            FieldAction::CopySelection
        } else {
            FieldAction::CopyAll
        }, has_ime),
        FieldEvent::Cut => (if selected {
            FieldAction::CutSelection
        } else {
            FieldAction::CutAll
        }, has_ime),
        FieldEvent::Paste(t) => (if t.as_str().is_empty() {
            FieldAction::Nothing
        } else {
            FieldAction::Insert(t)
        }, has_ime),
        FieldEvent::Text(t) => {
            let insert = !t.as_str().is_empty() && !line_break(&t);
            (if insert {
                FieldAction::Insert(t)
            } else {
                FieldAction::Nothing
            }, has_ime)
        },
        FieldEvent::Key(k, mods) => (match k {
            FieldKey::Enter => if ends_input(true, mods) {
                FieldAction::EndInput
            } else {
                FieldAction::Nothing
            },
            FieldKey::Z => match history_step(false, true, mods) {
                Some(h) => FieldAction::History(h),
                None => FieldAction::Nothing,
            },
            FieldKey::Y => match history_step(true, false, mods) {
                Some(h) => FieldAction::History(h),
                None => FieldAction::Nothing,
            },
            FieldKey::Edit(ek) => match key_text_change(ek, mods, on_windows, cursor, text_len) {
                Some(c) => FieldAction::Edit(c),
                None => FieldAction::Nothing,
            },
        }, has_ime),
        FieldEvent::CompositionStart => (FieldAction::Nothing, true),
        FieldEvent::CompositionUpdate(m) => {
            let update = !line_break(&m) && has_ime;
            (if update {
                FieldAction::ImeUpdate(m)
            } else {
                FieldAction::Nothing
            }, has_ime)
        },
        FieldEvent::CompositionEnd(p) => if !line_break(&p) {
            let commit = !p.as_str().is_empty() && ime_same_start;
            (if commit {
                FieldAction::ImeCommit(p)
            } else {
                FieldAction::ImeKeepCursor
            }, false)
        } else {
            (FieldAction::Nothing, has_ime)
        },
        FieldEvent::Other => (FieldAction::Nothing, has_ime),
    }
}

/// The number of events of a frame that the field handles: all of them, or
/// those up to and including the first Enter that ends the input.
pub open spec fn handled_count(events: Seq<FieldEvent>) -> int
    decreases events.len(),
{
    if events.len() == 0 {
        0
    } else if events[0] matches FieldEvent::Key(FieldKey::Enter, mods) && !mods.ctrl {
        1
    } else {
        1 + handled_count(events.drop_first())
    }
}

/// The number of events of a frame that the field handles.
pub fn events_handled(events: &[FieldEvent]) -> (n: usize)
    ensures
        n == handled_count(events@),
{
    let mut i: usize = 0;
    assert(events@.skip(0) =~= events@);
    while i < events.len()
        invariant
            i <= events@.len(),
            handled_count(events@) == i + handled_count(events@.skip(i as int)),
        decreases events@.len() - i,
    {
        assert(events@.skip(i as int).drop_first() =~= events@.skip(i + 1));
        assert(events@.skip(i as int)[0] == events@[i as int]);
        let ends = match &events[i] {
            FieldEvent::Key(FieldKey::Enter, mods) => !mods.ctrl,
            _ => false,
        };
        if ends {
            return i + 1;
        }
        i = i + 1;
    }
    assert(events@.skip(i as int) =~= Seq::<FieldEvent>::empty());
    i
}

} // verus!
