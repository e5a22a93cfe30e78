//! Keyboard shortcuts that toggle a tag on the current item, and the table
//! in which they are set up.

use vstd::prelude::*;
use crate::item_panel::FieldStore;
use crate::tag::{FieldType, FieldValue};

verus! {

/// What a shortcut does to the current item.
#[derive(Debug, Copy, Clone, PartialEq, Eq, Structural)]
pub enum ShortcutAction {
    /// Nothing.
    Unassigned,
    /// Puts the tag on the item, or takes it off when it is there.
    ToggleTag(u128),
}

/// A shortcut's action, and whether the grid then moves to the next item.
#[derive(Debug, Copy, Clone, PartialEq, Eq, Structural)]
pub struct ShortcutBehaviour {
    pub action: ShortcutAction,
    pub move_next: bool,
}

/// The item's fields after toggling the tag `tag_id`: a tag that is there
/// is taken off; one that is not is put on when its definition is a plain
/// tag (`def_type` is the kind of its definition, if the vault has one).
pub open spec fn toggled(
    fields: Map<u128, FieldValue>,
    tag_id: u128,
    def_type: Option<FieldType>,
) -> Map<u128, FieldValue> {
    if fields.dom().contains(tag_id) {
        fields.remove(tag_id)
    } else if def_type == Some(FieldType::Tag) {
        fields.insert(tag_id, FieldValue::Tag)
    } else {
        fields
    }
}

/// Toggles the tag `tag_id` on an item's fields.
pub fn toggle_tag(fields: &mut FieldStore, tag_id: u128, def_type: Option<FieldType>)
    requires
        old(fields).wf(),
    ensures
        final(fields).wf(),
        final(fields).view() == toggled(old(fields).view(), tag_id, def_type),
{
    if fields.has_field(tag_id) {
        fields.remove_field(tag_id);
    } else if def_type == Some(FieldType::Tag) {
        fields.set_field_value(tag_id, FieldValue::Tag);
    }
}

/// Runs a pressed shortcut on the item's fields; `def_type` is the kind of
/// the definition of the shortcut's tag, if the vault has one. Hands back
/// whether the grid is to move to the next item.
pub fn run_shortcut(fields: &mut FieldStore, behaviour: ShortcutBehaviour, def_type: Option<FieldType>) -> (move_next: bool)
    requires
        old(fields).wf(),
    ensures
        final(fields).wf(),
        move_next == behaviour.move_next,
        match behaviour.action {
            ShortcutAction::Unassigned => final(fields).view() == old(fields).view(),
            ShortcutAction::ToggleTag(id) => final(fields).view() == toggled(
                old(fields).view(),
                id,
                def_type,
            ),
        },
{
    match behaviour.action {
        ShortcutAction::Unassigned => {},
        ShortcutAction::ToggleTag(id) => toggle_tag(fields, id, def_type),
    }
    behaviour.move_next
}

/// A shortcut's action after a frame of its table row: a tag picked in the
/// finder becomes the toggled tag (picking the same tag again changes
/// nothing), and "Clear", shown while a tag is set, unassigns it.
pub open spec fn row_action(action: ShortcutAction, picked: Option<u128>, clear_clicked: bool) -> ShortcutAction {
    let after_pick = match (action, picked) {
        (ShortcutAction::Unassigned, Some(id)) => ShortcutAction::ToggleTag(id),
        (ShortcutAction::ToggleTag(old_id), Some(id)) => if id != old_id {
            ShortcutAction::ToggleTag(id)
        } else {
            action
        },
        _ => action,
    };
    if after_pick != ShortcutAction::Unassigned && clear_clicked {
        ShortcutAction::Unassigned
    } else {
        after_pick
    }
}

/// A shortcut's action after a frame of its table row.
pub fn update_row_action(action: ShortcutAction, picked: Option<u128>, clear_clicked: bool) -> (r: ShortcutAction)
    ensures
        r == row_action(action, picked, clear_clicked),
{
    let after_pick = match (action, picked) {
        (ShortcutAction::Unassigned, Some(id)) => ShortcutAction::ToggleTag(id),
        (ShortcutAction::ToggleTag(old_id), Some(id)) => if id != old_id {
            ShortcutAction::ToggleTag(id)
        } else {
            action
        },
        _ => action,
    };
    let assigned = match after_pick {
        ShortcutAction::Unassigned => false,
        ShortcutAction::ToggleTag(_) => true,
    };
    if assigned && clear_clicked {
        ShortcutAction::Unassigned
    } else {
        after_pick
    }
}

} // verus!
