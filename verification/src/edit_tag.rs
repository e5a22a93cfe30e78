//! The tag editor: which definition is being edited, how list edits change
//! its parents, children and aliases, and what the editor's buttons and
//! shortcuts do.

use vstd::prelude::*;
use vstd::string::StringExecFns;
use crate::forms::{definition_error, is_blank_spec, validate_definition};
use crate::list_edit::ListEditResult;
use crate::message::new_random_id;
use crate::tag::{same_definition, FieldDefinition, FieldType};
use crate::transform::{lemma_texts_push, texts};

verus! {

/// `s` with every occurrence of `x` left out.
pub open spec fn without(s: Seq<u128>, x: u128) -> Seq<u128> {
    s.filter(|y: u128| y != x)
}

/// The test that keeps every text but `a`.
pub open spec fn other_than(a: Seq<char>) -> spec_fn(Seq<char>) -> bool {
    |x: Seq<char>| x != a
}

/// Removes every occurrence of `x` from `v`.
fn remove_all(v: &mut Vec<u128>, x: u128)
    ensures
        final(v)@ == without(old(v)@, x),
{
    let ghost orig = v@;
    let mut out: Vec<u128> = Vec::new();
    let mut i: usize = 0;
    while i < v.len()
        invariant
            v@ == orig,
            i <= orig.len(),
            out@ == without(orig.take(i as int), x),
        decreases orig.len() - i,
    {
        let y = v[i];
        proof {
            reveal_with_fuel(Seq::<_>::filter, 1);
            assert(orig.take(i + 1).drop_last() =~= orig.take(i as int));
        }
        if y != x {
            out.push(y);
        }
        i = i + 1;
    }
    assert(orig.take(i as int) =~= orig);
    *v = out;
}

/// Adds `x` to `v` unless it is there already.
fn add_once(v: &mut Vec<u128>, x: u128)
    ensures
        old(v)@.contains(x) ==> final(v)@ == old(v)@,
        !old(v)@.contains(x) ==> final(v)@ == old(v)@.push(x),
{
    let mut i: usize = 0;
    while i < v.len()
        invariant
            i <= v@.len(),
            forall|j: int| 0 <= j < i ==> v@[j] != x,
        decreases v@.len() - i,
    {
        if v[i] == x {
            return;
        }
        i = i + 1;
    }
    v.push(x);
}

/// A definition as a new one starts, apart from its links: a random id in
/// the form of a version 4 UUID (version nibble 4, variant bits `10`), an
/// empty name, the kind of a plain tag, no colour and no aliases.
pub open spec fn fresh_apart_from_links(d: FieldDefinition) -> bool {
    &&& (d.id >> 76u128) & 0xfu128 == 4u128
    &&& (d.id >> 62u128) & 0x3u128 == 2u128
    &&& d.name@.len() == 0
    &&& d.field_type == FieldType::Tag
    &&& d.colour is None
    &&& d.aliases@.len() == 0
}

/// A definition as a new one starts: fresh, without parents or children.
pub open spec fn fresh_definition(d: FieldDefinition) -> bool {
    &&& fresh_apart_from_links(d)
    &&& d.parent_ids@.len() == 0
    &&& d.child_ids@.len() == 0
}

impl FieldDefinition {
    /// A new tag definition with a fresh random id (a version 4 UUID: its
    /// version nibble is 4 and its variant bits are `10`) and an empty name.
    pub fn new() -> (d: Self)
        ensures
            fresh_definition(d),
    {
        FieldDefinition {
            id: new_random_id(),
            name: String::new(),
            field_type: FieldType::Tag,
            colour: None,
            parent_ids: Vec::new(),
            child_ids: Vec::new(),
            aliases: Vec::new(),
        }
    }

    /// Makes `id` a parent, once.
    pub fn add_parent(&mut self, id: u128)
        ensures
            final(self).parent_ids@ == (if old(self).parent_ids@.contains(id) { old(self).parent_ids@ } else { old(self).parent_ids@.push(id) }),
            final(self).child_ids@ == old(self).child_ids@,
            final(self).id == old(self).id,
            final(self).name@ == old(self).name@,
            final(self).field_type == old(self).field_type,
            final(self).colour == old(self).colour,
            final(self).aliases@ == old(self).aliases@,
    {
        add_once(&mut self.parent_ids, id);
    }

    /// Makes `id` a child, once.
    pub fn add_child(&mut self, id: u128)
        ensures
            final(self).child_ids@ == (if old(self).child_ids@.contains(id) { old(self).child_ids@ } else { old(self).child_ids@.push(id) }),
            final(self).parent_ids@ == old(self).parent_ids@,
            final(self).id == old(self).id,
            final(self).name@ == old(self).name@,
            final(self).field_type == old(self).field_type,
            final(self).colour == old(self).colour,
            final(self).aliases@ == old(self).aliases@,
    {
        add_once(&mut self.child_ids, id);
    }

    /// Removes `id` from the parents.
    pub fn remove_parent(&mut self, id: u128)
        ensures
            final(self).parent_ids@ == without(old(self).parent_ids@, id),
            final(self).child_ids@ == old(self).child_ids@,
            final(self).id == old(self).id,
            final(self).name@ == old(self).name@,
            final(self).field_type == old(self).field_type,
            final(self).colour == old(self).colour,
            final(self).aliases@ == old(self).aliases@,
    {
        remove_all(&mut self.parent_ids, id);
    }

    /// Removes `id` from the children.
    pub fn remove_child(&mut self, id: u128)
        ensures
            final(self).child_ids@ == without(old(self).child_ids@, id),
            final(self).parent_ids@ == old(self).parent_ids@,
            final(self).id == old(self).id,
            final(self).name@ == old(self).name@,
            final(self).field_type == old(self).field_type,
            final(self).colour == old(self).colour,
            final(self).aliases@ == old(self).aliases@,
    {
        remove_all(&mut self.child_ids, id);
    }
}

/// The ids a definition may not take as parent or child: itself, and those
/// already linked, in the order: own id, parents, children.
pub fn exclude_ids(def: &FieldDefinition) -> (r: Vec<u128>)
    ensures
        r@ == seq![def.id] + def.parent_ids@ + def.child_ids@,
{
    let mut r = vec![def.id];
    let mut i: usize = 0;
    while i < def.parent_ids.len()
        invariant
            i <= def.parent_ids@.len(),
            r@ == seq![def.id] + def.parent_ids@.take(i as int),
        decreases def.parent_ids@.len() - i,
    {
        r.push(def.parent_ids[i]);
        assert(def.parent_ids@.take(i + 1) =~= def.parent_ids@.take(i as int).push(def.parent_ids@[i as int]));
        i = i + 1;
    }
    let mut j: usize = 0;
    assert(def.parent_ids@.take(i as int) =~= def.parent_ids@);
    while j < def.child_ids.len()
        invariant
            j <= def.child_ids@.len(),
            r@ == seq![def.id] + def.parent_ids@ + def.child_ids@.take(j as int),
        decreases def.child_ids@.len() - j,
    {
        r.push(def.child_ids[j]);
        assert(def.child_ids@.take(j + 1) =~= def.child_ids@.take(j as int).push(def.child_ids@[j as int]));
        j = j + 1;
    }
    assert(def.child_ids@.take(j as int) =~= def.child_ids@);
    r
}

/// The aliases after one frame of the alias list: the removed alias is left
/// out wherever it occurs, and an added one is appended. `None` when the list
/// did not change.
pub open spec fn edited_aliases(aliases: Seq<Seq<char>>, result: ListEditResult<(), String>) -> Option<Seq<Seq<char>>> {
    match result {
        ListEditResult::Unchanged | ListEditResult::Edit(_, _) => None,
        ListEditResult::Add(a) => Some(aliases.push(a@)),
        ListEditResult::Remove(i) => Some(aliases.filter(other_than(aliases[i as int]))),
    }
}

/// The aliases after one frame of the alias list, or `None` when they did not
/// change.
pub fn edit_aliases(aliases: &Vec<String>, result: ListEditResult<(), String>) -> (r: Option<Vec<String>>)
    requires
        result matches ListEditResult::Remove(i) ==> i < aliases@.len(),
    ensures
        match (r, edited_aliases(texts(aliases@), result)) {
            (Some(v), Some(e)) => texts(v@) == e,
            (None, None) => true,
            _ => false,
        },
{
    let ghost av = texts(aliases@);
    match result {
        ListEditResult::Unchanged | ListEditResult::Edit(_, _) => None,
        ListEditResult::Add(a) => {
            let mut out: Vec<String> = Vec::new();
            let mut i: usize = 0;
            while i < aliases.len()
                invariant
                    i <= aliases@.len(),
                    av == texts(aliases@),
                    texts(out@) == av.take(i as int),
                decreases aliases@.len() - i,
            {
                let ghost before = out@;
                out.push(aliases[i].clone());
                proof {
                    lemma_texts_push(before, aliases@[i as int]);
                    assert(av.take(i + 1) =~= av.take(i as int).push(av[i as int]));
                }
                i = i + 1;
            }
            let ghost before = out@;
            let ghost a_view = a@;
            out.push(a);
            proof {
                lemma_texts_push(before, out@[out@.len() - 1]);
                assert(av.take(i as int) =~= av);
            }
            Some(out)
        },
        ListEditResult::Remove(k) => {
            let removed = aliases[k].clone();
            let mut out: Vec<String> = Vec::new();
            let mut i: usize = 0;
            while i < aliases.len()
                invariant
                    i <= aliases@.len(),
                    k < aliases@.len(),
                    av == texts(aliases@),
                    removed@ == av[k as int],
                    texts(out@) == av.take(i as int).filter(other_than(av[k as int])),
                decreases aliases@.len() - i,
            {
                proof {
                    reveal_with_fuel(Seq::<_>::filter, 1);
                    assert(av.take(i + 1).drop_last() =~= av.take(i as int));
                }
                if aliases[i] != removed {
                    let ghost before = out@;
                    out.push(aliases[i].clone());
                    proof {
                        lemma_texts_push(before, aliases@[i as int]);
                    }
                }
                i = i + 1;
            }
            assert(av.take(i as int) =~= av);
            Some(out)
        },
    }
}

/// A request made with the editor's buttons or shortcuts, carried out at the
/// end of the frame.
#[derive(Debug, Copy, Clone, PartialEq, Eq, Structural)]
pub enum Operation {
    Idle,
    Add,
    Save,
    Close,
    Reset,
}

/// Only containers list children in the editor.
pub fn shows_children(field_type: FieldType) -> (r: bool)
    ensures
        r == (field_type == FieldType::Container),
{
    field_type == FieldType::Container
}

/// The request of a frame: Escape closes, Ctrl+N adds, Ctrl+Z resets and
/// Ctrl+S saves, in that order of precedence; without a shortcut the request
/// made with the buttons stands.
pub fn shortcut_operation(escape: bool, ctrl_n: bool, ctrl_z: bool, ctrl_s: bool, current: Operation) -> (op: Operation)
    ensures
        op == (if escape {
            Operation::Close
        } else if ctrl_n {
            Operation::Add
        } else if ctrl_z {
            Operation::Reset
        } else if ctrl_s {
            Operation::Save
        } else {
            current
        }),
{
    if escape {
        Operation::Close
    } else if ctrl_n {
        Operation::Add
    } else if ctrl_z {
        Operation::Reset
    } else if ctrl_s {
        Operation::Save
    } else {
        current
    }
}

/// The state of the tag editor.
pub struct EditTag {
    pub definition: Option<FieldDefinition>,
    pub error_message: Option<String>,
    pub is_new: bool,
    pub removed_parents: Vec<u128>,
    pub removed_children: Vec<u128>,
    pub selected_tag_ids: Vec<u128>,
    pub opened: bool,
    pub updated: bool,
    pub operation: Operation,
}

/// What saving leaves for the vault to do: store the definition, and unlink
/// it from the parents and children that were removed.
pub struct SavePlan {
    pub store: FieldDefinition,
    pub unlink_parents: Vec<u128>,
    pub unlink_children: Vec<u128>,
}

impl EditTag {
    /// An editor with nothing chosen to edit.
    pub fn select() -> (e: Self)
        ensures
            e.definition is None,
            e.error_message is None,
            !e.is_new,
            e.removed_parents@.len() == 0,
            e.removed_children@.len() == 0,
            e.selected_tag_ids@.len() == 0,
            e.opened,
            !e.updated,
            e.operation == Operation::Idle,
    {
        EditTag {
            definition: None,
            error_message: None,
            is_new: false,
            removed_parents: Vec::new(),
            removed_children: Vec::new(),
            selected_tag_ids: Vec::new(),
            opened: true,
            updated: false,
            operation: Operation::Idle,
        }
    }

    /// Starts editing `definition`: `is_new` tells whether it is not yet in
    /// the vault. Pending unlinks are dropped; a new definition also clears
    /// the selection in the tree.
    pub fn set_definition(&mut self, definition: FieldDefinition, is_new: bool)
        ensures
            final(self).definition == Some(definition),
            final(self).is_new == is_new,
            final(self).removed_parents@.len() == 0,
            final(self).removed_children@.len() == 0,
            final(self).updated,
            is_new ==> final(self).selected_tag_ids@.len() == 0,
            !is_new ==> final(self).selected_tag_ids@ == old(self).selected_tag_ids@,
            final(self).error_message == old(self).error_message,
            final(self).opened == old(self).opened,
            final(self).operation == old(self).operation,
    {
        self.definition = Some(definition);
        self.is_new = is_new;
        self.removed_children = Vec::new();
        self.removed_parents = Vec::new();
        self.updated = true;
        if is_new {
            self.selected_tag_ids = Vec::new();
        }
    }

    /// Starts a new definition.
    pub fn new_definition(&mut self)
        ensures
            final(self).definition matches Some(d) && fresh_definition(d),
            final(self).is_new,
            final(self).updated,
            final(self).selected_tag_ids@.len() == 0,
            final(self).removed_parents@.len() == 0,
            final(self).removed_children@.len() == 0,
            final(self).error_message == old(self).error_message,
            final(self).opened == old(self).opened,
            final(self).operation == old(self).operation,
    {
        self.set_definition(FieldDefinition::new(), true);
    }

    /// Starts a new definition below `parent_id`.
    pub fn new_definition_with_parent(&mut self, parent_id: u128)
        ensures
            final(self).definition matches Some(d) && fresh_apart_from_links(d) && d.parent_ids@
                == seq![parent_id] && d.child_ids@.len() == 0,
            final(self).is_new,
            final(self).updated,
            final(self).selected_tag_ids@.len() == 0,
            final(self).removed_parents@.len() == 0,
            final(self).removed_children@.len() == 0,
            final(self).error_message == old(self).error_message,
            final(self).opened == old(self).opened,
            final(self).operation == old(self).operation,
    {
        let mut def = FieldDefinition::new();
        def.add_parent(parent_id);
        self.set_definition(def, true);
    }

    /// Starts a new definition above `child_id`.
    pub fn new_definition_with_child(&mut self, child_id: u128)
        ensures
            final(self).definition matches Some(d) && fresh_apart_from_links(d) && d.child_ids@
                == seq![child_id] && d.parent_ids@.len() == 0,
            final(self).is_new,
            final(self).updated,
            final(self).selected_tag_ids@.len() == 0,
            final(self).removed_parents@.len() == 0,
            final(self).removed_children@.len() == 0,
            final(self).error_message == old(self).error_message,
            final(self).opened == old(self).opened,
            final(self).operation == old(self).operation,
    {
        let mut def = FieldDefinition::new();
        def.add_child(child_id);
        self.set_definition(def, true);
    }

    /// Starts editing a definition that is in the vault.
    pub fn set_existing_definition(&mut self, definition: FieldDefinition)
        ensures
            final(self).definition == Some(definition),
            !final(self).is_new,
            final(self).updated,
            final(self).selected_tag_ids@ == old(self).selected_tag_ids@,
            final(self).removed_parents@.len() == 0,
            final(self).removed_children@.len() == 0,
            final(self).error_message == old(self).error_message,
            final(self).opened == old(self).opened,
            final(self).operation == old(self).operation,
    {
        self.set_definition(definition, false);
    }

    /// An editor for a new definition.
    pub fn create() -> (e: Self)
        ensures
            e.definition matches Some(d) && fresh_definition(d),
            e.is_new,
            e.error_message is None,
            e.removed_parents@.len() == 0,
            e.removed_children@.len() == 0,
            e.selected_tag_ids@.len() == 0,
            e.opened,
            e.updated,
            e.operation == Operation::Idle,
    {
        let mut e = Self::select();
        e.new_definition();
        e
    }

    /// An editor for `definition`, which is in the vault.
    pub fn edit(definition: FieldDefinition) -> (e: Self)
        ensures
            e.definition == Some(definition),
            !e.is_new,
            e.error_message is None,
            e.removed_parents@.len() == 0,
            e.removed_children@.len() == 0,
            e.selected_tag_ids@.len() == 0,
            e.opened,
            e.updated,
            e.operation == Operation::Idle,
    {
        let mut e = Self::select();
        e.set_existing_definition(definition);
        e
    }

    /// Applies a frame of the parents list: an added id becomes a parent, a
    /// removed one stops being one and is remembered for unlinking.
    pub fn apply_parent_edit(&mut self, parent_ids: &Vec<u128>, result: ListEditResult<(), u128>)
        requires
            result matches ListEditResult::Remove(i) ==> i < parent_ids@.len(),
        ensures
            old(self).definition is None ==> final(self).definition == old(self).definition
                && final(self).removed_parents@ == old(self).removed_parents@,
            old(self).definition matches Some(d) ==> (match result {
                ListEditResult::Add(id) => final(self).definition matches Some(n) && n.parent_ids@ == (if d.parent_ids@.contains(id) { d.parent_ids@ } else { d.parent_ids@.push(id) })
                    && final(self).removed_parents@ == old(self).removed_parents@,
                ListEditResult::Remove(i) => final(self).definition matches Some(n) && n.parent_ids@ == without(d.parent_ids@, parent_ids@[i as int])
                    && final(self).removed_parents@ == old(self).removed_parents@.push(parent_ids@[i as int]),
                _ => final(self).definition == old(self).definition && final(self).removed_parents@ == old(self).removed_parents@,
            }),
            final(self).removed_children@ == old(self).removed_children@,
    {
        if let Some(def) = self.definition.as_mut() {
            match result {
                ListEditResult::Add(id) => def.add_parent(id),
                ListEditResult::Remove(i) => {
                    let id = parent_ids[i];
                    def.remove_parent(id);
                    self.removed_parents.push(id);
                },
                _ => {},
            }
        }
    }

    /// Applies a frame of the children list: an added id becomes a child, a
    /// removed one stops being one and is remembered for unlinking.
    pub fn apply_child_edit(&mut self, child_ids: &Vec<u128>, result: ListEditResult<(), u128>)
        requires
            result matches ListEditResult::Remove(i) ==> i < child_ids@.len(),
        ensures
            old(self).definition is None ==> final(self).definition == old(self).definition
                && final(self).removed_children@ == old(self).removed_children@,
            old(self).definition matches Some(d) ==> (match result {
                ListEditResult::Add(id) => final(self).definition matches Some(n) && n.child_ids@ == (if d.child_ids@.contains(id) { d.child_ids@ } else { d.child_ids@.push(id) })
                    && final(self).removed_children@ == old(self).removed_children@,
                ListEditResult::Remove(i) => final(self).definition matches Some(n) && n.child_ids@ == without(d.child_ids@, child_ids@[i as int])
                    && final(self).removed_children@ == old(self).removed_children@.push(child_ids@[i as int]),
                _ => final(self).definition == old(self).definition && final(self).removed_children@ == old(self).removed_children@,
            }),
            final(self).removed_parents@ == old(self).removed_parents@,
    {
        if let Some(def) = self.definition.as_mut() {
            match result {
                ListEditResult::Add(id) => def.add_child(id),
                ListEditResult::Remove(i) => {
                    let id = child_ids[i];
                    def.remove_child(id);
                    self.removed_children.push(id);
                },
                _ => {},
            }
        }
    }

    /// Saves the definition when it passes the checks: a copy of it to store
    /// and the pending unlinks are handed over, the definition is no longer
    /// new, and the error is cleared. Otherwise the checks' message becomes
    /// the error and nothing is handed over.
    /// `vault_found` and `hierarchy_error` are what the vault says of the
    /// definition.
    pub fn save(&mut self, vault_found: bool, hierarchy_error: Option<&str>) -> (plan: Option<SavePlan>)
        ensures
            plan is Some <==> (old(self).definition matches Some(d) && !is_blank_spec(d.name@) && vault_found && hierarchy_error is None),
            plan is None ==> (final(self).error_message matches Some(m) && Some(m@) == definition_error(
                match old(self).definition {
                    Some(d) => Some(d.name@),
                    None => None,
                },
                vault_found,
                match hierarchy_error {
                    Some(e) => Some(e@),
                    None => None,
                },
            )) && final(self).updated == old(self).updated,
            plan matches Some(p) ==> (old(self).definition matches Some(d) && same_definition(p.store, d)),
            plan matches Some(p) ==> p.unlink_parents@ == old(self).removed_parents@
                && p.unlink_children@ == old(self).removed_children@
                && final(self).removed_parents@.len() == 0 && final(self).removed_children@.len() == 0
                && !final(self).is_new && final(self).updated && final(self).error_message is None,
            plan is None ==> final(self).error_message is Some && final(self).is_new == old(self).is_new
                && final(self).removed_parents@ == old(self).removed_parents@
                && final(self).removed_children@ == old(self).removed_children@,
            final(self).definition == old(self).definition,
    {
        self.error_message = None;
        let name: Option<&str> = match &self.definition {
            Some(d) => Some(d.name.as_str()),
            None => None,
        };
        let store: Option<FieldDefinition> = match &self.definition {
            Some(d) => Some(d.duplicate()),
            None => None,
        };
        match validate_definition(name, vault_found, hierarchy_error) {
            Ok(()) => {
                let mut unlink_parents: Vec<u128> = Vec::new();
                let mut unlink_children: Vec<u128> = Vec::new();
                std::mem::swap(&mut unlink_parents, &mut self.removed_parents);
                std::mem::swap(&mut unlink_children, &mut self.removed_children);
                self.is_new = false;
                self.updated = true;
                match store {
                    Some(store) => Some(SavePlan { store, unlink_parents, unlink_children }),
                    None => None,
                }
            },
            Err(e) => {
                self.error_message = Some(e);
                None
            },
        }
    }

    /// Carries out the request of the frame: Add starts a new definition,
    /// Save saves (with what the vault says of the definition), Close closes
    /// the window, Reset starts over (a new definition, or the vault's
    /// `stored` version of the one edited, when it still has one). The
    /// request is then cleared, and a change flag raised in the frame before
    /// is lowered. Hands back whether the window stays open, and what a save
    /// leaves for the vault to do.
    pub fn end_frame(
        &mut self,
        prev_updated: bool,
        opened: bool,
        vault_found: bool,
        hierarchy_error: Option<&str>,
        stored: Option<FieldDefinition>,
    ) -> (r: (bool, Option<SavePlan>))
        requires
            old(self).operation == Operation::Reset && !old(self).is_new ==> old(self).definition is Some,
        ensures
            final(self).operation == Operation::Idle,
            r.0 == (opened && old(self).operation != Operation::Close),
            old(self).operation != Operation::Save ==> r.1 is None,
            prev_updated ==> !final(self).updated,
            match old(self).operation {
                Operation::Add => final(self).is_new && final(self).selected_tag_ids@.len() == 0
                    && (final(self).definition matches Some(d) && fresh_definition(d)),
                Operation::Save => (r.1 is Some <==> (old(self).definition matches Some(d)
                    && !is_blank_spec(d.name@) && vault_found && hierarchy_error is None))
                    && final(self).definition == old(self).definition
                    && (!prev_updated ==> final(self).updated),
                Operation::Reset => if old(self).is_new {
                    final(self).is_new && (final(self).definition matches Some(d) && fresh_definition(d))
                } else {
                    match stored {
                        Some(def) => final(self).definition == Some(def) && !final(self).is_new,
                        None => final(self).definition == old(self).definition
                            && final(self).is_new == old(self).is_new,
                    }
                },
                _ => final(self).definition == old(self).definition && final(self).is_new
                    == old(self).is_new && (!prev_updated ==> final(self).updated == old(self).updated),
            },
    {
        let op = self.operation;
        let mut open = opened;
        let mut plan: Option<SavePlan> = None;
        match op {
            Operation::Idle => {},
            Operation::Add => {
                self.new_definition();
            },
            Operation::Save => {
                plan = self.save(vault_found, hierarchy_error);
                self.updated = true;
            },
            Operation::Close => {
                open = false;
            },
            Operation::Reset => {
                if self.is_new {
                    self.new_definition();
                } else if let Some(def) = stored {
                    self.set_existing_definition(def);
                }
            },
        }
        self.operation = Operation::Idle;
        if prev_updated && self.updated {
            self.updated = false;
        }
        (open, plan)
    }

    /// "Add new" in the parents list (`as_parent`) or the children list saves
    /// the definition and, when that succeeds, starts a new one with the
    /// saved definition as its child (or parent).
    pub fn add_new_related(&mut self, as_parent: bool, vault_found: bool, hierarchy_error: Option<&str>) -> (plan: Option<SavePlan>)
        ensures
            plan is Some <==> (old(self).definition matches Some(d) && !is_blank_spec(d.name@)
                && vault_found && hierarchy_error is None),
            plan is Some ==> final(self).is_new && (final(self).definition matches Some(n)
                && fresh_apart_from_links(n) && (old(self).definition matches Some(d) && if as_parent {
                    n.child_ids@ == seq![d.id] && n.parent_ids@.len() == 0
                } else {
                    n.parent_ids@ == seq![d.id] && n.child_ids@.len() == 0
                })),
            plan is None ==> final(self).definition == old(self).definition,
    {
        let plan = self.save(vault_found, hierarchy_error);
        if plan.is_some() {
            let id = match &self.definition {
                Some(d) => d.id,
                None => 0,
            };
            if as_parent {
                self.new_definition_with_child(id);
            } else {
                self.new_definition_with_parent(id);
            }
        }
        plan
    }

    /// The tag picked in the side tree that the editor loads: the first
    /// selected tag, when it is not the one being edited or the editor has
    /// just changed.
    pub fn definition_to_load(&self, first_selected: Option<u128>) -> (r: Option<u128>)
        ensures
            r == (if first_selected != (match self.definition {
                Some(d) => Some(d.id),
                None => None::<u128>,
            }) || self.updated {
                first_selected
            } else {
                None
            }),
    {
        let current = match &self.definition {
            Some(d) => Some(d.id),
            None => None,
        };
        if first_selected != current || self.updated {
            first_selected
        } else {
            None
        }
    }

    /// The label of the save button: "Create" for a new definition.
    pub fn save_label(&self) -> (s: &'static str)
        ensures
            s@ == (if self.is_new { "Create"@ } else { "Save"@ }),
    {
        proof {
            reveal_strlit("Create");
            reveal_strlit("Save");
        }
        if self.is_new {
            "Create"
        } else {
            "Save"
        }
    }

    /// A definition that is in the vault can be deleted.
    pub fn can_delete(&self) -> (r: bool)
        ensures
            r == (!self.is_new && self.definition is Some),
    {
        !self.is_new && self.definition.is_some()
    }
}

} // verus!
