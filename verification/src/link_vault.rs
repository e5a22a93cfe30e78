//! The dialog that links a vault with another one: the vaults it offers,
//! what a vault loaded from it changes, and what its "Link" button starts.

use vstd::prelude::*;
use vstd::string::StringExecFns;
use crate::forms::validate_link_vault;
use crate::query::TaskError;
use crate::transform::texts;
use crate::vaults::LoadOutcome;

verus! {

/// The names of `names` other than `own`, in order.
pub open spec fn other_names(names: Seq<Seq<char>>, own: Seq<char>) -> Seq<Seq<char>>
    decreases names.len(),
{
    if names.len() == 0 {
        Seq::empty()
    } else if names.last() != own {
        other_names(names.drop_last(), own).push(names.last())
    } else {
        other_names(names.drop_last(), own)
    }
}

/// The vaults the dialog offers to link with: every known vault but the one
/// being linked.
pub fn link_choices(vault_names: &[String], own_name: &str) -> (r: Vec<String>)
    ensures
        texts(r@) == other_names(texts(vault_names@), own_name@),
{
    let own = own_name.to_owned();
    let mut r: Vec<String> = Vec::new();
    let mut i: usize = 0;
    while i < vault_names.len()
        invariant
            i <= vault_names@.len(),
            own@ == own_name@,
            texts(r@) == other_names(texts(vault_names@).take(i as int), own_name@),
        decreases vault_names@.len() - i,
    {
        let ghost before = r@;
        assert(texts(vault_names@).take(i + 1).drop_last() =~= texts(vault_names@).take(i as int));
        if !(vault_names[i] == own) {
            r.push(vault_names[i].clone());
            assert(texts(r@) =~= texts(before).push(vault_names@[i as int]@));
        }
        i = i + 1;
    }
    assert(texts(vault_names@).take(i as int) =~= texts(vault_names@));
    r
}

/// What the dialog remembers between frames.
pub struct LinkVaultState {
    /// The vault chosen to link with; empty when none is.
    pub selected_vault_name: String,
    /// Why the last load or link failed.
    pub error_message: Option<String>,
    /// The dialog was opened.
    pub opened: bool,
}

/// The text of an optional message.
pub open spec fn message_text(m: Option<String>) -> Option<Seq<char>> {
    match m {
        Some(s) => Some(s@),
        None => None,
    }
}

impl LinkVaultState {
    /// No vault chosen, nothing to report.
    pub fn new() -> (s: Self)
        ensures
            s.selected_vault_name@.len() == 0,
            s.error_message is None,
            !s.opened,
    {
        LinkVaultState { selected_vault_name: String::new(), error_message: None, opened: false }
    }

    /// A vault loaded from the dialog ended: a loaded vault becomes the
    /// choice; another result or a failure is reported; a cancellation
    /// changes nothing.
    pub fn on_load_result(&mut self, outcome: LoadOutcome)
        ensures
            final(self).opened == old(self).opened,
            match outcome {
                LoadOutcome::Loaded(name) => final(self).selected_vault_name@ == name@
                    && message_text(final(self).error_message) == message_text(old(self).error_message),
                LoadOutcome::Unexpected(desc) => final(self).selected_vault_name@ == old(
                    self,
                ).selected_vault_name@ && message_text(final(self).error_message) == Some(
                    "Unexpected task result: "@ + desc@,
                ),
                LoadOutcome::Failed(TaskError::UserCancelled) => final(self).selected_vault_name@
                    == old(self).selected_vault_name@ && message_text(final(self).error_message)
                    == message_text(old(self).error_message),
                LoadOutcome::Failed(TaskError::Failed(e)) => final(self).selected_vault_name@
                    == old(self).selected_vault_name@ && message_text(final(self).error_message)
                    == Some(e@),
            },
    {
        match outcome {
            LoadOutcome::Loaded(name) => {
                self.selected_vault_name = name;
            },
            LoadOutcome::Unexpected(desc) => {
                let mut m = String::from_str("Unexpected task result: ");
                m.append(desc.as_str());
                self.error_message = Some(m);
            },
            LoadOutcome::Failed(TaskError::UserCancelled) => {},
            LoadOutcome::Failed(TaskError::Failed(e)) => {
                self.error_message = Some(e);
            },
        }
    }

    /// The "Link" button: without a chosen vault the dialog says so and
    /// starts nothing; otherwise it hands back the name of the linking task.
    pub fn on_link_clicked(&mut self) -> (task: Option<String>)
        ensures
            final(self).selected_vault_name@ == old(self).selected_vault_name@,
            final(self).opened == old(self).opened,
            old(self).selected_vault_name@.len() == 0 ==> task is None && message_text(
                final(self).error_message,
            ) == Some("Please select a vault to link."@),
            old(self).selected_vault_name@.len() > 0 ==> (task matches Some(t) && t@ == "Link with "@
                + old(self).selected_vault_name@) && message_text(final(self).error_message)
                == message_text(old(self).error_message),
    {
        match validate_link_vault(self.selected_vault_name.as_str()) {
            Err(e) => {
                self.error_message = Some(e);
                None
            },
            Ok(()) => {
                let mut t = String::from_str("Link with ");
                t.append(self.selected_vault_name.as_str());
                Some(t)
            },
        }
    }
}

} // verus!
