//! The dialog that confirms deleting a tag definition.

use vstd::prelude::*;
use vstd::string::StringExecFns;
use crate::fmt::{decimal, format_u64};
use crate::tag::FieldDefinition;

verus! {

/// The line that says how many items carry the tag, when any do:
/// "There is currently 1 item with this tag." or
/// "There are currently 3 items with this tag."
pub open spec fn tagged_items_text(n: nat) -> Option<Seq<char>> {
    if n == 0 {
        None
    } else {
        Some(
            "There "@ + (if n == 1 { "is"@ } else { "are"@ }) + " currently "@ + decimal(n)
                + " item"@ + (if n == 1 { ""@ } else { "s"@ }) + " with this tag."@,
        )
    }
}

/// The line that says how many items carry the tag, when any do.
pub fn tagged_items_message(n: usize) -> (r: Option<String>)
    ensures
        match (r, tagged_items_text(n as nat)) {
            (Some(a), Some(b)) => a@ == b,
            (None, None) => true,
            _ => false,
        },
{
    proof {
        reveal_strlit("There ");
        reveal_strlit("is");
        reveal_strlit("are");
        reveal_strlit(" currently ");
        reveal_strlit(" item");
        reveal_strlit("");
        reveal_strlit("s");
        reveal_strlit(" with this tag.");
    }
    if n == 0 {
        return None;
    }
    let mut m = "There ".to_owned();
    m.append(if n == 1 { "is" } else { "are" });
    m.append(" currently ");
    let count = format_u64(n as u64);
    m.append(count.as_str());
    m.append(" item");
    m.append(if n == 1 { "" } else { "s" });
    m.append(" with this tag.");
    Some(m)
}

/// The dialog that confirms deleting a definition: the definition, the
/// number of items that carry it once counted, and whether the dialog was
/// opened.
pub struct DeleteDefinition {
    pub definition: FieldDefinition,
    pub n_items: Option<usize>,
    pub opened: bool,
}

impl DeleteDefinition {
    /// A dialog for `definition`, not yet opened, with nothing counted.
    pub fn new(definition: FieldDefinition) -> (d: Self)
        ensures
            d.definition == definition,
            d.n_items is None,
            !d.opened,
    {
        DeleteDefinition { definition, n_items: None, opened: false }
    }

    /// The number of tagged items: counted once (`counted` is the count the
    /// vault gives now) and kept from then on.
    pub fn item_count(&mut self, counted: usize) -> (n: usize)
        ensures
            n == match old(self).n_items {
                Some(k) => k,
                None => counted,
            },
            final(self).n_items == Some(n),
            final(self).definition == old(self).definition,
            final(self).opened == old(self).opened,
    {
        match self.n_items {
            Some(k) => k,
            None => {
                self.n_items = Some(counted);
                counted
            },
        }
    }

    /// The dialog opens the first time it is shown; hands back whether to
    /// open it now.
    pub fn mark_opened(&mut self) -> (open_now: bool)
        ensures
            open_now == !old(self).opened,
            final(self).opened,
            final(self).n_items == old(self).n_items,
            final(self).definition == old(self).definition,
    {
        let open_now = !self.opened;
        self.opened = true;
        open_now
    }
}

} // verus!
