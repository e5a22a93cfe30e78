//! Editable lists: the outcome of one frame of a list editor, and the
//! add-row state it keeps between frames.

use vstd::prelude::*;

verus! {

/// What the user did to a list in one frame.
#[derive(Debug, Clone, PartialEq, Eq)]
pub enum ListEditResult<EditT, CreateT> {
    /// Nothing changed.
    Unchanged,
    /// A new entry was created.
    Add(CreateT),
    /// The entry at this position was removed.
    Remove(usize),
    /// The entry at this position was edited into this value.
    Edit(usize, EditT),
}

/// Whether the add row of a list editor is open.
pub struct ListEditState {
    pub is_adding: bool,
}

impl ListEditState {
    /// The add row is closed.
    pub fn new() -> (s: Self)
        ensures
            !s.is_adding,
    {
        ListEditState { is_adding: false }
    }

    /// The create button opens the add row, with an empty form.
    pub fn start_adding(&mut self)
        ensures
            final(self).is_adding,
    {
        self.is_adding = true;
    }

    /// Cancelling or finishing the add row closes it.
    pub fn stop_adding(&mut self)
        ensures
            !final(self).is_adding,
    {
        self.is_adding = false;
    }
}

/// What the user did to one row of a list in a frame: clicked its remove
/// button, and edited its value into a new one.
pub struct RowInput<EditT> {
    pub remove_clicked: bool,
    pub edited: Option<EditT>,
}

/// The outcome of the rows of a frame: the last row that changed decides,
/// and in a row an edit wins over a removal.
pub open spec fn rows_result<EditT, CreateT>(rows: Seq<RowInput<EditT>>) -> ListEditResult<EditT, CreateT>
    decreases rows.len(),
{
    if rows.len() == 0 {
        ListEditResult::Unchanged
    } else {
        let i = (rows.len() - 1) as usize;
        match rows.last().edited {
            Some(v) => ListEditResult::Edit(i, v),
            None => if rows.last().remove_clicked {
                ListEditResult::Remove(i)
            } else {
                rows_result(rows.drop_last())
            },
        }
    }
}

impl ListEditState {
    /// One frame of a list editor: the rows' outcome, unless the open add
    /// row created an entry, which then wins. The add row closes when
    /// cancelled or when it created an entry; the create button (re)opens it
    /// afresh.
    pub fn frame<EditT, CreateT>(
        &mut self,
        rows: Vec<RowInput<EditT>>,
        cancel_clicked: bool,
        created: Option<CreateT>,
        create_clicked: bool,
    ) -> (r: ListEditResult<EditT, CreateT>)
        ensures
            r == (if old(self).is_adding && created is Some {
                ListEditResult::Add(created->0)
            } else {
                rows_result(rows@)
            }),
            final(self).is_adding == (create_clicked || (old(self).is_adding && !cancel_clicked
                && created is None)),
    {
        let ghost all = rows@;
        let _n = rows.len();
        let mut result: ListEditResult<EditT, CreateT> = ListEditResult::Unchanged;
        let mut i: usize = 0;
        for row in it: rows
            invariant
                it.seq() == all,
                i == it.index(),
                i <= all.len(),
                all.len() <= usize::MAX,
                result == rows_result::<EditT, CreateT>(all.take(i as int)),
        {
            assert(i < all.len());
            proof {
                assert(all.take(i + 1).drop_last() =~= all.take(i as int));
                assert(all.take(i + 1).last() == row);
            }
            if row.remove_clicked {
                result = ListEditResult::Remove(i);
            }
            if let Some(v) = row.edited {
                result = ListEditResult::Edit(i, v);
            }
            i = i + 1;
        }
        assert(all.take(i as int) =~= all);
        if self.is_adding {
            if cancel_clicked {
                self.is_adding = false;
            }
            if let Some(c) = created {
                result = ListEditResult::Add(c);
                self.is_adding = false;
            }
        }
        if create_clicked {
            self.is_adding = true;
        }
        result
    }
}

} // verus!
