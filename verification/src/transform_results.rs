//! The table of results of a bulk transformation.

use vstd::prelude::*;

verus! {

/// What a transformation did to one item.
pub enum TransformResult {
    /// The item was copied from the first path to the second.
    CopySuccess { from: String, to: String },
    /// The item was moved from the first path to the second.
    MoveSuccess { from: String, to: String },
    /// The item was transformed where it is.
    InPlaceTransform(String),
    /// The item was removed without being transformed.
    RemovedWithoutTransform(String),
    /// The item was left as it was.
    NoTransform(String),
}

/// The kind of a row of the results table.
#[derive(Debug, Copy, Clone, PartialEq, Eq, Structural)]
pub enum ResultType {
    Move,
    Copy,
    InPlace,
    Skip,
    Delete,
    Error,
}

/// The kind of a result; a failure (`Err`, with its message) is an error.
pub open spec fn result_type_spec(r: Result<TransformResult, String>) -> ResultType {
    match r {
        Ok(TransformResult::CopySuccess { .. }) => ResultType::Copy,
        Ok(TransformResult::MoveSuccess { .. }) => ResultType::Move,
        Ok(TransformResult::InPlaceTransform(_)) => ResultType::InPlace,
        Ok(TransformResult::RemovedWithoutTransform(_)) => ResultType::Delete,
        Ok(TransformResult::NoTransform(_)) => ResultType::Skip,
        Err(_) => ResultType::Error,
    }
}

/// The kind of a result.
pub fn result_type(r: &Result<TransformResult, String>) -> (t: ResultType)
    ensures
        t == result_type_spec(*r),
{
    match r {
        Ok(TransformResult::CopySuccess { .. }) => ResultType::Copy,
        Ok(TransformResult::MoveSuccess { .. }) => ResultType::Move,
        Ok(TransformResult::InPlaceTransform(_)) => ResultType::InPlace,
        Ok(TransformResult::RemovedWithoutTransform(_)) => ResultType::Delete,
        Ok(TransformResult::NoTransform(_)) => ResultType::Skip,
        Err(_) => ResultType::Error,
    }
}

/// The label of a kind, as the first column shows it.
pub open spec fn result_type_label(t: ResultType) -> Seq<char> {
    match t {
        ResultType::Move => "Move"@,
        ResultType::Copy => "Copy"@,
        ResultType::InPlace => "InPlace"@,
        ResultType::Skip => "Skip"@,
        ResultType::Delete => "Delete"@,
        ResultType::Error => "Error"@,
    }
}

impl ResultType {
    /// The label of this kind.
    pub fn label(&self) -> (s: &'static str)
        ensures
            s@ == result_type_label(*self),
    {
        proof {
            reveal_strlit("Move");
            reveal_strlit("Copy");
            reveal_strlit("InPlace");
            reveal_strlit("Skip");
            reveal_strlit("Delete");
            reveal_strlit("Error");
        }
        match self {
            ResultType::Move => "Move",
            ResultType::Copy => "Copy",
            ResultType::InPlace => "InPlace",
            ResultType::Skip => "Skip",
            ResultType::Delete => "Delete",
            ResultType::Error => "Error",
        }
    }
}

/// The results window: its results, and whether it is open.
pub struct TransformResults {
    pub results: Vec<Result<TransformResult, String>>,
    pub is_open: bool,
}

impl TransformResults {
    /// An open window with these results.
    pub fn new(results: Vec<Result<TransformResult, String>>) -> (w: Self)
        ensures
            w.results == results,
            w.is_open,
    {
        TransformResults { results, is_open: true }
    }

    /// The error message behind row `i`, shown when its button is clicked;
    /// `None` for a row that did not fail or does not exist.
    pub fn error_of(&self, i: usize) -> (r: Option<&String>)
        ensures
            i < self.results@.len() ==> match self.results@[i as int] {
                Err(e) => r == Some(&e),
                Ok(_) => r is None,
            },
            i >= self.results@.len() ==> r is None,
    {
        if i < self.results.len() {
            match &self.results[i] {
                Err(e) => Some(e),
                Ok(_) => None,
            }
        } else {
            None
        }
    }

    /// The end of a frame: the window stays open unless its close box or
    /// its "Close" button was used.
    pub fn end_frame(&mut self, still_open: bool, close_clicked: bool)
        ensures
            final(self).is_open == (still_open && !close_clicked),
            final(self).results == old(self).results,
    {
        self.is_open = still_open && !close_clicked;
    }
}

} // verus!
