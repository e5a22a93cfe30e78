//! Question dialogs: the buttons a query offers, which one is suggested, and
//! the bookkeeping of a query that is asked once and answered later.

use vstd::prelude::*;

verus! {

/// The set of answers a query offers.
#[derive(Debug, Copy, Clone, PartialEq, Eq, Structural)]
pub enum QueryKind {
    /// A single "Ok" button.
    OkOnly,
    YesNo,
    OkCancel,
    YesNoCancel,
    RetryCancel,
    CancelRetryContinue,
}

impl Default for QueryKind {
    fn default() -> (r: Self)
        ensures
            r == QueryKind::OkOnly,
    {
        QueryKind::OkOnly
    }
}

/// Which of the offered buttons is suggested, counted from the first.
#[derive(Debug, Copy, Clone, PartialEq, Eq, Structural)]
pub enum DefaultButton {
    Button1,
    Button2,
    Button3,
}

impl Default for DefaultButton {
    fn default() -> (r: Self)
        ensures
            r == DefaultButton::Button1,
    {
        DefaultButton::Button1
    }
}

/// An answer to a query.
#[derive(Debug, Copy, Clone, PartialEq, Eq, Structural)]
pub enum QueryResult {
    /// The "Ok" button.
    Okay,
    Yes,
    No,
    Cancel,
    Retry,
    Continue,
}

/// The icon shown beside the message of a query.
#[derive(Debug, Copy, Clone, PartialEq, Eq, Structural)]
pub enum QueryIcon {
    Info,
    Warning,
    Success,
    Error,
}

impl Default for QueryIcon {
    fn default() -> (r: Self)
        ensures
            r == QueryIcon::Info,
    {
        QueryIcon::Info
    }
}

/// The answers of each kind of query, in the order the kind names them.
pub open spec fn buttons_spec(kind: QueryKind) -> Seq<QueryResult> {
    match kind {
        QueryKind::OkOnly => seq![QueryResult::Okay],
        QueryKind::YesNo => seq![QueryResult::Yes, QueryResult::No],
        QueryKind::OkCancel => seq![QueryResult::Okay, QueryResult::Cancel],
        QueryKind::YesNoCancel => seq![QueryResult::Yes, QueryResult::No, QueryResult::Cancel],
        QueryKind::RetryCancel => seq![QueryResult::Retry, QueryResult::Cancel],
        QueryKind::CancelRetryContinue => seq![
            QueryResult::Cancel,
            QueryResult::Retry,
            QueryResult::Continue,
        ],
    }
}

/// Position of the suggested button among the offered ones.
pub open spec fn default_index(b: DefaultButton) -> int {
    match b {
        DefaultButton::Button1 => 0,
        DefaultButton::Button2 => 1,
        DefaultButton::Button3 => 2,
    }
}

/// The label of an answer, the name of its variant.
pub open spec fn result_label(r: QueryResult) -> Seq<char> {
    match r {
        QueryResult::Okay => "Ok"@,
        QueryResult::Yes => "Yes"@,
        QueryResult::No => "No"@,
        QueryResult::Cancel => "Cancel"@,
        QueryResult::Retry => "Retry"@,
        QueryResult::Continue => "Continue"@,
    }
}

impl QueryKind {
    /// The answers this kind of query offers, in order.
    pub fn buttons(&self) -> (r: Vec<QueryResult>)
        ensures
            r@ == buttons_spec(*self),
    {
        let r = match self {
            QueryKind::OkOnly => vec![QueryResult::Okay],
            QueryKind::YesNo => vec![QueryResult::Yes, QueryResult::No],
            QueryKind::OkCancel => vec![QueryResult::Okay, QueryResult::Cancel],
            QueryKind::YesNoCancel => vec![QueryResult::Yes, QueryResult::No, QueryResult::Cancel],
            QueryKind::RetryCancel => vec![QueryResult::Retry, QueryResult::Cancel],
            QueryKind::CancelRetryContinue => vec![
                QueryResult::Cancel,
                QueryResult::Retry,
                QueryResult::Continue,
            ],
        };
        assert(r@ =~= buttons_spec(*self));
        r
    }
}

impl DefaultButton {
    /// Whether the button at position `i` is the suggested one.
    pub fn matches_index(&self, i: usize) -> (r: bool)
        ensures
            r == (i == default_index(*self)),
    {
        match self {
            DefaultButton::Button1 => i == 0,
            DefaultButton::Button2 => i == 1,
            DefaultButton::Button3 => i == 2,
        }
    }
}

impl QueryResult {
    /// The text of the button for this answer.
    pub fn label(&self) -> (s: &'static str)
        ensures
            s@ == result_label(*self),
    {
        match self {
            QueryResult::Okay => "Ok",
            QueryResult::Yes => "Yes",
            QueryResult::No => "No",
            QueryResult::Cancel => "Cancel",
            QueryResult::Retry => "Retry",
            QueryResult::Continue => "Continue",
        }
    }
}

/// How a query looks: its answers, its icon and its suggested answer.
#[derive(Debug, Copy, Clone, PartialEq, Eq, Structural)]
pub struct QueryOptions {
    pub kind: QueryKind,
    pub icon: QueryIcon,
    pub default_button: DefaultButton,
}

impl Default for QueryOptions {
    fn default() -> (r: Self)
        ensures
            r.kind == QueryKind::OkOnly,
            r.icon == QueryIcon::Info,
            r.default_button == DefaultButton::Button1,
    {
        QueryOptions {
            kind: QueryKind::OkOnly,
            icon: QueryIcon::Info,
            default_button: DefaultButton::Button1,
        }
    }
}

/// One button as a query dialog lays it out: its answer and whether it is
/// drawn as the suggested one.
pub open spec fn button_row_spec(options: QueryOptions) -> Seq<(QueryResult, bool)> {
    let b = buttons_spec(options.kind);
    Seq::new(
        b.len(),
        |j: int| (b[b.len() - 1 - j], b.len() - 1 - j == default_index(options.default_button)),
    )
}

/// A question shown to the user, answered with one of the buttons of its kind.
pub struct Query {
    pub id: u64,
    pub title: String,
    pub message: String,
    pub options: QueryOptions,
    pub opened: bool,
}

impl Query {
    /// A query that has not yet been shown.
    pub fn new(id: u64, title: String, message: String, options: QueryOptions) -> (q: Self)
        ensures
            q.id == id,
            q.title@ == title@,
            q.message@ == message@,
            q.options == options,
            !q.opened,
    {
        Query { id, title, message, options, opened: false }
    }

    /// The buttons as the dialog lays them out from left to right: the answers
    /// of the kind in reverse order, each marked when it is the suggested one.
    pub fn button_row(&self) -> (r: Vec<(QueryResult, bool)>)
        ensures
            r@ == button_row_spec(self.options),
    {
        let b = self.options.kind.buttons();
        let n = b.len();
        let mut r: Vec<(QueryResult, bool)> = Vec::new();
        let mut j: usize = 0;
        while j < n
            invariant
                n == b@.len(),
                b@ == buttons_spec(self.options.kind),
                j <= n,
                r@.len() == j,
                forall|t: int|
                    0 <= t < j ==> #[trigger] r@[t] == button_row_spec(self.options)[t],
            decreases n - j,
        {
            let i = n - 1 - j;
            let suggested = self.options.default_button.matches_index(i);
            r.push((b[i], suggested));
            j = j + 1;
        }
        assert(r@ =~= button_row_spec(self.options));
        r
    }

    /// Records that the dialog has been opened.
    pub fn mark_opened(&mut self)
        ensures
            final(self).opened,
            final(self).id == old(self).id,
            final(self).title@ == old(self).title@,
            final(self).message@ == old(self).message@,
            final(self).options == old(self).options,
    {
        self.opened = true;
    }
}

/// Why a task that answers a request gave no result.
#[derive(Debug, Clone, PartialEq, Eq)]
pub enum TaskError {
    /// The user dismissed the request.
    UserCancelled,
    /// The task failed with this message.
    Failed(String),
}

/// A query that a form asks at most once at a time and whose answer it
/// collects later.
pub struct QueryDeclaration {
    pub id: u64,
    pub title: String,
    pub options: QueryOptions,
    pub opened: bool,
    pub error: Option<String>,
}

impl QueryDeclaration {
    /// A declaration that has not been asked.
    pub fn new(id: u64, title: String, options: QueryOptions) -> (d: Self)
        ensures
            d.id == id,
            d.title@ == title@,
            d.options == options,
            !d.opened,
            d.error is None,
    {
        QueryDeclaration { id, title, options, opened: false, error: None }
    }

    /// The query to show with message `msg`, unless one is already open; in
    /// that case nothing is asked again.
    pub fn open(&mut self, msg: String) -> (q: Option<Query>)
        ensures
            final(self).opened,
            final(self).id == old(self).id,
            final(self).title@ == old(self).title@,
            final(self).options == old(self).options,
            final(self).error == old(self).error,
            old(self).opened ==> q is None,
            !old(self).opened ==> (q matches Some(query) && query.id == old(self).id
                && query.title@ == old(self).title@ && query.message@ == msg@ && query.options
                == old(self).options && !query.opened),
    {
        if !self.opened {
            let q = Query::new(self.id, self.title.clone(), msg, self.options);
            self.opened = true;
            Some(q)
        } else {
            None
        }
    }

    /// Collects the outcome of the query, if one has arrived: an answer is
    /// handed back, a cancellation is dropped, and a failure is kept as the
    /// declaration's error. Any outcome allows the query to be asked again.
    pub fn try_take<T>(&mut self, outcome: Option<Result<T, TaskError>>) -> (r: Option<T>)
        ensures
            final(self).id == old(self).id,
            final(self).title@ == old(self).title@,
            final(self).options == old(self).options,
            match outcome {
                None => r is None && final(self).opened == old(self).opened && final(self).error
                    == old(self).error,
                Some(Ok(v)) => r == Some(v) && !final(self).opened && final(self).error
                    == old(self).error,
                Some(Err(TaskError::UserCancelled)) => r is None && !final(self).opened
                    && final(self).error == old(self).error,
                Some(Err(TaskError::Failed(m))) => r is None && !final(self).opened
                    && final(self).error == Some(m),
            },
    {
        match outcome {
            None => None,
            Some(res) => {
                self.opened = false;
                match res {
                    Ok(v) => Some(v),
                    Err(TaskError::UserCancelled) => None,
                    Err(TaskError::Failed(m)) => {
                        self.error = Some(m);
                        None
                    },
                }
            },
        }
    }
}

} // verus!
