//! Settings of a bulk path transformation, the checks made before it runs,
//! the counts of paths that would collide, the question asked before they
//! do, the summary the dialog shows, and when it lists its items again.

use vstd::prelude::*;
use vstd::string::StringExecFns;
use crate::fmt::{decimal, format_u64, push_decimal};
use crate::query::{DefaultButton, Query, QueryIcon, QueryKind, QueryOptions, QueryResult};

verus! {

/// Which items a transformation works on.
#[derive(Debug, Copy, Clone, PartialEq, Eq, Structural)]
pub enum SourceKind {
    /// The items selected in the grid.
    Selection,
    /// The items that pass the current filter.
    Filtered,
    /// All items of the vault.
    All,
}

/// Where transformed items go.
#[derive(Debug, Copy, Clone, PartialEq, Eq, Structural)]
pub enum DestinationKind {
    SameVault,
    OtherVault,
    Directory,
    Archive,
}

/// What happens when the destination already holds an item or archive.
#[derive(Debug, Copy, Clone, PartialEq, Eq, Structural)]
pub enum DestinationExistingBehaviour {
    Skip,
    Overwrite,
    Rename,
    Remove,
}

/// The items a transformation reads and whether it keeps them.
#[derive(Debug, Clone, PartialEq, Eq)]
pub struct TransformSource {
    pub kind: SourceKind,
    pub delete_source: bool,
}

/// Where a transformation writes.
#[derive(Debug, Clone, PartialEq, Eq)]
pub struct TransformDestination {
    pub kind: DestinationKind,
    pub other_vault_name: String,
    pub directory_path: String,
    pub archive_path: String,
    pub use_subdirectory: bool,
    pub vault_subdirectory: String,
    pub item_existing_behaviour: DestinationExistingBehaviour,
    pub archive_existing_behaviour: DestinationExistingBehaviour,
    pub preserve_directory_structure: bool,
}

/// Source and destination of a bulk transformation.
#[derive(Debug, Clone, PartialEq, Eq)]
pub struct TransformBulkParams {
    pub source: TransformSource,
    pub destination: TransformDestination,
}

/// The name of a behaviour, as the dialog shows it.
pub open spec fn behaviour_label(b: DestinationExistingBehaviour) -> Seq<char> {
    match b {
        DestinationExistingBehaviour::Skip => "Skip"@,
        DestinationExistingBehaviour::Overwrite => "Overwrite"@,
        DestinationExistingBehaviour::Rename => "Rename"@,
        DestinationExistingBehaviour::Remove => "Remove"@,
    }
}

impl DestinationExistingBehaviour {
    /// The name of this behaviour, as the dialog shows it.
    pub fn label(&self) -> (s: &'static str)
        ensures
            s@ == behaviour_label(*self),
    {
        match self {
            DestinationExistingBehaviour::Skip => "Skip",
            DestinationExistingBehaviour::Overwrite => "Overwrite",
            DestinationExistingBehaviour::Rename => "Rename",
            DestinationExistingBehaviour::Remove => "Remove",
        }
    }
}

/// The message that refuses a transformation with these settings, or `None`
/// when it may run. `other_vault_found` tells whether the named destination
/// vault is known.
pub open spec fn transform_error(p: TransformBulkParams, other_vault_found: bool) -> Option<Seq<char>> {
    let s = p.source;
    let d = p.destination;
    if d.kind == DestinationKind::OtherVault && d.other_vault_name@.len() == 0 {
        Some("Name of destination vault is required."@)
    } else if d.kind == DestinationKind::OtherVault && !other_vault_found {
        Some("Chosen destination vault was not found."@)
    } else if d.kind == DestinationKind::Directory && d.directory_path@.len() == 0 {
        Some("Name of destination directory is required."@)
    } else if d.kind == DestinationKind::Archive && d.archive_path@.len() == 0 {
        Some("Name of destination archive is required."@)
    } else if d.kind == DestinationKind::Archive {
        Some("Archive destinations are not yet supported."@)
    } else if d.use_subdirectory && d.vault_subdirectory@.len() == 0 {
        Some("Name of vault destination subdirectory is required."@)
    } else if !s.delete_source && d.item_existing_behaviour == DestinationExistingBehaviour::Remove {
        Some("Behaviour when item already exists cannot be 'Remove' when copying items."@)
    } else {
        None
    }
}

impl TransformBulkParams {
    /// Checks the settings before the transformation runs.
    pub fn validate(&self, other_vault_found: bool) -> (r: Result<(), &'static str>)
        ensures
            r is Ok <==> transform_error(*self, other_vault_found) is None,
            r matches Err(m) ==> transform_error(*self, other_vault_found) == Some(m@),
    {
        let s = &self.source;
        let d = &self.destination;
        if d.kind == DestinationKind::OtherVault && d.other_vault_name.as_str().is_empty() {
            return Err("Name of destination vault is required.");
        }
        if d.kind == DestinationKind::OtherVault && !other_vault_found {
            return Err("Chosen destination vault was not found.");
        }
        if d.kind == DestinationKind::Directory && d.directory_path.as_str().is_empty() {
            return Err("Name of destination directory is required.");
        }
        if d.kind == DestinationKind::Archive && d.archive_path.as_str().is_empty() {
            return Err("Name of destination archive is required.");
        }
        if d.kind == DestinationKind::Archive {
            return Err("Archive destinations are not yet supported.");
        }
        if d.use_subdirectory && d.vault_subdirectory.as_str().is_empty() {
            return Err("Name of vault destination subdirectory is required.");
        }
        if !s.delete_source && d.item_existing_behaviour == DestinationExistingBehaviour::Remove {
            return Err("Behaviour when item already exists cannot be 'Remove' when copying items.");
        }
        Ok(())
    }
}

/// Number of entries of `s` that repeat an earlier entry.
pub open spec fn duplicate_count(s: Seq<Seq<char>>) -> nat
    decreases s.len(),
{
    if s.len() == 0 {
        0
    } else {
        duplicate_count(s.drop_last()) + if s.drop_last().contains(s.last()) { 1nat } else { 0nat }
    }
}

/// The text of each string.
pub open spec fn texts(s: Seq<String>) -> Seq<Seq<char>> {
    s.map_values(|x: String| x@)
}

/// The texts after a push are the texts before, followed by the new text.
pub proof fn lemma_texts_push(s: Seq<String>, a: String)
    ensures
        texts(s.push(a)) == texts(s).push(a@),
{
    assert(texts(s.push(a)) =~= texts(s).push(a@));
}

/// Whether `needle` is one of `hay`, compared by text.
fn contains_text(hay: &[String], end: usize, needle: &String) -> (r: bool)
    requires
        end <= hay@.len(),
    ensures
        r == texts(hay@.subrange(0, end as int)).contains(needle@),
{
    let mut i: usize = 0;
    while i < end
        invariant
            i <= end <= hay@.len(),
            forall|j: int| 0 <= j < i ==> hay@[j]@ != needle@,
        decreases end - i,
    {
        if hay[i] == *needle {
            assert(texts(hay@.subrange(0, end as int))[i as int] == needle@);
            return true;
        }
        i = i + 1;
    }
    proof {
        if texts(hay@.subrange(0, end as int)).contains(needle@) {
            let j = choose|j: int| 0 <= j < end && texts(hay@.subrange(0, end as int))[j] == needle@;
            assert(hay@[j]@ == needle@);
        }
    }
    false
}

/// Number of transformed paths that repeat an earlier one.
pub fn count_duplicates(paths: &[String]) -> (n: usize)
    ensures
        n == duplicate_count(texts(paths@)),
{
    let mut n: usize = 0;
    let mut i: usize = 0;
    assert(texts(paths@).subrange(0, 0) =~= Seq::<Seq<char>>::empty());
    while i < paths.len()
        invariant
            i <= paths@.len(),
            n <= i,
            n == duplicate_count(texts(paths@).subrange(0, i as int)),
        decreases paths@.len() - i,
    {
        let dup = contains_text(paths, i, &paths[i]);
        proof {
            let t = texts(paths@).subrange(0, i + 1);
            assert(t.drop_last() =~= texts(paths@).subrange(0, i as int));
            assert(texts(paths@.subrange(0, i as int)) =~= texts(paths@).subrange(0, i as int));
            assert(t.last() == paths@[i as int]@);
        }
        if dup {
            n = n + 1;
        }
        i = i + 1;
    }
    assert(texts(paths@).subrange(0, i as int) =~= texts(paths@));
    n
}

/// Whether the transformed path at position `i` collides with a path that
/// already exists at the destination; in the same vault an item whose path
/// does not change is no collision.
pub open spec fn is_conflict(
    new_paths: Seq<Seq<char>>,
    current_paths: Seq<Option<Seq<char>>>,
    existing: Seq<Seq<char>>,
    same_vault: bool,
    i: int,
) -> bool {
    &&& existing.contains(new_paths[i])
    &&& (same_vault ==> current_paths[i] != Some(new_paths[i]))
}

/// Number of positions below `n` that collide.
pub open spec fn conflict_count(
    new_paths: Seq<Seq<char>>,
    current_paths: Seq<Option<Seq<char>>>,
    existing: Seq<Seq<char>>,
    same_vault: bool,
    n: int,
) -> nat
    decreases n,
{
    if n <= 0 {
        0
    } else {
        conflict_count(new_paths, current_paths, existing, same_vault, n - 1) + if is_conflict(
            new_paths,
            current_paths,
            existing,
            same_vault,
            n - 1,
        ) {
            1nat
        } else {
            0nat
        }
    }
}

/// The text of each optional string.
pub open spec fn opt_texts(s: Seq<Option<String>>) -> Seq<Option<Seq<char>>> {
    s.map_values(|x: Option<String>| match x { Some(t) => Some(t@), None => None })
}

/// Number of transformed paths that collide with existing paths:
/// `current_paths[i]` is the present path of the item whose transformed path
/// is `new_paths[i]` (`None` when the item is gone), `existing` the paths at
/// the destination, and `same_vault` whether the destination is the vault the
/// items come from.
pub fn count_conflicts(
    new_paths: &[String],
    current_paths: &[Option<String>],
    existing: &[String],
    same_vault: bool,
) -> (n: usize)
    requires
        current_paths@.len() == new_paths@.len(),
    ensures
        n == conflict_count(texts(new_paths@), opt_texts(current_paths@), texts(existing@), same_vault, new_paths@.len() as int),
{
    let ghost np = texts(new_paths@);
    let ghost cp = opt_texts(current_paths@);
    let ghost ex = texts(existing@);
    let mut n: usize = 0;
    let mut i: usize = 0;
    while i < new_paths.len()
        invariant
            i <= new_paths@.len(),
            current_paths@.len() == new_paths@.len(),
            np == texts(new_paths@),
            cp == opt_texts(current_paths@),
            ex == texts(existing@),
            n <= i,
            n == conflict_count(np, cp, ex, same_vault, i as int),
        decreases new_paths@.len() - i,
    {
        let p = &new_paths[i];
        let collides = contains_text(existing, existing.len(), p);
        assert(existing@.subrange(0, existing@.len() as int) =~= existing@);
        let unchanged = match &current_paths[i] {
            Some(c) => *c == *p,
            None => false,
        };
        assert(unchanged == (cp[i as int] == Some(np[i as int])));
        if collides && !(same_vault && unchanged) {
            n = n + 1;
        }
        i = i + 1;
    }
    n
}

/// What the transform button leads to.
#[derive(Debug, Clone, PartialEq, Eq)]
pub enum TransformAction {
    /// The settings are refused with this message.
    ShowError(String),
    /// Paths would collide: ask the user, with this message, whether to go on.
    AskConfirm(String),
    /// Run the transformation and close the dialog.
    Perform,
}

/// The question asked before a transformation whose paths collide.
pub open spec fn confirm_text(
    n_duplicates: nat,
    n_conflicts: nat,
    behaviour: DestinationExistingBehaviour,
) -> Seq<char> {
    (if n_duplicates > 0 {
        "There will be "@ + decimal(n_duplicates) + " items with the same transformed path.\n"@
    } else {
        Seq::empty()
    }) + (if n_conflicts > 0 {
        "There will be "@ + decimal(n_conflicts)
            + " items with transformed paths that are the same as existing items.\n"@
    } else {
        Seq::empty()
    }) + "\nCurrent duplicate behaviour: "@ + behaviour_label(behaviour) + "\n\nContinue?"@
}

/// The question asked before a transformation whose paths collide.
pub fn confirm_message(
    n_duplicates: usize,
    n_conflicts: usize,
    behaviour: DestinationExistingBehaviour,
) -> (s: String)
    ensures
        s@ == confirm_text(n_duplicates as nat, n_conflicts as nat, behaviour),
{
    let mut s = String::new();
    if n_duplicates > 0 {
        s.append("There will be ");
        push_decimal(&mut s, n_duplicates as u64);
        s.append(" items with the same transformed path.\n");
    }
    let ghost first = s@;
    if n_conflicts > 0 {
        s.append("There will be ");
        push_decimal(&mut s, n_conflicts as u64);
        s.append(" items with transformed paths that are the same as existing items.\n");
    }
    let ghost second = s@;
    s.append("\nCurrent duplicate behaviour: ");
    s.append(behaviour.label());
    s.append("\n\nContinue?");
    assert(s@ =~= confirm_text(n_duplicates as nat, n_conflicts as nat, behaviour));
    s
}

/// Decides what the transform button does: refuse invalid settings, ask
/// before paths collide, and otherwise run.
pub fn on_transform_clicked(
    params: &TransformBulkParams,
    other_vault_found: bool,
    n_duplicates: usize,
    n_conflicts: usize,
) -> (a: TransformAction)
    ensures
        match transform_error(*params, other_vault_found) {
            Some(m) => a matches TransformAction::ShowError(e) && e@ == m,
            None => if n_duplicates > 0 || n_conflicts > 0 {
                a matches TransformAction::AskConfirm(q) && q@ == confirm_text(
                    n_duplicates as nat,
                    n_conflicts as nat,
                    params.destination.item_existing_behaviour,
                )
            } else {
                a is Perform
            },
        },
{
    match params.validate(other_vault_found) {
        Err(e) => TransformAction::ShowError(String::from_str(e)),
        Ok(()) => {
            if n_duplicates > 0 || n_conflicts > 0 {
                TransformAction::AskConfirm(
                    confirm_message(
                        n_duplicates,
                        n_conflicts,
                        params.destination.item_existing_behaviour,
                    ),
                )
            } else {
                TransformAction::Perform
            }
        },
    }
}

/// How the question before a colliding transformation is asked: "Yes" and
/// "No", with a warning icon, "No" being the default.
pub fn confirm_options() -> (o: QueryOptions)
    ensures
        o == (QueryOptions {
            kind: QueryKind::YesNo,
            icon: QueryIcon::Warning,
            default_button: DefaultButton::Button2,
        }),
{
    QueryOptions { kind: QueryKind::YesNo, icon: QueryIcon::Warning, default_button: DefaultButton::Button2 }
}

/// The key under which the dialog files the question before a colliding
/// transformation; the question's id derives from the dialog's id and this
/// key, and its answer is collected under that id.
pub const CONFIRM_REQUEST: &'static str = "query_confirm";

/// The question asked before a colliding transformation, under the id
/// `query_id` (the dialog's id with `CONFIRM_REQUEST`): titled "Confirm",
/// with the counts and the duplicate behaviour as its text, and "Yes" and
/// "No" as its answers.
pub fn confirm_query(
    query_id: u64,
    n_duplicates: usize,
    n_conflicts: usize,
    behaviour: DestinationExistingBehaviour,
) -> (q: Query)
    ensures
        q.id == query_id,
        q.title@ == "Confirm"@,
        q.message@ == confirm_text(n_duplicates as nat, n_conflicts as nat, behaviour),
        q.options == (QueryOptions {
            kind: QueryKind::YesNo,
            icon: QueryIcon::Warning,
            default_button: DefaultButton::Button2,
        }),
        !q.opened,
{
    Query::new(
        query_id,
        String::from_str("Confirm"),
        confirm_message(n_duplicates, n_conflicts, behaviour),
        confirm_options(),
    )
}

/// What the answer to the question before a colliding transformation leads
/// to.
#[derive(Debug, Clone, PartialEq, Eq)]
pub enum ConfirmOutcome {
    /// Nothing: the user said no or dismissed the question.
    Ignored,
    /// The settings, checked again, are refused with this message.
    ShowError(String),
    /// Run the transformation and close the dialog.
    Perform,
}

/// The answer to the question before a colliding transformation: "Yes"
/// checks the settings again and runs the transformation when they pass;
/// any other answer changes nothing.
pub fn on_confirm_answer(
    params: &TransformBulkParams,
    other_vault_found: bool,
    answer: QueryResult,
) -> (r: ConfirmOutcome)
    ensures
        answer != QueryResult::Yes ==> r == ConfirmOutcome::Ignored,
        answer == QueryResult::Yes ==> match transform_error(*params, other_vault_found) {
            Some(m) => r matches ConfirmOutcome::ShowError(e) && e@ == m,
            None => r == ConfirmOutcome::Perform,
        },
{
    if answer != QueryResult::Yes {
        return ConfirmOutcome::Ignored;
    }
    match params.validate(other_vault_found) {
        Err(e) => ConfirmOutcome::ShowError(String::from_str(e)),
        Ok(()) => ConfirmOutcome::Perform,
    }
}

/// What the path transformation dialog remembers between frames about the
/// items it lists.
pub struct PathsListing {
    /// The items are marked to be listed again at the start of the next
    /// frame.
    pub source_items_updated: bool,
    /// The dialog was open in the last frame.
    pub opened: bool,
}

impl PathsListing {
    /// A dialog not yet shown.
    pub fn new() -> (p: Self)
        ensures
            !p.source_items_updated,
            !p.opened,
    {
        PathsListing { source_items_updated: false, opened: false }
    }

    /// Whether the items and their transformed paths must be listed at the
    /// start of a frame: when the dialog opens, or when the last frame
    /// marked them.
    pub fn lists_items_at_start(&self) -> (r: bool)
        ensures
            r == (!self.opened || self.source_items_updated),
    {
        !self.opened || self.source_items_updated
    }

    /// The end of a frame. `listed` tells whether the items were listed in
    /// this frame, which marks them; a mark from the last frame is spent;
    /// changed settings (of the paths or of source and destination) mark
    /// them for the next frame; `open` tells whether the dialog stays open.
    pub fn end_frame(&mut self, listed: bool, params_changed: bool, bulk_changed: bool, open: bool)
        ensures
            final(self).source_items_updated == (params_changed || bulk_changed || (!old(
                self,
            ).source_items_updated && listed)),
            final(self).opened == open,
    {
        let new_last_frame = self.source_items_updated;
        if listed {
            self.source_items_updated = true;
        }
        if new_last_frame {
            self.source_items_updated = false;
        }
        if params_changed {
            self.source_items_updated = true;
        }
        if bulk_changed {
            self.source_items_updated = true;
        }
        self.opened = open;
    }
}

/// The name of a source, as the dialog shows it.
pub open spec fn source_kind_label(k: SourceKind) -> Seq<char> {
    match k {
        SourceKind::Selection => "Selection"@,
        SourceKind::Filtered => "Filtered"@,
        SourceKind::All => "All"@,
    }
}

impl SourceKind {
    /// The name of this source, as the dialog shows it.
    pub fn label(&self) -> (s: &'static str)
        ensures
            s@ == source_kind_label(*self),
    {
        match self {
            SourceKind::Selection => "Selection",
            SourceKind::Filtered => "Filtered",
            SourceKind::All => "All",
        }
    }
}

/// Where the transformed items go, as the summary shows it: the kind of
/// destination and, but for the same vault, its name or path.
pub open spec fn destination_text(d: TransformDestination) -> Seq<char> {
    match d.kind {
        DestinationKind::SameVault => "SameVault"@,
        DestinationKind::OtherVault => "OtherVault: "@ + d.other_vault_name@,
        DestinationKind::Directory => "Directory: "@ + d.directory_path@,
        DestinationKind::Archive => "Archive: "@ + d.archive_path@,
    }
}

/// The numbers the summary of a path transformation reports.
#[derive(Debug, Clone, Copy, PartialEq, Eq, Structural)]
pub struct SummaryCounts {
    /// The number of items of the chosen source.
    pub source_len: u64,
    /// The number of items listed for the transformation.
    pub source_items: u64,
    /// The number of them with a transformed path.
    pub valid_paths: u64,
    /// The number of distinct transformed paths.
    pub unique_paths: u64,
    /// The number of transformed paths that collide with existing items.
    pub conflicts: u64,
    /// The number of transformed paths that repeat another one.
    pub duplicates: u64,
}

/// A line of the summary: a label, a value, and whether it reports a
/// problem (it is then shown in the error colour).
pub struct SummaryRow {
    pub label: String,
    pub value: String,
    pub error: bool,
}

/// The texts of summary lines.
pub open spec fn row_texts(rows: Seq<SummaryRow>) -> Seq<(Seq<char>, Seq<char>, bool)> {
    rows.map_values(|r: SummaryRow| (r.label@, r.value@, r.error))
}

/// The lines of the summary of a path transformation, in order; the two
/// lines on collisions appear only when there are any.
pub open spec fn summary_spec(p: TransformBulkParams, dry_run: bool, c: SummaryCounts) -> Seq<
    (Seq<char>, Seq<char>, bool),
> {
    seq![
        ("Source: "@, source_kind_label(p.source.kind) + " ("@ + decimal(c.source_len as nat) + ")"@, false),
        ("Destination:"@, destination_text(p.destination), false),
        ("# of source items: "@, decimal(c.source_items as nat), false),
        ("# of source items with valid transformed paths: "@, decimal(c.valid_paths as nat), false),
        ("# of transformed paths: "@, decimal(c.unique_paths as nat), false),
    ] + (if c.conflicts > 0 {
        seq![("# of conflicts with existing items: "@, decimal(c.conflicts as nat), true)]
    } else {
        Seq::empty()
    }) + (if c.duplicates > 0 {
        seq![("# of conflicts with other transformed paths: "@, decimal(c.duplicates as nat), true)]
    } else {
        Seq::empty()
    }) + seq![
        ("Operation: "@, if p.source.delete_source {
            "Move (delete originals)"@
        } else {
            "Copy (retain originals)"@
        }, false),
        ("Dry run: "@, if dry_run {
            "Yes"@
        } else {
            "No"@
        }, false),
        ("Behaviour when item already exists: "@, behaviour_label(p.destination.item_existing_behaviour), false),
    ]
}

fn push_row(rows: &mut Vec<SummaryRow>, label: &str, value: String, error: bool)
    ensures
        row_texts(final(rows)@) == row_texts(old(rows)@).push((label@, value@, error)),
{
    rows.push(SummaryRow { label: String::from_str(label), value, error });
    assert(row_texts(rows@) =~= row_texts(old(rows)@).push((label@, value@, error)));
}

fn destination_value(d: &TransformDestination) -> (s: String)
    ensures
        s@ == destination_text(*d),
{
    match d.kind {
        DestinationKind::SameVault => String::from_str("SameVault"),
        DestinationKind::OtherVault => {
            let mut s = String::from_str("OtherVault: ");
            s.append(d.other_vault_name.as_str());
            s
        },
        DestinationKind::Directory => {
            let mut s = String::from_str("Directory: ");
            s.append(d.directory_path.as_str());
            s
        },
        DestinationKind::Archive => {
            let mut s = String::from_str("Archive: ");
            s.append(d.archive_path.as_str());
            s
        },
    }
}

/// The lines of the summary of a path transformation.
pub fn summary_rows(p: &TransformBulkParams, dry_run: bool, c: SummaryCounts) -> (rows: Vec<
    SummaryRow,
>)
    ensures
        row_texts(rows@) == summary_spec(*p, dry_run, c),
{
    let mut rows: Vec<SummaryRow> = Vec::new();
    let mut source = String::from_str(p.source.kind.label());
    source.append(" (");
    push_decimal(&mut source, c.source_len);
    source.append(")");
    push_row(&mut rows, "Source: ", source, false);
    push_row(&mut rows, "Destination:", destination_value(&p.destination), false);
    push_row(&mut rows, "# of source items: ", format_u64(c.source_items), false);
    push_row(
        &mut rows,
        "# of source items with valid transformed paths: ",
        format_u64(c.valid_paths),
        false,
    );
    push_row(&mut rows, "# of transformed paths: ", format_u64(c.unique_paths), false);
    if c.conflicts > 0 {
        push_row(&mut rows, "# of conflicts with existing items: ", format_u64(c.conflicts), true);
    }
    if c.duplicates > 0 {
        push_row(
            &mut rows,
            "# of conflicts with other transformed paths: ",
            format_u64(c.duplicates),
            true,
        );
    }
    let operation = if p.source.delete_source {
        "Move (delete originals)"
    } else {
        "Copy (retain originals)"
    };
    push_row(&mut rows, "Operation: ", String::from_str(operation), false);
    let dry = if dry_run {
        "Yes"
    } else {
        "No"
    };
    push_row(&mut rows, "Dry run: ", String::from_str(dry), false);
    push_row(
        &mut rows,
        "Behaviour when item already exists: ",
        String::from_str(p.destination.item_existing_behaviour.label()),
        false,
    );
    assert(row_texts(rows@) =~= summary_spec(*p, dry_run, c));
    rows
}

} // verus!
