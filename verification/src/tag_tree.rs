//! The tag tree: search results arranged under their ancestors, counted and
//! indexed in the order the tree is drawn (each tag, then its children).

use vstd::prelude::*;
use crate::find_tag::key_position;

verus! {

/// One way in which a tag matched a text search, with the character indices
/// of the matching text.
#[derive(Debug, Clone, PartialEq, Eq)]
pub enum FieldMatchResult {
    /// The tag's name matched.
    Name { indices: Vec<u32> },
    /// One of the tag's aliases matched.
    Alias { alias: String, indices: Vec<u32> },
    /// The name of one of the tag's parents matched.
    ParentName { parent_id: u128, indices: Vec<u32> },
    /// An alias of one of the tag's parents matched.
    ParentAlias { parent_id: u128, alias: String, indices: Vec<u32> },
}

/// All the ways in which one tag matched a search.
#[derive(Debug, Clone, PartialEq, Eq)]
pub struct MergedFieldMatchResult {
    pub id: u128,
    pub matches: Vec<FieldMatchResult>,
}

impl MergedFieldMatchResult {
    /// A tag that is shown without having matched: an ancestor of a match.
    pub fn no_matches(id: u128) -> (r: Self)
        ensures
            r.id == id,
            r.matches@.len() == 0,
    {
        MergedFieldMatchResult { id, matches: Vec::new() }
    }
}

/// Two matches are the same: of one kind, with the same texts, ids and
/// indices.
pub open spec fn match_eq(a: FieldMatchResult, b: FieldMatchResult) -> bool {
    match (a, b) {
        (FieldMatchResult::Name { indices: x }, FieldMatchResult::Name { indices: y }) => x@ == y@,
        (
            FieldMatchResult::Alias { alias: a1, indices: x },
            FieldMatchResult::Alias { alias: a2, indices: y },
        ) => a1@ == a2@ && x@ == y@,
        (
            FieldMatchResult::ParentName { parent_id: p1, indices: x },
            FieldMatchResult::ParentName { parent_id: p2, indices: y },
        ) => p1 == p2 && x@ == y@,
        (
            FieldMatchResult::ParentAlias { parent_id: p1, alias: a1, indices: x },
            FieldMatchResult::ParentAlias { parent_id: p2, alias: a2, indices: y },
        ) => p1 == p2 && a1@ == a2@ && x@ == y@,
        _ => false,
    }
}

/// Two merged results are the same: one tag, matched in the same ways.
pub open spec fn result_eq(a: MergedFieldMatchResult, b: MergedFieldMatchResult) -> bool {
    &&& a.id == b.id
    &&& a.matches@.len() == b.matches@.len()
    &&& forall|i: int| 0 <= i < a.matches@.len() ==> match_eq(#[trigger] a.matches@[i], b.matches@[i])
}

fn copy_indices(v: &Vec<u32>) -> (r: Vec<u32>)
    ensures
        r@ == v@,
{
    let r = v.clone();
    assert(r@ =~= v@);
    r
}

fn copy_match(m: &FieldMatchResult) -> (r: FieldMatchResult)
    ensures
        match_eq(r, *m),
{
    match m {
        FieldMatchResult::Name { indices } => FieldMatchResult::Name { indices: copy_indices(indices) },
        FieldMatchResult::Alias { alias, indices } => FieldMatchResult::Alias {
            alias: alias.clone(),
            indices: copy_indices(indices),
        },
        FieldMatchResult::ParentName { parent_id, indices } => FieldMatchResult::ParentName {
            parent_id: *parent_id,
            indices: copy_indices(indices),
        },
        FieldMatchResult::ParentAlias { parent_id, alias, indices } => FieldMatchResult::ParentAlias {
            parent_id: *parent_id,
            alias: alias.clone(),
            indices: copy_indices(indices),
        },
    }
}

/// A copy of a merged result.
pub fn copy_result(m: &MergedFieldMatchResult) -> (r: MergedFieldMatchResult)
    ensures
        result_eq(r, *m),
{
    let mut matches: Vec<FieldMatchResult> = Vec::new();
    let mut i: usize = 0;
    while i < m.matches.len()
        invariant
            i <= m.matches@.len(),
            matches@.len() == i,
            forall|j: int| 0 <= j < i ==> match_eq(#[trigger] matches@[j], m.matches@[j]),
        decreases m.matches.len() - i,
    {
        matches.push(copy_match(&m.matches[i]));
        i = i + 1;
    }
    MergedFieldMatchResult { id: m.id, matches }
}

/// A tag in the tree, with the tags below it in the order they were added.
/// The children are a list of (id, entry) pairs in insertion order, each id
/// at most once (see `forest_wf`): an `indexmap::IndexMap` holding this type
/// inside itself is refused by Verus ("recursively uses type ... in a
/// non-positive position"), as outside types are declared without recursion
/// through their parameters.
#[derive(Debug)]
pub struct TagTreeEntry {
    pub item: MergedFieldMatchResult,
    pub collapsed: bool,
    pub children: Vec<(u128, TagTreeEntry)>,
}

/// The entries of a tree level, keyed by tag id.
pub type Forest = Vec<(u128, TagTreeEntry)>;

/// The tags of an entry in drawing order: the entry, then its subtrees.
pub open spec fn entry_flat(e: TagTreeEntry) -> Seq<MergedFieldMatchResult>
    decreases e, 1int,
{
    seq![e.item] + forest_flat(e.children@)
}

/// The tags of a tree level in drawing order.
pub open spec fn forest_flat(f: Seq<(u128, TagTreeEntry)>) -> Seq<MergedFieldMatchResult>
    decreases f, 0int,
{
    if f.len() == 0 {
        Seq::empty()
    } else {
        entry_flat(f[0].1) + forest_flat(f.drop_first())
    }
}

/// Number of tags in an entry, itself included.
pub open spec fn entry_count(e: TagTreeEntry) -> nat {
    entry_flat(e).len()
}

/// Number of tags in a tree level.
pub open spec fn forest_count(f: Seq<(u128, TagTreeEntry)>) -> nat {
    forest_flat(f).len()
}

/// The tag at position `index` in drawing order, if there is one.
pub open spec fn resolve_spec(f: Seq<(u128, TagTreeEntry)>, index: int) -> Option<
    MergedFieldMatchResult,
> {
    if 0 <= index < forest_count(f) {
        Some(forest_flat(f)[index])
    } else {
        None
    }
}

/// Every level of the tree holds each key once, under the tag of that id.
pub open spec fn forest_wf(f: Seq<(u128, TagTreeEntry)>) -> bool
    decreases f, 0int,
{
    if f.len() == 0 {
        true
    } else {
        &&& f[0].0 == f[0].1.item.id
        &&& forall|j: int| 1 <= j < f.len() ==> (#[trigger] f[j]).0 != f[0].0
        &&& entry_wf(f[0].1)
        &&& forest_wf(f.drop_first())
    }
}

/// An entry and all its subtrees are well formed.
pub open spec fn entry_wf(e: TagTreeEntry) -> bool
    decreases e, 1int,
{
    forest_wf(e.children@)
}

/// The flattening of a level, entry by entry from position `i`.
pub proof fn lemma_forest_flat_skip(f: Seq<(u128, TagTreeEntry)>, i: int)
    requires
        0 <= i < f.len(),
    ensures
        forest_flat(f.skip(i)) == entry_flat(f[i].1) + forest_flat(f.skip(i + 1)),
{
    assert(f.skip(i).drop_first() =~= f.skip(i + 1));
    assert(f.skip(i)[0] == f[i]);
}

impl TagTreeEntry {
    /// A leaf entry for `item`, shown expanded.
    pub fn new(item: MergedFieldMatchResult) -> (e: Self)
        ensures
            e.item == item,
            !e.collapsed,
            e.children@.len() == 0,
            entry_count(e) == 1,
    {
        let e = TagTreeEntry { item, collapsed: false, children: Vec::new() };
        assert(forest_flat(e.children@) =~= Seq::empty());
        e
    }

    /// Number of tags in this entry, itself included.
    pub fn count(&self) -> (n: usize)
        requires
            entry_count(*self) <= usize::MAX,
        ensures
            n == entry_count(*self),
        decreases self,
    {
        let c = forest_size(&self.children);
        c + 1
    }
}

/// Number of tags in a tree level.
pub fn forest_size(f: &Forest) -> (n: usize)
    requires
        forest_count(f@) <= usize::MAX,
    ensures
        n == forest_count(f@),
    decreases f@, 0int,
{
    let mut total: usize = 0;
    let mut i: usize = 0;
    assert(f@.skip(0) =~= f@);
    while i < f.len()
        invariant
            i <= f@.len(),
            forest_count(f@) <= usize::MAX,
            forest_count(f@) == total + forest_count(f@.skip(i as int)),
        decreases f@.len() - i,
    {
        proof {
            lemma_forest_flat_skip(f@, i as int);
            assert(f@[i as int].1 == f[i as int].1);
        }
        let c = f[i].1.count();
        total = total + c;
        i = i + 1;
    }
    proof {
        assert(f@.skip(i as int) =~= Seq::<(u128, TagTreeEntry)>::empty());
    }
    total
}

/// The tag at position `index` of a tree level in drawing order (each tag,
/// then the tags below it), or `None` past the last one.
pub fn resolve_index(entries: &Forest, index: usize) -> (r: Option<&MergedFieldMatchResult>)
    ensures
        r is Some <==> resolve_spec(entries@, index as int) is Some,
        r matches Some(x) ==> resolve_spec(entries@, index as int) == Some(*x),
    decreases entries@, 0int,
{
    let ghost f = entries@;
    let ghost orig = index as int;
    let mut rem = index;
    let mut i: usize = 0;
    let ghost mut prefix: Seq<MergedFieldMatchResult> = Seq::empty();
    assert(f.skip(0) =~= f);
    assert(forest_flat(f) =~= prefix + forest_flat(f.skip(0)));
    while i < entries.len()
        invariant
            f == entries@,
            orig == index as int,
            i <= f.len(),
            rem <= orig,
            prefix.len() == orig - rem,
            forest_flat(f) == prefix + forest_flat(f.skip(i as int)),
        decreases f.len() - i,
    {
        let entry = &entries[i].1;
        proof {
            lemma_forest_flat_skip(f, i as int);
            assert(f[i as int].1 == *entry);
        }
        assert(entry_flat(*entry)[0] == entry.item);
        assert(forest_flat(f.skip(i as int)) == entry_flat(*entry) + forest_flat(
            f.skip(i + 1),
        ));
        assert(forest_flat(f).len() == prefix.len() + forest_flat(f.skip(i as int)).len());
        if rem == 0 {
            assert(forest_flat(f)[orig] == forest_flat(f.skip(i as int))[rem as int]);
            assert(forest_flat(f)[orig] == entry.item);
            assert(0 <= orig < forest_count(f));

            return Some(&entry.item);
        }
        proof {
            assert(decreases_to!(f => f[i as int]));
            assert(decreases_to!(f[i as int] => f[i as int].1));
            assert(decreases_to!(f[i as int].1 => f[i as int].1.children));
            assert(decreases_to!(f[i as int].1.children => f[i as int].1.children@));
        }
        let found = resolve_index(&entry.children, rem - 1);
        match found {
            Some(x) => {
                assert(entry_flat(*entry)[rem as int] == forest_flat(entry.children@)[rem
                    - 1]);
                assert(forest_flat(f.skip(i as int))[rem as int] == entry_flat(
                    *entry,
                )[rem as int]);
                assert(forest_flat(f)[orig] == forest_flat(f.skip(i as int))[rem as int]);
                assert(forest_flat(f)[orig] == forest_flat(entry.children@)[rem - 1]);
                return Some(x);
            },
            None => {},
        }
        proof {
            assert(entry_count(*entry) <= rem);
        }
        let c = entry.count();
        proof {
            prefix = prefix + entry_flat(*entry);
            assert(forest_flat(f) =~= prefix + forest_flat(f.skip(i + 1)));
        }
        rem = rem - c;
        i = i + 1;
    }
    proof {
        assert(f.skip(i as int) =~= Seq::<(u128, TagTreeEntry)>::empty());
        assert(forest_flat(f.skip(i as int)) =~= Seq::<MergedFieldMatchResult>::empty());
    }
    None
}

/// What the tag tree widget keeps between frames.
pub struct TagTreeState {
    pub search_text: String,
    pub tree: Option<Forest>,
    pub selected_indices: Vec<usize>,
    pub focused: bool,
}

/// Number of tags the tree shows: none before a search has been made.
pub open spec fn tree_count(tree: Option<Forest>) -> nat {
    match tree {
        Some(f) => forest_count(f@),
        None => 0,
    }
}

/// The selection after the arrow keys: down moves past the last selected
/// position (stopping at the last tag), up moves before the first selected
/// position and clears the selection at the top, down with nothing selected
/// selects the first tag. Down takes precedence when both are pressed.
pub open spec fn next_selection(
    sel: Seq<usize>,
    down_pressed: bool,
    up_pressed: bool,
    count: int,
) -> Seq<usize> {
    if !down_pressed && !up_pressed {
        sel
    } else if sel.len() > 0 && down_pressed {
        let index = sel.last();
        if index + 1 < count {
            seq![(index + 1) as usize]
        } else {
            seq![index]
        }
    } else if sel.len() > 0 && up_pressed {
        let index = sel[0];
        if index == 0 {
            Seq::empty()
        } else {
            seq![(index - 1) as usize]
        }
    } else if down_pressed {
        seq![0usize]
    } else {
        sel
    }
}

impl TagTreeState {
    /// No search text, no tree yet, nothing selected.
    pub fn new() -> (s: Self)
        ensures
            s.search_text@.len() == 0,
            s.tree is None,
            s.selected_indices@.len() == 0,
            !s.focused,
    {
        TagTreeState { search_text: String::new(), tree: None, selected_indices: Vec::new(), focused: false }
    }

    /// Number of tags the tree shows.
    pub fn search_results_count(&self) -> (n: usize)
        requires
            tree_count(self.tree) <= usize::MAX,
        ensures
            n == tree_count(self.tree),
    {
        match &self.tree {
            Some(results) => forest_size(results),
            None => 0,
        }
    }

    /// Moves the selection with the arrow keys.
    pub fn update_index(&mut self, down_pressed: bool, up_pressed: bool)
        requires
            tree_count(old(self).tree) <= usize::MAX,
        ensures
            final(self).selected_indices@ == next_selection(
                old(self).selected_indices@,
                down_pressed,
                up_pressed,
                tree_count(old(self).tree) as int,
            ),
            final(self).search_text@ == old(self).search_text@,
            final(self).tree == old(self).tree,
            final(self).focused == old(self).focused,
    {
        if !down_pressed && !up_pressed {
            return;
        }
        let n = self.selected_indices.len();
        let count = self.search_results_count();
        let new_sel: Vec<usize> = if n > 0 && down_pressed {
            let index = self.selected_indices[n - 1];
            if index < count && index + 1 < count {
                vec![index + 1]
            } else {
                vec![index]
            }
        } else if n > 0 && up_pressed {
            let index = self.selected_indices[0];
            if index == 0 {
                Vec::new()
            } else {
                vec![index - 1]
            }
        } else if down_pressed {
            vec![0]
        } else {
            return;
        };
        assert(new_sel@ =~= next_selection(
            self.selected_indices@,
            down_pressed,
            up_pressed,
            count as int,
        ));
        self.selected_indices = new_sel;
    }
}

/// `new` is the tree level `old` after walking down `path` from it:
/// entries missing on the way are added last to their level, and the entry
/// at the end of the path takes `item`. An empty path changes nothing.
#[verifier::opaque]
pub open spec fn forest_inserted(
    old: Seq<(u128, TagTreeEntry)>,
    new: Seq<(u128, TagTreeEntry)>,
    path: Seq<u128>,
    item: MergedFieldMatchResult,
) -> bool
    decreases path.len(), 0int,
{
    if path.len() == 0 {
        new == old
    } else {
        let k = path[0];
        match key_position(old, k) {
            Some(i) => {
                &&& new.len() == old.len()
                &&& forall|j: int| 0 <= j < old.len() && j != i ==> #[trigger] new[j] == old[j]
                &&& new[i].0 == k
                &&& entry_inserted(Some(old[i].1), new[i].1, k, path.drop_first(), item)
            },
            None => {
                &&& new.len() == old.len() + 1
                &&& forall|j: int| 0 <= j < old.len() ==> #[trigger] new[j] == old[j]
                &&& new[old.len() as int].0 == k
                &&& entry_inserted(None, new[old.len() as int].1, k, path.drop_first(), item)
            },
        }
    }
}

/// `new` is the entry `old` of the tag `k` (a fresh one, with no matches,
/// expanded and without children, when there was none) after walking down
/// the rest of a path below it.
#[verifier::opaque]
pub open spec fn entry_inserted(
    old: Option<TagTreeEntry>,
    new: TagTreeEntry,
    k: u128,
    rest: Seq<u128>,
    item: MergedFieldMatchResult,
) -> bool
    decreases rest.len(), 1int,
{
    let old_children = match old {
        Some(e) => e.children@,
        None => Seq::empty(),
    };
    &&& new.collapsed == match old {
        Some(e) => e.collapsed,
        None => false,
    }
    &&& if rest.len() == 0 {
        result_eq(new.item, item) && new.children@ == old_children
    } else {
        &&& match old {
            Some(e) => new.item == e.item,
            None => new.item.id == k && new.item.matches@.len() == 0,
        }
        &&& forest_inserted(old_children, new.children@, rest, item)
    }
}

/// Walking down a path whose first tag has an entry changes only that
/// entry.
proof fn lemma_inserted_existing(
    old: Seq<(u128, TagTreeEntry)>,
    i: int,
    old_e: TagTreeEntry,
    new_e: TagTreeEntry,
    path: Seq<u128>,
    item: MergedFieldMatchResult,
)
    requires
        path.len() > 0,
        key_position(old, path[0]) == Some(i),
        0 <= i < old.len(),
        old[i] == (path[0], old_e),
        entry_inserted(Some(old_e), new_e, path[0], path.drop_first(), item),
    ensures
        forest_inserted(old, old.update(i, (path[0], new_e)), path, item),
{
    reveal(forest_inserted);
    reveal(entry_inserted);
    let new = old.update(i, (path[0], new_e));
    assert(forall|j: int| 0 <= j < old.len() && j != i ==> #[trigger] new[j] == old[j]);
}

/// A fresh entry walked down behaves as a missing one.
proof fn lemma_fresh_inserted(
    fresh: TagTreeEntry,
    new_e: TagTreeEntry,
    k: u128,
    rest: Seq<u128>,
    item: MergedFieldMatchResult,
)
    requires
        fresh.item.id == k,
        fresh.item.matches@.len() == 0,
        !fresh.collapsed,
        fresh.children@.len() == 0,
        entry_inserted(Some(fresh), new_e, k, rest, item),
    ensures
        entry_inserted(None, new_e, k, rest, item),
{
    reveal(entry_inserted);
    assert(fresh.children@ =~= Seq::<(u128, TagTreeEntry)>::empty());
}

/// Walking down a path whose first tag has no entry adds one last.
proof fn lemma_inserted_new(
    old: Seq<(u128, TagTreeEntry)>,
    new_e: TagTreeEntry,
    path: Seq<u128>,
    item: MergedFieldMatchResult,
)
    requires
        path.len() > 0,
        key_position(old, path[0]) is None,
        entry_inserted(None, new_e, path[0], path.drop_first(), item),
    ensures
        forest_inserted(old, old.push((path[0], new_e)), path, item),
{
    reveal(forest_inserted);
    reveal(entry_inserted);
    let new = old.push((path[0], new_e));
    assert(forall|j: int| 0 <= j < old.len() ==> #[trigger] new[j] == old[j]);
}

/// The position of the entry of `k` in a level: the first with that key.
fn find_key(level: &Forest, k: u128) -> (r: Option<usize>)
    ensures
        match r {
            Some(i) => key_position(level@, k) == Some(i as int) && i < level@.len()
                && level@[i as int].0 == k,
            None => key_position(level@, k) is None,
        },
{
    let mut i: usize = 0;
    while i < level.len()
        invariant
            i <= level@.len(),
            forall|j: int| 0 <= j < i ==> (#[trigger] level@[j]).0 != k,
        decreases level.len() - i,
    {
        if level[i].0 == k {
            proof {
                let p = choose|p: int|
                    0 <= p < level@.len() && (#[trigger] level@[p]).0 == k && forall|j: int|
                        0 <= j < p ==> (#[trigger] level@[j]).0 != k;
                assert(level@[i as int].0 == k);
                if p < i {
                    assert(level@[p].0 != k);
                }
                if p > i {
                    assert(level@[i as int].0 != k);
                }
            }
            return Some(i);
        }
        i = i + 1;
    }
    None
}

/// Walks down `path[start..]` from the tree level `level`, adding the
/// entries missing on the way, and gives the entry at its end `item`.
#[verifier::spinoff_prover]
pub fn insert_path(level: &mut Forest, path: &[u128], start: usize, item: &MergedFieldMatchResult)
    requires
        start <= path@.len(),
    ensures
        forest_inserted(old(level)@, final(level)@, path@.skip(start as int), *item),
    decreases path@.len() - start, 0int,
{
    let ghost rest = path@.skip(start as int);
    if start == path.len() {
        assert(rest.len() == 0);
        proof {
            reveal(forest_inserted);
        }
        return;
    }
    let k = path[start];
    proof {
        assert(rest[0] == k);
        assert(rest.drop_first() =~= path@.skip(start + 1));
    }
    let ghost old_level = level@;
    match find_key(level, k) {
        Some(i) => {
            let (key, mut e) = level.remove(i);
            let ghost old_e = e;
            descend(&mut e, k, path, start + 1, item);
            level.insert(i, (key, e));
            proof {
                assert(old_level[i as int] == (key, old_e));
                assert(level@ =~= old_level.update(i as int, (key, e)));
                lemma_inserted_existing(old_level, i as int, old_e, e, rest, *item);
            }
        },
        None => {
            let mut e = TagTreeEntry::new(MergedFieldMatchResult::no_matches(k));
            let ghost fresh = e;
            descend(&mut e, k, path, start + 1, item);
            level.push((k, e));
            proof {
                lemma_fresh_inserted(fresh, e, k, rest.drop_first(), *item);
                lemma_inserted_new(old_level, e, rest, *item);
            }
        },
    }
}

/// Walks down `path[start..]` below the entry `e` of the tag `k`; at the
/// end of the path the entry takes `item`.
fn descend(e: &mut TagTreeEntry, k: u128, path: &[u128], start: usize, item: &MergedFieldMatchResult)
    requires
        start <= path@.len(),
    ensures
        entry_inserted(Some(*old(e)), *final(e), k, path@.skip(start as int), *item),
    decreases path@.len() - start, 1int,
{
    let ghost old_e = *e;
    if start == path.len() {
        e.item = copy_result(item);
        assert(path@.skip(start as int).len() == 0);
        assert(e.children@ == old_e.children@);
        assert(e.collapsed == old_e.collapsed);
        assert(result_eq(e.item, *item));
        assert(entry_inserted(Some(old_e), *e, k, path@.skip(start as int), *item)) by {
            reveal(entry_inserted);
        }
    } else {
        insert_path(&mut e.children, path, start, item);
        assert(path@.skip(start as int).len() > 0);
        assert(e.item == old_e.item);
        assert(e.collapsed == old_e.collapsed);
        assert(forest_inserted(old_e.children@, e.children@, path@.skip(start as int), *item));
        assert(entry_inserted(Some(old_e), *e, k, path@.skip(start as int), *item)) by {
            reveal(entry_inserted);
            reveal(forest_inserted);
        }
    }
}

/// The walks that building the tree makes: for each result, in order, one
/// walk down each of its ancestor paths.
pub open spec fn tree_steps(
    results: Seq<MergedFieldMatchResult>,
    paths: Seq<Vec<Vec<u128>>>,
) -> Seq<(Seq<u128>, MergedFieldMatchResult)>
    decreases results.len(),
{
    if results.len() == 0 || paths.len() == 0 {
        Seq::empty()
    } else {
        tree_steps(results.drop_last(), paths.drop_last()) + paths.last()@.map_values(
            |p: Vec<u128>| (p@, results.last()),
        )
    }
}

/// `f` is the level `f0` after the walks `steps`, one after the other.
pub open spec fn walked(
    f0: Seq<(u128, TagTreeEntry)>,
    steps: Seq<(Seq<u128>, MergedFieldMatchResult)>,
    f: Seq<(u128, TagTreeEntry)>,
) -> bool
    decreases steps.len(),
{
    if steps.len() == 0 {
        f == f0
    } else {
        exists|mid: Seq<(u128, TagTreeEntry)>|
            walked(f0, steps.drop_last(), mid) && #[trigger] forest_inserted(
                mid,
                f,
                steps.last().0,
                steps.last().1,
            )
    }
}

/// One more walk extends a sequence of walks.
proof fn lemma_walked_step(
    f0: Seq<(u128, TagTreeEntry)>,
    steps: Seq<(Seq<u128>, MergedFieldMatchResult)>,
    mid: Seq<(u128, TagTreeEntry)>,
    f: Seq<(u128, TagTreeEntry)>,
)
    requires
        steps.len() > 0,
        walked(f0, steps.drop_last(), mid),
        forest_inserted(mid, f, steps.last().0, steps.last().1),
    ensures
        walked(f0, steps, f),
{
}

/// Builds the tag tree of a search: for each result, each of its ancestor
/// paths (from a root tag down to the result's tag) is walked from the top,
/// adding the ancestors as entries without matches, and the entry at the
/// end takes the result. `paths[i]` are the ancestor paths of `results[i]`.
pub fn build_tree(results: &[MergedFieldMatchResult], paths: &[Vec<Vec<u128>>]) -> (r: Forest)
    requires
        results@.len() == paths@.len(),
    ensures
        walked(Seq::empty(), tree_steps(results@, paths@), r@),
{
    let mut tree: Forest = Vec::new();
    let mut i: usize = 0;
    while i < results.len()
        invariant
            i <= results@.len(),
            results@.len() == paths@.len(),
            walked(Seq::empty(), tree_steps(results@.take(i as int), paths@.take(i as int)), tree@),
        decreases results.len() - i,
    {
        let ghost before = tree_steps(results@.take(i as int), paths@.take(i as int));
        let ps = &paths[i];
        let mut j: usize = 0;
        while j < ps.len()
            invariant
                i < results@.len(),
                results@.len() == paths@.len(),
                *ps == paths@[i as int],
                j <= ps@.len(),
                walked(
                    Seq::empty(),
                    before + ps@.take(j as int).map_values(
                        |p: Vec<u128>| (p@, results@[i as int]),
                    ),
                    tree@,
                ),
            decreases ps.len() - j,
        {
            let ghost steps = before + ps@.take(j as int).map_values(
                |p: Vec<u128>| (p@, results@[i as int]),
            );
            let ghost next = before + ps@.take(j + 1).map_values(
                |p: Vec<u128>| (p@, results@[i as int]),
            );
            let ghost prev_tree = tree@;
            insert_path(&mut tree, ps[j].as_slice(), 0, &results[i]);
            proof {
                assert(next.drop_last() =~= steps);
                assert(next.last() == (ps@[j as int]@, results@[i as int]));
                assert(ps@[j as int]@.skip(0) =~= ps@[j as int]@);
                assert(walked(Seq::empty(), steps, prev_tree));
                assert(walked(Seq::empty(), next.drop_last(), prev_tree));
                assert(forest_inserted(prev_tree, tree@, next.last().0, next.last().1));
                lemma_walked_step(Seq::empty(), next, prev_tree, tree@);
            }
            j = j + 1;
        }
        proof {
            let r2 = results@.take(i + 1);
            let p2 = paths@.take(i + 1);
            assert(r2.drop_last() =~= results@.take(i as int));
            assert(p2.drop_last() =~= paths@.take(i as int));
            assert(ps@.take(ps@.len() as int) =~= ps@);
            assert(tree_steps(r2, p2) =~= before + ps@.map_values(
                |p: Vec<u128>| (p@, results@[i as int]),
            ));
        }
        i = i + 1;
    }
    assert(results@.take(results@.len() as int) =~= results@);
    assert(paths@.take(paths@.len() as int) =~= paths@);
    tree
}

impl TagTreeState {
    /// A new search of the tree: the tree built from the results and their
    /// ancestor paths, with the first tag selected.
    pub fn rebuild(&mut self, results: &[MergedFieldMatchResult], paths: &[Vec<Vec<u128>>])
        requires
            results@.len() == paths@.len(),
        ensures
            final(self).tree matches Some(t) && walked(
                Seq::empty(),
                tree_steps(results@, paths@),
                t@,
            ),
            final(self).selected_indices@ == seq![0usize],
            final(self).search_text@ == old(self).search_text@,
            final(self).focused == old(self).focused,
    {
        self.tree = Some(build_tree(results, paths));
        self.selected_indices = vec![0];
    }
}

/// The tags selected after a frame of the tree: a newly clicked tag alone,
/// or else one of the tags selected before (none when none was).
pub fn tree_selection(prev: &Vec<u128>, clicked: Option<u128>) -> (r: Vec<u128>)
    ensures
        match clicked {
            Some(id) if !prev@.contains(id) => r@ == seq![id],
            _ => if prev@.len() == 0 {
                r@.len() == 0
            } else {
                r@.len() == 1 && prev@.contains(r@[0])
            },
        },
{
    if let Some(id) = clicked {
        let mut found = false;
        let mut i: usize = 0;
        while i < prev.len()
            invariant
                i <= prev@.len(),
                found == exists|j: int| 0 <= j < i && prev@[j] == id,
            decreases prev.len() - i,
        {
            if prev[i] == id {
                found = true;
            }
            i = i + 1;
        }
        if !found {
            return vec![id];
        }
    }
    if prev.len() == 0 {
        Vec::new()
    } else {
        let r = vec![prev[0]];
        assert(prev@.contains(r@[0]));
        r
    }
}

} // verus!
