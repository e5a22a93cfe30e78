//! The tag finder: a search field whose popup lists the tags that match,
//! with an entry to create a new tag, and the grouping of the ways in which
//! a tag matched.

use indexmap::IndexMap;
use vstd::prelude::*;
use crate::input::{min_count, next_index, update_index};
use crate::tag::FieldType;
use crate::tag_tree::{FieldMatchResult, MergedFieldMatchResult};

verus! {

#[verifier::external_type_specification]
#[verifier::external_body]
#[verifier::reject_recursive_types(K)]
#[verifier::reject_recursive_types(V)]
#[verifier::reject_recursive_types(S)]
pub struct ExIndexMap<K, V, S>(IndexMap<K, V, S>);

/// The first position of `key` among the keys of `m`, if any.
pub open spec fn key_position<K, V>(m: Seq<(K, V)>, key: K) -> Option<int> {
    if exists|i: int| 0 <= i < m.len() && (#[trigger] m[i]).0 == key {
        Some(
            choose|i: int|
                0 <= i < m.len() && (#[trigger] m[i]).0 == key && forall|j: int|
                    0 <= j < i ==> (#[trigger] m[j]).0 != key,
        )
    } else {
        None
    }
}

/// `m` with `extra` appended to the indices of `key`; a new key goes last.
pub open spec fn append_at<K>(m: Seq<(K, Seq<u32>)>, key: K, extra: Seq<u32>) -> Seq<(K, Seq<u32>)> {
    match key_position(m, key) {
        Some(i) => m.update(i, (key, m[i].1 + extra)),
        None => m.push((key, extra)),
    }
}

/// `m` with `extra` appended to the indices of `alias` under `parent`; a new
/// parent goes last.
pub open spec fn append_nested(
    m: Seq<(u128, Seq<(Seq<char>, Seq<u32>)>)>,
    parent: u128,
    alias: Seq<char>,
    extra: Seq<u32>,
) -> Seq<(u128, Seq<(Seq<char>, Seq<u32>)>)> {
    match key_position(m, parent) {
        Some(i) => m.update(i, (parent, append_at(m[i].1, alias, extra))),
        None => m.push((parent, seq![(alias, extra)])),
    }
}

/// The entries of a map from alias to indices, in the order the aliases
/// were first added.
pub uninterp spec fn alias_entries(m: IndexMap<String, Vec<u32>>) -> Seq<(Seq<char>, Seq<u32>)>;

/// The entries of a map from tag id to indices, in the order the ids were
/// first added.
pub uninterp spec fn id_entries(m: IndexMap<u128, Vec<u32>>) -> Seq<(u128, Seq<u32>)>;

/// The entries of a map from tag id to a map from alias to indices, in the
/// order the ids were first added.
pub uninterp spec fn nested_entries(m: IndexMap<u128, IndexMap<String, Vec<u32>>>) -> Seq<
    (u128, Seq<(Seq<char>, Seq<u32>)>),
>;

/// An empty map, from `IndexMap::new`.
#[verifier::external_body]
fn alias_map_new() -> (m: IndexMap<String, Vec<u32>>)
    ensures
        alias_entries(m) == Seq::<(Seq<char>, Seq<u32>)>::empty(),
{
    IndexMap::new()
}

/// An empty map, from `IndexMap::new`.
#[verifier::external_body]
fn id_map_new() -> (m: IndexMap<u128, Vec<u32>>)
    ensures
        id_entries(m) == Seq::<(u128, Seq<u32>)>::empty(),
{
    IndexMap::new()
}

/// An empty map, from `IndexMap::new`.
#[verifier::external_body]
fn nested_map_new() -> (m: IndexMap<u128, IndexMap<String, Vec<u32>>>)
    ensures
        nested_entries(m) == Seq::<(u128, Seq<(Seq<char>, Seq<u32>)>)>::empty(),
{
    IndexMap::new()
}

/// `IndexMap::entry(key).or_default()`, then the indices appended to the
/// value: an existing key keeps its place, a new key is added last with no
/// indices before the new ones.
#[verifier::external_body]
fn alias_map_append(m: &mut IndexMap<String, Vec<u32>>, key: String, indices: &Vec<u32>)
    ensures
        alias_entries(*final(m)) == append_at(alias_entries(*old(m)), key@, indices@),
{
    m.entry(key).or_default().extend_from_slice(indices);
}

/// `IndexMap::entry(key).or_default()`, then the indices appended to the
/// value: an existing key keeps its place, a new key is added last with no
/// indices before the new ones.
#[verifier::external_body]
fn id_map_append(m: &mut IndexMap<u128, Vec<u32>>, key: u128, indices: &Vec<u32>)
    ensures
        id_entries(*final(m)) == append_at(id_entries(*old(m)), key, indices@),
{
    m.entry(key).or_default().extend_from_slice(indices);
}

/// `IndexMap::entry(parent).or_default()`, then the same on the inner map
/// with `alias`, then the indices appended: existing keys keep their place,
/// new ones are added last.
#[verifier::external_body]
fn nested_map_append(
    m: &mut IndexMap<u128, IndexMap<String, Vec<u32>>>,
    parent: u128,
    alias: String,
    indices: &Vec<u32>,
)
    ensures
        nested_entries(*final(m)) == append_nested(nested_entries(*old(m)), parent, alias@, indices@),
{
    m.entry(parent).or_default().entry(alias).or_default().extend_from_slice(indices);
}

/// The grouped indices of a list of matches: those of the name, those of
/// each alias, those of each parent's name, and those of each alias of each
/// parent, each group in the order of first appearance.
pub open spec fn merged_indices(ms: Seq<FieldMatchResult>) -> (
    Seq<u32>,
    Seq<(Seq<char>, Seq<u32>)>,
    Seq<(u128, Seq<u32>)>,
    Seq<(u128, Seq<(Seq<char>, Seq<u32>)>)>,
)
    decreases ms.len(),
{
    if ms.len() == 0 {
        (Seq::empty(), Seq::empty(), Seq::empty(), Seq::empty())
    } else {
        let p = merged_indices(ms.drop_last());
        match ms.last() {
            FieldMatchResult::Name { indices } => (p.0 + indices@, p.1, p.2, p.3),
            FieldMatchResult::Alias { alias, indices } => (
                p.0,
                append_at(p.1, alias@, indices@),
                p.2,
                p.3,
            ),
            FieldMatchResult::ParentName { parent_id, indices } => (
                p.0,
                p.1,
                append_at(p.2, parent_id, indices@),
                p.3,
            ),
            FieldMatchResult::ParentAlias { parent_id, alias, indices } => (
                p.0,
                p.1,
                p.2,
                append_nested(p.3, parent_id, alias@, indices@),
            ),
        }
    }
}

/// Groups the character indices of the ways a tag matched: the name's
/// indices together, and those of each alias, of each parent's name and of
/// each parent's alias under their key, in the order the keys first appear.
pub fn merge_indices(matches: &[FieldMatchResult]) -> (r: (
    Vec<u32>,
    IndexMap<String, Vec<u32>>,
    IndexMap<u128, Vec<u32>>,
    IndexMap<u128, IndexMap<String, Vec<u32>>>,
))
    ensures
        (r.0@, alias_entries(r.1), id_entries(r.2), nested_entries(r.3)) == merged_indices(
            matches@,
        ),
{
    let mut name_indices: Vec<u32> = Vec::new();
    let mut aliases = alias_map_new();
    let mut parent_names = id_map_new();
    let mut parent_aliases = nested_map_new();
    let mut i: usize = 0;
    while i < matches.len()
        invariant
            i <= matches@.len(),
            (name_indices@, alias_entries(aliases), id_entries(parent_names), nested_entries(
                parent_aliases,
            )) == merged_indices(matches@.take(i as int)),
        decreases matches.len() - i,
    {
        proof {
            assert(matches@.take(i + 1).drop_last() =~= matches@.take(i as int));
            assert(matches@.take(i + 1).last() == matches@[i as int]);
        }
        match &matches[i] {
            FieldMatchResult::Name { indices } => {
                let mut k: usize = 0;
                let ghost start = name_indices@;
                while k < indices.len()
                    invariant
                        k <= indices@.len(),
                        name_indices@ == start + indices@.take(k as int),
                    decreases indices.len() - k,
                {
                    name_indices.push(indices[k]);
                    assert(indices@.take(k + 1) =~= indices@.take(k as int).push(indices@[k as int]));
                    k = k + 1;
                }
                assert(indices@.take(indices@.len() as int) =~= indices@);
            },
            FieldMatchResult::Alias { alias, indices } => {
                alias_map_append(&mut aliases, alias.clone(), indices);
            },
            FieldMatchResult::ParentName { parent_id, indices } => {
                id_map_append(&mut parent_names, *parent_id, indices);
            },
            FieldMatchResult::ParentAlias { parent_id, alias, indices } => {
                nested_map_append(&mut parent_aliases, *parent_id, alias.clone(), indices);
            },
        }
        i = i + 1;
    }
    assert(matches@.take(matches@.len() as int) =~= matches@);
    (name_indices, aliases, parent_names, parent_aliases)
}

/// Position `i` of a text is among the matched positions.
pub open spec fn marked(indices: Seq<u32>, i: int) -> bool {
    indices.contains(i as u32)
}

fn is_marked(indices: &[u32], i: usize) -> (r: bool)
    ensures
        r == marked(indices@, i as int),
{
    let target = i as u32;
    let mut k: usize = 0;
    while k < indices.len()
        invariant
            k <= indices@.len(),
            target == i as u32,
            forall|j: int| 0 <= j < k ==> indices@[j] != target,
        decreases indices.len() - k,
    {
        if indices[k] == target {
            assert(indices@[k as int] == (i as int) as u32);
            return true;
        }
        k = k + 1;
    }
    false
}

/// The runs in which a text of `len` positions is highlighted: maximal
/// stretches `start..end` of positions that all are, or all are not, among
/// the matched positions `indices`, in order and covering the text.
pub fn match_runs(len: usize, indices: &[u32]) -> (r: Vec<(usize, usize, bool)>)
    ensures
        r@.len() == 0 <==> len == 0,
        r@.len() > 0 ==> r@[0].0 == 0 && r@.last().1 == len,
        forall|k: int| 0 <= k < r@.len() ==> (#[trigger] r@[k]).0 < r@[k].1,
        forall|k: int|
            0 <= k < r@.len() - 1 ==> (#[trigger] r@[k]).1 == r@[k + 1].0 && r@[k].2 != r@[k + 1].2,
        forall|k: int, i: int|
            0 <= k < r@.len() && r@[k].0 <= i < r@[k].1 ==> #[trigger] marked(indices@, i)
                == #[trigger] r@[k].2,
{
    let mut r: Vec<(usize, usize, bool)> = Vec::new();
    let mut i: usize = 0;
    while i < len
        invariant
            i <= len,
            r@.len() == 0 <==> i == 0,
            r@.len() > 0 ==> r@[0].0 == 0 && r@.last().1 == i,
            forall|k: int| 0 <= k < r@.len() ==> (#[trigger] r@[k]).0 < r@[k].1,
            forall|k: int|
                0 <= k < r@.len() - 1 ==> (#[trigger] r@[k]).1 == r@[k + 1].0 && r@[k].2 != r@[k
                    + 1].2,
            forall|k: int, j: int|
                0 <= k < r@.len() && r@[k].0 <= j < r@[k].1 ==> #[trigger] marked(indices@, j)
                    == #[trigger] r@[k].2,
            i < len && r@.len() > 0 ==> marked(indices@, i as int) != r@.last().2,
        decreases len - i,
    {
        let start = i;
        let state = is_marked(indices, i);
        i = i + 1;
        while i < len && is_marked(indices, i) == state
            invariant
                start < i <= len,
                forall|j: int| start <= j < i ==> marked(indices@, j) == state,
            decreases len - i,
        {
            i = i + 1;
        }
        let ghost before = r@;
        r.push((start, i, state));
        proof {
            assert forall|k: int, j: int|
                0 <= k < r@.len() && r@[k].0 <= j < r@[k].1 implies #[trigger] marked(
                indices@,
                j,
            ) == #[trigger] r@[k].2 by {
                if k < before.len() {
                    assert(r@[k] == before[k]);
                }
            }
            assert forall|k: int| 0 <= k < r@.len() - 1 implies (#[trigger] r@[k]).1 == r@[k
                + 1].0 && r@[k].2 != r@[k + 1].2 by {
                assert(r@[k] == before[k]);
                if k + 1 < before.len() {
                    assert(r@[k + 1] == before[k + 1]);
                }
            }
        }
    }
    r
}

/// Every kind of tag, in the order the type menu lists them.
pub open spec fn all_field_types() -> Seq<FieldType> {
    seq![
        FieldType::Tag,
        FieldType::Container,
        FieldType::Boolean,
        FieldType::Int,
        FieldType::Float,
        FieldType::Colour,
        FieldType::Str,
        FieldType::ItemRef,
        FieldType::List,
        FieldType::Dictionary,
        FieldType::DateTime,
    ]
}

/// Every kind of tag, in the order the type menu lists them.
pub fn all_types() -> (r: Vec<FieldType>)
    ensures
        r@ == all_field_types(),
{
    let r = vec![
        FieldType::Tag,
        FieldType::Container,
        FieldType::Boolean,
        FieldType::Int,
        FieldType::Float,
        FieldType::Colour,
        FieldType::Str,
        FieldType::ItemRef,
        FieldType::List,
        FieldType::Dictionary,
        FieldType::DateTime,
    ];
    assert(r@ =~= all_field_types());
    r
}

/// Every kind of tag but those in `exclude`, in menu order.
pub fn types_excluding(exclude: &[FieldType]) -> (r: Vec<FieldType>)
    ensures
        r@ == all_field_types().filter(|t: FieldType| !exclude@.contains(t)),
{
    let all = all_types();
    let mut r: Vec<FieldType> = Vec::new();
    let mut i: usize = 0;
    while i < all.len()
        invariant
            i <= all@.len(),
            all@ == all_field_types(),
            r@ == all@.take(i as int).filter(|t: FieldType| !exclude@.contains(t)),
        decreases all.len() - i,
    {
        let t = all[i];
        let mut excluded = false;
        let mut j: usize = 0;
        while j < exclude.len()
            invariant
                j <= exclude@.len(),
                excluded == exists|k: int| 0 <= k < j && exclude@[k] == t,
            decreases exclude.len() - j,
        {
            if exclude[j] == t {
                excluded = true;
            }
            j = j + 1;
        }
        proof {
            assert(all@.take(i + 1).drop_last() =~= all@.take(i as int));
            reveal(Seq::filter);
        }
        if !excluded {
            r.push(t);
        }
        i = i + 1;
    }
    assert(all@.take(all@.len() as int) =~= all@);
    r
}

/// An entry of the finder's popup: a matching tag, or the offer to create a
/// tag named after the search text.
#[derive(Debug, PartialEq, Eq)]
pub enum FindResult {
    MatchResult(MergedFieldMatchResult),
    CreateResult,
}

/// What choosing an entry of the popup does: pick a tag, or ask for a new
/// tag of this name.
#[derive(Debug, PartialEq, Eq)]
pub enum FindChoice {
    Tag(u128),
    Create(String),
}

/// The entries of the popup for the tags a search found: the tags, and,
/// when tags may be created and the text is not empty, the create entry at
/// the last place among the first ten, or at the end of a shorter list.
pub open spec fn popup_entries(found: Seq<MergedFieldMatchResult>, offer_create: bool) -> Seq<
    FindResult,
> {
    let tags = found.map_values(|m: MergedFieldMatchResult| FindResult::MatchResult(m));
    if offer_create {
        if tags.len() >= 10 {
            tags.take(9).push(FindResult::CreateResult) + tags.skip(9)
        } else {
            tags.push(FindResult::CreateResult)
        }
    } else {
        tags
    }
}

/// The state of a tag finder, kept from frame to frame.
pub struct FindTagState {
    pub search_text: String,
    pub search_results: Option<Vec<FindResult>>,
    pub selected_index: Option<usize>,
    pub focused: bool,
}

impl FindTagState {
    /// No text, no search made, nothing selected.
    pub fn new() -> (s: Self)
        ensures
            s.search_text@ == Seq::<char>::empty(),
            s.search_results is None,
            s.selected_index is None,
            !s.focused,
    {
        FindTagState {
            search_text: String::new(),
            search_results: None,
            selected_index: None,
            focused: false,
        }
    }

    /// A search is due: none was made yet, or the text changed.
    pub fn needs_search(&self, text_changed: bool) -> (r: bool)
        ensures
            r == (self.search_results is None || text_changed),
    {
        self.search_results.is_none() || text_changed
    }

    /// Takes the tags that a search of the text found (`None` when it
    /// failed, which keeps the previous results). `can_create` says whether
    /// the finder may offer to create a tag. A successful search selects
    /// the first entry.
    pub fn set_search_results(&mut self, found: Option<Vec<MergedFieldMatchResult>>, can_create: bool)
        ensures
            final(self).search_text@ == old(self).search_text@,
            final(self).focused == old(self).focused,
            match found {
                Some(v) => {
                    &&& final(self).search_results matches Some(r) && r@ == popup_entries(
                        v@,
                        can_create && old(self).search_text@.len() > 0,
                    )
                    &&& final(self).selected_index == Some(0usize)
                },
                None => {
                    &&& final(self).search_results == old(self).search_results
                    &&& final(self).selected_index == old(self).selected_index
                },
            },
    {
        let found = match found {
            Some(v) => v,
            None => return,
        };
        let ghost tags = found@.map_values(|m: MergedFieldMatchResult| FindResult::MatchResult(m));
        let mut entries: Vec<FindResult> = Vec::new();
        for m in it: found
            invariant
                it.seq() == found@,
                tags == found@.map_values(|m: MergedFieldMatchResult| FindResult::MatchResult(m)),
                entries@ == tags.take(it.index() as int),
        {
            let ghost n: int = entries@.len() as int;
            entries.push(FindResult::MatchResult(m));
            assert(entries@ =~= tags.take(n + 1 as int));
        }
        assert(entries@ =~= tags);
        if can_create && !self.search_text.as_str().is_empty() {
            if entries.len() >= 10 {
                entries.insert(9, FindResult::CreateResult);
                assert(entries@ =~= tags.take(9).push(FindResult::CreateResult) + tags.skip(9));
            } else {
                entries.push(FindResult::CreateResult);
            }
        }
        self.search_results = Some(entries);
        self.selected_index = Some(0);
    }

    /// The number of entries of the popup, none before a search.
    pub open spec fn result_count(self) -> int {
        match self.search_results {
            Some(r) => r.len() as int,
            None => 0,
        }
    }

    /// Takes the focus of the search field and the arrow keys of this frame:
    /// the keys move the selection only while the field has the focus.
    pub fn navigate(&mut self, has_focus: bool, down_pressed: bool, up_pressed: bool)
        ensures
            final(self).focused == has_focus,
            final(self).search_text@ == old(self).search_text@,
            final(self).search_results == old(self).search_results,
            match (
                final(self).selected_index,
                next_index(
                    old(self).selected_index,
                    has_focus && down_pressed,
                    has_focus && up_pressed,
                    min_count(old(self).result_count() as usize, 10),
                ),
            ) {
                (Some(r), Some(n)) => r == n,
                (None, None) => true,
                _ => false,
            },
    {
        self.focused = has_focus;
        let count = match &self.search_results {
            Some(r) => r.len(),
            None => 0,
        };
        self.selected_index = update_index(
            self.selected_index,
            has_focus && down_pressed,
            has_focus && up_pressed,
            count,
            10,
        );
    }

    /// The choice made by choosing entry `i` of the popup (a click, or the
    /// keyboard on the selected entry); `None` when there is no such entry.
    pub fn choice_at(&self, i: usize) -> (r: Option<FindChoice>)
        ensures
            match self.search_results {
                Some(v) => if i < v.len() {
                    r matches Some(c) && match (v@[i as int], c) {
                        (FindResult::MatchResult(m), FindChoice::Tag(id)) => id == m.id,
                        (FindResult::CreateResult, FindChoice::Create(name)) => name@
                            == self.search_text@,
                        _ => false,
                    }
                } else {
                    r is None
                },
                None => r is None,
            },
    {
        match &self.search_results {
            Some(v) => {
                if i < v.len() {
                    match &v[i] {
                        FindResult::MatchResult(m) => Some(FindChoice::Tag(m.id)),
                        FindResult::CreateResult => Some(
                            FindChoice::Create(self.search_text.clone()),
                        ),
                    }
                } else {
                    None
                }
            },
            None => None,
        }
    }

    /// Tab or Enter (`accept`) chooses the selected entry, if there is one.
    pub fn accept_selected(&self, accept: bool) -> (r: Option<FindChoice>)
        ensures
            match (self.selected_index, accept) {
                (Some(i), true) => match self.search_results {
                    Some(v) => if i < v.len() {
                        r matches Some(c) && match (v@[i as int], c) {
                            (FindResult::MatchResult(m), FindChoice::Tag(id)) => id == m.id,
                            (FindResult::CreateResult, FindChoice::Create(name)) => name@
                                == self.search_text@,
                            _ => false,
                        }
                    } else {
                        r is None
                    },
                    None => r is None,
                },
                _ => r is None,
            },
    {
        match self.selected_index {
            Some(i) => if accept {
                self.choice_at(i)
            } else {
                None
            },
            None => None,
        }
    }

    /// The popup opens while the field has the focus and there are entries.
    pub fn wants_popup(&self) -> (r: bool)
        ensures
            r == (self.focused && self.result_count() > 0),
    {
        match &self.search_results {
            Some(v) => self.focused && v.len() > 0,
            None => false,
        }
    }

    /// After a choice the field loses the focus, its text is cleared and
    /// the results are dropped, so that the next frame searches anew.
    pub fn finish_choice(&mut self)
        ensures
            !final(self).focused,
            final(self).search_results is None,
            final(self).search_text@ == Seq::<char>::empty(),
            final(self).selected_index == old(self).selected_index,
    {
        self.focused = false;
        self.search_results = None;
        self.search_text = String::new();
    }
}

} // verus!
