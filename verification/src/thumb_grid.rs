//! Selection in the thumbnail grid: which items are checked, how clicks and
//! the tab key change that, and which item the grid keeps in view.

use std::collections::HashSet;
use dashmap::DashMap;
use vstd::prelude::*;
use vstd::seq_lib::lemma_seq_contains_after_push;
use vstd::std_specs::hash::{
    axiom_random_state_builds_valid_hashers, builds_valid_hashers, group_hash_axioms,
    obeys_key_model,
};

verus! {

#[verifier::external_type_specification]
#[verifier::external_body]
#[verifier::reject_recursive_types(K)]
#[verifier::reject_recursive_types(V)]
#[verifier::reject_recursive_types(S)]
pub struct ExDashMap<K, V, S>(DashMap<K, V, S>);

/// The entries of a map of checked items: item id to whether it is checked.
pub uninterp spec fn checked_map(m: DashMap<u64, bool>) -> Map<u64, bool>;

/// The map without entries.
pub open spec fn no_entries() -> Map<u64, bool> {
    Map::empty()
}

/// An empty map, from `DashMap::new`.
#[verifier::external_body]
fn dash_new() -> (m: DashMap<u64, bool>)
    ensures
        checked_map(m) == no_entries(),
{
    DashMap::new()
}

/// `DashMap::insert`: afterwards `key` maps to `value` and every other entry
/// is unchanged.
#[verifier::external_body]
fn dash_insert(m: &mut DashMap<u64, bool>, key: u64, value: bool)
    ensures
        checked_map(*final(m)) == checked_map(*old(m)).insert(key, value),
{
    m.insert(key, value);
}

/// `DashMap::remove`: afterwards `key` has no entry and every other entry is
/// unchanged.
#[verifier::external_body]
fn dash_remove(m: &mut DashMap<u64, bool>, key: u64)
    ensures
        checked_map(*final(m)) == checked_map(*old(m)).remove(key),
{
    m.remove(&key);
}

/// `DashMap::clear`: afterwards the map is empty.
#[verifier::external_body]
fn dash_clear(m: &mut DashMap<u64, bool>)
    ensures
        checked_map(*final(m)) == no_entries(),
{
    m.clear();
}

/// `DashMap::entry(key).or_default()`: inserts `false` for a missing key and
/// hands back the value of `key`; other entries are unchanged.
#[verifier::external_body]
fn dash_get_or_default(m: &mut DashMap<u64, bool>, key: u64) -> (v: bool)
    ensures
        checked_map(*final(m)) == (if checked_map(*old(m)).dom().contains(key) {
            checked_map(*old(m))
        } else {
            checked_map(*old(m)).insert(key, false)
        }),
        v == checked_map(*final(m))[key],
{
    *m.entry(key).or_default().value()
}

/// The entries of the map, from `DashMap::iter`, each as a pair of key and
/// value. Every entry appears exactly once; the order is that of the map's
/// shards and hash tables, which depends on the hasher's random seed and is
/// left unsaid.
#[verifier::external_body]
fn dash_entries(m: &DashMap<u64, bool>) -> (v: Vec<(u64, bool)>)
    ensures
        forall|i: int|
            0 <= i < v@.len() ==> #[trigger] checked_map(*m).contains_pair(v@[i].0, v@[i].1),
        forall|k: u64|
            checked_map(*m).dom().contains(k) ==> exists|i: int|
                0 <= i < v@.len() && (#[trigger] v@[i]).0 == k,
        forall|i: int, j: int| 0 <= i < j < v@.len() ==> (#[trigger] v@[i]).0 != (#[trigger] v@[j]).0,
{
    m.iter().map(|r| (*r.key(), *r.value())).collect()
}

/// How clicks on thumbnails select items.
#[derive(Debug, Copy, Clone, PartialEq, Eq, Structural)]
pub enum SelectMode {
    /// A click selects only the clicked item.
    Single,
    /// A click adds or removes the clicked item.
    Multiple,
}

impl Default for SelectMode {
    fn default() -> (r: Self)
        ensures
            r == SelectMode::Single,
    {
        SelectMode::Single
    }
}

/// The name of a selection mode, as shown in menus.
pub open spec fn select_mode_label(m: SelectMode) -> Seq<char> {
    match m {
        SelectMode::Single => "Single"@,
        SelectMode::Multiple => "Multiple"@,
    }
}

impl SelectMode {
    /// The name of this mode, as shown in menus.
    pub fn label(&self) -> (s: &'static str)
        ensures
            s@ == select_mode_label(*self),
    {
        match self {
            SelectMode::Single => "Single",
            SelectMode::Multiple => "Multiple",
        }
    }
}

/// Remainder of `a` by `b` as Rust's `%` computes it on signed integers: it
/// takes the sign of `a`.
pub open spec fn trunc_rem(a: int, b: int) -> int {
    if a >= 0 {
        a % b
    } else {
        -((-a) % b)
    }
}

/// Steps `delta` places from `i` in a cyclic list of `len` entries.
pub fn wrap_index(i: usize, len: usize, delta: isize) -> (r: usize)
    requires
        len > 0,
        len <= isize::MAX,
        isize::MIN <= (i as isize) + delta <= isize::MAX,
        isize::MIN <= (i as isize) + delta + len <= isize::MAX,
    ensures
        r == (trunc_rem((i as isize) + delta + len, len as int)) as usize,
{
    let a: isize = (i as isize) + delta + (len as isize);
    let b: isize = len as isize;
    let m: isize = a % b;
    m as usize
}

/// The selection of the thumbnail grid, kept between frames.
pub struct GridSelection {
    pub middle_item: Option<u64>,
    pub hovering_item: Option<u64>,
    pub pressing_item: Option<u64>,
    pub checked_items: DashMap<u64, bool>,
    pub select_mode: SelectMode,
}

/// The items that are checked.
pub open spec fn selected_set(m: Map<u64, bool>) -> Set<u64> {
    Set::new(|k: u64| m.dom().contains(k) && m[k])
}

impl GridSelection {
    /// Nothing selected, in single-selection mode.
    pub fn new() -> (s: Self)
        ensures
            checked_map(s.checked_items) == no_entries(),
            s.select_mode == SelectMode::Single,
            s.middle_item is None,
            s.hovering_item is None,
            s.pressing_item is None,
    {
        GridSelection {
            middle_item: None,
            hovering_item: None,
            pressing_item: None,
            checked_items: dash_new(),
            select_mode: SelectMode::Single,
        }
    }

    /// The ids of the checked items, each once.
    pub fn get_selected_ids(&self) -> (r: Vec<u64>)
        ensures
            r@.to_set() == selected_set(checked_map(self.checked_items)),
            r@.no_duplicates(),
    {
        let entries = dash_entries(&self.checked_items);
        let ghost m = checked_map(self.checked_items);
        let mut r: Vec<u64> = Vec::new();
        let mut i: usize = 0;
        assert(entries@.take(0) =~= Seq::<(u64, bool)>::empty());
        while i < entries.len()
            invariant
                i <= entries@.len(),
                r@ == true_keys(entries@.take(i as int)),
            decreases entries@.len() - i,
        {
            let (k, v) = entries[i];
            assert(entries@.take(i + 1).drop_last() =~= entries@.take(i as int));
            if v {
                r.push(k);
            }
            i = i + 1;
        }
        proof {
            assert(entries@.take(i as int) =~= entries@);
            lemma_true_keys_contains(entries@);
            lemma_true_keys_distinct(entries@);
            assert forall|k: u64| r@.to_set().contains(k) <==> selected_set(m).contains(k) by {
                if selected_set(m).contains(k) {
                    let t = choose|t: int| 0 <= t < entries@.len() && (#[trigger] entries@[t]).0 == k;
                    assert(m.contains_pair(entries@[t].0, entries@[t].1));
                }
                if r@.contains(k) {
                    let t = choose|t: int| 0 <= t < entries@.len() && (#[trigger] entries@[t]).0 == k && entries@[t].1;
                    assert(m.contains_pair(entries@[t].0, entries@[t].1));
                }
            }
            assert(r@.to_set() =~= selected_set(m));
        }
        r
    }

    /// One checked item, if any item is checked.
    pub fn get_first_selected_id(&self) -> (r: Option<u64>)
        ensures
            r is None <==> selected_set(checked_map(self.checked_items)).is_empty(),
            r matches Some(id) ==> selected_set(checked_map(self.checked_items)).contains(id),
    {
        let entries = dash_entries(&self.checked_items);
        let ghost m = checked_map(self.checked_items);
        let mut i: usize = 0;
        while i < entries.len()
            invariant
                m == checked_map(self.checked_items),
                i <= entries@.len(),
                forall|t: int| 0 <= t < entries@.len() ==> #[trigger] m.contains_pair(entries@[t].0, entries@[t].1),
                forall|t: int| 0 <= t < i ==> !(#[trigger] entries@[t]).1,
            decreases entries@.len() - i,
        {
            let (k, v) = entries[i];
            if v {
                assert(m.contains_pair(entries@[i as int].0, entries@[i as int].1));
                assert(selected_set(m).contains(k));
                return Some(k);
            }
            i = i + 1;
        }
        proof {
            assert forall|k: u64| !selected_set(m).contains(k) by {
                if selected_set(m).contains(k) {
                    let t = choose|t: int| 0 <= t < entries@.len() && (#[trigger] entries@[t]).0 == k;
                    assert(m.contains_pair(entries@[t].0, entries@[t].1));
                }
            }
            assert(selected_set(m) =~= Set::<u64>::empty());
        }
        None
    }

    /// Whether `id` is checked; an item seen for the first time is recorded
    /// as unchecked.
    pub fn is_checked(&mut self, id: u64) -> (r: bool)
        ensures
            checked_map(final(self).checked_items) == (if checked_map(old(self).checked_items).dom().contains(id) {
                checked_map(old(self).checked_items)
            } else {
                checked_map(old(self).checked_items).insert(id, false)
            }),
            r == (checked_map(old(self).checked_items).dom().contains(id) && checked_map(old(self).checked_items)[id]),
            final(self).select_mode == old(self).select_mode,
            final(self).middle_item == old(self).middle_item,
            final(self).hovering_item == old(self).hovering_item,
            final(self).pressing_item == old(self).pressing_item,
    {
        dash_get_or_default(&mut self.checked_items, id)
    }

    /// Checks `id` and nothing else.
    pub fn select_exclusive(&mut self, id: u64)
        ensures
            checked_map(final(self).checked_items) == no_entries().insert(id, true),
            selected_set(checked_map(final(self).checked_items)) == set![id],
            final(self).select_mode == old(self).select_mode,
            final(self).middle_item == old(self).middle_item,
            final(self).hovering_item == old(self).hovering_item,
            final(self).pressing_item == old(self).pressing_item,
    {
        dash_clear(&mut self.checked_items);
        dash_insert(&mut self.checked_items, id, true);
        assert(selected_set(checked_map(self.checked_items)) =~= set![id]);
    }

    /// Flips whether `id` is checked, leaving the other items as they are.
    pub fn toggle(&mut self, id: u64)
        ensures
            checked_map(final(self).checked_items) == checked_map(old(self).checked_items).insert(
                id,
                !(checked_map(old(self).checked_items).dom().contains(id) && checked_map(old(self).checked_items)[id]),
            ),
            final(self).select_mode == old(self).select_mode,
            final(self).middle_item == old(self).middle_item,
            final(self).hovering_item == old(self).hovering_item,
            final(self).pressing_item == old(self).pressing_item,
    {
        let v = dash_get_or_default(&mut self.checked_items, id);
        dash_insert(&mut self.checked_items, id, !v);
        assert(checked_map(self.checked_items) =~= checked_map(old(self).checked_items).insert(id, !v));
    }

    /// A click on the image of `id` (not on its checkbox): in single mode
    /// without ctrl it selects only that item, otherwise it flips the item.
    /// Returns whether the item should take the keyboard focus.
    pub fn click(&mut self, id: u64, ctrl: bool) -> (focus: bool)
        ensures
            focus == (old(self).select_mode == SelectMode::Single && !ctrl),
            focus ==> checked_map(final(self).checked_items) == no_entries().insert(id, true),
            !focus ==> checked_map(final(self).checked_items) == checked_map(old(self).checked_items).insert(
                id,
                !(checked_map(old(self).checked_items).dom().contains(id) && checked_map(old(self).checked_items)[id]),
            ),
            final(self).select_mode == old(self).select_mode,
            final(self).middle_item == old(self).middle_item,
    {
        if self.select_mode == SelectMode::Single && !ctrl {
            self.select_exclusive(id);
            true
        } else {
            self.toggle(id);
            false
        }
    }

    /// Forgets the items that are no longer listed, when the list of items
    /// has changed and is not empty.
    pub fn prune(&mut self, item_ids: &[u64], item_cache_is_new: bool)
        ensures
            (item_cache_is_new && item_ids@.len() > 0) ==> checked_map(final(self).checked_items)
                == checked_map(old(self).checked_items).restrict(item_ids@.to_set()),
            !(item_cache_is_new && item_ids@.len() > 0) ==> checked_map(final(self).checked_items)
                == checked_map(old(self).checked_items),
            final(self).select_mode == old(self).select_mode,
            final(self).middle_item == old(self).middle_item,
            final(self).hovering_item == old(self).hovering_item,
            final(self).pressing_item == old(self).pressing_item,
    {
        if !item_cache_is_new || item_ids.len() == 0 {
            return;
        }
        broadcast use group_hash_axioms, axiom_random_state_builds_valid_hashers,
            vstd::seq_lib::group_seq_properties;
        let mut included: HashSet<u64> = HashSet::new();
        let mut j: usize = 0;
        while j < item_ids.len()
            invariant
                j <= item_ids@.len(),
                forall|x: u64| #[trigger] included@.contains(x) <==> item_ids@.take(j as int).contains(x),
            decreases item_ids@.len() - j,
        {
            proof {
                assert(obeys_key_model::<u64>());
                assert(builds_valid_hashers::<std::hash::RandomState>());
            }
            included.insert(item_ids[j]);
            assert(item_ids@.take(j + 1) =~= item_ids@.take(j as int).push(item_ids@[j as int]));
            assert forall|x: u64| #[trigger] included@.contains(x) <==> item_ids@.take(j + 1).contains(x) by {
                lemma_seq_contains_after_push(item_ids@.take(j as int), item_ids@[j as int], x);
            }
            j = j + 1;
        }
        assert(item_ids@.take(j as int) =~= item_ids@);
        let entries = dash_entries(&self.checked_items);
        let ghost m0 = checked_map(self.checked_items);
        let mut to_remove: Vec<u64> = Vec::new();
        let mut i: usize = 0;
        while i < entries.len()
            invariant
                i <= entries@.len(),
                forall|x: u64| #[trigger] included@.contains(x) <==> item_ids@.contains(x),
                forall|x: u64| #[trigger] to_remove@.contains(x) ==> !item_ids@.contains(x),
                forall|t: int| 0 <= t < i && !item_ids@.contains((#[trigger] entries@[t]).0)
                    ==> to_remove@.contains(entries@[t].0),
            decreases entries@.len() - i,
        {
            let (k, _v) = entries[i];
            let ghost old_remove = to_remove@;
            if !included.contains(&k) {
                to_remove.push(k);
                proof {
                    assert forall|x: u64| #[trigger] to_remove@.contains(x) implies !item_ids@.contains(x) by {
                        lemma_seq_contains_after_push(old_remove, k, x);
                    }
                }
            }
            proof {
                assert forall|t: int| 0 <= t < i + 1 && !item_ids@.contains((#[trigger] entries@[t]).0)
                    implies to_remove@.contains(entries@[t].0) by {
                    if t < i {
                        assert(old_remove.contains(entries@[t].0));
                        lemma_seq_contains_after_push(old_remove, k, entries@[t].0);
                    } else {
                        assert(!included@.contains(k));
                        lemma_seq_contains_after_push(old_remove, k, k);
                    }
                }
            }
            i = i + 1;
        }
        let mut r: usize = 0;
        while r < to_remove.len()
            invariant
                r <= to_remove@.len(),
                checked_map(self.checked_items) == m0.remove_keys(to_remove@.take(r as int).to_set()),
                self.select_mode == old(self).select_mode,
                self.middle_item == old(self).middle_item,
                self.hovering_item == old(self).hovering_item,
                self.pressing_item == old(self).pressing_item,
            decreases to_remove@.len() - r,
        {
            dash_remove(&mut self.checked_items, to_remove[r]);
            assert(to_remove@.take(r + 1) =~= to_remove@.take(r as int).push(to_remove@[r as int]));
            assert forall|x: u64| #[trigger] to_remove@.take(r + 1).to_set().contains(x) <==> to_remove@.take(r as int).to_set().insert(to_remove@[r as int]).contains(x) by {
                lemma_seq_contains_after_push(to_remove@.take(r as int), to_remove@[r as int], x);
            }
            assert(to_remove@.take(r + 1).to_set() =~= to_remove@.take(r as int).to_set().insert(to_remove@[r as int]));
            assert(checked_map(self.checked_items) =~= m0.remove_keys(to_remove@.take(r + 1).to_set()));
            r = r + 1;
        }
        proof {
            assert(to_remove@.take(r as int) =~= to_remove@);
            assert forall|k: u64| #[trigger] m0.remove_keys(to_remove@.to_set()).dom().contains(k) <==> m0.restrict(item_ids@.to_set()).dom().contains(k) by {
                if m0.dom().contains(k) && !item_ids@.contains(k) {
                    let t = choose|t: int| 0 <= t < entries@.len() && (#[trigger] entries@[t]).0 == k;
                    assert(to_remove@.contains(entries@[t].0));
                }
                if to_remove@.contains(k) {
                    assert(!item_ids@.contains(k));
                }
            }
            assert(m0.remove_keys(to_remove@.to_set()) =~= m0.restrict(item_ids@.to_set()));
        }
    }
}

/// `i` is the position of the first occurrence of `id` in `ids`.
pub open spec fn is_first_position(ids: Seq<u64>, id: u64, i: int) -> bool {
    &&& 0 <= i < ids.len()
    &&& ids[i] == id
    &&& forall|j: int| 0 <= j < i ==> ids[j] != id
}

/// The position `delta` steps from `i` in a cyclic list of `len` entries.
pub open spec fn cyclic_step(i: int, delta: int, len: int) -> int {
    (i + delta + len) % len
}

/// Position of the first occurrence of `id` in `ids`.
pub fn find_position(ids: &[u64], id: u64) -> (r: Option<usize>)
    ensures
        match r {
            Some(i) => is_first_position(ids@, id, i as int),
            None => !ids@.contains(id),
        },
{
    let mut i: usize = 0;
    while i < ids.len()
        invariant
            i <= ids@.len(),
            forall|j: int| 0 <= j < i ==> ids@[j] != id,
        decreases ids@.len() - i,
    {
        if ids[i] == id {
            return Some(i);
        }
        i = i + 1;
    }
    None
}

impl GridSelection {
    /// The checked item that the tab key moves on from: in single mode, when
    /// the keyboard focus is on the (first) checked item.
    pub fn tab_candidate(&self, focused_item: Option<u64>) -> (r: Option<u64>)
        ensures
            r matches Some(id) ==> self.select_mode == SelectMode::Single && focused_item == Some(id)
                && selected_set(checked_map(self.checked_items)).contains(id),
            (self.select_mode == SelectMode::Single && focused_item is Some
                && selected_set(checked_map(self.checked_items)) == set![focused_item->0])
                ==> r == focused_item,
    {
        let selected = self.get_first_selected_id();
        match selected {
            Some(id) => {
                if self.select_mode == SelectMode::Single && focused_item == Some(id) {
                    Some(id)
                } else {
                    None
                }
            },
            None => None,
        }
    }

    /// Moves the selection from `selected_id` to the next thumbnail (the
    /// previous one with shift), wrapping around at the ends. The new item
    /// becomes the only checked one and the one kept in view; it is returned
    /// so that it can take the keyboard focus. Nothing changes when
    /// `selected_id` is not among the thumbnails.
    pub fn apply_tab(&mut self, thumbnails: &[u64], selected_id: u64, shift: bool) -> (r: Option<u64>)
        requires
            thumbnails@.len() <= isize::MAX / 2,
        ensures
            !thumbnails@.contains(selected_id) ==> r is None && checked_map(final(self).checked_items)
                == checked_map(old(self).checked_items) && final(self).middle_item == old(self).middle_item,
            thumbnails@.contains(selected_id) ==> exists|i: int|
                #[trigger] is_first_position(thumbnails@, selected_id, i) && r == Some(
                    thumbnails@[cyclic_step(i, if shift { -1int } else { 1int }, thumbnails@.len() as int)],
                ),
            r matches Some(next) ==> checked_map(final(self).checked_items) == no_entries().insert(next, true)
                && final(self).middle_item == Some(next),
            final(self).select_mode == old(self).select_mode,
            final(self).hovering_item == old(self).hovering_item,
            final(self).pressing_item == old(self).pressing_item,
    {
        match find_position(thumbnails, selected_id) {
            Some(i) => {
                let delta: isize = if shift { -1 } else { 1 };
                let k = wrap_index(i, thumbnails.len(), delta);
                proof {
                    let a = (i as isize) + delta + thumbnails@.len();
                    assert(a >= 0);
                    assert(trunc_rem(a, thumbnails@.len() as int) == a % (thumbnails@.len() as int));
                    assert(0 <= a % (thumbnails@.len() as int) < thumbnails@.len());
                }
                let next_id = thumbnails[k];
                assert(is_first_position(thumbnails@, selected_id, i as int));
                self.middle_item = Some(next_id);
                self.select_exclusive(next_id);
                Some(next_id)
            },
            None => None,
        }
    }

    /// Settles the state at the end of a frame: the item kept in view becomes
    /// the checked item, or else the item found in the middle of the view;
    /// hovering and pressing follow what the frame saw.
    pub fn finish_frame(&mut self, next_middle: Option<u64>, next_hover: Option<u64>, next_pressing: Option<u64>)
        ensures
            selected_set(checked_map(old(self).checked_items)).is_empty() ==> final(self).middle_item == (
                if next_middle is Some { next_middle } else { old(self).middle_item }),
            !selected_set(checked_map(old(self).checked_items)).is_empty() ==> (final(self).middle_item matches Some(m)
                && selected_set(checked_map(old(self).checked_items)).contains(m)),
            final(self).hovering_item == next_hover,
            final(self).pressing_item == next_pressing,
            checked_map(final(self).checked_items) == checked_map(old(self).checked_items),
            final(self).select_mode == old(self).select_mode,
    {
        let selected = self.get_first_selected_id();
        let middle = match selected {
            Some(id) => Some(id),
            None => next_middle,
        };
        if let Some(m) = middle {
            self.middle_item = Some(m);
        }
        self.hovering_item = next_hover;
        self.pressing_item = next_pressing;
    }
}

/// How long the grid keeps still after it scrolled to an item, in
/// milliseconds.
pub const SCROLL_COOLDOWN_MS: i64 = 1500;

/// What the grid remembers between frames to keep the item in the middle of
/// the view in place when the view is resized.
pub struct ScrollTracker {
    /// The grid must scroll to the middle item.
    pub set_scroll: bool,
    /// Until when the grid keeps still after scrolling, in milliseconds
    /// since the Unix epoch.
    pub cooldown_until_ms: Option<i64>,
    /// The item found in the middle of the view in this frame.
    pub next_middle: Option<u64>,
}

impl ScrollTracker {
    /// Nothing to scroll to, no cooldown, no middle item found.
    pub fn new() -> (t: Self)
        ensures
            !t.set_scroll,
            t.cooldown_until_ms is None,
            t.next_middle is None,
    {
        ScrollTracker { set_scroll: false, cooldown_until_ms: None, next_middle: None }
    }

    /// The grid was laid out again, or the selection moved by the keyboard:
    /// the grid must scroll to the middle item.
    pub fn request_scroll(&mut self)
        ensures
            final(self).set_scroll,
            final(self).cooldown_until_ms == old(self).cooldown_until_ms,
            final(self).next_middle == old(self).next_middle,
    {
        self.set_scroll = true;
    }

    /// The end of a frame: hands back the item found in the middle of the
    /// view and forgets it for the next frame.
    pub fn take_next_middle(&mut self) -> (m: Option<u64>)
        ensures
            m == old(self).next_middle,
            final(self).next_middle is None,
            final(self).set_scroll == old(self).set_scroll,
            final(self).cooldown_until_ms == old(self).cooldown_until_ms,
    {
        self.next_middle.take()
    }

    /// One item of a frame, given readings of the clock: when a scroll is
    /// due (asked for, or the view was resized) and the item is the middle
    /// item, the grid scrolls to it and keeps still until `started` plus the
    /// cooldown; otherwise, once the cooldown is over (`earliest` stands in
    /// for its end when there is none), after the view scrolled, the first
    /// item that holds the middle of the view becomes the middle item.
    /// Hands back whether to scroll to the item.
    pub fn visit_item_at(
        &mut self,
        item: u64,
        middle_item: Option<u64>,
        resized: bool,
        scrolled: bool,
        holds_middle: bool,
        earliest: i64,
        now: i64,
        started: i64,
    ) -> (scroll: bool)
        requires
            -crate::thumb_cache::time_bound() < started < crate::thumb_cache::time_bound(),
        ensures
            scroll == ((old(self).set_scroll || resized) && middle_item == Some(item)),
            scroll ==> !final(self).set_scroll && final(self).cooldown_until_ms == Some(
                (started + SCROLL_COOLDOWN_MS) as i64,
            ) && final(self).next_middle == old(self).next_middle,
            !scroll ==> final(self).set_scroll == old(self).set_scroll
                && final(self).cooldown_until_ms == old(self).cooldown_until_ms,
            !scroll ==> final(self).next_middle == (if (match old(self).cooldown_until_ms {
                Some(t) => t,
                None => earliest,
            }) <= now && scrolled && old(self).next_middle is None && holds_middle {
                Some(item)
            } else {
                old(self).next_middle
            }),
    {
        if (self.set_scroll || resized) && middle_item == Some(item) {
            self.set_scroll = false;
            self.cooldown_until_ms = Some(started + SCROLL_COOLDOWN_MS);
            true
        } else {
            let until = match self.cooldown_until_ms {
                Some(t) => t,
                None => earliest,
            };
            if until <= now && scrolled && self.next_middle.is_none() && holds_middle {
                self.next_middle = Some(item);
            }
            false
        }
    }

    /// One item of a frame, with the clock read as it goes.
    pub fn visit_item(
        &mut self,
        item: u64,
        middle_item: Option<u64>,
        resized: bool,
        scrolled: bool,
        holds_middle: bool,
    ) -> (scroll: bool)
        ensures
            scroll == ((old(self).set_scroll || resized) && middle_item == Some(item)),
            scroll ==> !final(self).set_scroll && final(self).cooldown_until_ms is Some
                && final(self).next_middle == old(self).next_middle,
            !scroll ==> final(self).set_scroll == old(self).set_scroll
                && final(self).cooldown_until_ms == old(self).cooldown_until_ms,
            !scroll ==> (final(self).next_middle == old(self).next_middle
                || (final(self).next_middle == Some(item) && scrolled
                && old(self).next_middle is None && holds_middle)),
    {
        let earliest = crate::thumb_cache::now_millis();
        let now = crate::thumb_cache::now_millis();
        let started = crate::thumb_cache::now_millis();
        self.visit_item_at(item, middle_item, resized, scrolled, holds_middle, earliest, now, started)
    }
}

/// A thumbnail shows its checkbox while it is hovered, pressed or checked.
pub fn shows_checkbox(hovered: bool, pressed: bool, pointer_down: bool, checked: bool) -> (r: bool)
    ensures
        r == (hovered || pressed || pointer_down || checked),
{
    hovered || pressed || pointer_down || checked
}

/// The keys of the entries that are set, in order.
pub open spec fn true_keys(s: Seq<(u64, bool)>) -> Seq<u64>
    decreases s.len(),
{
    if s.len() == 0 {
        Seq::empty()
    } else if s.last().1 {
        true_keys(s.drop_last()).push(s.last().0)
    } else {
        true_keys(s.drop_last())
    }
}

/// A key is among the set keys exactly when some set entry has it.
pub proof fn lemma_true_keys_contains(s: Seq<(u64, bool)>)
    ensures
        forall|k: u64| #[trigger] true_keys(s).contains(k) <==> exists|t: int|
            0 <= t < s.len() && (#[trigger] s[t]).0 == k && s[t].1,
    decreases s.len(),
{
    if s.len() > 0 {
        lemma_true_keys_contains(s.drop_last());
        assert forall|k: u64| #[trigger] true_keys(s).contains(k) <==> exists|t: int|
            0 <= t < s.len() && (#[trigger] s[t]).0 == k && s[t].1 by {
            if exists|t: int| 0 <= t < s.len() && (#[trigger] s[t]).0 == k && s[t].1 {
                let t = choose|t: int| 0 <= t < s.len() && (#[trigger] s[t]).0 == k && s[t].1;
                if t < s.len() - 1 {
                    assert(s.drop_last()[t] == s[t]);
                    assert(true_keys(s.drop_last()).contains(k));
                    if s.last().1 {
                        let j = choose|j: int| 0 <= j < true_keys(s.drop_last()).len() && true_keys(s.drop_last())[j] == k;
                        assert(true_keys(s)[j] == k);
                    }
                } else {
                    assert(true_keys(s)[true_keys(s).len() - 1] == k);
                }
            }
            if true_keys(s).contains(k) {
                let j = choose|j: int| 0 <= j < true_keys(s).len() && true_keys(s)[j] == k;
                if s.last().1 && j == true_keys(s).len() - 1 {
                    assert(s[s.len() - 1].0 == k);
                } else {
                    assert(true_keys(s.drop_last())[j] == k);
                    assert(true_keys(s.drop_last()).contains(k));
                    let t = choose|t: int| 0 <= t < s.drop_last().len() && (#[trigger] s.drop_last()[t]).0 == k && s.drop_last()[t].1;
                    assert(s[t] == s.drop_last()[t]);
                }
            }
        }
    }
}

/// Entries with distinct keys give set keys without repetition.
pub proof fn lemma_true_keys_distinct(s: Seq<(u64, bool)>)
    requires
        forall|i: int, j: int| 0 <= i < j < s.len() ==> (#[trigger] s[i]).0 != (#[trigger] s[j]).0,
    ensures
        true_keys(s).no_duplicates(),
    decreases s.len(),
{
    if s.len() > 0 {
        let d = s.drop_last();
        assert forall|i: int, j: int| 0 <= i < j < d.len() implies (#[trigger] d[i]).0 != (#[trigger] d[j]).0 by {
            assert(d[i] == s[i] && d[j] == s[j]);
        }
        lemma_true_keys_distinct(d);
        if s.last().1 {
            lemma_true_keys_contains(d);
            if true_keys(d).contains(s.last().0) {
                let t = choose|t: int| 0 <= t < d.len() && (#[trigger] d[t]).0 == s.last().0 && d[t].1;
                assert(s[t] == d[t]);
                assert(s[t].0 != s[s.len() - 1].0);
            }
            let r = true_keys(s);
            assert forall|i: int, j: int| 0 <= i < r.len() && 0 <= j < r.len() && i != j implies r[i] != r[j] by {
                if i == r.len() - 1 {
                    assert(true_keys(d)[j] == r[j]);
                } else if j == r.len() - 1 {
                    assert(true_keys(d)[i] == r[i]);
                } else {
                    assert(true_keys(d)[i] == r[i] && true_keys(d)[j] == r[j]);
                }
            }
        }
    }
}

} // verus!
