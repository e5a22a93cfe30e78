//! Properties of the library that relate several operations or hold of
//! every input, each proved.

use vstd::prelude::*;
use crate::find_tag::{append_at, append_nested, key_position, merged_indices, popup_entries, FindResult};
use crate::input::next_index;
use crate::download::{download_error_with, GalleryDLLogin, GalleryDLParams, GalleryDLSource};
use crate::item_panel::{edited_fields, field_map, rows_exist};
use crate::list_edit::ListEditResult;
use crate::image_form::{image_form_enabled_spec, ImageFormSwitches, InfillTechnique, ScaleAlgorithm};
use crate::text_edit::{
    event_action_spec, handled_count, key_change, without_chars, EditKey, FieldAction, FieldEvent,
    FieldKey, HistoryStep, KeyModifiers, TextChange, FieldCursor,
};
use crate::main_window::{kept, kept_from, menu_effect_spec, MenuAction, MenuEffect};
use crate::shortcuts::toggled;
use crate::tag::{FieldType, FieldValue};
use crate::tag_tree::{
    entry_inserted, forest_inserted, result_eq, FieldMatchResult, MergedFieldMatchResult,
    TagTreeEntry,
};
use crate::text::{byte_offset, ends_word, is_word, lemma_byte_offset_strict, word_at};
use crate::thumb_cache::load_blocked;
use crate::thumb_grid::selected_set;
use crate::transform::{
    duplicate_count, transform_error, DestinationExistingBehaviour, DestinationKind,
    TransformBulkParams,
};

verus! {

/// Keyboard navigation never leaves the reachable entries: from no
/// selection or a reachable one, the next selection is none or reachable.
pub proof fn law_navigation_stays_in_range(
    index: Option<usize>,
    down_pressed: bool,
    up_pressed: bool,
    bound: int,
)
    requires
        bound > 0,
        index matches Some(i) ==> i < bound,
    ensures
        next_index(index, down_pressed, up_pressed, bound) matches Some(r) ==> 0 <= r < bound,
{
}

/// Down and then up comes back to the same entry, unless down was already
/// at the last reachable one.
pub proof fn law_down_then_up(i: usize, bound: int)
    requires
        i + 1 < bound,
        i + 1 <= usize::MAX,
    ensures
        next_index(Some(i), true, false, bound) == Some(i + 1),
        next_index(Some((i + 1) as usize), false, true, bound) == Some(i as int),
{
}

/// Up at the first entry clears the selection; down with nothing selected
/// selects the first entry.
pub proof fn law_up_at_top_deselects(bound: int)
    ensures
        next_index(Some(0usize), false, true, bound) is None,
        next_index(None, true, false, bound) == Some(0int),
{
}

/// The word that the search box completes at a cursor position is well
/// defined: at most one word fits.
pub proof fn law_completed_word_unique(s: Seq<char>, pos: int, a1: int, e1: int, a2: int, e2: int)
    requires
        word_at(s, pos, a1, e1),
        word_at(s, pos, a2, e2),
    ensures
        a1 == a2,
        e1 == e2,
{
    if a1 < a2 {
        lemma_word_ends_before(s, a1, e1, a2);
        assert(ends_word(s, e1));
        assert(byte_offset(s, e1) < pos);
    } else if a2 < a1 {
        lemma_word_ends_before(s, a2, e2, a1);
        assert(ends_word(s, e2));
        assert(byte_offset(s, e2) < pos);
    } else {
        lemma_word_end_unique(s, a1, e1, e2);
    }
}

/// A word that starts before the start of another word ends before it.
proof fn lemma_word_ends_before(s: Seq<char>, a: int, e: int, b: int)
    requires
        is_word(s, a, e),
        crate::text::starts_word(s, b),
        a < b,
    ensures
        0 < e < b,
        e < s.len(),
{
    if e >= b {
        assert(!crate::text::is_non_word_char_spec(s[b - 1]));
    }
}

/// A word starting at `a` has one end.
proof fn lemma_word_end_unique(s: Seq<char>, a: int, e1: int, e2: int)
    requires
        is_word(s, a, e1),
        is_word(s, a, e2),
    ensures
        e1 == e2,
{
    if e1 < e2 {
        assert(!crate::text::is_non_word_char_spec(s[e1]));
    } else if e2 < e1 {
        assert(!crate::text::is_non_word_char_spec(s[e2]));
    }
}

/// The character index of the byte at which a character starts is that
/// character's index: a result `r` that meets the contract of
/// `char_index_from_byte_index` for the start of character `k` is `k`.
pub proof fn law_char_index_of_char_start(s: Seq<char>, k: int, r: int)
    requires
        0 <= k <= s.len(),
        0 <= r <= s.len(),
        forall|j: int| 0 <= j < r ==> #[trigger] byte_offset(s, j) < byte_offset(s, k),
        r < s.len() ==> byte_offset(s, r) >= byte_offset(s, k),
    ensures
        r == k,
{
    if r < k {
        lemma_byte_offset_strict(s, r, k);
    } else if k < r {
        let bk = byte_offset(s, k);
        assert(bk < bk);
    }
}

/// The checked items after flipping an item.
pub open spec fn flipped(m: Map<u64, bool>, id: u64) -> Map<u64, bool> {
    m.insert(id, !(m.dom().contains(id) && m[id]))
}

/// Flipping an item twice leaves the selection as it was.
pub proof fn law_flip_twice(m: Map<u64, bool>, id: u64)
    ensures
        selected_set(flipped(flipped(m, id), id)) == selected_set(m),
{
    assert(selected_set(flipped(flipped(m, id), id)) =~= selected_set(m));
}

/// After pruning, only listed items can be selected.
pub proof fn law_prune_keeps_listed(m: Map<u64, bool>, listed: Set<u64>)
    ensures
        selected_set(m.restrict(listed)).subset_of(listed),
        selected_set(m.restrict(listed)) == selected_set(m).intersect(listed),
{
    assert(selected_set(m.restrict(listed)) =~= selected_set(m).intersect(listed));
}

/// A shortcut that toggles a plain tag, pressed twice, leaves the item's
/// tags as they were (when the tag was absent or set as a plain tag).
pub proof fn law_toggle_twice(fields: Map<u128, FieldValue>, tag_id: u128)
    requires
        fields.dom().contains(tag_id) ==> fields[tag_id] == FieldValue::Tag,
    ensures
        toggled(toggled(fields, tag_id, Some(FieldType::Tag)), tag_id, Some(FieldType::Tag))
            == fields,
{
    let once = toggled(fields, tag_id, Some(FieldType::Tag));
    if fields.dom().contains(tag_id) {
        assert(once.insert(tag_id, FieldValue::Tag) =~= fields);
    } else {
        assert(once.remove(tag_id) =~= fields);
    }
}

/// While a load runs and loads may not overlap, the thumbnail throttle refuses
/// every request, whatever the clock says.
pub proof fn law_one_load_at_a_time(next_load: Option<i64>, earliest: i64, now: i64)
    ensures
        load_blocked(false, true, next_load, earliest, now),
{
}

/// With no load running and no start time set, a request is let through
/// as soon as the clock reading that stands in for the start is not later
/// than the time compared with.
pub proof fn law_load_allowed_when_idle(concurrent: bool, earliest: i64, now: i64)
    requires
        earliest <= now,
    ensures
        !load_blocked(concurrent, false, None, earliest, now),
{
}

/// The number of paths that repeat an earlier one is the number of paths
/// less the number of different paths.
pub proof fn law_duplicates_are_len_minus_distinct(s: Seq<Seq<char>>)
    ensures
        duplicate_count(s) + s.to_set().len() == s.len(),
    decreases s.len(),
{
    if s.len() == 0 {
        assert(s.to_set() =~= Set::<Seq<char>>::empty());
    } else {
        let t = s.drop_last();
        law_duplicates_are_len_minus_distinct(t);
        assert(t.push(s.last()) =~= s);
        assert(s.to_set() =~= t.to_set().insert(s.last()));
        t.lemma_cardinality_of_set();
        if t.contains(s.last()) {
            assert(t.to_set().contains(s.last()));
            assert(t.to_set().insert(s.last()) =~= t.to_set());
        } else {
            assert(!t.to_set().contains(s.last()));
        }
    }
}

/// The create entry of the tag finder sits at the last place of the first
/// ten entries (or last, for fewer tags), and the tags keep their order
/// around it.
pub proof fn law_create_entry_position(found: Seq<MergedFieldMatchResult>)
    ensures
        popup_entries(found, true).len() == found.len() + 1,
        popup_entries(found, true)[if found.len() >= 10 { 9 } else { found.len() as int }]
            is CreateResult,
        forall|i: int|
            0 <= i < found.len() && (i < 9 || found.len() < 10) ==> popup_entries(found, true)[i]
                == FindResult::MatchResult(#[trigger] found[i]),
        forall|i: int|
            9 <= i < found.len() && found.len() >= 10 ==> popup_entries(found, true)[i + 1]
                == FindResult::MatchResult(#[trigger] found[i]),
{
}

/// The keys of an entry list are distinct.
pub open spec fn keys_distinct<K, V>(m: Seq<(K, V)>) -> bool {
    forall|i: int, j: int| 0 <= i < j < m.len() ==> (#[trigger] m[i]).0 != (#[trigger] m[j]).0
}

proof fn lemma_append_at_distinct<K>(m: Seq<(K, Seq<u32>)>, key: K, extra: Seq<u32>)
    requires
        keys_distinct(m),
    ensures
        keys_distinct(append_at(m, key, extra)),
{
    let r = append_at(m, key, extra);
    match key_position(m, key) {
        Some(p) => {
            assert forall|i: int, j: int| 0 <= i < j < r.len() implies (#[trigger] r[i]).0
                != (#[trigger] r[j]).0 by {
                assert(r[i].0 == m[i].0 && r[j].0 == m[j].0);
            }
        },
        None => {
            assert forall|i: int, j: int| 0 <= i < j < r.len() implies (#[trigger] r[i]).0
                != (#[trigger] r[j]).0 by {
                if j == m.len() {
                    assert(r[i] == m[i]);
                } else {
                    assert(r[i] == m[i] && r[j] == m[j]);
                }
            }
        },
    }
}

proof fn lemma_append_nested_distinct(
    m: Seq<(u128, Seq<(Seq<char>, Seq<u32>)>)>,
    parent: u128,
    alias: Seq<char>,
    extra: Seq<u32>,
)
    requires
        keys_distinct(m),
        forall|i: int| 0 <= i < m.len() ==> keys_distinct(#[trigger] m[i].1),
    ensures
        keys_distinct(append_nested(m, parent, alias, extra)),
        forall|i: int|
            0 <= i < append_nested(m, parent, alias, extra).len() ==> keys_distinct(
                #[trigger] append_nested(m, parent, alias, extra)[i].1,
            ),
{
    let r = append_nested(m, parent, alias, extra);
    match key_position(m, parent) {
        Some(p) => {
            lemma_append_at_distinct(m[p].1, alias, extra);
            assert forall|i: int, j: int| 0 <= i < j < r.len() implies (#[trigger] r[i]).0
                != (#[trigger] r[j]).0 by {
                assert(r[i].0 == m[i].0 && r[j].0 == m[j].0);
            }
            assert forall|i: int| 0 <= i < r.len() implies keys_distinct(#[trigger] r[i].1) by {
                if i != p {
                    assert(r[i] == m[i]);
                }
            }
        },
        None => {
            assert forall|i: int, j: int| 0 <= i < j < r.len() implies (#[trigger] r[i]).0
                != (#[trigger] r[j]).0 by {
                if j == m.len() {
                    assert(r[i] == m[i]);
                } else {
                    assert(r[i] == m[i] && r[j] == m[j]);
                }
            }
            assert forall|i: int| 0 <= i < r.len() implies keys_distinct(#[trigger] r[i].1) by {
                if i < m.len() {
                    assert(r[i] == m[i]);
                }
            }
        },
    }
}

/// Each key occurs once in every group of merged match indices: once per
/// alias, once per parent, and once per alias under each parent.
pub proof fn law_merged_keys_distinct(ms: Seq<FieldMatchResult>)
    ensures
        keys_distinct(merged_indices(ms).1),
        keys_distinct(merged_indices(ms).2),
        keys_distinct(merged_indices(ms).3),
        forall|i: int|
            0 <= i < merged_indices(ms).3.len() ==> keys_distinct(#[trigger] merged_indices(ms).3[i].1),
    decreases ms.len(),
{
    if ms.len() > 0 {
        law_merged_keys_distinct(ms.drop_last());
        let p = merged_indices(ms.drop_last());
        match ms.last() {
            FieldMatchResult::Name { indices } => {},
            FieldMatchResult::Alias { alias, indices } => {
                lemma_append_at_distinct(p.1, alias@, indices@);
            },
            FieldMatchResult::ParentName { parent_id, indices } => {
                lemma_append_at_distinct(p.2, parent_id, indices@);
            },
            FieldMatchResult::ParentAlias { parent_id, alias, indices } => {
                lemma_append_nested_distinct(p.3, parent_id, alias@, indices@);
            },
        }
    }
}

/// Number of indices in an entry list.
pub open spec fn index_total<K>(m: Seq<(K, Seq<u32>)>) -> int
    decreases m.len(),
{
    if m.len() == 0 {
        0
    } else {
        index_total(m.drop_last()) + m.last().1.len()
    }
}

/// Number of indices in a list of entry lists.
pub open spec fn nested_index_total(m: Seq<(u128, Seq<(Seq<char>, Seq<u32>)>)>) -> int
    decreases m.len(),
{
    if m.len() == 0 {
        0
    } else {
        nested_index_total(m.drop_last()) + index_total(m.last().1)
    }
}

/// Number of indices in a list of matches.
pub open spec fn match_index_total(ms: Seq<FieldMatchResult>) -> int
    decreases ms.len(),
{
    if ms.len() == 0 {
        0
    } else {
        match_index_total(ms.drop_last()) + match ms.last() {
            FieldMatchResult::Name { indices } => indices@.len() as int,
            FieldMatchResult::Alias { indices, .. } => indices@.len() as int,
            FieldMatchResult::ParentName { indices, .. } => indices@.len() as int,
            FieldMatchResult::ParentAlias { indices, .. } => indices@.len() as int,
        }
    }
}

proof fn lemma_index_total_update<K>(m: Seq<(K, Seq<u32>)>, i: int, x: (K, Seq<u32>))
    requires
        0 <= i < m.len(),
    ensures
        index_total(m.update(i, x)) == index_total(m) - m[i].1.len() + x.1.len(),
    decreases m.len(),
{
    let u = m.update(i, x);
    if i == m.len() - 1 {
        assert(u.drop_last() =~= m.drop_last());
    } else {
        lemma_index_total_update(m.drop_last(), i, x);
        assert(u.drop_last() =~= m.drop_last().update(i, x));
    }
}

proof fn lemma_append_at_total<K>(m: Seq<(K, Seq<u32>)>, key: K, extra: Seq<u32>)
    ensures
        index_total(append_at(m, key, extra)) == index_total(m) + extra.len(),
{
    lemma_key_position_facts(m, key);
    match key_position(m, key) {
        Some(p) => {
            lemma_index_total_update(m, p, (key, m[p].1 + extra));
        },
        None => {
            assert(m.push((key, extra)).drop_last() =~= m);
        },
    }
}

proof fn lemma_nested_total_update(
    m: Seq<(u128, Seq<(Seq<char>, Seq<u32>)>)>,
    i: int,
    x: (u128, Seq<(Seq<char>, Seq<u32>)>),
)
    requires
        0 <= i < m.len(),
    ensures
        nested_index_total(m.update(i, x)) == nested_index_total(m) - index_total(m[i].1)
            + index_total(x.1),
    decreases m.len(),
{
    let u = m.update(i, x);
    if i == m.len() - 1 {
        assert(u.drop_last() =~= m.drop_last());
    } else {
        lemma_nested_total_update(m.drop_last(), i, x);
        assert(u.drop_last() =~= m.drop_last().update(i, x));
    }
}

proof fn lemma_append_nested_total(
    m: Seq<(u128, Seq<(Seq<char>, Seq<u32>)>)>,
    parent: u128,
    alias: Seq<char>,
    extra: Seq<u32>,
)
    ensures
        nested_index_total(append_nested(m, parent, alias, extra)) == nested_index_total(m)
            + extra.len(),
{
    lemma_key_position_facts(m, parent);
    match key_position(m, parent) {
        Some(p) => {
            lemma_append_at_total(m[p].1, alias, extra);
            lemma_nested_total_update(m, p, (parent, append_at(m[p].1, alias, extra)));
        },
        None => {
            let one: Seq<(Seq<char>, Seq<u32>)> = seq![(alias, extra)];
            assert(one.drop_last() =~= Seq::<(Seq<char>, Seq<u32>)>::empty());
            assert(index_total(one.drop_last()) == 0);
            assert(one.last() == (alias, extra));
            assert(index_total(one) == extra.len());
            assert(m.push((parent, one)).drop_last() =~= m);
            assert(nested_index_total(m.push((parent, one))) == nested_index_total(m) + index_total(one));
        },
    }
}

/// Grouping the ways a tag matched loses no index and adds none: the groups
/// hold as many indices as the matches.
pub proof fn law_merge_keeps_every_index(ms: Seq<FieldMatchResult>)
    ensures
        merged_indices(ms).0.len() + index_total(merged_indices(ms).1) + index_total(
            merged_indices(ms).2,
        ) + nested_index_total(merged_indices(ms).3) == match_index_total(ms),
    decreases ms.len(),
{
    if ms.len() > 0 {
        law_merge_keeps_every_index(ms.drop_last());
        let p = merged_indices(ms.drop_last());
        match ms.last() {
            FieldMatchResult::Name { indices } => {},
            FieldMatchResult::Alias { alias, indices } => {
                lemma_append_at_total(p.1, alias@, indices@);
            },
            FieldMatchResult::ParentName { parent_id, indices } => {
                lemma_append_at_total(p.2, parent_id, indices@);
            },
            FieldMatchResult::ParentAlias { parent_id, alias, indices } => {
                lemma_append_nested_total(p.3, parent_id, alias@, indices@);
            },
        }
    }
}

/// The entry reached by following `path` down from a tree level.
pub open spec fn entry_at(f: Seq<(u128, TagTreeEntry)>, path: Seq<u128>) -> Option<TagTreeEntry>
    decreases path.len(),
{
    if path.len() == 0 {
        None
    } else {
        match key_position(f, path[0]) {
            Some(i) => if path.len() == 1 {
                Some(f[i].1)
            } else {
                entry_at(f[i].1.children@, path.drop_first())
            },
            None => None,
        }
    }
}

/// A key that occurs has a first occurrence.
proof fn lemma_first_occurrence<K, V>(m: Seq<(K, V)>, k: K, i: int)
    requires
        0 <= i < m.len(),
        m[i].0 == k,
    ensures
        exists|p: int|
            0 <= p < m.len() && (#[trigger] m[p]).0 == k && forall|j: int|
                0 <= j < p ==> (#[trigger] m[j]).0 != k,
    decreases i,
{
    if exists|j: int| 0 <= j < i && (#[trigger] m[j]).0 == k {
        let j = choose|j: int| 0 <= j < i && (#[trigger] m[j]).0 == k;
        lemma_first_occurrence(m, k, j);
    } else {
        assert(forall|j: int| 0 <= j < i ==> (#[trigger] m[j]).0 != k);
    }
}

/// What the first position of a key says of the entries.
pub proof fn lemma_key_position_facts<K, V>(m: Seq<(K, V)>, k: K)
    ensures
        key_position(m, k) matches Some(p) ==> 0 <= p < m.len() && m[p].0 == k && forall|j: int|
            0 <= j < p ==> (#[trigger] m[j]).0 != k,
        key_position(m, k) is None ==> forall|j: int| 0 <= j < m.len() ==> (#[trigger] m[j]).0 != k,
{
    if exists|i: int| 0 <= i < m.len() && (#[trigger] m[i]).0 == k {
        let i = choose|i: int| 0 <= i < m.len() && (#[trigger] m[i]).0 == k;
        lemma_first_occurrence(m, k, i);
    }
}

/// The first position of a key, found by looking.
pub proof fn lemma_key_position_at<K, V>(m: Seq<(K, V)>, k: K, i: int)
    requires
        0 <= i < m.len(),
        m[i].0 == k,
        forall|j: int| 0 <= j < i ==> (#[trigger] m[j]).0 != k,
    ensures
        key_position(m, k) == Some(i),
{
    let q = choose|q: int|
        0 <= q < m.len() && (#[trigger] m[q]).0 == k && forall|j: int|
            0 <= j < q ==> (#[trigger] m[j]).0 != k;
    assert(0 <= q < m.len() && m[q].0 == k);
    if q < i {
        assert(m[q].0 != k);
    }
    if q > i {
        assert(m[i].0 != k);
    }
}

/// Walking a path into the tag tree leaves, at the end of the path, an
/// entry that holds the walked result.
pub proof fn law_walk_reaches_result(
    old: Seq<(u128, TagTreeEntry)>,
    new: Seq<(u128, TagTreeEntry)>,
    path: Seq<u128>,
    item: MergedFieldMatchResult,
)
    requires
        path.len() > 0,
        forest_inserted(old, new, path, item),
    ensures
        entry_at(new, path) matches Some(e) && result_eq(e.item, item),
    decreases path.len(),
{
    reveal(forest_inserted);
    reveal(entry_inserted);
    let k = path[0];
    let rest = path.drop_first();
    lemma_key_position_facts(old, k);
    match key_position(old, k) {
        Some(p) => {
            assert(new.len() == old.len());
            assert(new[p].0 == k);
            assert forall|j: int| 0 <= j < p implies (#[trigger] new[j]).0 != k by {
                assert(new[j] == old[j]);
            }
            lemma_key_position_at(new, k, p);
            assert(entry_inserted(Some(old[p].1), new[p].1, k, rest, item));
            if path.len() > 1 {
                assert(forest_inserted(old[p].1.children@, new[p].1.children@, rest, item));
                law_walk_reaches_result(old[p].1.children@, new[p].1.children@, rest, item);
            }
        },
        None => {
            let i = old.len() as int;
            assert(new.len() == old.len() + 1);
            assert(new[i].0 == k);
            assert forall|j: int| 0 <= j < i implies (#[trigger] new[j]).0 != k by {
                assert(new[j] == old[j]);
            }
            lemma_key_position_at(new, k, i);
            assert(entry_inserted(None, new[i].1, k, rest, item));
            if path.len() > 1 {
                assert(forest_inserted(Seq::empty(), new[i].1.children@, rest, item));
                law_walk_reaches_result(Seq::empty(), new[i].1.children@, rest, item);
            }
        },
    }
}

/// The fields of a store built from entries with distinct ids hold each
/// entry's value under its id.
pub proof fn law_fields_hold_entries(s: Seq<(u128, FieldValue)>, i: int)
    requires
        crate::item_panel::ids_distinct(s),
        0 <= i < s.len(),
    ensures
        field_map(s).dom().contains(s[i].0),
        field_map(s)[s[i].0] == s[i].1,
{
    crate::item_panel::lemma_field_map_value(s, i);
}

/// While a vault is being created, loaded or saved, no menu entry starts
/// another vault task or opens the new-vault dialog.
pub proof fn law_vault_tasks_do_not_overlap(action: MenuAction, has_vault: bool)
    ensures
        menu_effect_spec(action, true, has_vault) != MenuEffect::StartLoadVault,
        menu_effect_spec(action, true, has_vault) != MenuEffect::StartSaveVault,
        menu_effect_spec(action, true, has_vault) != MenuEffect::OpenNewVaultDialog,
{
}

/// Dialogs that all stay open are all kept, in order.
pub proof fn law_open_dialogs_stay<T>(dialogs: Seq<T>, open: Seq<bool>)
    requires
        dialogs.len() <= open.len(),
        forall|i: int| 0 <= i < open.len() ==> #[trigger] open[i],
    ensures
        kept(dialogs, open) == dialogs,
{
    lemma_all_open_kept_from(dialogs, open, 0);
    assert(dialogs.skip(0) =~= dialogs);
}

proof fn lemma_all_open_kept_from<T>(dialogs: Seq<T>, open: Seq<bool>, i: int)
    requires
        0 <= i <= dialogs.len(),
        dialogs.len() <= open.len(),
        forall|j: int| 0 <= j < open.len() ==> #[trigger] open[j],
    ensures
        kept_from(dialogs, open, i) == dialogs.skip(i),
    decreases dialogs.len() - i,
{
    if i < dialogs.len() {
        lemma_all_open_kept_from(dialogs, open, i + 1);
        assert(open[i]);
        assert(dialogs.skip(i) =~= seq![dialogs[i]] + dialogs.skip(i + 1));
    } else {
        assert(dialogs.skip(i) =~= Seq::<T>::empty());
    }
}

/// A key whose change deletes a range of characters changes the text: the
/// range is never empty and lies within the text.
pub proof fn law_char_deletions_change_the_text(
    key: EditKey,
    mods: KeyModifiers,
    on_windows: bool,
    cursor: FieldCursor,
    s: Seq<char>,
)
    requires
        s.len() <= usize::MAX,
        cursor matches FieldCursor::At(c) ==> c <= s.len(),
        cursor matches FieldCursor::Selection(p) ==> p <= s.len(),
    ensures
        key_change(key, mods, on_windows, cursor, s.len() as usize) matches Some(
            TextChange::DeleteRange(a, b),
        ) ==> without_chars(s, a as int, b as int) != s,
{
    if let Some(TextChange::DeleteRange(a, b)) = key_change(key, mods, on_windows, cursor, s.len() as usize) {
        assert(a < b <= s.len());
        assert(without_chars(s, a as int, b as int).len() < s.len());
    }
}

/// Backspace with the cursor past the start deletes backwards: with Alt or
/// Ctrl held, the word before the cursor; otherwise the one character just
/// before it. Alt and Ctrl act alike, and Shift changes nothing.
pub proof fn law_backspace_deletes_backwards(
    mods: KeyModifiers,
    on_windows: bool,
    c: usize,
    text_len: usize,
)
    requires
        0 < c <= text_len,
    ensures
        (mods.alt || mods.ctrl) ==> key_change(
            EditKey::Backspace,
            mods,
            on_windows,
            FieldCursor::At(c),
            text_len,
        ) == Some(TextChange::DeletePreviousWord(c)),
        !(mods.alt || mods.ctrl) ==> (key_change(
            EditKey::Backspace,
            mods,
            on_windows,
            FieldCursor::At(c),
            text_len,
        ) matches Some(TextChange::DeleteRange(a, b)) && b == c && a + 1 == c),
        key_change(
            EditKey::Backspace,
            KeyModifiers { alt: true, ctrl: false, shift: mods.shift },
            on_windows,
            FieldCursor::At(c),
            text_len,
        ) == key_change(
            EditKey::Backspace,
            KeyModifiers { alt: false, ctrl: true, shift: mods.shift },
            on_windows,
            FieldCursor::At(c),
            text_len,
        ),
        key_change(
            EditKey::Backspace,
            KeyModifiers { alt: mods.alt, ctrl: mods.ctrl, shift: true },
            on_windows,
            FieldCursor::At(c),
            text_len,
        ) == key_change(
            EditKey::Backspace,
            KeyModifiers { alt: mods.alt, ctrl: mods.ctrl, shift: false },
            on_windows,
            FieldCursor::At(c),
            text_len,
        ),
{
}

/// Delete with the cursor before the end deletes forwards (unless it is
/// Shift+Delete on Windows): with Alt or Ctrl held, the word after the
/// cursor; otherwise the one character just after it. Alt and Ctrl act
/// alike.
pub proof fn law_delete_deletes_forwards(
    mods: KeyModifiers,
    on_windows: bool,
    c: usize,
    text_len: usize,
)
    requires
        c < text_len,
        !(mods.shift && on_windows),
    ensures
        (mods.alt || mods.ctrl) ==> key_change(
            EditKey::Delete,
            mods,
            on_windows,
            FieldCursor::At(c),
            text_len,
        ) == Some(TextChange::DeleteNextWord(c)),
        !(mods.alt || mods.ctrl) ==> (key_change(
            EditKey::Delete,
            mods,
            on_windows,
            FieldCursor::At(c),
            text_len,
        ) matches Some(TextChange::DeleteRange(a, b)) && a == c && b == c + 1),
        key_change(
            EditKey::Delete,
            KeyModifiers { alt: true, ctrl: false, shift: mods.shift },
            on_windows,
            FieldCursor::At(c),
            text_len,
        ) == key_change(
            EditKey::Delete,
            KeyModifiers { alt: false, ctrl: true, shift: mods.shift },
            on_windows,
            FieldCursor::At(c),
            text_len,
        ),
{
}

/// Whatever the key, a selection is deleted by Backspace, by Delete (but
/// Shift+Delete on Windows), and by Ctrl+W.
pub proof fn law_selection_is_deleted(mods: KeyModifiers, on_windows: bool, p: usize, text_len: usize)
    ensures
        key_change(EditKey::Backspace, mods, on_windows, FieldCursor::Selection(p), text_len)
            == Some(TextChange::DeleteSelection),
        !(mods.shift && on_windows) ==> key_change(
            EditKey::Delete,
            mods,
            on_windows,
            FieldCursor::Selection(p),
            text_len,
        ) == Some(TextChange::DeleteSelection),
        mods.ctrl ==> key_change(EditKey::W, mods, on_windows, FieldCursor::Selection(p), text_len)
            == Some(TextChange::DeleteSelection),
{
}

/// Editing row `i` of the tag rows into `v` gives row `i`'s tag the value
/// `v` and leaves every other tag as it was.
pub proof fn law_row_edit_sets_the_row(
    fields: Map<u128, FieldValue>,
    row_ids: Seq<u128>,
    i: usize,
    v: FieldValue,
)
    requires
        i < row_ids.len(),
    ensures
        edited_fields(fields, row_ids, ListEditResult::Edit(i, v)).dom().contains(row_ids[i as int]),
        edited_fields(fields, row_ids, ListEditResult::Edit(i, v))[row_ids[i as int]] == v,
        forall|k: u128|
            k != row_ids[i as int] ==> (#[trigger] edited_fields(
                fields,
                row_ids,
                ListEditResult::Edit(i, v),
            ).dom().contains(k) == fields.dom().contains(k)),
        forall|k: u128|
            k != row_ids[i as int] && fields.dom().contains(k) ==> #[trigger] edited_fields(
                fields,
                row_ids,
                ListEditResult::Edit(i, v),
            )[k] == fields[k],
{
}

/// Adding a tag with a value gives it that value; removing row `i` takes its
/// tag off; no other tag changes; and no edit at all leaves the fields as
/// they were.
pub proof fn law_row_add_and_remove(
    fields: Map<u128, FieldValue>,
    row_ids: Seq<u128>,
    i: usize,
    id: u128,
    v: FieldValue,
)
    requires
        i < row_ids.len(),
    ensures
        rows_exist(row_ids, ListEditResult::Remove(i)),
        edited_fields(fields, row_ids, ListEditResult::Add((id, v))).dom().contains(id),
        edited_fields(fields, row_ids, ListEditResult::Add((id, v)))[id] == v,
        forall|k: u128|
            k != id && fields.dom().contains(k) ==> (#[trigger] edited_fields(
                fields,
                row_ids,
                ListEditResult::Add((id, v)),
            ).dom().contains(k) && edited_fields(fields, row_ids, ListEditResult::Add((id, v)))[k]
                == fields[k]),
        !edited_fields(fields, row_ids, ListEditResult::Remove(i)).dom().contains(row_ids[i as int]),
        forall|k: u128|
            k != row_ids[i as int] && fields.dom().contains(k) ==> (#[trigger] edited_fields(
                fields,
                row_ids,
                ListEditResult::Remove(i),
            ).dom().contains(k) && edited_fields(fields, row_ids, ListEditResult::Remove(i))[k]
                == fields[k]),
        edited_fields(fields, row_ids, ListEditResult::Unchanged) == fields,
{
}

/// Transform settings pass exactly when the destination is not an archive,
/// a named vault destination has a name and is known, a directory
/// destination has a path, a chosen vault subdirectory has a name, and
/// items that are copied (their source kept) are not to remove what already
/// exists at the destination.
pub proof fn law_transform_settings_pass(p: TransformBulkParams, other_vault_found: bool)
    ensures
        transform_error(p, other_vault_found) is None <==> (
        p.destination.kind != DestinationKind::Archive
            && (p.destination.kind == DestinationKind::OtherVault ==> (
        p.destination.other_vault_name@.len() > 0 && other_vault_found))
            && (p.destination.kind == DestinationKind::Directory
            ==> p.destination.directory_path@.len() > 0)
            && (p.destination.use_subdirectory ==> p.destination.vault_subdirectory@.len() > 0)
            && (!p.source.delete_source ==> p.destination.item_existing_behaviour
            != DestinationExistingBehaviour::Remove)),
        !p.source.delete_source && p.destination.item_existing_behaviour
            == DestinationExistingBehaviour::Remove ==> transform_error(p, other_vault_found) is Some,
{
}

/// Download settings pass exactly when the executable is known, a source is
/// chosen and filled in (a Twitter user name, a URL that parses), a login
/// method is chosen and, for a user name and password, both are given, and
/// the configuration is a JSON object.
pub proof fn law_download_settings_pass(p: GalleryDLParams, url_ok: bool, config_ok: bool)
    ensures
        download_error_with(p, url_ok, config_ok) is None <==> (p.location is Some
            && p.version is Some && !(p.source is NoSource) && (p.source matches GalleryDLSource::TwitterLikes { username } ==> username@.len() > 0)
            && (p.source is CustomURL ==> url_ok) && !(p.login is NoLogin) && (p.login matches GalleryDLLogin::UsernamePassword { username, password } ==> username@.len() > 0
            && password@.len() > 0) && config_ok),
        (p.login matches GalleryDLLogin::UsernamePassword { username, password } && (username@.len()
            == 0 || password@.len() == 0)) ==> download_error_with(p, url_ok, config_ok) is Some,
{
}

/// With no vault task running, "New" opens the new-vault dialog and "Open"
/// starts loading a vault, whether or not a vault is open; "Save" starts
/// saving exactly when a vault is open and no vault task runs; "Import"
/// starts exactly when a vault is open; "Quit" always closes the window.
pub proof fn law_vault_menu_entries(vault_loading: bool, has_vault: bool)
    ensures
        !vault_loading ==> menu_effect_spec(MenuAction::OpenVault, vault_loading, has_vault)
            == MenuEffect::StartLoadVault,
        !vault_loading ==> menu_effect_spec(MenuAction::NewVault, vault_loading, has_vault)
            == MenuEffect::OpenNewVaultDialog,
        (menu_effect_spec(MenuAction::SaveVault, vault_loading, has_vault)
            == MenuEffect::StartSaveVault) <==> (!vault_loading && has_vault),
        (menu_effect_spec(MenuAction::ImportAll, vault_loading, has_vault)
            == MenuEffect::StartImport) <==> has_vault,
        menu_effect_spec(MenuAction::Quit, vault_loading, has_vault) == MenuEffect::CloseWindow,
{
}

/// The Ctrl letters: Ctrl+H deletes the character before the primary end
/// of the cursor, Ctrl+K the rest of the paragraph after a cursor before the
/// end, Ctrl+U the part before a cursor past the start, Ctrl+W the word
/// before it; without Ctrl these letters, and keys that edit nothing, change
/// nothing.
pub proof fn law_control_letters(mods: KeyModifiers, on_windows: bool, c: usize, text_len: usize)
    requires
        c <= text_len,
    ensures
        mods.ctrl && c > 0 ==> (key_change(EditKey::H, mods, on_windows, FieldCursor::At(c), text_len)
            matches Some(TextChange::DeleteRange(a, b)) && b == c && a + 1 == c),
        mods.ctrl && c > 0 ==> (key_change(
            EditKey::H,
            mods,
            on_windows,
            FieldCursor::Selection(c),
            text_len,
        ) matches Some(TextChange::DeleteRange(a, b)) && b == c && a + 1 == c),
        mods.ctrl && c < text_len ==> key_change(EditKey::K, mods, on_windows, FieldCursor::At(c), text_len)
            == Some(TextChange::DeleteParagraphAfter),
        mods.ctrl && c > 0 ==> key_change(EditKey::U, mods, on_windows, FieldCursor::At(c), text_len)
            == Some(TextChange::DeleteParagraphBefore),
        mods.ctrl && c > 0 ==> key_change(EditKey::W, mods, on_windows, FieldCursor::At(c), text_len)
            == Some(TextChange::DeletePreviousWord(c)),
        !mods.ctrl ==> key_change(EditKey::H, mods, on_windows, FieldCursor::At(c), text_len) is None,
        !mods.ctrl ==> key_change(EditKey::K, mods, on_windows, FieldCursor::At(c), text_len) is None,
        !mods.ctrl ==> key_change(EditKey::U, mods, on_windows, FieldCursor::At(c), text_len) is None,
        !mods.ctrl ==> key_change(EditKey::W, mods, on_windows, FieldCursor::At(c), text_len) is None,
        key_change(EditKey::Other, mods, on_windows, FieldCursor::At(c), text_len) is None,
{
}

/// Events of the search field: Enter ends the input exactly when Ctrl is
/// not held; Ctrl+Z undoes and Ctrl+Y redoes; typed text that is neither
/// empty nor a lone line break is inserted as typed; an input method is
/// composing after it starts, no longer after its final text (but a line
/// break), and other events leave that as it was; a key that edits is
/// reported as the edit `key_change` gives.
pub proof fn law_field_events(
    mods: KeyModifiers,
    cursor: FieldCursor,
    text_len: usize,
    on_windows: bool,
    has_ime: bool,
    same: bool,
    t: String,
    k: EditKey,
)
    ensures
        (event_action_spec(FieldEvent::Key(FieldKey::Enter, mods), cursor, text_len, on_windows, has_ime, same).0
            == FieldAction::EndInput) <==> !mods.ctrl,
        mods.ctrl ==> event_action_spec(FieldEvent::Key(FieldKey::Z, mods), cursor, text_len, on_windows, has_ime, same).0
            == FieldAction::History(HistoryStep::Undo),
        mods.ctrl ==> event_action_spec(FieldEvent::Key(FieldKey::Y, mods), cursor, text_len, on_windows, has_ime, same).0
            == FieldAction::History(HistoryStep::Redo),
        !mods.ctrl ==> event_action_spec(FieldEvent::Key(FieldKey::Z, mods), cursor, text_len, on_windows, has_ime, same).0
            == FieldAction::Nothing,
        t@.len() > 0 && t@ != seq!['\n'] && t@ != seq!['\r'] ==> event_action_spec(
            FieldEvent::Text(t),
            cursor,
            text_len,
            on_windows,
            has_ime,
            same,
        ).0 == FieldAction::Insert(t),
        t@.len() == 0 ==> event_action_spec(FieldEvent::Text(t), cursor, text_len, on_windows, has_ime, same).0
            == FieldAction::Nothing,
        event_action_spec(FieldEvent::CompositionStart, cursor, text_len, on_windows, has_ime, same).1,
        t@ != seq!['\n'] && t@ != seq!['\r'] ==> !event_action_spec(
            FieldEvent::CompositionEnd(t),
            cursor,
            text_len,
            on_windows,
            has_ime,
            same,
        ).1,
        event_action_spec(FieldEvent::Copy, cursor, text_len, on_windows, has_ime, same).1 == has_ime,
        event_action_spec(FieldEvent::Text(t), cursor, text_len, on_windows, has_ime, same).1 == has_ime,
        event_action_spec(FieldEvent::Key(FieldKey::Edit(k), mods), cursor, text_len, on_windows, has_ime, same).1 == has_ime,
        key_change(k, mods, on_windows, cursor, text_len) matches Some(ch) ==> event_action_spec(
            FieldEvent::Key(FieldKey::Edit(k), mods),
            cursor,
            text_len,
            on_windows,
            has_ime,
            same,
        ).0 == FieldAction::Edit(ch),
        key_change(k, mods, on_windows, cursor, text_len) is None ==> event_action_spec(
            FieldEvent::Key(FieldKey::Edit(k), mods),
            cursor,
            text_len,
            on_windows,
            has_ime,
            same,
        ).0 == FieldAction::Nothing,
{
}

/// An event that ends the input: Enter without Ctrl.
pub open spec fn ends_the_input(e: FieldEvent) -> bool {
    e matches FieldEvent::Key(FieldKey::Enter, mods) && !mods.ctrl
}

/// The field handles its events in order up to the first that ends the
/// input, that one included, and all of them when none does.
pub proof fn law_events_stop_at_enter(events: Seq<FieldEvent>)
    ensures
        0 <= handled_count(events) <= events.len(),
        forall|j: int| 0 <= j < handled_count(events) - 1 ==> !ends_the_input(#[trigger] events[j]),
        handled_count(events) < events.len() ==> handled_count(events) > 0
            && ends_the_input(events[handled_count(events) - 1]),
        handled_count(events) == events.len() && events.len() > 0 ==> (forall|j: int|
            0 <= j < events.len() - 1 ==> !ends_the_input(#[trigger] events[j])),
    decreases events.len(),
{
    if events.len() > 0 {
        let rest = events.drop_first();
        law_events_stop_at_enter(rest);
        if !ends_the_input(events[0]) {
            assert forall|j: int| 0 <= j < handled_count(events) - 1 implies !ends_the_input(
                #[trigger] events[j],
            ) by {
                if j > 0 {
                    assert(events[j] == rest[j - 1]);
                }
            }
            if handled_count(events) < events.len() {
                assert(events[handled_count(events) - 1] == rest[handled_count(rest) - 1]);
            }
        }
    }
}

/// A control of the image dialog can be used only while its part is
/// switched on; the fit algorithm needs both a target width and a target
/// height, the ESRGAN model the ESRGAN algorithm, and the infill colour the
/// blur technique; switching a part on makes its plain controls usable.
pub proof fn law_image_controls_follow_their_part(s: ImageFormSwitches)
    ensures
        !s.scale_enabled ==> !image_form_enabled_spec(s).target_width && !image_form_enabled_spec(s).target_height
            && !image_form_enabled_spec(s).fit_algorithm && !image_form_enabled_spec(s).esrgan_model
            && !image_form_enabled_spec(s).maximum_scaling && !image_form_enabled_spec(s).other_scaling,
        !s.infill_enabled ==> !image_form_enabled_spec(s).infill_colour && !image_form_enabled_spec(s).gaussian_radius
            && !image_form_enabled_spec(s).brightness && !image_form_enabled_spec(s).contrast
            && !image_form_enabled_spec(s).other_infill,
        image_form_enabled_spec(s).compression == s.compression_enabled,
        image_form_enabled_spec(s).fit_algorithm <==> (s.scale_enabled && s.use_target_width && s.use_target_height),
        image_form_enabled_spec(s).esrgan_model <==> (s.scale_enabled && s.scale_algorithm == ScaleAlgorithm::Esrgan),
        image_form_enabled_spec(s).infill_colour <==> (s.infill_enabled && s.infill_technique == InfillTechnique::Blur),
        s.scale_enabled ==> image_form_enabled_spec(s).other_scaling,
        s.infill_enabled ==> image_form_enabled_spec(s).other_infill,
{
}

} // verus!
