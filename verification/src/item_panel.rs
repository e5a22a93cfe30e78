//! The item panel: the tags of the selected item, edited as a whole or one
//! added at a time, and the label shown when several items are selected.

use vstd::prelude::*;
use vstd::string::StringExecFns;
use crate::fmt::{decimal, format_u64};
use crate::list_edit::ListEditResult;
use crate::tag::{value_type, FieldType, FieldValue};

verus! {

/// No id occurs twice among the fields.
pub open spec fn ids_distinct(s: Seq<(u128, FieldValue)>) -> bool {
    forall|i: int, j: int| 0 <= i < j < s.len() ==> (#[trigger] s[i]).0 != (#[trigger] s[j]).0
}

/// The fields as a map from tag id to value (a later entry wins).
pub open spec fn field_map(s: Seq<(u128, FieldValue)>) -> Map<u128, FieldValue>
    decreases s.len(),
{
    if s.len() == 0 {
        Map::empty()
    } else {
        field_map(s.drop_last()).insert(s.last().0, s.last().1)
    }
}

/// A tag id has a field exactly when some entry carries it.
pub proof fn lemma_field_map_dom(s: Seq<(u128, FieldValue)>, k: u128)
    ensures
        field_map(s).dom().contains(k) <==> exists|i: int| 0 <= i < s.len() && (#[trigger] s[i]).0 == k,
    decreases s.len(),
{
    if s.len() > 0 {
        lemma_field_map_dom(s.drop_last(), k);
        if field_map(s).dom().contains(k) && k != s.last().0 {
            let i = choose|i: int| 0 <= i < s.drop_last().len() && (#[trigger] s.drop_last()[i]).0 == k;
            assert(s[i] == s.drop_last()[i]);
        }
        if exists|i: int| 0 <= i < s.len() && (#[trigger] s[i]).0 == k {
            let i = choose|i: int| 0 <= i < s.len() && (#[trigger] s[i]).0 == k;
            if i < s.len() - 1 {
                assert(s.drop_last()[i] == s[i]);
            }
        }
    }
}

/// With distinct ids, the field of an id is the value of its entry.
pub proof fn lemma_field_map_value(s: Seq<(u128, FieldValue)>, i: int)
    requires
        ids_distinct(s),
        0 <= i < s.len(),
    ensures
        field_map(s).dom().contains(s[i].0),
        field_map(s)[s[i].0] == s[i].1,
    decreases s.len(),
{
    if i < s.len() - 1 {
        assert(ids_distinct(s.drop_last()));
        lemma_field_map_value(s.drop_last(), i);
        assert(s.drop_last()[i] == s[i]);
        assert(s[i].0 != s.last().0);
    }
}

/// The fields of an item while its tags are edited, each tag at most once.
pub struct FieldStore {
    fields: Vec<(u128, FieldValue)>,
}

impl FieldStore {
    /// The fields, tag id to value.
    pub closed spec fn view(self) -> Map<u128, FieldValue> {
        field_map(self.fields@)
    }

    /// Each tag has one entry.
    pub closed spec fn wf(self) -> bool {
        ids_distinct(self.fields@)
    }

    /// A store without fields.
    pub fn new() -> (s: Self)
        ensures
            s.wf(),
            s.view() == Map::<u128, FieldValue>::empty(),
    {
        FieldStore { fields: Vec::new() }
    }

    /// The position of the entry of `id`, if it has one.
    fn position(&self, id: u128) -> (r: Option<usize>)
        requires
            self.wf(),
        ensures
            r is None <==> !self.view().dom().contains(id),
            r matches Some(i) ==> i < self.fields@.len() && self.fields@[i as int].0 == id,
    {
        let mut i: usize = 0;
        while i < self.fields.len()
            invariant
                i <= self.fields@.len(),
                forall|j: int| 0 <= j < i ==> (#[trigger] self.fields@[j]).0 != id,
            decreases self.fields.len() - i,
        {
            if self.fields[i].0 == id {
                proof {
                    lemma_field_map_dom(self.fields@, id);
                    assert(self.fields@[i as int].0 == id);
                }
                return Some(i);
            }
            i = i + 1;
        }
        proof {
            lemma_field_map_dom(self.fields@, id);
        }
        None
    }

    /// Whether the tag `id` has a field.
    pub fn has_field(&self, id: u128) -> (r: bool)
        requires
            self.wf(),
        ensures
            r == self.view().dom().contains(id),
    {
        self.position(id).is_some()
    }

    /// Sets the value of the tag `id`, adding the field when it has none.
    pub fn set_field_value(&mut self, id: u128, value: FieldValue)
        requires
            old(self).wf(),
        ensures
            final(self).wf(),
            final(self).view() == old(self).view().insert(id, value),
    {
        let ghost s0 = self.fields@;
        match self.position(id) {
            Some(i) => {
                self.fields.set(i, (id, value));
                proof {
                    let s1 = self.fields@;
                    assert(s1 =~= s0.update(i as int, (id, value)));
                    assert(ids_distinct(s1)) by {
                        assert forall|a: int, b: int| 0 <= a < b < s1.len() implies (#[trigger] s1[a]).0
                            != (#[trigger] s1[b]).0 by {
                            if a != i && b != i {
                                assert(s1[a] == s0[a] && s1[b] == s0[b]);
                            } else if a == i {
                                assert(s0[a].0 == id && s1[b] == s0[b]);
                            } else {
                                assert(s0[b].0 == id && s1[a] == s0[a]);
                            }
                        }
                    }
                    assert forall|k: u128| #[trigger] field_map(s1).dom().contains(k) <==> field_map(
                        s0,
                    ).insert(id, value).dom().contains(k) by {
                        lemma_field_map_dom(s1, k);
                        lemma_field_map_dom(s0, k);
                        if exists|j: int| 0 <= j < s0.len() && (#[trigger] s0[j]).0 == k {
                            let j = choose|j: int| 0 <= j < s0.len() && (#[trigger] s0[j]).0 == k;
                            assert(s1[j].0 == k);
                        }
                        if exists|j: int| 0 <= j < s1.len() && (#[trigger] s1[j]).0 == k {
                            let j = choose|j: int| 0 <= j < s1.len() && (#[trigger] s1[j]).0 == k;
                            if j != i {
                                assert(s0[j].0 == k);
                            }
                        }
                    }
                    assert forall|k: u128| #[trigger] field_map(s1).dom().contains(k) implies field_map(
                        s1,
                    )[k] == field_map(s0).insert(id, value)[k] by {
                        lemma_field_map_dom(s1, k);
                        let j = choose|j: int| 0 <= j < s1.len() && (#[trigger] s1[j]).0 == k;
                        lemma_field_map_value(s1, j);
                        if j != i {
                            lemma_field_map_value(s0, j);
                        }
                    }
                    assert(field_map(s1) =~= field_map(s0).insert(id, value));
                }
            },
            None => {
                self.fields.push((id, value));
                proof {
                    let s1 = self.fields@;
                    assert(s1.drop_last() =~= s0);
                    assert(ids_distinct(s1)) by {
                        assert forall|a: int, b: int| 0 <= a < b < s1.len() implies (#[trigger] s1[a]).0
                            != (#[trigger] s1[b]).0 by {
                            if b == s0.len() {
                                lemma_field_map_dom(s0, id);
                                assert(s0[a] == s1[a]);
                            } else {
                                assert(s0[a] == s1[a] && s0[b] == s1[b]);
                            }
                        }
                    }
                }
            },
        }
    }

    /// Removes the field of the tag `id`, if it has one.
    pub fn remove_field(&mut self, id: u128)
        requires
            old(self).wf(),
        ensures
            final(self).wf(),
            final(self).view() == old(self).view().remove(id),
    {
        let ghost s0 = self.fields@;
        match self.position(id) {
            Some(i) => {
                let _ = self.fields.remove(i);
                proof {
                    let s1 = self.fields@;
                    assert(s1 =~= s0.remove(i as int));
                    assert forall|j: int| 0 <= j < s1.len() implies #[trigger] s1[j] == (if j < i {
                        s0[j]
                    } else {
                        s0[j + 1]
                    }) by {}
                    assert(ids_distinct(s1)) by {
                        assert forall|a: int, b: int| 0 <= a < b < s1.len() implies (#[trigger] s1[a]).0
                            != (#[trigger] s1[b]).0 by {
                            let a0 = if a < i { a } else { a + 1 };
                            let b0 = if b < i { b } else { b + 1 };
                            assert(s1[a] == s0[a0] && s1[b] == s0[b0]);
                        }
                    }
                    assert forall|k: u128| #[trigger] field_map(s1).dom().contains(k) <==> field_map(
                        s0,
                    ).remove(id).dom().contains(k) by {
                        lemma_field_map_dom(s1, k);
                        lemma_field_map_dom(s0, k);
                        if exists|j: int| 0 <= j < s0.len() && (#[trigger] s0[j]).0 == k {
                            let j = choose|j: int| 0 <= j < s0.len() && (#[trigger] s0[j]).0 == k;
                            if j < i {
                                assert(s1[j].0 == k);
                            } else if j > i {
                                assert(s1[j - 1].0 == k);
                            }
                        }
                        if exists|j: int| 0 <= j < s1.len() && (#[trigger] s1[j]).0 == k {
                            let j = choose|j: int| 0 <= j < s1.len() && (#[trigger] s1[j]).0 == k;
                            let j0 = if j < i { j } else { j + 1 };
                            assert(s0[j0].0 == k);
                            assert(j0 != i);
                        }
                    }
                    assert forall|k: u128| #[trigger] field_map(s1).dom().contains(k) implies field_map(
                        s1,
                    )[k] == field_map(s0).remove(id)[k] by {
                        lemma_field_map_dom(s1, k);
                        let j = choose|j: int| 0 <= j < s1.len() && (#[trigger] s1[j]).0 == k;
                        lemma_field_map_value(s1, j);
                        let j0 = if j < i { j } else { j + 1 };
                        lemma_field_map_value(s0, j0);
                    }
                    assert(field_map(s1) =~= field_map(s0).remove(id));
                }
            },
            None => {
                assert(field_map(s0) =~= field_map(s0).remove(id));
            },
        }
    }

    /// A store of the given fields.
    pub fn from_fields(fields: Vec<(u128, FieldValue)>) -> (s: Self)
        requires
            ids_distinct(fields@),
        ensures
            s.wf(),
            s.view() == field_map(fields@),
    {
        FieldStore { fields }
    }

    /// Removes every field.
    pub fn clear(&mut self)
        ensures
            final(self).wf(),
            final(self).view() == Map::<u128, FieldValue>::empty(),
    {
        self.fields = Vec::new();
    }

    /// Number of fields.
    pub fn len(&self) -> (n: usize)
        requires
            self.wf(),
        ensures
            n == self.view().dom().len(),
    {
        proof {
            lemma_field_map_len(self.fields@);
        }
        self.fields.len()
    }
}

/// With distinct ids there are as many fields as entries.
proof fn lemma_field_map_len(s: Seq<(u128, FieldValue)>)
    requires
        ids_distinct(s),
    ensures
        field_map(s).dom().finite(),
        field_map(s).dom().len() == s.len(),
    decreases s.len(),
{
    if s.len() > 0 {
        let t = s.drop_last();
        assert(ids_distinct(t));
        lemma_field_map_len(t);
        lemma_field_map_dom(t, s.last().0);
        if field_map(t).dom().contains(s.last().0) {
            let j = choose|j: int| 0 <= j < t.len() && (#[trigger] t[j]).0 == s.last().0;
            assert(s[j] == t[j]);
        }
    }
}

/// How the fields change when a list edit of the tag rows is applied; the
/// rows show the tags `row_ids`, in order.
pub open spec fn edited_fields(
    fields: Map<u128, FieldValue>,
    row_ids: Seq<u128>,
    result: ListEditResult<FieldValue, (u128, FieldValue)>,
) -> Map<u128, FieldValue> {
    match result {
        ListEditResult::Unchanged => fields,
        ListEditResult::Add((id, v)) => fields.insert(id, v),
        ListEditResult::Remove(i) => fields.remove(row_ids[i as int]),
        ListEditResult::Edit(i, v) => fields.insert(row_ids[i as int], v),
    }
}

/// A list edit refers to rows that exist.
pub open spec fn rows_exist(
    row_ids: Seq<u128>,
    result: ListEditResult<FieldValue, (u128, FieldValue)>,
) -> bool {
    match result {
        ListEditResult::Remove(i) => i < row_ids.len(),
        ListEditResult::Edit(i, _) => i < row_ids.len(),
        _ => true,
    }
}

/// Applies the outcome of the tag rows' list editor to the fields being
/// edited: an added tag gets its value, a removed row's tag loses its field,
/// an edited row's tag gets the new value.
pub fn apply_list_edit(
    store: &mut FieldStore,
    row_ids: &[u128],
    result: ListEditResult<FieldValue, (u128, FieldValue)>,
)
    requires
        old(store).wf(),
        rows_exist(row_ids@, result),
    ensures
        final(store).wf(),
        final(store).view() == edited_fields(old(store).view(), row_ids@, result),
{
    match result {
        ListEditResult::Unchanged => {},
        ListEditResult::Add((id, v)) => store.set_field_value(id, v),
        ListEditResult::Remove(i) => store.remove_field(row_ids[i]),
        ListEditResult::Edit(i, v) => store.set_field_value(row_ids[i], v),
    }
}

/// Two floats, by their bits, are equal as ordered floats: any two NaNs are
/// equal, the two zeros are equal, and other values by their bits.
pub open spec fn float_bits_eq(a: u64, b: u64) -> bool {
    let a_nan = a & 0x7ff0_0000_0000_0000 == 0x7ff0_0000_0000_0000 && a & 0x000f_ffff_ffff_ffff
        != 0;
    let b_nan = b & 0x7ff0_0000_0000_0000 == 0x7ff0_0000_0000_0000 && b & 0x000f_ffff_ffff_ffff
        != 0;
    if a_nan || b_nan {
        a_nan && b_nan
    } else {
        a == b || (a & 0x7fff_ffff_ffff_ffff == 0 && b & 0x7fff_ffff_ffff_ffff == 0)
    }
}

fn float_eq(a: u64, b: u64) -> (r: bool)
    ensures
        r == float_bits_eq(a, b),
{
    let a_nan = a & 0x7ff0_0000_0000_0000 == 0x7ff0_0000_0000_0000 && a & 0x000f_ffff_ffff_ffff
        != 0;
    let b_nan = b & 0x7ff0_0000_0000_0000 == 0x7ff0_0000_0000_0000 && b & 0x000f_ffff_ffff_ffff
        != 0;
    if a_nan || b_nan {
        a_nan && b_nan
    } else {
        a == b || (a & 0x7fff_ffff_ffff_ffff == 0 && b & 0x7fff_ffff_ffff_ffff == 0)
    }
}

/// Two values are equal: of the same kind with equal contents, texts by
/// their characters.
pub open spec fn value_eq(a: FieldValue, b: FieldValue) -> bool
    decreases a,
{
    match (a, b) {
        (FieldValue::Tag, FieldValue::Tag) => true,
        (FieldValue::Container, FieldValue::Container) => true,
        (FieldValue::Boolean(x), FieldValue::Boolean(y)) => x == y,
        (FieldValue::Int(x), FieldValue::Int(y)) => x == y,
        (FieldValue::Float(x), FieldValue::Float(y)) => float_bits_eq(x, y),
        (FieldValue::Str(x), FieldValue::Str(y)) => x@ == y@,
        (FieldValue::ItemRef(v1, p1), FieldValue::ItemRef(v2, p2)) => v1@ == v2@ && p1@ == p2@,
        (FieldValue::Colour(r1, g1, b1), FieldValue::Colour(r2, g2, b2)) => r1 == r2 && g1 == g2
            && b1 == b2,
        (FieldValue::DateTime(x), FieldValue::DateTime(y)) => x == y,
        (FieldValue::List(x), FieldValue::List(y)) => x.len() == y.len() && forall|i: int|
            0 <= i < x.len() ==> value_eq(#[trigger] x@[i], y@[i]),
        (FieldValue::Dictionary(x), FieldValue::Dictionary(y)) => x.len() == y.len() && forall|
            i: int,
        |
            0 <= i < x.len() ==> (#[trigger] x@[i]).0@ == y@[i].0@ && value_eq(x@[i].1, y@[i].1),
        _ => false,
    }
}

/// Whether two values are equal.
pub fn values_equal(a: &FieldValue, b: &FieldValue) -> (r: bool)
    ensures
        r == value_eq(*a, *b),
    decreases *a,
{
    match (a, b) {
        (FieldValue::Tag, FieldValue::Tag) => true,
        (FieldValue::Container, FieldValue::Container) => true,
        (FieldValue::Boolean(x), FieldValue::Boolean(y)) => *x == *y,
        (FieldValue::Int(x), FieldValue::Int(y)) => *x == *y,
        (FieldValue::Float(x), FieldValue::Float(y)) => float_eq(*x, *y),
        (FieldValue::Str(x), FieldValue::Str(y)) => *x == *y,
        (FieldValue::ItemRef(v1, p1), FieldValue::ItemRef(v2, p2)) => *v1 == *v2 && *p1 == *p2,
        (FieldValue::Colour(r1, g1, b1), FieldValue::Colour(r2, g2, b2)) => *r1 == *r2 && *g1
            == *g2 && *b1 == *b2,
        (FieldValue::DateTime(x), FieldValue::DateTime(y)) => *x == *y,
        (FieldValue::List(x), FieldValue::List(y)) => {
            if x.len() != y.len() {
                return false;
            }
            let mut i: usize = 0;
            while i < x.len()
                invariant
                    *a == FieldValue::List(*x),
                    *b == FieldValue::List(*y),
                    x.len() == y.len(),
                    i <= x.len(),
                    forall|j: int| 0 <= j < i ==> value_eq(#[trigger] x@[j], y@[j]),
                decreases x.len() - i,
            {
                proof {
                    assert(decreases_to!(*a => (*a)->List_0));
                    assert(decreases_to!(*x => x@));
                    assert(decreases_to!(x@ => x@[i as int]));
                }
                if !values_equal(&x[i], &y[i]) {
                    assert(!value_eq(x@[i as int], y@[i as int]));
                    return false;
                }
                i = i + 1;
            }
            true
        },
        (FieldValue::Dictionary(x), FieldValue::Dictionary(y)) => {
            if x.len() != y.len() {
                return false;
            }
            let mut i: usize = 0;
            while i < x.len()
                invariant
                    *a == FieldValue::Dictionary(*x),
                    *b == FieldValue::Dictionary(*y),
                    x.len() == y.len(),
                    i <= x.len(),
                    forall|j: int|
                        0 <= j < i ==> (#[trigger] x@[j]).0@ == y@[j].0@ && value_eq(
                            x@[j].1,
                            y@[j].1,
                        ),
                decreases x.len() - i,
            {
                if !(x[i].0 == y[i].0) {
                    assert(!(x@[i as int].0@ == y@[i as int].0@));
                    return false;
                }
                proof {
                    assert(decreases_to!(*a => (*a)->Dictionary_0));
                    assert(decreases_to!(*x => x@));
                    assert(decreases_to!(x@ => x@[i as int]));
                    assert(decreases_to!(x@[i as int] => x@[i as int].1));
                }
                if !values_equal(&x[i].1, &y[i].1) {
                    assert(!value_eq(x@[i as int].1, y@[i as int].1));
                    return false;
                }
                i = i + 1;
            }
            true
        },
        _ => false,
    }
}

/// The value a tag row hands back after the user edited it: the new value,
/// when it has the tag's kind and differs from the current one.
pub fn edited_value(field_type: FieldType, current: &FieldValue, new: Option<FieldValue>) -> (r:
    Option<FieldValue>)
    ensures
        match new {
            Some(v) => if value_type(v) == field_type && !value_eq(v, *current) {
                r == Some(v)
            } else {
                r is None
            },
            None => r is None,
        },
{
    match new {
        Some(v) => {
            if v.get_type() == field_type && !values_equal(&v, current) {
                Some(v)
            } else {
                None
            }
        },
        None => None,
    }
}

/// The field that the add-tag row creates: a plain tag at once, a tag of
/// another kind when its value has that kind and the user accepted it.
pub fn created_field(id: u128, field_type: FieldType, value: Option<FieldValue>, accepted: bool) -> (r:
    Option<(u128, FieldValue)>)
    ensures
        field_type == FieldType::Tag ==> r == Some((id, FieldValue::Tag)),
        field_type != FieldType::Tag ==> match value {
            Some(v) => if accepted && value_type(v) == field_type {
                r == Some((id, v))
            } else {
                r is None
            },
            None => r is None,
        },
{
    if field_type == FieldType::Tag {
        Some((id, FieldValue::Tag))
    } else {
        match value {
            Some(v) => if accepted && v.get_type() == field_type {
                Some((id, v))
            } else {
                None
            },
            None => None,
        }
    }
}

/// The form of the add-tag row.
pub struct CreateState {
    pub tag_id: Option<u128>,
    pub tag_value: Option<FieldValue>,
    pub focused: bool,
    pub cancelled: bool,
}

impl CreateState {
    /// A fresh form: nothing chosen, and the tag finder takes the focus.
    pub fn new() -> (s: Self)
        ensures
            s.tag_id is None,
            s.tag_value is None,
            s.focused,
            !s.cancelled,
    {
        CreateState { tag_id: None, tag_value: None, focused: true, cancelled: false }
    }
}

/// The panel's mode: editing all tags of the item, adding one tag, or
/// viewing them.
pub struct PanelState {
    pub is_editing: bool,
    pub is_adding: bool,
    pub quick_create_state: CreateState,
    pub field_store: FieldStore,
}

/// The keys and buttons of one frame of the panel while it shows the tags.
pub struct ViewInput {
    pub edit_clicked: bool,
    pub edit_key: bool,
    pub add_clicked: bool,
    pub add_key: bool,
}

impl PanelState {
    /// Neither editing nor adding.
    pub fn new() -> (s: Self)
        ensures
            !s.is_editing,
            !s.is_adding,
            s.quick_create_state.tag_id is None,
            s.quick_create_state.tag_value is None,
            s.quick_create_state.focused,
            !s.quick_create_state.cancelled,
            s.field_store.wf(),
            s.field_store.view() == Map::<u128, FieldValue>::empty(),
    {
        PanelState {
            is_editing: false,
            is_adding: false,
            quick_create_state: CreateState::new(),
            field_store: FieldStore::new(),
        }
    }

    /// The panel only shows the tags.
    pub open spec fn viewing(self) -> bool {
        !self.is_editing && !self.is_adding
    }

    /// The buttons and keys of a frame in which the panel shows the tags:
    /// "Edit tags" (or `E` while only viewing) starts editing a copy of the
    /// item's fields; "Add tag" (shown while not adding, or `A` while only
    /// viewing) opens a fresh add row. `item_fields` are the item's fields.
    pub fn view_buttons(&mut self, input: &ViewInput, item_fields: Vec<(u128, FieldValue)>)
        requires
            ids_distinct(item_fields@),
        ensures
            ({
                let viewing = old(self).viewing();
                let edit = input.edit_clicked || (viewing && input.edit_key);
                let add = (!old(self).is_adding && input.add_clicked) || (viewing && input.add_key);
                &&& final(self).is_editing == (old(self).is_editing || edit)
                &&& final(self).is_adding == (old(self).is_adding || add)
                &&& edit ==> final(self).field_store.wf() && final(self).field_store.view()
                    == field_map(item_fields@)
                &&& !edit ==> final(self).field_store == old(self).field_store
                &&& add ==> final(self).quick_create_state.tag_id is None
                    && final(self).quick_create_state.tag_value is None
                    && final(self).quick_create_state.focused
                    && !final(self).quick_create_state.cancelled
            }),
    {
        let viewing = !self.is_editing && !self.is_adding;
        if input.edit_clicked || (viewing && input.edit_key) {
            self.is_editing = true;
            self.field_store = FieldStore::from_fields(item_fields);
        } else {
            let _ = item_fields;
        }
        if (!self.is_adding && input.add_clicked) || (viewing && input.add_key) {
            self.is_adding = true;
            self.quick_create_state = CreateState::new();
        }
    }

    /// The end of a frame of the add row: a created field is set on the
    /// item (the caller saves it) and closes the row, as does cancelling.
    /// Hands back the field to set.
    pub fn finish_add_row(&mut self, created: Option<(u128, FieldValue)>) -> (r: Option<(u128, FieldValue)>)
        ensures
            r == created,
            final(self).is_editing == old(self).is_editing,
            final(self).is_adding == (old(self).is_adding && created is None
                && !old(self).quick_create_state.cancelled),
    {
        if created.is_some() || self.quick_create_state.cancelled {
            self.is_adding = false;
        }
        created
    }

    /// "Cancel" or "OK" ends editing; with "OK" the item takes the edited
    /// fields (the caller replaces the item's fields and saves). Hands back
    /// whether the item is to be written.
    pub fn end_editing(&mut self, ok: bool) -> (write: bool)
        ensures
            write == ok,
            !final(self).is_editing,
            final(self).is_adding == old(self).is_adding,
            final(self).field_store == old(self).field_store,
    {
        self.is_editing = false;
        ok
    }
}

/// The label of the panel when several items (or none) are selected.
pub open spec fn items_label_text(n: nat) -> Seq<char> {
    decimal(n) + " item"@ + if n == 1 { ""@ } else { "s"@ }
}

/// The label of the panel when several items (or none) are selected:
/// "3 items", "1 item".
pub fn items_label(n: usize) -> (s: String)
    ensures
        s@ == items_label_text(n as nat),
{
    let mut s = format_u64(n as u64);
    s.append(" item");
    if n != 1 {
        s.append("s");
    }
    proof {
        reveal_strlit(" item");
        reveal_strlit("s");
        reveal_strlit("");
    }
    s
}

} // verus!
