//! Tags: their definitions and values, and what the tag widget shows for
//! them (the hanger on the left, the name, and the value on the right).

use vstd::prelude::*;
use vstd::string::StringExecFns;
use crate::fmt::{format_i64, signed_decimal};
use crate::thumb_cache::{now_millis, time_bound};

verus! {

/// The kind of value a tag carries.
#[derive(Debug, Copy, Clone, PartialEq, Eq, Structural)]
pub enum FieldType {
    Tag,
    Container,
    Boolean,
    Int,
    Float,
    Colour,
    Str,
    ItemRef,
    List,
    Dictionary,
    DateTime,
}

/// A value of a tag on an item.
#[derive(Debug, PartialEq)]
pub enum FieldValue {
    Tag,
    Container,
    Boolean(bool),
    Int(i64),
    /// A float, held as the bits of its `f64` (`f64::to_bits`).
    Float(u64),
    Str(String),
    /// A reference to an item: the vault's name and the item's path.
    ItemRef(String, String),
    /// An sRGB colour.
    Colour(u8, u8, u8),
    /// A moment, as seconds since the Unix epoch.
    DateTime(i64),
    List(Vec<FieldValue>),
    Dictionary(Vec<(String, FieldValue)>),
}

/// The kind of a value.
pub open spec fn value_type(v: FieldValue) -> FieldType {
    match v {
        FieldValue::Tag => FieldType::Tag,
        FieldValue::Container => FieldType::Container,
        FieldValue::Boolean(_) => FieldType::Boolean,
        FieldValue::Int(_) => FieldType::Int,
        FieldValue::Float(_) => FieldType::Float,
        FieldValue::Str(_) => FieldType::Str,
        FieldValue::ItemRef(_, _) => FieldType::ItemRef,
        FieldValue::Colour(_, _, _) => FieldType::Colour,
        FieldValue::DateTime(_) => FieldType::DateTime,
        FieldValue::List(_) => FieldType::List,
        FieldValue::Dictionary(_) => FieldType::Dictionary,
    }
}

impl FieldValue {
    /// The kind of this value.
    pub fn get_type(&self) -> (t: FieldType)
        ensures
            t == value_type(*self),
    {
        match self {
            FieldValue::Tag => FieldType::Tag,
            FieldValue::Container => FieldType::Container,
            FieldValue::Boolean(_) => FieldType::Boolean,
            FieldValue::Int(_) => FieldType::Int,
            FieldValue::Float(_) => FieldType::Float,
            FieldValue::Str(_) => FieldType::Str,
            FieldValue::ItemRef(_, _) => FieldType::ItemRef,
            FieldValue::Colour(_, _, _) => FieldType::Colour,
            FieldValue::DateTime(_) => FieldType::DateTime,
            FieldValue::List(_) => FieldType::List,
            FieldValue::Dictionary(_) => FieldType::Dictionary,
        }
    }
}

/// The definition of a tag: its identity, name and kind, and where it stands
/// in the hierarchy of tags.
#[derive(Debug, Clone)]
pub struct FieldDefinition {
    pub id: u128,
    pub name: String,
    pub field_type: FieldType,
    pub colour: Option<(u8, u8, u8)>,
    pub parent_ids: Vec<u128>,
    pub child_ids: Vec<u128>,
    pub aliases: Vec<String>,
}

/// The texts of a list of strings.
pub open spec fn alias_texts(a: Seq<String>) -> Seq<Seq<char>> {
    a.map_values(|s: String| s@)
}

/// Two definitions that say the same: the same id, name, kind, colour,
/// parents, children and aliases.
pub open spec fn same_definition(a: FieldDefinition, b: FieldDefinition) -> bool {
    &&& a.id == b.id
    &&& a.name@ == b.name@
    &&& a.field_type == b.field_type
    &&& a.colour == b.colour
    &&& a.parent_ids@ == b.parent_ids@
    &&& a.child_ids@ == b.child_ids@
    &&& alias_texts(a.aliases@) == alias_texts(b.aliases@)
}

fn copy_ids(v: &Vec<u128>) -> (r: Vec<u128>)
    ensures
        r@ == v@,
{
    let mut r: Vec<u128> = Vec::new();
    let mut i: usize = 0;
    while i < v.len()
        invariant
            i <= v@.len(),
            r@ == v@.take(i as int),
        decreases v@.len() - i,
    {
        r.push(v[i]);
        assert(v@.take(i + 1) =~= v@.take(i as int).push(v@[i as int]));
        i = i + 1;
    }
    assert(v@.take(i as int) =~= v@);
    r
}

fn copy_texts(v: &Vec<String>) -> (r: Vec<String>)
    ensures
        alias_texts(r@) == alias_texts(v@),
{
    let mut r: Vec<String> = Vec::new();
    let mut i: usize = 0;
    while i < v.len()
        invariant
            i <= v@.len(),
            alias_texts(r@) == alias_texts(v@.take(i as int)),
        decreases v@.len() - i,
    {
        let ghost before = r@;
        r.push(v[i].clone());
        assert(alias_texts(r@) =~= alias_texts(before).push(v@[i as int]@));
        assert(alias_texts(v@.take(i + 1)) =~= alias_texts(v@.take(i as int)).push(v@[i as int]@));
        i = i + 1;
    }
    assert(v@.take(i as int) =~= v@);
    r
}

impl FieldDefinition {
    /// A definition that says the same as this one.
    pub fn duplicate(&self) -> (r: Self)
        ensures
            same_definition(r, *self),
    {
        FieldDefinition {
            id: self.id,
            name: self.name.clone(),
            field_type: self.field_type,
            colour: self.colour,
            parent_ids: copy_ids(&self.parent_ids),
            child_ids: copy_ids(&self.child_ids),
            aliases: copy_texts(&self.aliases),
        }
    }
}

/// A tag as the widget draws it: a definition, maybe with a value.
pub struct Tag<'a> {
    pub definition: &'a FieldDefinition,
    pub value: Option<&'a FieldValue>,
    pub use_small: bool,
    pub selected: bool,
}

impl<'a> Tag<'a> {
    /// A tag of normal size, without a value, not selected.
    pub fn new(definition: &'a FieldDefinition) -> (t: Self)
        ensures
            t.definition == definition,
            t.value is None,
            !t.use_small,
            !t.selected,
    {
        Tag { definition, value: None, use_small: false, selected: false }
    }

    /// The same tag, drawn small or not.
    pub fn small(self, small: bool) -> (t: Self)
        ensures
            t.use_small == small,
            t.definition == self.definition,
            t.value == self.value,
            t.selected == self.selected,
    {
        let mut t = self;
        t.use_small = small;
        t
    }

    /// The same tag, showing `value`.
    pub fn value(self, value: &'a FieldValue) -> (t: Self)
        ensures
            t.value == Some(value),
            t.definition == self.definition,
            t.use_small == self.use_small,
            t.selected == self.selected,
    {
        let mut t = self;
        t.value = Some(value);
        t
    }

    /// The same tag, outlined as selected or not.
    pub fn selected(self, selected: bool) -> (t: Self)
        ensures
            t.selected == selected,
            t.definition == self.definition,
            t.value == self.value,
            t.use_small == self.use_small,
    {
        let mut t = self;
        t.selected = selected;
        t
    }
}

/// The hanger drawn left of a tag's name.
#[derive(Debug, Copy, Clone)]
pub enum Hanger {
    /// A plain tag: a diamond with a ring, like a luggage tag.
    Ring,
    /// A container has no hanger.
    NoHanger,
    /// A valued tag: a coloured box with a symbol for the kind of value.
    Symbol { text: &'static str, r: u8, g: u8, b: u8 },
}

/// Symbol and colour of the hanger of each kind of valued tag.
pub open spec fn hanger_symbol(t: FieldType) -> (Seq<char>, u8, u8, u8) {
    match t {
        FieldType::Boolean => ("?"@, 255, 255, 0),
        FieldType::Int => ("#"@, 0, 127, 255),
        FieldType::Float => ("%"@, 0, 255, 0),
        FieldType::Str => ("$"@, 255, 0, 0),
        FieldType::ItemRef => ("&"@, 128, 0, 0),
        FieldType::List => ("[]"@, 255, 127, 0),
        FieldType::Colour => ("\u{1f308}"@, 127, 127, 255),
        FieldType::Dictionary => ("{}"@, 255, 0, 255),
        _ => ("\u{23f0}"@, 0, 204, 255),
    }
}

/// The hanger drawn for a kind of tag.
pub open spec fn hanger_spec(t: FieldType, h: Hanger) -> bool {
    match t {
        FieldType::Tag => h == Hanger::Ring,
        FieldType::Container => h == Hanger::NoHanger,
        _ => h matches Hanger::Symbol { text, r, g, b } && (text@, r, g, b) == hanger_symbol(t),
    }
}

/// The hanger drawn for a kind of tag.
pub fn hanger(t: FieldType) -> (h: Hanger)
    ensures
        hanger_spec(t, h),
{
    match t {
        FieldType::Tag => Hanger::Ring,
        FieldType::Container => Hanger::NoHanger,
        FieldType::Boolean => Hanger::Symbol { text: "?", r: 255, g: 255, b: 0 },
        FieldType::Int => Hanger::Symbol { text: "#", r: 0, g: 127, b: 255 },
        FieldType::Float => Hanger::Symbol { text: "%", r: 0, g: 255, b: 0 },
        FieldType::Str => Hanger::Symbol { text: "$", r: 255, g: 0, b: 0 },
        FieldType::ItemRef => Hanger::Symbol { text: "&", r: 128, g: 0, b: 0 },
        FieldType::List => Hanger::Symbol { text: "[]", r: 255, g: 127, b: 0 },
        FieldType::Colour => Hanger::Symbol { text: "\u{1f308}", r: 127, g: 127, b: 255 },
        FieldType::Dictionary => Hanger::Symbol { text: "{}", r: 255, g: 0, b: 255 },
        FieldType::DateTime => Hanger::Symbol { text: "\u{23f0}", r: 0, g: 204, b: 255 },
    }
}

/// What the tag widget shows to the right of the name.
#[derive(Debug, Clone, PartialEq, Eq)]
pub enum ValueText {
    /// Nothing: the value has no text of its own.
    Hidden,
    /// This text.
    Text(String),
    /// A float, given by its bits, to be written in decimal.
    Float(u64),
}

/// The text shown for a value, as a mathematical value, when the clock
/// reads `now_ms` milliseconds since the Unix epoch.
pub open spec fn value_text_spec(v: FieldValue, t: ValueText, now_ms: i64) -> bool {
    match v {
        FieldValue::Tag | FieldValue::Container | FieldValue::List(_) | FieldValue::Dictionary(_) => t
            is Hidden,
        FieldValue::Boolean(b) => t matches ValueText::Text(s) && s@ == (if b {
            "\u{2714}"@
        } else {
            "\u{274c}"@
        }),
        FieldValue::Int(i) => t matches ValueText::Text(s) && s@ == signed_decimal(i as int),
        FieldValue::Float(bits) => t == ValueText::Float(bits),
        FieldValue::Str(s0) => t matches ValueText::Text(s) && s@ == s0@,
        FieldValue::ItemRef(vault, path) => t matches ValueText::Text(s) && s@ == vault@ + ":"@
            + path@,
        FieldValue::Colour(_, _, _) => t matches ValueText::Text(s) && s@ == "     "@,
        FieldValue::DateTime(secs) => t matches ValueText::Text(s) && s@ == relative_text_spec(
            secs,
            now_ms,
        ),
    }
}

/// The moments that chrono can hold, in seconds since the Unix epoch, with a
/// margin: well within years -262143 to 262142.
pub open spec fn moment_in_range(secs: i64) -> bool {
    -8_000_000_000_000 < secs < 8_000_000_000_000
}

/// What `relativetime::english_relative_time` writes for a distance of
/// `secs` seconds ("a few seconds", "3 minutes", "a day", ...).
pub uninterp spec fn english_relative(secs: int) -> Seq<char>;

/// `relativetime::english_relative_time`: the English words for a distance
/// of `secs` seconds, which depend on `secs` alone.
#[verifier::external_body]
fn english_relative_time(secs: i64) -> (s: String)
    ensures
        s@ == english_relative(secs as int),
{
    relativetime::english_relative_time(secs)
}

/// The whole seconds of a duration of `ms` milliseconds, rounded toward zero
/// as chrono's `TimeDelta::num_seconds` counts them.
pub open spec fn whole_seconds(ms: int) -> int {
    if ms < 0 {
        -((-ms) / 1000)
    } else {
        ms / 1000
    }
}

/// How far the moment `secs` lies from the time `now_ms`, as relativetime's
/// `RelativeTime::to_relative` writes it for a date: "in " and the distance
/// for a moment to come (or less than a second past), the distance and
/// " ago" for one past.
pub open spec fn relative_text_spec(secs: i64, now_ms: i64) -> Seq<char> {
    let w = whole_seconds(secs * 1000 - now_ms);
    if w < 0 {
        english_relative(-w) + " ago"@
    } else {
        "in "@ + english_relative(w)
    }
}

/// How far the moment `secs` (seconds since the Unix epoch) lies from the
/// time `now_ms` (milliseconds since the epoch).
pub fn relative_text(secs: i64, now_ms: i64) -> (s: String)
    requires
        moment_in_range(secs),
        -time_bound() < now_ms < time_bound(),
    ensures
        s@ == relative_text_spec(secs, now_ms),
{
    let diff: i64 = secs * 1000 - now_ms;
    let past = diff < 0;
    let abs_ms: u64 = if past {
        (-diff) as u64
    } else {
        diff as u64
    };
    let whole: u64 = abs_ms / 1000;
    let words = english_relative_time(whole as i64);
    if past && whole > 0 {
        let mut t = words;
        t.append(" ago");
        t
    } else {
        let mut t = String::from_str("in ");
        t.append(words.as_str());
        t
    }
}

/// The text shown for a value when the clock reads `now_ms`: a tick or a
/// cross for booleans, the decimal form of integers, the text of strings,
/// `vault:path` for item references, a blank swatch for colours, the
/// distance from now for moments; tags, containers, lists and dictionaries
/// show no value.
pub fn value_text_at(v: &FieldValue, now_ms: i64) -> (t: ValueText)
    requires
        *v matches FieldValue::DateTime(secs) ==> moment_in_range(secs),
        -time_bound() < now_ms < time_bound(),
    ensures
        value_text_spec(*v, t, now_ms),
{
    match v {
        FieldValue::Tag | FieldValue::Container | FieldValue::List(_) | FieldValue::Dictionary(_) => {
            ValueText::Hidden
        },
        FieldValue::Boolean(b) => {
            if *b {
                ValueText::Text(String::from_str("\u{2714}"))
            } else {
                ValueText::Text(String::from_str("\u{274c}"))
            }
        },
        FieldValue::Int(i) => ValueText::Text(format_i64(*i)),
        FieldValue::Float(bits) => ValueText::Float(*bits),
        FieldValue::Str(s) => ValueText::Text(s.clone()),
        FieldValue::ItemRef(vault, path) => {
            let mut s = vault.clone();
            s.append(":");
            s.append(path.as_str());
            ValueText::Text(s)
        },
        FieldValue::Colour(_, _, _) => ValueText::Text(String::from_str("     ")),
        FieldValue::DateTime(secs) => ValueText::Text(relative_text(*secs, now_ms)),
    }
}

/// The text shown for a value, with the clock read now.
pub fn value_text(v: &FieldValue) -> (t: ValueText)
    requires
        *v matches FieldValue::DateTime(secs) ==> moment_in_range(secs),
    ensures
        exists|now_ms: i64|
            -time_bound() < now_ms < time_bound() && #[trigger] value_text_spec(*v, t, now_ms),
{
    let now_ms = now_millis();
    let t = value_text_at(v, now_ms);
    assert(value_text_spec(*v, t, now_ms));
    t
}

/// Which corners of the name's box are rounded: the left ones (`true` for a
/// container, which has no hanger) and the right ones (`true` unless a value
/// follows).
pub fn label_rounding(field_type: FieldType, has_value: bool) -> (r: (bool, bool))
    ensures
        r.0 == (field_type == FieldType::Container),
        r.1 == !has_value,
{
    (field_type == FieldType::Container, !has_value)
}

} // verus!
