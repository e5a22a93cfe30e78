//! Editing the value of a tag: the text typed for numbers and texts, and
//! the value it gives.

use vstd::prelude::*;
use vstd::string::StringExecFns;
use chrono::Timelike;
use crate::fmt::{digit, digit_char, string_push};
use crate::tag::{FieldType, FieldValue};
use crate::thumb_cache::now_millis;

verus! {

/// `c` is an ASCII decimal digit.
pub open spec fn is_digit(c: char) -> bool {
    '0' <= c <= '9'
}

/// The value of a run of decimal digits.
pub open spec fn digits_value(s: Seq<char>) -> int
    decreases s.len(),
{
    if s.len() == 0 {
        0
    } else {
        digits_value(s.drop_last()) * 10 + ((s.last() as int) - ('0' as int))
    }
}

/// Every character of `s` is a decimal digit.
pub open spec fn all_digits(s: Seq<char>) -> bool {
    forall|i: int| 0 <= i < s.len() ==> is_digit(#[trigger] s[i])
}

/// `s` starts with a sign.
pub open spec fn has_sign(s: Seq<char>) -> bool {
    s.len() > 0 && (s[0] == '-' || s[0] == '+')
}

/// The digits of a written integer: what follows the sign, if any.
pub open spec fn int_digits(s: Seq<char>) -> Seq<char> {
    if has_sign(s) {
        s.drop_first()
    } else {
        s
    }
}

/// The integer written in `s` as `i64::from_str` reads it: an optional sign
/// and at least one decimal digit, nothing else.
pub open spec fn written_int(s: Seq<char>) -> Option<int> {
    let body = int_digits(s);
    if body.len() > 0 && all_digits(body) {
        Some(if s[0] == '-' { -digits_value(body) } else { digits_value(body) })
    } else {
        None
    }
}

/// What `i64::from_str` gives for `s`: the written integer, when there is
/// one and it fits in an `i64`.
pub open spec fn parsed_i64(s: Seq<char>) -> Option<i64> {
    match written_int(s) {
        Some(v) => if i64::MIN <= v <= i64::MAX {
            Some(v as i64)
        } else {
            None
        },
        None => None,
    }
}

/// More digits never make a smaller number.
proof fn lemma_digits_value_grows(s: Seq<char>, k: int)
    requires
        0 <= k <= s.len(),
        forall|i: int| 0 <= i < s.len() ==> is_digit(#[trigger] s[i]),
    ensures
        0 <= digits_value(s.take(k)) <= digits_value(s),
    decreases s.len() - k,
{
    if k < s.len() {
        let t = s.drop_last();
        assert(forall|i: int| 0 <= i < t.len() ==> is_digit(#[trigger] t[i])) by {
            assert forall|i: int| 0 <= i < t.len() implies is_digit(#[trigger] t[i]) by {
                assert(t[i] == s[i]);
            }
        }
        lemma_digits_value_grows(t, if k <= t.len() { k } else { t.len() as int });
        assert(t.take(k) =~= s.take(k));
        assert(is_digit(s.last()));
    } else {
        assert(s.take(k) =~= s);
        lemma_digits_value_nonneg(s);
    }
}

proof fn lemma_digits_value_nonneg(s: Seq<char>)
    requires
        forall|i: int| 0 <= i < s.len() ==> is_digit(#[trigger] s[i]),
    ensures
        digits_value(s) >= 0,
    decreases s.len(),
{
    if s.len() > 0 {
        let t = s.drop_last();
        assert forall|i: int| 0 <= i < t.len() implies is_digit(#[trigger] t[i]) by {
            assert(t[i] == s[i]);
        }
        lemma_digits_value_nonneg(t);
        assert(is_digit(s.last()));
    }
}

/// Reads an integer as `i64::from_str` does.
pub fn parse_i64(s: &str) -> (r: Option<i64>)
    ensures
        r == parsed_i64(s@),
{
    let ghost sv = s@;
    let n = s.unicode_len();
    if n == 0 {
        return None;
    }
    let first = s.get_char(0);
    let neg = first == '-';
    let start: usize = if first == '-' || first == '+' { 1 } else { 0 };
    let ghost body = int_digits(sv);
    assert(body =~= sv.subrange(start as int, n as int));
    if start == n {
        return None;
    }
    let limit: u128 = 0x8000_0000_0000_0000;
    let mut acc: u128 = 0;
    let mut k: usize = start;
    while k < n
        invariant
            start <= k <= n,
            n == sv.len(),
            sv == s@,
            body =~= sv.subrange(start as int, n as int),
            body == int_digits(sv),
            sv.len() > 0,
            limit == 0x8000_0000_0000_0000u128,
            forall|i: int| start <= i < k ==> is_digit(#[trigger] sv[i]),
            acc == digits_value(sv.subrange(start as int, k as int)),
            acc <= limit,
        decreases n - k,
    {
        let c = s.get_char(k);
        if !('0' <= c && c <= '9') {
            assert(body[k - start] == sv[k as int]);
            assert(!is_digit(body[k - start]));
            assert(!all_digits(body));
            return None;
        }
        let d: u128 = ((c as u32) - ('0' as u32)) as u128;
        assert(d < 10);
        assert(acc * 10 + d <= limit * 10 + 9) by (nonlinear_arith)
            requires
                acc <= limit,
                d < 10,
        ;
        proof {
            assert(sv.subrange(start as int, k + 1).drop_last() =~= sv.subrange(start as int, k as int));
        }
        let next: u128 = acc * 10 + d;
        if next > limit {
            proof {
                if all_digits(body) {
                    lemma_digits_value_grows(body, (k + 1 - start) as int);
                    assert(body.take((k + 1 - start) as int) =~= sv.subrange(start as int, k + 1));
                }
            }
            return None;
        }
        acc = next;
        k = k + 1;
    }
    assert(all_digits(body)) by {
        assert forall|i: int| 0 <= i < body.len() implies is_digit(#[trigger] body[i]) by {
            assert(body[i] == sv[start + i]);
        }
    }
    if neg {
        let v: i128 = -(acc as i128);
        Some(v as i64)
    } else {
        if acc == limit {
            None
        } else {
            Some(acc as i64)
        }
    }
}

/// The value an integer field takes from its typed text: the integer read
/// from it, or none while it is not one.
pub fn int_edit_value(typed: &str) -> (r: Option<FieldValue>)
    ensures
        match parsed_i64(typed@) {
            Some(i) => r == Some(FieldValue::Int(i)),
            None => r is None,
        },
{
    match parse_i64(typed) {
        Some(i) => Some(FieldValue::Int(i)),
        None => None,
    }
}

/// A text field takes its typed text as it stands.
pub fn text_edit_value(typed: &str) -> (r: FieldValue)
    ensures
        r matches FieldValue::Str(t) && t@ == typed@,
{
    FieldValue::Str(typed.to_owned())
}

/// The text shown for an item reference: the vault, a colon, the path.
pub fn item_ref_text(vault: &str, path: &str) -> (r: String)
    ensures
        r@ == vault@ + ":"@ + path@,
{
    proof {
        reveal_strlit(":");
    }
    let mut t = vault.to_owned();
    t.append(":");
    t.append(path);
    t
}

/// The value a checkbox field starts from: the field's flag, or unchecked.
pub fn boolean_start(value: &Option<FieldValue>) -> (b: bool)
    ensures
        b == match value {
            Some(FieldValue::Boolean(x)) => *x,
            _ => false,
        },
{
    match value {
        Some(FieldValue::Boolean(x)) => *x,
        _ => false,
    }
}

/// The colour a colour field starts from: the field's colour, or black.
pub fn colour_start(value: &Option<FieldValue>) -> (c: (u8, u8, u8))
    ensures
        c == match value {
            Some(FieldValue::Colour(r, g, b)) => (*r, *g, *b),
            _ => (0u8, 0u8, 0u8),
        },
{
    match value {
        Some(FieldValue::Colour(r, g, b)) => (*r, *g, *b),
        _ => (0, 0, 0),
    }
}

/// The value of the kinds of field that have no editor of their own: a
/// plain tag or a container.
pub fn fixed_value(field_type: FieldType) -> (r: Option<FieldValue>)
    ensures
        field_type == FieldType::Tag ==> r == Some(FieldValue::Tag),
        field_type == FieldType::Container ==> r == Some(FieldValue::Container),
        field_type != FieldType::Tag && field_type != FieldType::Container ==> r is None,
{
    match field_type {
        FieldType::Tag => Some(FieldValue::Tag),
        FieldType::Container => Some(FieldValue::Container),
        _ => None,
    }
}

/// The number of seconds past midnight that chrono reads from `s` with the
/// format "%H:%M:%S", or `None` when it refuses the text.
pub uninterp spec fn parsed_time_of_day(s: Seq<char>) -> Option<u32>;

/// `chrono::NaiveTime::parse_from_str(s, "%H:%M:%S")`, read as the number of
/// non-leap seconds past midnight (`Timelike::num_seconds_from_midnight`,
/// which chrono documents to lie between 0 and 86399); `None` when chrono
/// refuses the text. Which texts chrono accepts is left to its name.
#[verifier::external_body]
fn parse_time_of_day(s: &str) -> (r: Option<u32>)
    ensures
        r == parsed_time_of_day(s@),
        r matches Some(t) ==> t < 86400,
{
    match chrono::NaiveTime::parse_from_str(s, "%H:%M:%S") {
        Ok(t) => Some(t.num_seconds_from_midnight()),
        Err(_) => None,
    }
}

/// Two decimal digits of a number below 100.
pub open spec fn two_digits(n: nat) -> Seq<char> {
    seq![digit_char(n / 10), digit_char(n % 10)]
}

/// The time of day `t` (seconds past midnight) written as "%H:%M:%S".
pub open spec fn hms_text(t: nat) -> Seq<char> {
    two_digits(t / 3600) + seq![':'] + two_digits((t / 60) % 60) + seq![':'] + two_digits(t % 60)
}

fn push_two_digits(s: &mut String, n: u32)
    requires
        n < 100,
    ensures
        final(s)@ == old(s)@ + two_digits(n as nat),
{
    string_push(s, digit((n / 10) as u64));
    string_push(s, digit((n % 10) as u64));
    assert(final(s)@ =~= old(s)@ + two_digits(n as nat));
}

/// The time of day `t` written as "%H:%M:%S".
pub fn time_text(t: u32) -> (s: String)
    requires
        t < 86400,
    ensures
        s@ == hms_text(t as nat),
{
    let mut s = String::new();
    push_two_digits(&mut s, t / 3600);
    string_push(&mut s, ':');
    push_two_digits(&mut s, (t / 60) % 60);
    string_push(&mut s, ':');
    push_two_digits(&mut s, t % 60);
    assert(s@ =~= hms_text(t as nat));
    s
}

/// The day and the time of day a date-and-time editor shows.
#[derive(Debug, Clone, Copy, PartialEq, Eq, Structural)]
pub struct DateTimeEdit {
    /// Days since the Unix epoch.
    pub day: i64,
    /// Seconds past midnight.
    pub time_of_day: u32,
}

/// The moment a date-and-time field starts from: its own, or `now`.
pub open spec fn datetime_start(value: Option<FieldValue>, now: i64) -> i64 {
    match value {
        Some(FieldValue::DateTime(t)) => t,
        _ => now,
    }
}

/// The editor of a date-and-time field at the start of a frame, given the
/// clock's reading `now` in seconds since the Unix epoch: the field's moment
/// (or `now`) split into its day and its time of day, both in UTC; an empty
/// time text is filled with that time of day.
pub fn datetime_begin(value: &Option<FieldValue>, now: i64, typed: &mut String) -> (e: DateTimeEdit)
    ensures
        e.day == datetime_start(*value, now) / 86400,
        e.time_of_day == datetime_start(*value, now) % 86400,
        old(typed)@.len() == 0 ==> final(typed)@ == hms_text(e.time_of_day as nat),
        old(typed)@.len() > 0 ==> final(typed)@ == old(typed)@,
{
    let t = match value {
        Some(FieldValue::DateTime(t)) => *t,
        _ => now,
    };
    let day = t.checked_div_euclid(86400).unwrap();
    let secs = t.checked_rem_euclid(86400).unwrap();
    let time_of_day = secs as u32;
    if typed.as_str().is_empty() {
        *typed = time_text(time_of_day);
    }
    DateTimeEdit { day, time_of_day }
}

/// The editor of a date-and-time field at the start of a frame, with the
/// clock read for a field that has no moment yet.
pub fn datetime_begin_now(value: &Option<FieldValue>, typed: &mut String) -> (e: DateTimeEdit)
    ensures
        value matches Some(FieldValue::DateTime(t)) ==> e.day == t / 86400 && e.time_of_day == t
            % 86400,
        0 <= e.time_of_day < 86400,
        old(typed)@.len() == 0 ==> final(typed)@ == hms_text(e.time_of_day as nat),
        old(typed)@.len() > 0 ==> final(typed)@ == old(typed)@,
{
    let now = now_millis().checked_div_euclid(1000).unwrap();
    datetime_begin(value, now, typed)
}

/// The moment a date-and-time field takes, given what chrono read from the
/// typed text (`parsed`, seconds past midnight): the picked day at that time
/// of day, or at `fallback` when nothing was read.
pub fn datetime_value_with(day: i64, parsed: Option<u32>, fallback: u32) -> (r: FieldValue)
    requires
        fallback < 86400,
        parsed matches Some(t) ==> t < 86400,
        i64::MIN / 86400 < day < i64::MAX / 86400,
    ensures
        r == FieldValue::DateTime((day * 86400 + match parsed {
            Some(t) => t as int,
            None => fallback as int,
        }) as i64),
{
    let t = match parsed {
        Some(t) => t,
        None => fallback,
    };
    FieldValue::DateTime(day * 86400 + t as i64)
}

/// The moment a date-and-time field takes: the picked day at the typed time
/// of day, or at `fallback` while the typed text is not a time.
pub fn datetime_edit_value(day: i64, typed: &str, fallback: u32) -> (r: FieldValue)
    requires
        fallback < 86400,
        i64::MIN / 86400 < day < i64::MAX / 86400,
    ensures
        r == FieldValue::DateTime((day * 86400 + match parsed_time_of_day(typed@) {
            Some(t) => t as int,
            None => fallback as int,
        }) as i64),
{
    let parsed = parse_time_of_day(typed);
    datetime_value_with(day, parsed, fallback)
}

} // verus!
