//! Positions in text: byte offsets of characters and the word under the cursor
//! of the search box.

use vstd::prelude::*;
use vstd::utf8::{encode_scalar, encode_utf8};

verus! {

/// Byte offset, in the UTF-8 encoding of `s`, at which character `k` starts.
pub open spec fn byte_offset(s: Seq<char>, k: int) -> int {
    encode_utf8(s.take(k)).len() as int
}

/// Number of bytes that `c` takes in UTF-8.
pub open spec fn utf8_width(c: char) -> int {
    encode_scalar(c as u32).len() as int
}

/// Characters that separate words in a filter expression.
pub open spec fn is_non_word_char_spec(c: char) -> bool {
    c == ' ' || c == '\t' || c == '\n' || c == '\r' || c == '(' || c == ')' || c == '!' || c
        == '&' || c == '|'
}

/// Whether `c` separates words in a filter expression: white space,
/// brackets and the logical operators `!`, `&` and `|`.
#[verifier::when_used_as_spec(is_non_word_char_spec)]
pub fn is_non_word_char(c: char) -> (r: bool)
    ensures
        r == is_non_word_char_spec(c),
{
    c == ' ' || c == '\t' || c == '\n' || c == '\r' || c == '(' || c == ')' || c == '!' || c
        == '&' || c == '|'
}

/// A word of `s` starts at character `a`.
pub open spec fn starts_word(s: Seq<char>, a: int) -> bool {
    &&& 0 <= a < s.len()
    &&& !is_non_word_char_spec(s[a])
    &&& (a == 0 || is_non_word_char_spec(s[a - 1]))
}

/// A word of `s` ends just before character `e`.
pub open spec fn ends_word(s: Seq<char>, e: int) -> bool {
    &&& 0 < e <= s.len()
    &&& !is_non_word_char_spec(s[e - 1])
    &&& (e == s.len() || is_non_word_char_spec(s[e]))
}

/// Characters `a..e` of `s` form a whole word: a maximal run of word characters.
pub open spec fn is_word(s: Seq<char>, a: int, e: int) -> bool {
    &&& a < e
    &&& starts_word(s, a)
    &&& ends_word(s, e)
    &&& forall|j: int| a <= j < e ==> !is_non_word_char_spec(#[trigger] s[j])
}

/// The word `a..e` of `s` is the one that the search box completes when the
/// cursor stands at byte `pos`: the first word that either runs to the end of
/// the text or ends at or after `pos`.
pub open spec fn word_at(s: Seq<char>, pos: int, a: int, e: int) -> bool {
    &&& is_word(s, a, e)
    &&& (e == s.len() || pos <= byte_offset(s, e))
    &&& forall|k: int| 0 < k < a && #[trigger] ends_word(s, k) ==> byte_offset(s, k) < pos
}

/// The UTF-8 encoding of a sequence with one more character.
pub proof fn lemma_encode_utf8_push(a: Seq<char>, c: char)
    ensures
        encode_utf8(a.push(c)) == encode_utf8(a) + encode_scalar(c as u32),
    decreases a.len(),
{
    if a.len() == 0 {
        assert(a.push(c).drop_first() =~= Seq::<char>::empty());
        assert(encode_utf8(Seq::<char>::empty()) =~= Seq::<u8>::empty());
        assert(encode_utf8(a.push(c)) =~= encode_scalar(c as u32));
        assert(encode_utf8(a) =~= Seq::<u8>::empty());
        assert(encode_utf8(a) + encode_scalar(c as u32) =~= encode_scalar(c as u32));
    } else {
        lemma_encode_utf8_push(a.drop_first(), c);
        assert(a.push(c).drop_first() =~= a.drop_first().push(c));
        assert(a.push(c)[0] == a[0]);
        assert(encode_utf8(a.push(c)) =~= encode_scalar(a[0] as u32) + (encode_utf8(
            a.drop_first(),
        ) + encode_scalar(c as u32)));
    }
}

/// Every character takes between one and four bytes.
pub proof fn lemma_utf8_width_bounds(c: char)
    ensures
        1 <= utf8_width(c) <= 4,
{
}

/// The offset of the next character is the offset of this one plus its width.
pub proof fn lemma_byte_offset_step(s: Seq<char>, k: int)
    requires
        0 <= k < s.len(),
    ensures
        byte_offset(s, k + 1) == byte_offset(s, k) + utf8_width(s[k]),
{
    assert(s.take(k + 1) =~= s.take(k).push(s[k]));
    lemma_encode_utf8_push(s.take(k), s[k]);
}

/// Byte offsets grow strictly with the character index.
pub proof fn lemma_byte_offset_strict(s: Seq<char>, i: int, j: int)
    requires
        0 <= i < j <= s.len(),
    ensures
        byte_offset(s, i) < byte_offset(s, j),
    decreases j - i,
{
    lemma_byte_offset_step(s, j - 1);
    lemma_utf8_width_bounds(s[j - 1]);
    if i < j - 1 {
        lemma_byte_offset_strict(s, i, j - 1);
    }
}

/// A character takes at least one byte, so offsets are at least indices.
pub proof fn lemma_byte_offset_at_least(s: Seq<char>, k: int)
    requires
        0 <= k <= s.len(),
    ensures
        byte_offset(s, k) >= k,
    decreases k,
{
    if k > 0 {
        lemma_byte_offset_step(s, k - 1);
        lemma_byte_offset_at_least(s, k - 1);
    }
}

/// The offset after the last character is the length of the encoding.
pub proof fn lemma_byte_offset_total(s: Seq<char>)
    ensures
        byte_offset(s, s.len() as int) == encode_utf8(s).len(),
{
    assert(s.take(s.len() as int) =~= s);
}

/// Number of bytes that `c` needs when encoded in UTF-8, as
/// `char::len_utf8` gives it: one below 0x80, two below 0x800, three below
/// 0x10000, four above.
pub(crate) fn char_len_utf8(c: char) -> (n: usize)
    ensures
        n == utf8_width(c),
{
    let u = c as u32;
    if u < 0x80 {
        1
    } else if u < 0x800 {
        2
    } else if u < 0x10000 {
        3
    } else {
        4
    }
}

/// Index of the first character of `s` that starts at or after byte
/// `byte_index`, or the number of characters when there is none.
pub fn char_index_from_byte_index(s: &str, byte_index: usize) -> (r: usize)
    ensures
        r <= s@.len(),
        forall|k: int| 0 <= k < r ==> byte_offset(s@, k) < byte_index,
        r < s@.len() ==> byte_offset(s@, r as int) >= byte_index,
{
    broadcast use vstd::string::group_string_axioms;

    let total = s.as_bytes().len();
    proof {
        lemma_byte_offset_total(s@);
    }
    let mut n_chars: usize = 0;
    let mut bi: usize = 0;
    for c in it: s.chars()
        invariant
            it.seq() == s@,
            n_chars == it.index(),
            bi == byte_offset(s@, n_chars as int),
            total == byte_offset(s@, s@.len() as int),
            forall|k: int| 0 <= k < n_chars ==> byte_offset(s@, k) < byte_index,
    {
        if bi >= byte_index {
            return n_chars;
        }
        proof {
            assert(n_chars < s@.len());
            lemma_byte_offset_step(s@, n_chars as int);
            lemma_byte_offset_at_least(s@, n_chars + 1);
            if n_chars + 1 < s@.len() {
                lemma_byte_offset_strict(s@, n_chars + 1, s@.len() as int);
            }
        }
        let w = char_len_utf8(c);
        n_chars = n_chars + 1;
        bi = bi + w;
    }
    n_chars
}

/// The byte range of the word of `s` that the cursor at byte `pos` completes:
/// the first word that ends at or after `pos`, or else the word that runs to
/// the end of the text. `None` when there is no such word.
pub fn find_word_at_position(s: &str, pos: usize) -> (r: Option<(usize, usize)>)
    ensures
        r is None <==> !exists|a: int, e: int| word_at(s@, pos as int, a, e),
        r matches Some((bs, be)) ==> exists|a: int, e: int|
            word_at(s@, pos as int, a, e) && bs == byte_offset(s@, a) && be == byte_offset(
                s@,
                e,
            ),
{
    broadcast use vstd::string::group_string_axioms;

    let total = s.as_bytes().len();
    proof {
        lemma_byte_offset_total(s@);
    }
    let ghost sv = s@;
    let mut start: Option<(usize, usize)> = None;
    let mut k: usize = 0;
    let mut bi: usize = 0;
    for c in it: s.chars()
        invariant
            it.seq() == sv,
            sv == s@,
            k == it.index(),
            bi == byte_offset(sv, k as int),
            total == byte_offset(sv, sv.len() as int),
            forall|kk: int| 0 < kk < k && #[trigger] ends_word(sv, kk) ==> byte_offset(sv, kk) < pos,
            match start {
                Some((a, ba)) => {
                    &&& a < k
                    &&& starts_word(sv, a as int)
                    &&& ba == byte_offset(sv, a as int)
                    &&& forall|j: int| a <= j < k ==> !is_non_word_char_spec(#[trigger] sv[j])
                },
                None => k == 0 || is_non_word_char_spec(sv[k - 1]),
            },
    {
        assert(k < sv.len());
        assert(c == sv[k as int]);
        proof {
            lemma_byte_offset_step(sv, k as int);
            lemma_byte_offset_at_least(sv, k + 1);
            if k + 1 < sv.len() {
                lemma_byte_offset_strict(sv, k + 1, sv.len() as int);
            }
        }
        let w = char_len_utf8(c);
        if is_non_word_char(c) {
            if let Some((a, ba)) = start {
                if pos <= bi {
                    assert(is_word(sv, a as int, k as int));
                    assert forall|kk: int| 0 < kk < a && #[trigger] ends_word(sv, kk) implies byte_offset(
                        sv,
                        kk,
                    ) < pos by {}
                    assert(word_at(sv, pos as int, a as int, k as int));
                    return Some((ba, bi));
                }
                assert(ends_word(sv, k as int));
            }
            start = None;
        } else {
            if start.is_none() {
                start = Some((k, bi));
            }
        }
        k = k + 1;
        bi = bi + w;
    }
    match start {
        Some((a, ba)) => {
            assert(is_word(sv, a as int, sv.len() as int));
            assert(word_at(sv, pos as int, a as int, sv.len() as int));
            Some((ba, total))
        },
        None => {
            assert forall|a: int, e: int| !word_at(sv, pos as int, a, e) by {
                if word_at(sv, pos as int, a, e) {
                    assert(ends_word(sv, e));
                    if e == sv.len() {
                        assert(!is_non_word_char_spec(sv[e - 1]));
                    }
                }
            }
            None
        },
    }
}

} // verus!
