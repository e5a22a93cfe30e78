//! Autocompletion in the search box: the word being completed, the list of
//! suggestions, and the replacement of the word by the chosen tag.

use vstd::prelude::*;
use vstd::string::{StrSliceExecFns, StringExecFns};
use crate::fmt::string_push;
use crate::input::{min_count, next_index, update_index};
use crate::text::{
    byte_offset, char_index_from_byte_index, find_word_at_position, lemma_byte_offset_at_least,
    lemma_byte_offset_step, lemma_byte_offset_strict, lemma_byte_offset_total, word_at,
};

verus! {

/// The lowercase hexadecimal digit for `d`, which is below sixteen.
pub open spec fn hex_char(d: u128) -> char {
    if d < 10 {
        (('0' as u32) + d) as char
    } else {
        (('a' as u32) + d - 10) as char
    }
}

/// Hex digit number `k` of `u`, counting from the most significant.
pub open spec fn nibble(u: u128, k: int) -> u128 {
    (u >> ((124 - 4 * k) as u128)) & 0xf
}

/// Hex digits `a..b` of `u`.
pub open spec fn hex_digits(u: u128, a: int, b: int) -> Seq<char> {
    Seq::new((b - a) as nat, |j: int| hex_char(nibble(u, a + j)))
}

/// The hyphenated lowercase form of a UUID: groups of 8, 4, 4, 4 and 12 hex
/// digits joined by hyphens.
pub open spec fn uuid_text(u: u128) -> Seq<char> {
    hex_digits(u, 0, 8) + seq!['-'] + hex_digits(u, 8, 12) + seq!['-'] + hex_digits(u, 12, 16)
        + seq!['-'] + hex_digits(u, 16, 20) + seq!['-'] + hex_digits(u, 20, 32)
}

fn hex_digit(d: u128) -> (c: char)
    requires
        d < 16,
    ensures
        c == hex_char(d),
{
    let digits = "0123456789abcdef";
    proof {
        reveal_strlit("0123456789abcdef");
    }
    let c = digits.get_char(d as usize);
    assert(c == hex_char(d)) by {
        assert("0123456789abcdef"@[d as int] == hex_char(d));
    }
    c
}

/// Appends hex digits `a..b` of `u` to `s`.
fn push_hex_digits(s: &mut String, u: u128, a: usize, b: usize)
    requires
        a <= b <= 32,
    ensures
        final(s)@ == old(s)@ + hex_digits(u, a as int, b as int),
{
    let mut k = a;
    while k < b
        invariant
            a <= k <= b <= 32,
            s@ == old(s)@ + hex_digits(u, a as int, k as int),
        decreases b - k,
    {
        let shift: u128 = (124 - 4 * k) as u128;
        let d = (u >> shift) & 0xf;
        assert(d < 16) by (bit_vector)
            requires
                d == (u >> shift) & 0xf,
        ;
        string_push(s, hex_digit(d));
        assert(hex_digits(u, a as int, k + 1) =~= hex_digits(u, a as int, k as int).push(hex_char(nibble(u, k as int))));
        k = k + 1;
    }
}

/// The hyphenated lowercase form of the UUID `u`, as the uuid crate writes
/// it with `Display`.
pub fn format_uuid(u: u128) -> (s: String)
    ensures
        s@ == uuid_text(u),
{
    let mut s = String::new();
    push_hex_digits(&mut s, u, 0, 8);
    string_push(&mut s, '-');
    push_hex_digits(&mut s, u, 8, 12);
    string_push(&mut s, '-');
    push_hex_digits(&mut s, u, 12, 16);
    string_push(&mut s, '-');
    push_hex_digits(&mut s, u, 16, 20);
    string_push(&mut s, '-');
    push_hex_digits(&mut s, u, 20, 32);
    assert(s@ =~= uuid_text(u));
    s
}

/// The text that replaces a completed word: `field:` and the tag's UUID.
pub open spec fn replacement_text(tag_id: u128) -> Seq<char> {
    "field:"@ + uuid_text(tag_id)
}

/// Character `k` of `s` starts at byte `b` (or `k` is the end and `b` the
/// length of the encoding).
pub open spec fn is_boundary_at(s: Seq<char>, b: int, k: int) -> bool {
    0 <= k <= s.len() && byte_offset(s, k) == b
}

/// Byte `b` of the UTF-8 encoding of `s` is a character boundary.
pub open spec fn is_boundary(s: Seq<char>, b: int) -> bool {
    exists|k: int| is_boundary_at(s, b, k)
}

/// The index of the character that starts at the boundary `b`.
pub open spec fn char_at_byte(s: Seq<char>, b: int) -> int {
    choose|k: int| is_boundary_at(s, b, k)
}

/// The characters of `s` between the byte boundaries `bs` and `be`.
pub open spec fn byte_range_text(s: Seq<char>, bs: int, be: int) -> Seq<char> {
    s.subrange(char_at_byte(s, bs), char_at_byte(s, be))
}

/// A byte boundary belongs to one character index only.
pub proof fn lemma_boundary_unique(s: Seq<char>, b: int, k1: int, k2: int)
    requires
        is_boundary_at(s, b, k1),
        is_boundary_at(s, b, k2),
    ensures
        k1 == k2,
{
    if k1 < k2 {
        lemma_byte_offset_strict(s, k1, k2);
    } else if k2 < k1 {
        lemma_byte_offset_strict(s, k2, k1);
    }
}

/// The character index at byte `b` of `s`, when `b` is a boundary.
pub fn boundary_index(s: &str, b: usize) -> (r: Option<usize>)
    ensures
        r is Some <==> is_boundary(s@, b as int),
        r matches Some(k) ==> is_boundary_at(s@, b as int, k as int) && k == char_at_byte(
            s@,
            b as int,
        ),
{
    broadcast use vstd::string::group_string_axioms;

    let total = s.as_bytes().len();
    proof {
        lemma_byte_offset_total(s@);
    }
    let ghost sv = s@;
    let mut k: usize = 0;
    let mut bi: usize = 0;
    for c in it: s.chars()
        invariant
            it.seq() == sv,
            sv == s@,
            k == it.index(),
            bi == byte_offset(sv, k as int),
            total == byte_offset(sv, sv.len() as int),
            forall|j: int| 0 <= j < k ==> byte_offset(sv, j) < b,
    {
        proof {
            lemma_byte_offset_step(sv, k as int);
            lemma_byte_offset_at_least(sv, k + 1);
            if k + 1 < sv.len() {
                lemma_byte_offset_strict(sv, k + 1, sv.len() as int);
            }
        }
        if bi == b {
            proof {
                assert(is_boundary_at(sv, b as int, k as int));
                assert forall|j: int| is_boundary_at(sv, b as int, j) implies j == k by {
                    lemma_boundary_unique(sv, b as int, j, k as int);
                }
            }
            return Some(k);
        }
        if bi > b {
            proof {
                assert forall|j: int| !is_boundary_at(sv, b as int, j) by {
                    if is_boundary_at(sv, b as int, j) && j > k {
                        lemma_byte_offset_strict(sv, k as int, j);
                    }
                }
            }
            return None;
        }
        let w = crate::text::char_len_utf8(c);
        k = k + 1;
        bi = bi + w;
    }
    if bi == b {
        proof {
            assert(is_boundary_at(sv, b as int, k as int));
            assert forall|j: int| is_boundary_at(sv, b as int, j) implies j == k by {
                lemma_boundary_unique(sv, b as int, j, k as int);
            }
        }
        Some(k)
    } else {
        proof {
            assert forall|j: int| !is_boundary_at(sv, b as int, j) by {}
        }
        None
    }
}

/// The most suggestions that the popup shows.
pub const MAX_SUGGESTIONS: usize = 10;

/// A suggestion of the autocompletion popup: a tag, by its id.
#[derive(Clone, Copy, PartialEq, Eq, Debug)]
pub enum AutocompleteResult {
    TagResult(u128),
}

/// The text that a suggestion puts in place of the word.
pub open spec fn result_text(r: AutocompleteResult) -> Seq<char> {
    match r {
        AutocompleteResult::TagResult(id) => replacement_text(id),
    }
}

/// `s` with characters `a..e` replaced by `r`.
pub open spec fn splice(s: Seq<char>, a: int, e: int, r: Seq<char>) -> Seq<char> {
    s.take(a) + r + s.skip(e)
}

/// Length in bytes of the UTF-8 encoding of `s`.
pub open spec fn byte_len(s: Seq<char>) -> int {
    byte_offset(s, s.len() as int)
}

/// The end of a byte range, cut to the length of the text.
pub open spec fn clamp_end(end: usize, s: Seq<char>) -> int {
    if end <= byte_len(s) { end as int } else { byte_len(s) }
}

/// A chosen suggestion and the byte range of the word it replaces.
pub struct AutocompleteReplacement {
    pub range: (usize, usize),
    pub result: AutocompleteResult,
}

impl AutocompleteReplacement {
    /// The replacement can be applied to `s`: its start and its end (cut to
    /// the length of `s`) are character boundaries, in order.
    pub open spec fn fits(self, s: Seq<char>) -> bool {
        &&& is_boundary(s, self.range.0 as int)
        &&& is_boundary(s, clamp_end(self.range.1, s))
        &&& self.range.0 <= clamp_end(self.range.1, s)
    }

    /// What applying the replacement to `s` gives.
    pub open spec fn applied(self, s: Seq<char>) -> Seq<char> {
        splice(
            s,
            char_at_byte(s, self.range.0 as int),
            char_at_byte(s, clamp_end(self.range.1, s)),
            result_text(self.result),
        )
    }

    /// Whether the replacement fits the text `s`.
    pub fn fits_text(&self, s: &str) -> (r: bool)
        ensures
            r == self.fits(s@),
    {
        broadcast use vstd::string::group_string_axioms;

        let total = s.as_bytes().len();
        proof {
            lemma_byte_offset_total(s@);
        }
        let (start, end) = self.range;
        let end = if end <= total { end } else { total };
        match (boundary_index(s, start), boundary_index(s, end)) {
            (Some(_), Some(_)) => start <= end,
            _ => false,
        }
    }

    /// Replaces the word in `s` by the text of the chosen suggestion.
    pub fn apply(self, s: &mut String)
        requires
            self.fits(old(s)@),
        ensures
            final(s)@ == self.applied(old(s)@),
    {
        broadcast use vstd::string::group_string_axioms;

        let ghost sv = s@;
        let total = s.as_str().as_bytes().len();
        proof {
            lemma_byte_offset_total(sv);
        }
        let (start, end) = self.range;
        let end = if end <= total { end } else { total };
        let ghost a = char_at_byte(sv, start as int);
        let ghost e = char_at_byte(sv, end as int);
        proof {
            if a < e {
                lemma_byte_offset_strict(sv, a, e);
            } else if e < a {
                lemma_byte_offset_strict(sv, e, a);
            }
        }
        let mut out = String::new();
        let mut k: usize = 0;
        let mut bi: usize = 0;
        for c in it: s.as_str().chars()
            invariant
                it.seq() == sv,
                k == it.index(),
                bi == byte_offset(sv, k as int),
                is_boundary_at(sv, start as int, a),
                out@ == sv.take(if k <= a { k as int } else { a }),
                total == byte_offset(sv, sv.len() as int),
        {
            proof {
                lemma_byte_offset_step(sv, k as int);
                lemma_byte_offset_at_least(sv, k + 1);
                if k + 1 < sv.len() {
                    lemma_byte_offset_strict(sv, k + 1, sv.len() as int);
                }
                if (k as int) < a {
                    lemma_byte_offset_strict(sv, k as int, a);
                } else if a < k {
                    lemma_byte_offset_strict(sv, a, k as int);
                }
            }
            if bi < start {
                string_push(&mut out, c);
                assert(sv.take(k + 1) =~= sv.take(k as int).push(c));
            }
            let w = crate::text::char_len_utf8(c);
            k = k + 1;
            bi = bi + w;
        }
        assert(out@ =~= sv.take(a));
        match self.result {
            AutocompleteResult::TagResult(id) => {
                out.append("field:");
                let t = format_uuid(id);
                out.append(t.as_str());
            },
        }
        proof {
            reveal_strlit("field:");
        }
        assert(out@ =~= sv.take(a) + result_text(self.result));
        let ghost mid = out@;
        let mut k: usize = 0;
        let mut bi: usize = 0;
        for c in it: s.as_str().chars()
            invariant
                it.seq() == sv,
                k == it.index(),
                bi == byte_offset(sv, k as int),
                is_boundary_at(sv, end as int, e),
                out@ == mid + sv.subrange(e, if k <= e { e } else { k as int }),
                total == byte_offset(sv, sv.len() as int),
        {
            proof {
                lemma_byte_offset_step(sv, k as int);
                lemma_byte_offset_at_least(sv, k + 1);
                if k + 1 < sv.len() {
                    lemma_byte_offset_strict(sv, k + 1, sv.len() as int);
                }
                if (k as int) < e {
                    lemma_byte_offset_strict(sv, k as int, e);
                } else if e < k {
                    lemma_byte_offset_strict(sv, e, k as int);
                }
            }
            if bi >= end {
                string_push(&mut out, c);
                assert(sv.subrange(e, k + 1) =~= sv.subrange(e, k as int).push(c));
            }
            let w = crate::text::char_len_utf8(c);
            k = k + 1;
            bi = bi + w;
        }
        assert(sv.subrange(e, sv.len() as int) =~= sv.skip(e));
        *s = out;
    }
}


/// The suggestions that a search found, as popup entries.
pub open spec fn tag_results(ids: Seq<u128>) -> Seq<AutocompleteResult> {
    ids.map_values(|id: u128| AutocompleteResult::TagResult(id))
}

/// The autocompletion state of a search box, kept from frame to frame.
pub struct SearchState {
    /// The popup has the keyboard focus.
    pub focused: bool,
    /// Byte range of the word that the suggestions were searched for.
    pub search_range: Option<(usize, usize)>,
    /// The word that the suggestions were searched for.
    pub search_query: String,
    /// The suggestions found for the word.
    pub search_results: Vec<AutocompleteResult>,
    /// The suggestion selected with the arrow keys.
    pub selected_index: Option<usize>,
}

/// What the search box does with the word under the cursor.
pub struct WordStep {
    /// Byte range of the word under the cursor.
    pub range: (usize, usize),
    /// The word differs from the one last searched for, so suggestions must
    /// be searched for anew.
    pub needs_search: bool,
}

impl SearchState {
    /// A state with no search made and nothing selected.
    pub fn new() -> (r: Self)
        ensures
            !r.focused,
            r.search_range is None,
            r.search_query@ == Seq::<char>::empty(),
            r.search_results@ == Seq::<AutocompleteResult>::empty(),
            r.selected_index is None,
    {
        SearchState {
            focused: false,
            search_range: None,
            search_query: String::new(),
            search_results: Vec::new(),
            selected_index: None,
        }
    }

    /// Number of suggestions the popup shows.
    pub open spec fn shown(self) -> int {
        min_count(self.search_results.len(), MAX_SUGGESTIONS)
    }

    /// Takes the focus of the text field and the arrow keys of this frame:
    /// the keys move the selection only while the field has the focus.
    pub fn navigate(&mut self, has_focus: bool, down_pressed: bool, up_pressed: bool)
        ensures
            final(self).focused == has_focus,
            final(self).search_range == old(self).search_range,
            final(self).search_query@ == old(self).search_query@,
            final(self).search_results@ == old(self).search_results@,
            match (
                final(self).selected_index,
                next_index(
                    old(self).selected_index,
                    has_focus && down_pressed,
                    has_focus && up_pressed,
                    old(self).shown(),
                ),
            ) {
                (Some(r), Some(n)) => r == n,
                (None, None) => true,
                _ => false,
            },
    {
        self.focused = has_focus;
        self.selected_index = update_index(
            self.selected_index,
            has_focus && down_pressed,
            has_focus && up_pressed,
            self.search_results.len(),
            MAX_SUGGESTIONS,
        );
    }

    /// Enter in the open popup accepts the selected suggestion: it leaves the
    /// list (the last one takes its place) and, when the word's range is
    /// known, becomes the replacement of that range, which is forgotten.
    pub fn accept_selected(&mut self, accepted: bool) -> (r: Option<AutocompleteReplacement>)
        requires
            accepted ==> (old(self).selected_index matches Some(i) ==> i < old(
                self,
            ).search_results.len()),
        ensures
            final(self).focused == old(self).focused,
            final(self).search_query@ == old(self).search_query@,
            final(self).selected_index == old(self).selected_index,
            match old(self).selected_index {
                Some(i) if accepted => {
                    &&& final(self).search_results@ == old(self).search_results@.update(
                        i as int,
                        old(self).search_results@.last(),
                    ).drop_last()
                    &&& final(self).search_range is None
                    &&& match old(self).search_range {
                        Some(range) => r == Some(
                            AutocompleteReplacement {
                                range,
                                result: old(self).search_results@[i as int],
                            },
                        ),
                        None => r is None,
                    }
                },
                _ => {
                    &&& r is None
                    &&& final(self).search_results@ == old(self).search_results@
                    &&& final(self).search_range == old(self).search_range
                },
            },
    {
        if let Some(index) = self.selected_index {
            if accepted {
                let result = self.search_results.swap_remove(index);
                if let Some(range) = self.search_range.take() {
                    return Some(AutocompleteReplacement { result, range });
                }
            }
        }
        None
    }

    /// The word under the cursor at byte `pos` of `text`, and whether it
    /// needs a new search: it is not empty and differs from the last searched
    /// word, or stands elsewhere. `None` when there is no word to complete.
    pub fn word_step(&self, text: &str, pos: usize) -> (r: Option<WordStep>)
        ensures
            r is None <==> !exists|a: int, e: int| word_at(text@, pos as int, a, e),
            r matches Some(step) ==> {
                &&& exists|a: int, e: int|
                    word_at(text@, pos as int, a, e) && step.range.0 == byte_offset(text@, a)
                        && step.range.1 == byte_offset(text@, e)
                &&& is_boundary(text@, step.range.0 as int)
                &&& is_boundary(text@, step.range.1 as int)
                &&& step.needs_search == (step.range.0 < step.range.1 && (self.search_query@
                    != byte_range_text(text@, step.range.0 as int, step.range.1 as int)
                    || self.search_range != Some(step.range)))
            },
    {
        match find_word_at_position(text, pos) {
            None => None,
            Some((ws, we)) => {
                let ghost (a, e) = choose|a: int, e: int|
                    word_at(text@, pos as int, a, e) && ws == byte_offset(text@, a) && we
                        == byte_offset(text@, e);
                proof {
                    lemma_byte_offset_strict(text@, a, e);
                    assert(is_boundary_at(text@, ws as int, a));
                    assert(is_boundary_at(text@, we as int, e));
                }
                let ia = boundary_index(text, ws);
                let ie = boundary_index(text, we);
                let ia = ia.unwrap();
                let ie = ie.unwrap();
                proof {
                    lemma_boundary_unique(text@, ws as int, a, ia as int);
                    lemma_boundary_unique(text@, we as int, e, ie as int);
                }
                let word = text.substring_char(ia, ie).to_owned();
                let differs = !(self.search_query == word);
                let same_range = match self.search_range {
                    Some((s0, s1)) => s0 == ws && s1 == we,
                    None => false,
                };
                Some(WordStep { range: (ws, we), needs_search: ws < we && (differs || !same_range) })
            },
        }
    }

    /// Starts a search for the word at byte range `range` of `text`: the word
    /// and its range are kept, the selection is cleared, and the suggestions
    /// become the tags that the search found (none when it failed).
    pub fn set_search(&mut self, text: &str, range: (usize, usize), found: Option<Vec<u128>>)
        requires
            is_boundary(text@, range.0 as int),
            is_boundary(text@, range.1 as int),
            range.0 <= range.1,
        ensures
            final(self).focused == old(self).focused,
            final(self).search_query@ == byte_range_text(text@, range.0 as int, range.1 as int),
            final(self).search_range == Some(range),
            final(self).selected_index is None,
            final(self).search_results@ == match found {
                Some(ids) => tag_results(ids@),
                None => Seq::<AutocompleteResult>::empty(),
            },
    {
        let ia = boundary_index(text, range.0).unwrap();
        let ie = boundary_index(text, range.1).unwrap();
        proof {
            let a = char_at_byte(text@, range.0 as int);
            let e = char_at_byte(text@, range.1 as int);
            if e < a {
                lemma_byte_offset_strict(text@, e, a);
            }
        }
        self.search_query = text.substring_char(ia, ie).to_owned();
        self.search_range = Some(range);
        self.selected_index = None;
        let mut results: Vec<AutocompleteResult> = Vec::new();
        if let Some(ids) = found {
            let mut i: usize = 0;
            while i < ids.len()
                invariant
                    i <= ids.len(),
                    results@ == tag_results(ids@.take(i as int)),
                decreases ids.len() - i,
            {
                results.push(AutocompleteResult::TagResult(ids[i]));
                assert(tag_results(ids@.take(i + 1)) =~= tag_results(ids@.take(i as int)).push(
                    AutocompleteResult::TagResult(ids@[i as int]),
                ));
                i = i + 1;
            }
            assert(ids@.take(ids.len() as int) =~= ids@);
        }
        self.search_results = results;
    }

    /// The popup opens while the field has the focus and there are
    /// suggestions.
    pub fn wants_popup(&self) -> (r: bool)
        ensures
            r == (self.focused && self.search_results.len() > 0),
    {
        self.focused && self.search_results.len() > 0
    }

    /// The replacement that a click on suggestion `i` of the popup makes of
    /// the word at `range`.
    pub fn clicked(&self, i: usize, range: (usize, usize)) -> (r: AutocompleteReplacement)
        requires
            i < self.search_results.len(),
        ensures
            r == (AutocompleteReplacement { range, result: self.search_results@[i as int] }),
    {
        AutocompleteReplacement { range, result: self.search_results[i] }
    }

    /// After a replacement the popup loses the focus and the search is
    /// forgotten; the selection stays as it was.
    pub fn finish_replacement(&mut self)
        ensures
            !final(self).focused,
            final(self).search_range is None,
            final(self).search_query@ == Seq::<char>::empty(),
            final(self).search_results@ == Seq::<AutocompleteResult>::empty(),
            final(self).selected_index == old(self).selected_index,
    {
        self.focused = false;
        self.search_query = String::new();
        self.search_range = None;
        self.search_results = Vec::new();
    }
}

/// `r` is the index of the first character of `s` that starts at or after
/// byte `b` (the number of characters when there is none).
pub open spec fn is_char_index_at(s: Seq<char>, b: int, r: int) -> bool {
    &&& 0 <= r <= s.len()
    &&& forall|j: int| 0 <= j < r ==> #[trigger] byte_offset(s, j) < b
    &&& r < s.len() ==> byte_offset(s, r) >= b
}

/// The index of the first character that starts at or after byte `b`.
pub open spec fn char_index_at(s: Seq<char>, b: int) -> int {
    choose|r: int| is_char_index_at(s, b, r)
}

/// The first character at or after a byte is one character.
pub proof fn lemma_char_index_at(s: Seq<char>, b: int, r: int)
    requires
        is_char_index_at(s, b, r),
    ensures
        char_index_at(s, b) == r,
{
    let q = char_index_at(s, b);
    assert(is_char_index_at(s, b, q));
    if q < r {
        assert(byte_offset(s, q) < b);
    } else if r < q {
        assert(byte_offset(s, r) < b);
    }
}

/// How many characters the text has beyond what the field shows, before
/// replacement `i`: each earlier replacement shows its `end - start`
/// characters as one.
pub open spec fn hidden_before(reps: Seq<(usize, usize, usize)>, i: int) -> int
    decreases i,
{
    if i <= 0 {
        0
    } else {
        hidden_before(reps, i - 1) + (reps[i - 1].2 - reps[i - 1].1 - 1)
    }
}

/// The positions in the text field at which the tags of replacements are
/// drawn: `reps[i]` is the byte index of replacement `i` in the text and the
/// start and end of the characters it replaces; its position is the index
/// of its first character, less the characters that earlier replacements
/// hide.
pub fn replacement_cursors(text: &str, reps: &[(usize, usize, usize)]) -> (r: Vec<usize>)
    requires
        forall|i: int| 0 <= i < reps@.len() ==> (#[trigger] reps@[i]).1 < reps@[i].2,
        forall|i: int|
            0 <= i < reps@.len() ==> hidden_before(reps@, i) <= char_index_at(text@, (#[trigger] reps@[i]).0 as int),
        hidden_before(reps@, reps@.len() as int) <= usize::MAX,
    ensures
        r@.len() == reps@.len(),
        forall|i: int|
            0 <= i < reps@.len() ==> #[trigger] r@[i] == char_index_at(text@, reps@[i].0 as int)
                - hidden_before(reps@, i),
{
    let mut r: Vec<usize> = Vec::new();
    let mut offset: usize = 0;
    let mut i: usize = 0;
    while i < reps.len()
        invariant
            i <= reps@.len(),
            r@.len() == i,
            offset == hidden_before(reps@, i as int),
            forall|k: int| 0 <= k < reps@.len() ==> (#[trigger] reps@[k]).1 < reps@[k].2,
            forall|k: int|
                0 <= k < reps@.len() ==> hidden_before(reps@, k) <= char_index_at(
                    text@,
                    (#[trigger] reps@[k]).0 as int,
                ),
            hidden_before(reps@, reps@.len() as int) <= usize::MAX,
            forall|k: int|
                0 <= k < i ==> #[trigger] r@[k] == char_index_at(text@, reps@[k].0 as int)
                    - hidden_before(reps@, k),
        decreases reps.len() - i,
    {
        let (index, start, end) = reps[i];
        let c = char_index_from_byte_index(text, index);
        proof {
            lemma_char_index_at(text@, index as int, c as int);
            assert(hidden_before(reps@, i as int) <= char_index_at(text@, reps@[i as int].0 as int));
            lemma_hidden_grows(reps@, i + 1, reps@.len() as int);
        }
        r.push(c - offset);
        offset = offset + (end - start - 1);
        i = i + 1;
    }
    r
}

/// Replacements hide at least one character less than they replace, so the
/// hidden count only grows.
proof fn lemma_hidden_grows(reps: Seq<(usize, usize, usize)>, i: int, j: int)
    requires
        0 <= i <= j <= reps.len(),
        forall|k: int| 0 <= k < reps.len() ==> (#[trigger] reps[k]).1 < reps[k].2,
    ensures
        hidden_before(reps, i) <= hidden_before(reps, j),
    decreases j - i,
{
    if i < j {
        lemma_hidden_grows(reps, i, j - 1);
        assert(reps[j - 1].1 < reps[j - 1].2);
    }
}

} // verus!
