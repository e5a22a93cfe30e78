use riiman::input::update_index;
use riiman::search::{
    boundary_index, replacement_cursors, format_uuid, AutocompleteReplacement, AutocompleteResult, SearchState,
    MAX_SUGGESTIONS,
};
use riiman::text::{char_index_from_byte_index, find_word_at_position, is_non_word_char};

#[test]
fn test_find_word_at_position() {
    let x = find_word_at_position("hello there", 2);
    assert_eq!(Some((0, 5)), x);

    let x = find_word_at_position("((abc def) ghi)", 2);
    assert_eq!(Some((2, 5)), x);
}

#[test]
fn word_after_the_cursor_runs_to_the_end() {
    assert_eq!(Some((6, 11)), find_word_at_position("hello there", 7));
    assert_eq!(Some((6, 11)), find_word_at_position("hello there", 100));
}

#[test]
fn no_word_in_separators_only() {
    assert_eq!(None, find_word_at_position("", 0));
    assert_eq!(None, find_word_at_position("( ) !&|", 3));
}

#[test]
fn word_ends_before_a_bracket() {
    assert_eq!(Some((1, 4)), find_word_at_position("(abc)", 1));
    assert_eq!(Some((6, 9)), find_word_at_position("(abc) def", 6));
}

#[test]
fn word_offsets_are_bytes() {
    // "é" takes two bytes.
    assert_eq!(Some((0, 3)), find_word_at_position("éa b", 0));
    assert_eq!(Some((4, 5)), find_word_at_position("éa b", 4));
}

#[test]
fn separators_of_filter_expressions() {
    for c in [' ', '\t', '\n', '\r', '(', ')', '!', '&', '|'] {
        assert!(is_non_word_char(c));
    }
    for c in ['a', 'Z', '0', ':', '-', '_', 'é'] {
        assert!(!is_non_word_char(c));
    }
}

#[test]
fn char_index_of_byte_positions() {
    assert_eq!(0, char_index_from_byte_index("abc", 0));
    assert_eq!(2, char_index_from_byte_index("abc", 2));
    assert_eq!(3, char_index_from_byte_index("abc", 3));
    assert_eq!(3, char_index_from_byte_index("abc", 10));
    // "é" is two bytes, "日" three.
    assert_eq!(1, char_index_from_byte_index("é日x", 2));
    assert_eq!(2, char_index_from_byte_index("é日x", 3));
    assert_eq!(2, char_index_from_byte_index("é日x", 5));
    assert_eq!(3, char_index_from_byte_index("é日x", 6));
    assert_eq!(0, char_index_from_byte_index("", 4));
}

#[test]
fn boundaries_of_characters() {
    assert_eq!(Some(0), boundary_index("é日x", 0));
    assert_eq!(None, boundary_index("é日x", 1));
    assert_eq!(Some(1), boundary_index("é日x", 2));
    assert_eq!(None, boundary_index("é日x", 4));
    assert_eq!(Some(2), boundary_index("é日x", 5));
    assert_eq!(Some(3), boundary_index("é日x", 6));
    assert_eq!(None, boundary_index("é日x", 7));
}

#[test]
fn update_index_moves_and_stops() {
    assert_eq!(Some(0), update_index(None, true, false, 5, 10));
    assert_eq!(None, update_index(None, false, true, 5, 10));
    assert_eq!(Some(3), update_index(Some(2), true, false, 5, 10));
    assert_eq!(Some(4), update_index(Some(4), true, false, 5, 10));
    assert_eq!(Some(9), update_index(Some(9), true, false, 50, 10));
    assert_eq!(Some(1), update_index(Some(2), false, true, 5, 10));
    assert_eq!(None, update_index(Some(0), false, true, 5, 10));
    assert_eq!(Some(2), update_index(Some(2), false, false, 5, 10));
    // Down wins when both are pressed.
    assert_eq!(Some(3), update_index(Some(2), true, true, 5, 10));
    // Down with nothing selected selects the first entry even of an empty list.
    assert_eq!(Some(0), update_index(None, true, false, 0, 10));
}

#[test]
fn down_then_up_returns() {
    let down = update_index(Some(3), true, false, 8, 10);
    assert_eq!(Some(3), update_index(down, false, true, 8, 10));
}

#[test]
fn uuid_text_matches_the_uuid_crate() {
    for v in [0u128, 1, 0x0123_4567_89ab_cdef_0123_4567_89ab_cdef, u128::MAX, 0xdead_beef << 64] {
        assert_eq!(uuid::Uuid::from_u128(v).to_string(), format_uuid(v));
    }
    assert_eq!("00000000-0000-0000-0000-000000000001", format_uuid(1));
}

#[test]
fn replacement_puts_the_tag_in_place_of_the_word() {
    let id = 0x0123_4567_89ab_cdef_0123_4567_89ab_cdefu128;
    let mut s = String::from("(cat & do)");
    let r = AutocompleteReplacement { range: (7, 9), result: AutocompleteResult::TagResult(id) };
    assert!(r.fits_text(&s));
    r.apply(&mut s);
    assert_eq!("(cat & field:01234567-89ab-cdef-0123-456789abcdef)", s);
}

#[test]
fn replacement_end_is_cut_to_the_text() {
    let mut s = String::from("a béc");
    let r = AutocompleteReplacement { range: (2, 99), result: AutocompleteResult::TagResult(2) };
    assert!(r.fits_text(&s));
    r.apply(&mut s);
    assert_eq!("a field:00000000-0000-0000-0000-000000000002", s);
}

#[test]
fn replacement_must_fall_on_boundaries() {
    let s = "béc";
    let inside = AutocompleteReplacement { range: (2, 4), result: AutocompleteResult::TagResult(1) };
    assert!(!inside.fits_text(s));
    let reversed = AutocompleteReplacement { range: (3, 1), result: AutocompleteResult::TagResult(1) };
    assert!(!reversed.fits_text(s));
}

#[test]
fn search_state_follows_the_word() {
    let mut st = SearchState::new();
    let text = "cat & do";
    let step = st.word_step(text, 7).unwrap();
    assert_eq!((6, 8), step.range);
    assert!(step.needs_search);
    st.set_search(text, step.range, Some(vec![10, 20, 30]));
    assert_eq!("do", st.search_query);
    assert_eq!(Some((6, 8)), st.search_range);
    assert_eq!(
        vec![
            AutocompleteResult::TagResult(10),
            AutocompleteResult::TagResult(20),
            AutocompleteResult::TagResult(30)
        ],
        st.search_results
    );
    assert_eq!(None, st.selected_index);
    // The same word at the same place needs no new search.
    let again = st.word_step(text, 8).unwrap();
    assert!(!again.needs_search);
    // A failed search leaves no suggestions.
    st.set_search(text, (0, 3), None);
    assert!(st.search_results.is_empty());
    assert_eq!("cat", st.search_query);
}

#[test]
fn keyboard_accepts_the_selected_suggestion() {
    let mut st = SearchState::new();
    st.set_search("ab cd", (3, 5), Some(vec![1, 2, 3]));
    st.navigate(true, true, false);
    st.navigate(true, true, false);
    assert_eq!(Some(1), st.selected_index);
    assert!(st.wants_popup());
    let r = st.accept_selected(true).unwrap();
    assert_eq!((3, 5), r.range);
    assert_eq!(AutocompleteResult::TagResult(2), r.result);
    // The chosen entry left the list; the last took its place.
    assert_eq!(vec![AutocompleteResult::TagResult(1), AutocompleteResult::TagResult(3)], st.search_results);
    assert_eq!(None, st.search_range);
    // Without a known range nothing more is replaced.
    assert!(st.accept_selected(true).is_none());
    st.finish_replacement();
    assert!(!st.focused);
    assert!(st.search_results.is_empty());
    assert_eq!("", st.search_query);
}

#[test]
fn arrows_only_move_with_focus() {
    let mut st = SearchState::new();
    st.set_search("x", (0, 1), Some((0..20).collect()));
    st.navigate(false, true, false);
    assert_eq!(None, st.selected_index);
    for _ in 0..15 {
        st.navigate(true, true, false);
    }
    assert_eq!(Some(MAX_SUGGESTIONS - 1), st.selected_index);
    let r = st.clicked(4, (0, 1));
    assert_eq!(AutocompleteResult::TagResult(4), r.result);
}

#[test]
fn tags_are_drawn_where_their_text_starts() {
    // Two replacements of 41 characters each, shown as one character.
    let id = "field:00000000-0000-0000-0000-000000000001";
    let text = format!("a {id} & é {id}");
    let second = text.rfind("field").unwrap();
    let reps = [(2, 2, 2 + id.len()), (second, 46, 46 + id.len())];
    // The second starts at character 49, of which 41 are hidden by the first.
    assert_eq!(vec![2, 8], replacement_cursors(&text, &reps));
    assert_eq!(Vec::<usize>::new(), replacement_cursors("abc", &[]));
}
