use riiman::find_tag::{
    all_types, match_runs, merge_indices, types_excluding, FindChoice, FindResult, FindTagState,
};
use riiman::tag::FieldType;
use riiman::tag_tree::{
    build_tree, copy_result, forest_size, insert_path, resolve_index, tree_selection,
    FieldMatchResult, Forest, MergedFieldMatchResult, TagTreeEntry, TagTreeState,
};

fn hit(id: u128) -> MergedFieldMatchResult {
    MergedFieldMatchResult { id, matches: vec![FieldMatchResult::Name { indices: vec![0, 1] }] }
}

fn keys(f: &Forest) -> Vec<u128> {
    f.iter().map(|(k, _)| *k).collect()
}

#[test]
fn tree_puts_results_under_their_ancestors() {
    // Tag 3 sits below 1; tag 4 below 1 and 2; tag 5 is a root.
    let results = vec![hit(3), hit(5)];
    let paths = vec![vec![vec![1, 3], vec![2, 4, 3]], vec![vec![5]]];
    let tree = build_tree(&results, &paths);
    assert_eq!(vec![1, 2, 5], keys(&tree));
    let e1 = &tree[0].1;
    assert_eq!(1, e1.item.id);
    assert!(e1.item.matches.is_empty());
    assert_eq!(vec![3], keys(&e1.children));
    assert_eq!(hit(3), e1.children[0].1.item);
    let e2 = &tree[1].1;
    assert_eq!(vec![4], keys(&e2.children));
    assert_eq!(vec![3], keys(&e2.children[0].1.children));
    assert_eq!(hit(5), tree[2].1.item);
    // Drawing order: 1, 3, 2, 4, 3, 5.
    assert_eq!(6, forest_size(&tree));
    let order: Vec<u128> = (0..6).map(|i| resolve_index(&tree, i).unwrap().id).collect();
    assert_eq!(vec![1, 3, 2, 4, 3, 5], order);
    assert!(resolve_index(&tree, 6).is_none());
}

#[test]
fn walking_an_existing_path_keeps_the_order() {
    let mut tree: Forest = Vec::new();
    insert_path(&mut tree, &[1, 2], 0, &hit(2));
    insert_path(&mut tree, &[3], 0, &hit(3));
    insert_path(&mut tree, &[1, 4], 0, &hit(4));
    assert_eq!(vec![1, 3], keys(&tree));
    assert_eq!(vec![2, 4], keys(&tree[0].1.children));
    // Walking a path again replaces the item at its end.
    let other = MergedFieldMatchResult { id: 2, matches: vec![] };
    insert_path(&mut tree, &[1, 2], 0, &other);
    assert_eq!(other, tree[0].1.children[0].1.item);
    // An empty path changes nothing.
    insert_path(&mut tree, &[], 0, &hit(9));
    assert_eq!(vec![1, 3], keys(&tree));
}

#[test]
fn entry_counts() {
    let mut e = TagTreeEntry::new(hit(1));
    assert_eq!(1, e.count());
    insert_path(&mut e.children, &[2, 3], 0, &hit(3));
    assert_eq!(3, e.count());
    assert!(!e.collapsed);
}

#[test]
fn tree_state_navigation() {
    let mut st = TagTreeState::new();
    assert_eq!(0, st.search_results_count());
    st.rebuild(&[hit(3)], &[vec![vec![1, 3]]]);
    assert_eq!(vec![0], st.selected_indices);
    assert_eq!(2, st.search_results_count());
    st.update_index(true, false);
    assert_eq!(vec![1], st.selected_indices);
    st.update_index(true, false);
    assert_eq!(vec![1], st.selected_indices);
    st.update_index(false, true);
    assert_eq!(vec![0], st.selected_indices);
    st.update_index(false, true);
    assert!(st.selected_indices.is_empty());
    st.update_index(false, false);
    assert!(st.selected_indices.is_empty());
    st.update_index(true, false);
    assert_eq!(vec![0], st.selected_indices);
}

#[test]
fn tree_click_selects_one_tag() {
    assert_eq!(vec![7], tree_selection(&vec![1, 2], Some(7)));
    assert_eq!(vec![1], tree_selection(&vec![1], Some(1)));
    assert_eq!(Vec::<u128>::new(), tree_selection(&vec![], None));
    let kept = tree_selection(&vec![4, 5], None);
    assert_eq!(1, kept.len());
    assert!([4, 5].contains(&kept[0]));
}

#[test]
fn copies_are_equal() {
    let m = MergedFieldMatchResult {
        id: 9,
        matches: vec![
            FieldMatchResult::Alias { alias: "kitty".to_string(), indices: vec![1] },
            FieldMatchResult::ParentAlias { parent_id: 2, alias: "pet".to_string(), indices: vec![] },
        ],
    };
    assert_eq!(m, copy_result(&m));
}

#[test]
fn merged_indices_group_by_key() {
    let matches = vec![
        FieldMatchResult::Name { indices: vec![0, 1] },
        FieldMatchResult::Alias { alias: "kit".to_string(), indices: vec![2] },
        FieldMatchResult::ParentName { parent_id: 7, indices: vec![3] },
        FieldMatchResult::Alias { alias: "cat".to_string(), indices: vec![4] },
        FieldMatchResult::Alias { alias: "kit".to_string(), indices: vec![5] },
        FieldMatchResult::Name { indices: vec![6] },
        FieldMatchResult::ParentAlias { parent_id: 7, alias: "a".to_string(), indices: vec![8] },
        FieldMatchResult::ParentAlias { parent_id: 6, alias: "b".to_string(), indices: vec![9] },
        FieldMatchResult::ParentAlias { parent_id: 7, alias: "a".to_string(), indices: vec![10] },
        FieldMatchResult::ParentName { parent_id: 7, indices: vec![11] },
    ];
    let (names, aliases, parents, parent_aliases) = merge_indices(&matches);
    assert_eq!(vec![0, 1, 6], names);
    let a: Vec<(String, Vec<u32>)> = aliases.into_iter().collect();
    assert_eq!(vec![("kit".to_string(), vec![2, 5]), ("cat".to_string(), vec![4])], a);
    let p: Vec<(u128, Vec<u32>)> = parents.into_iter().collect();
    assert_eq!(vec![(7, vec![3, 11])], p);
    let pa: Vec<(u128, Vec<(String, Vec<u32>)>)> =
        parent_aliases.into_iter().map(|(k, v)| (k, v.into_iter().collect())).collect();
    assert_eq!(
        vec![(7, vec![("a".to_string(), vec![8, 10])]), (6, vec![("b".to_string(), vec![9])])],
        pa
    );
}

#[test]
fn type_lists() {
    assert_eq!(11, all_types().len());
    let t = types_excluding(&[FieldType::Container, FieldType::Tag]);
    assert_eq!(9, t.len());
    assert_eq!(FieldType::Boolean, t[0]);
    assert!(!t.contains(&FieldType::Container));
    assert_eq!(all_types(), types_excluding(&[]));
}

#[test]
fn finder_offers_to_create() {
    let mut st = FindTagState::new();
    assert!(st.needs_search(false));
    st.search_text = "ca".to_string();
    st.set_search_results(Some(vec![hit(1), hit(2)]), true);
    let r = st.search_results.as_ref().unwrap();
    assert_eq!(3, r.len());
    assert_eq!(FindResult::CreateResult, r[2]);
    assert_eq!(Some(0), st.selected_index);
    assert!(!st.needs_search(false));
    assert!(st.needs_search(true));
    // A failed search keeps the previous entries.
    st.set_search_results(None, true);
    assert_eq!(3, st.search_results.as_ref().unwrap().len());
    // With ten or more tags the create entry is the tenth.
    st.set_search_results(Some((0..12).map(hit).collect()), true);
    let r = st.search_results.as_ref().unwrap();
    assert_eq!(13, r.len());
    assert_eq!(FindResult::CreateResult, r[9]);
    assert_eq!(FindResult::MatchResult(hit(9)), r[10]);
    // No create entry for an empty text or when creating is not allowed.
    st.search_text = String::new();
    st.set_search_results(Some(vec![hit(1)]), true);
    assert_eq!(1, st.search_results.as_ref().unwrap().len());
    st.search_text = "x".to_string();
    st.set_search_results(Some(vec![hit(1)]), false);
    assert_eq!(1, st.search_results.as_ref().unwrap().len());
}

#[test]
fn finder_choices() {
    let mut st = FindTagState::new();
    st.search_text = "new".to_string();
    st.set_search_results(Some(vec![hit(4)]), true);
    assert_eq!(Some(FindChoice::Tag(4)), st.accept_selected(true));
    assert_eq!(None, st.accept_selected(false));
    st.navigate(true, true, false);
    assert_eq!(Some(1), st.selected_index);
    assert_eq!(Some(FindChoice::Create("new".to_string())), st.accept_selected(true));
    assert_eq!(None, st.choice_at(5));
    assert!(st.wants_popup());
    st.finish_choice();
    assert!(!st.focused);
    assert!(st.search_results.is_none());
    assert_eq!("", st.search_text);
    assert!(!st.wants_popup());
}

#[test]
fn highlight_runs() {
    assert_eq!(vec![(0, 2, true), (2, 4, false), (4, 5, true)], match_runs(5, &[0, 1, 4]));
    assert_eq!(vec![(0, 3, false)], match_runs(3, &[7]));
    assert_eq!(Vec::<(usize, usize, bool)>::new(), match_runs(0, &[0]));
}
