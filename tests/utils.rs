use oidc::utils::group_by;

#[test]
fn group_by_keeps_items_in_order_under_their_key() {
    let groups = group_by(vec![3u32, 1, 4, 1, 5, 9, 2, 6], |x: &u32| x % 3);
    assert_eq!(groups.len(), 3);
    assert_eq!(groups[&0], vec![3, 9, 6]);
    assert_eq!(groups[&1], vec![1, 4, 1]);
    assert_eq!(groups[&2], vec![5, 2]);
}

#[test]
fn group_by_of_nothing_is_empty() {
    let groups = group_by(Vec::<String>::new(), |s: &String| s.len());
    assert!(groups.is_empty());
}
