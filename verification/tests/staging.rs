use ripdrag::staging::PathStagingSet;

fn strings(items: &[&str]) -> Vec<String> {
    items.iter().map(|s| s.to_string()).collect()
}

#[test]
fn new_set_is_empty() {
    let set = PathStagingSet::new();
    assert_eq!(set.len(), 0);
    assert!(set.snapshot().is_empty());
}

#[test]
fn append_one_returns_running_length() {
    let mut set = PathStagingSet::new();
    assert_eq!(set.append_one("/tmp/a".to_string()), 1);
    assert_eq!(set.append_one("/tmp/b".to_string()), 2);
    assert_eq!(set.append_one("/tmp/a".to_string()), 3);
    assert_eq!(set.snapshot(), strings(&["/tmp/a", "/tmp/b", "/tmp/a"]));
}

#[test]
fn appends_never_touch_prior_elements() {
    let mut set = PathStagingSet::new();
    set.seed(strings(&["/tmp/a", "/tmp/b"]));
    let before = set.snapshot();
    set.append_many(strings(&["/tmp/c", "/tmp/d"]));
    set.append_one("/tmp/e".to_string());
    let after = set.snapshot();
    assert_eq!(after.len(), 5);
    assert_eq!(&after[..2], &before[..]);
    assert_eq!(&after[2..], &strings(&["/tmp/c", "/tmp/d", "/tmp/e"])[..]);
}

#[test]
fn length_is_sum_of_appends() {
    let mut set = PathStagingSet::new();
    let mut expected = 0;
    for batch in [vec!["/x"], vec![], vec!["/y", "/z"], vec!["/x"]] {
        expected += batch.len();
        set.append_many(batch.iter().map(|s| s.to_string()).collect());
        assert_eq!(set.len(), expected);
    }
}

#[test]
fn duplicates_are_kept_in_order() {
    let mut set = PathStagingSet::new();
    set.append_many(strings(&["/same", "/same"]));
    assert_eq!(set.snapshot(), strings(&["/same", "/same"]));
    assert_eq!(set.get(0), set.get(1));
}
