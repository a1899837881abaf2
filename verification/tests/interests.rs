use reactor::interests::Interests;

#[test]
fn readable_set_is_readable_only() {
    let set = Interests::readable();
    assert!(set.is_readable());
    assert!(!set.is_writable());
    assert!(!set.is_empty());
}

#[test]
fn writable_set_is_writable_only() {
    let set = Interests::writable();
    assert!(!set.is_readable());
    assert!(set.is_writable());
    assert!(!set.is_empty());
}

#[test]
fn empty_set_has_no_flags() {
    let set = Interests::empty();
    assert!(!set.is_readable());
    assert!(!set.is_writable());
    assert!(set.is_empty());
}

#[test]
fn combined_set_has_both_flags() {
    let set = Interests::new(true, true);
    assert!(set.is_readable());
    assert!(set.is_writable());
    assert!(!set.is_empty());
}
