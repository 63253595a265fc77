use pipfile_diff::semver::{PreReleaseCycle, Version};

#[test]
fn new_keeps_every_field() {
    let v = Version::new(
        Some(1),
        vec![2, 3, 4, 9],
        Some((PreReleaseCycle::ReleaseCandidate, 1)),
        Some(5),
        Some(6),
    )
    .unwrap();
    assert_eq!(v.epoch(), Some(1));
    assert_eq!(v.major(), 2);
    assert_eq!(v.segments(), &vec![2, 3, 4, 9]);
    assert_eq!(v.pre_release(), Some((PreReleaseCycle::ReleaseCandidate, 1)));
    assert_eq!(v.post_release(), Some(5));
    assert_eq!(v.dev_release(), Some(6));
}

#[test]
fn new_refuses_empty_segments() {
    assert_eq!(Version::new(None, vec![], None, None, None), None);
}
