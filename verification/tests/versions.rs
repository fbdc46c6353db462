use version_ranges::osv::OsvRange;
use version_ranges::version::Version;

fn ver(major: u64, minor: u64, patch: u64, pre: &str) -> Version {
    Version::new(major, minor, patch, String::from(pre)).unwrap()
}

#[test]
fn empty_prerelease_accepted() {
    let v = Version::new(1, 0, 0, String::new()).unwrap();
    assert_eq!(v.major, 1);
    assert_eq!(v.minor, 0);
    assert_eq!(v.patch, 0);
    assert_eq!(v.pre, "");
}

#[test]
fn well_formed_prereleases_accepted() {
    assert!(Version::new(1, 0, 0, String::from("alpha")).is_some());
    assert!(Version::new(1, 0, 0, String::from("alpha.1")).is_some());
    assert!(Version::new(1, 0, 0, String::from("0")).is_some());
    assert!(Version::new(1, 0, 0, String::from("0a")).is_some());
    assert!(Version::new(1, 0, 0, String::from("01a")).is_some());
    assert!(Version::new(1, 0, 0, String::from("rc-1.x.7.z-92")).is_some());
}

#[test]
fn malformed_prereleases_rejected() {
    assert!(Version::new(1, 0, 0, String::from("01")).is_none());
    assert!(Version::new(1, 0, 0, String::from("alpha..1")).is_none());
    assert!(Version::new(1, 0, 0, String::from(".alpha")).is_none());
    assert!(Version::new(1, 0, 0, String::from("alpha.")).is_none());
    assert!(Version::new(1, 0, 0, String::from("alpha_1")).is_none());
    assert!(Version::new(1, 0, 0, String::from("bêta")).is_none());
}

#[test]
fn osv_range_holds_half_open_bounds() {
    let r = OsvRange { start: Some(ver(1, 2, 0, "")), end: Some(ver(1, 5, 0, "")) };
    assert_eq!(r.start, Some(ver(1, 2, 0, "")));
    assert_eq!(r.end, Some(ver(1, 5, 0, "")));
    let all = OsvRange { start: None, end: None };
    assert_eq!(all.start, None);
    assert_eq!(all.end, None);
}

#[test]
fn osv_range_order_is_deterministic() {
    let a = OsvRange { start: None, end: Some(ver(1, 0, 0, "")) };
    let b = OsvRange { start: Some(ver(1, 0, 0, "")), end: None };
    assert!(a < b);
    assert!(!(b < a));
    assert_eq!(a.cmp(&b), b.cmp(&a).reverse());
}
