use nosman::semver::SemVer;
use nosman::semver::VersionOrder;

fn v(major: u32, minor: Option<u32>, patch: Option<u32>, build_number: Option<u32>) -> SemVer {
    SemVer { major, minor, patch, build_number }
}

#[test]
fn parse_accepts_each_precision() {
    let p = SemVer::parse_from_string("1").unwrap();
    assert_eq!(p.major, 1);
    assert_eq!(p.minor, None);
    assert_eq!(p.patch, None);
    assert_eq!(p.build_number, None);

    let p = SemVer::parse_from_string("1.2").unwrap();
    assert_eq!((p.major, p.minor, p.patch), (1, Some(2), None));

    let p = SemVer::parse_from_string("1.2.3").unwrap();
    assert_eq!((p.major, p.minor, p.patch, p.build_number), (1, Some(2), Some(3), None));

    let p = SemVer::parse_from_string("10.20.30.40").unwrap();
    assert_eq!((p.major, p.minor, p.patch, p.build_number), (10, Some(20), Some(30), Some(40)));
}

#[test]
fn parse_rejects_bad_tokens() {
    assert!(SemVer::parse_from_string("").is_none());
    assert!(SemVer::parse_from_string("v1.2.3").is_none());
    assert!(SemVer::parse_from_string("latest").is_none());
    assert!(SemVer::parse_from_string("1..2").is_none());
    assert!(SemVer::parse_from_string(".1").is_none());
    assert!(SemVer::parse_from_string("1.").is_none());
    assert!(SemVer::parse_from_string("1.2.3.4.5").is_none());
    assert!(SemVer::parse_from_string("1.a").is_none());
    assert!(SemVer::parse_from_string("1.-2").is_none());
    assert!(SemVer::parse_from_string("1.2.3-rc1").is_none());
}

#[test]
fn parse_handles_u32_bounds() {
    let p = SemVer::parse_from_string("4294967295").unwrap();
    assert_eq!(p.major, u32::MAX);
    assert!(SemVer::parse_from_string("4294967296").is_none());
    // Leading zeros do not change the value.
    let p = SemVer::parse_from_string("1.02").unwrap();
    assert_eq!(p.minor, Some(2));
}

#[test]
fn format_renders_present_components() {
    assert_eq!(v(1, None, None, None).format(), "1");
    assert_eq!(v(1, Some(2), None, None).format(), "1.2");
    assert_eq!(v(1, Some(2), Some(3), None).format(), "1.2.3");
    assert_eq!(v(1, Some(2), Some(3), Some(4)).format(), "1.2.3.4");
    assert_eq!(v(0, Some(0), Some(0), None).format(), "0.0.0");
}

#[test]
fn parse_format_round_trip() {
    let samples = vec![
        v(0, None, None, None),
        v(1, Some(0), None, None),
        v(1, Some(2), Some(3), None),
        v(12, Some(34), Some(56), Some(78)),
        v(u32::MAX, Some(u32::MAX - 1), None, None),
    ];
    for sample in samples {
        let text = sample.format();
        let back = SemVer::parse_from_string(&text).unwrap();
        assert_eq!(back.major, sample.major);
        assert_eq!(back.minor, sample.minor);
        assert_eq!(back.patch, sample.patch);
        assert_eq!(back.build_number, sample.build_number);
    }
}

#[test]
fn minor_range_defined_iff_minor_present() {
    let r = v(1, Some(2), None, None).minor_range().unwrap();
    assert_eq!(r.0.format(), "1.2");
    assert_eq!(r.1.format(), "1.3");

    let r = v(1, Some(2), Some(1), None).minor_range().unwrap();
    assert_eq!(r.0.format(), "1.2.1");
    assert_eq!(r.1.format(), "1.3");

    let e = v(7, None, None, None).minor_range().unwrap_err();
    assert!(matches!(e, nosman::command::CommandError::ImpreciseVersion { .. }));
}

#[test]
fn minor_range_window_membership() {
    let req = v(1, Some(2), Some(1), None);
    // Versions in the same major.minor at or above the request are inside.
    assert!(req.in_minor_range(&v(1, Some(2), Some(1), None)));
    assert!(req.in_minor_range(&v(1, Some(2), Some(5), None)));
    assert!(req.in_minor_range(&v(1, Some(2), Some(1), Some(9))));
    // Below the floor, or in another major.minor, is outside.
    assert!(!req.in_minor_range(&v(1, Some(2), Some(0), None)));
    assert!(!req.in_minor_range(&v(1, Some(3), Some(0), None)));
    assert!(!req.in_minor_range(&v(2, Some(0), Some(0), None)));
    assert!(!req.in_minor_range(&v(1, None, None, None)));
}

#[test]
fn minor_range_window_with_build_components() {
    // Incrementing patch or build keeps a version inside the window.
    let req = v(1, Some(2), Some(1), Some(3));
    assert!(req.in_minor_range(&v(1, Some(2), Some(1), Some(4))));
    assert!(req.in_minor_range(&v(1, Some(2), Some(2), Some(0))));
    assert!(!req.in_minor_range(&v(1, Some(2), Some(1), Some(2))));
    assert!(!req.in_minor_range(&v(1, Some(2), Some(1), None)));
}

#[test]
fn range_order_sorts_absent_components_low() {
    let a = v(1, Some(2), None, None);
    let b = v(1, Some(2), Some(0), None);
    let c = v(1, Some(2), Some(1), None);
    assert_eq!(a.range_cmp(&b), VersionOrder::Less);
    assert_eq!(b.range_cmp(&c), VersionOrder::Less);
    assert_eq!(c.range_cmp(&a), VersionOrder::Greater);
    assert_eq!(a.range_cmp(&v(1, Some(2), None, None)), VersionOrder::Equal);
}
