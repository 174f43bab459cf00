use dodgem::error::BumpError;
use dodgem::version::{BumpType, Version};

fn v(major: i32, minor: i32, patch: i32) -> Version {
    Version { major, minor, patch }
}

#[test]
fn bump_major_resets_minor_and_patch() {
    assert_eq!(v(0, 0, 0).bump_major(), v(1, 0, 0));
    assert_eq!(v(1, 2, 3).bump_major(), v(2, 0, 0));
    assert_eq!(v(9, 9, 9).bump_major(), v(10, 0, 0));
}

#[test]
fn bump_minor_resets_patch() {
    assert_eq!(v(0, 0, 0).bump_minor(), v(0, 1, 0));
    assert_eq!(v(1, 2, 3).bump_minor(), v(1, 3, 0));
    assert_eq!(v(9, 9, 9).bump_minor(), v(9, 10, 0));
}

#[test]
fn bump_patch_keeps_major_and_minor() {
    assert_eq!(v(0, 0, 0).bump_patch(), v(0, 0, 1));
    assert_eq!(v(1, 2, 3).bump_patch(), v(1, 2, 4));
    assert_eq!(v(9, 9, 9).bump_patch(), v(9, 9, 10));
}

#[test]
fn bump_leaves_the_version_it_starts_from_untouched() {
    let before = v(1, 2, 3);
    let _ = before.bump_major();
    let _ = before.bump_minor();
    let _ = before.bump_patch();
    assert_eq!(before, v(1, 2, 3));
}

#[test]
fn bump_by_kind_agrees_with_the_three_methods() {
    for start in [v(0, 0, 0), v(1, 2, 3), v(9, 9, 9)] {
        assert_eq!(start.bump(BumpType::major), Some(start.bump_major()));
        assert_eq!(start.bump(BumpType::minor), Some(start.bump_minor()));
        assert_eq!(start.bump(BumpType::patch), Some(start.bump_patch()));
    }
}

#[test]
fn bump_by_kind_refuses_at_the_top() {
    let top = v(i32::MAX, i32::MAX, i32::MAX);
    assert_eq!(top.bump(BumpType::major), None);
    assert_eq!(top.bump(BumpType::minor), None);
    assert_eq!(top.bump(BumpType::patch), None);
    assert_eq!(v(i32::MAX, 0, 0).bump(BumpType::minor), Some(v(i32::MAX, 1, 0)));
    assert_eq!(v(i32::MAX - 1, 5, 5).bump(BumpType::major), Some(v(i32::MAX, 0, 0)));
}

#[test]
fn version_str_is_dotted_decimal() {
    assert_eq!(v(0, 0, 0).version_str(), "0.0.0");
    assert_eq!(v(1, 2, 3).version_str(), "1.2.3");
    assert_eq!(v(10, 200, 3000).version_str(), "10.200.3000");
    assert_eq!(v(i32::MAX, 0, 109).version_str(), "2147483647.0.109");
}

#[test]
fn parse_tag_reads_the_suffix() {
    assert_eq!(Version::parse_tag("release-1.2.3"), Ok(v(1, 2, 3)));
    assert_eq!(Version::parse_tag("refs/tags/release-1.2.3"), Ok(v(1, 2, 3)));
    assert_eq!(Version::parse_tag("my-nice-project-10.20.30"), Ok(v(10, 20, 30)));
    assert_eq!(Version::parse_tag("-0.0.0"), Ok(v(0, 0, 0)));
    assert_eq!(Version::parse_tag("v1.0.0-2.0.0"), Ok(v(2, 0, 0)));
    assert_eq!(Version::parse_tag("gr\u{fc}n-4.5.6"), Ok(v(4, 5, 6)));
}

#[test]
fn parse_tag_accepts_leading_zeros() {
    assert_eq!(Version::parse_tag("v-01.002.0003"), Ok(v(1, 2, 3)));
    assert_eq!(Version::parse_tag("v-000000000000000000007.0.00"), Ok(v(7, 0, 0)));
}

#[test]
fn parse_tag_accepts_the_largest_number() {
    assert_eq!(Version::parse_tag("r-2147483647.2147483647.2147483647"), Ok(v(i32::MAX, i32::MAX, i32::MAX)));
}

#[test]
fn parse_tag_rejects_numbers_too_large() {
    assert_eq!(Version::parse_tag("r-2147483648.0.0"), Err(BumpError::MalformedTag));
    assert_eq!(Version::parse_tag("r-0.2147483648.0"), Err(BumpError::MalformedTag));
    assert_eq!(Version::parse_tag("r-0.0.99999999999999999999"), Err(BumpError::MalformedTag));
}

#[test]
fn parse_tag_rejects_other_shapes() {
    for name in [
        "",
        "-",
        "v1.2.3",
        "1.2.3",
        "release-1.2",
        "release-1.2.",
        "release-1..3",
        "release-.2.3",
        "release-1.2.3.4",
        "release-1.2.3-rc1",
        "release-1.2.3rc1",
        "release-1.2.x",
        "release-1.2.3 ",
        "release- 1.2.3",
        "release-+1.2.3",
        "release-1,2,3",
        "release-\u{ff11}.2.3",
    ] {
        assert_eq!(Version::parse_tag(name), Err(BumpError::MalformedTag), "{:?}", name);
    }
}

#[test]
fn parse_then_format_gives_the_suffix_back() {
    for (name, suffix) in [
        ("release-1.2.3", "1.2.3"),
        ("x-0.0.0", "0.0.0"),
        ("a-b-c-12.0.340", "12.0.340"),
        ("refs/tags/v-2147483647.10.1", "2147483647.10.1"),
    ] {
        let version = Version::parse_tag(name).unwrap();
        assert_eq!(version.version_str(), suffix);
    }
}

#[test]
fn format_then_parse_gives_the_version_back() {
    for version in [v(0, 0, 0), v(1, 2, 3), v(9, 9, 9), v(100, 20, 3), v(i32::MAX, 0, i32::MAX)] {
        let name = format!("release-{}", version.version_str());
        assert_eq!(Version::parse_tag(&name), Ok(version));
    }
}
