use bundle_info::kit_version::BuildInfo;
use bundle_info::kit_version::KitVersion;
use bundle_info::kit_version::VersionComponent;
use bundle_info::kit_version::VersionParseError;

#[test]
fn parse_version_normal() {
    KitVersion::try_from("2021.0.0.1").unwrap();
}

#[test]
fn parse_version_dev() {
    KitVersion::try_from("2021.0.0.1dev").unwrap();
}

#[test]
fn parse_version_hash() {
    KitVersion::try_from("2021.0.0.1:123456").unwrap();
}

#[test]
fn parse_version_dev_hash() {
    KitVersion::try_from("2021.0.0.1dev:123456").unwrap();
}

#[test]
fn parse_version_branch() {
    KitVersion::try_from("2021.0.0.1:123456@master").unwrap();
}

#[test]
fn parse_version_dev_branch() {
    KitVersion::try_from("2021.0.0.1dev:123456@master").unwrap();
}

#[test]
fn parse_fields_exact() {
    let v = KitVersion::try_from("2021.0.0.1").unwrap();
    assert_eq!(v.epoch, 2021);
    assert_eq!(v.major, 0);
    assert_eq!(v.minor, 0);
    assert_eq!(v.patch, 1);
    assert!(!v.dev);
    assert!(v.build_info.is_none());
}

#[test]
fn parse_dev_flag() {
    let v = KitVersion::try_from("2021.0.0.1dev").unwrap();
    assert!(v.dev);
    assert!(v.build_info.is_none());
    let v = KitVersion::try_from("2021.0.0.1").unwrap();
    assert!(!v.dev);
}

#[test]
fn parse_build_info_commit_only() {
    let v = KitVersion::try_from("2021.0.0.1:123456").unwrap();
    let bi = v.build_info.unwrap();
    assert_eq!(bi.commit, "123456");
    assert!(bi.branch.is_none());
}

#[test]
fn parse_build_info_commit_and_branch() {
    // The ambiguity case: `@branch` only ever follows `:commit`, so a parsed
    // branch always comes with a commit.
    let v = KitVersion::try_from("2021.0.0.1:123456@master").unwrap();
    assert_eq!(
        v.build_info,
        Some(BuildInfo { commit: "123456".to_owned(), branch: Some("master".to_owned()) })
    );
}

#[test]
fn branch_without_commit_only_by_direct_construction() {
    // Not expressible by the grammar: a branch can only be attached to build
    // metadata whose commit is present, by constructing the value directly.
    let bi = BuildInfo { commit: "abcde".to_owned(), branch: Some("main".to_owned()) };
    assert_eq!(bi.to_string(), "abcde@main");
    let bi = BuildInfo { commit: "abcde".to_owned(), branch: None };
    assert_eq!(bi.to_string(), "abcde");
}

#[test]
fn format_exact() {
    let v = KitVersion {
        epoch: 2022,
        major: 1,
        minor: 4,
        patch: 0,
        dev: false,
        build_info: None,
    };
    assert_eq!(v.to_string(), "2022.1.4.0");
    let v = KitVersion {
        epoch: 1,
        major: 2,
        minor: 3,
        patch: 4,
        dev: true,
        build_info: Some(BuildInfo {
            commit: "abcde".to_owned(),
            branch: Some("main_1".to_owned()),
        }),
    };
    assert_eq!(v.to_string(), "1.2.3.4dev:abcde@main_1");
}

#[test]
fn roundtrip_all_accepted_forms() {
    for s in [
        "2021.0.0.1",
        "2021.0.0.1dev",
        "2021.0.0.1:123456",
        "2021.0.0.1dev:123456",
        "2021.0.0.1:123456@master",
        "2021.0.0.1dev:123456@master",
        "65535.255.255.255",
        "0.0.0.0",
    ] {
        let v = KitVersion::try_from(s).unwrap();
        assert_eq!(v.to_string(), s);
        let again = KitVersion::try_from(v.to_string().as_str()).unwrap();
        assert_eq!(again, v);
    }
}

#[test]
fn leading_zeros_parse_by_value() {
    let v = KitVersion::try_from("2021.007.0.1").unwrap();
    assert_eq!(v.major, 7);
}

#[test]
fn reject_missing_components() {
    for s in ["", "2021", "2021.0", "2021.0.0", "2021.0.0.", ".0.0.1", "2021..0.1"] {
        assert_eq!(
            KitVersion::try_from(s).unwrap_err(),
            VersionParseError::GrammarMismatch,
            "{s}"
        );
    }
}

#[test]
fn reject_component_overflow() {
    assert_eq!(
        KitVersion::try_from("99999.0.0.1").unwrap_err(),
        VersionParseError::ComponentOverflow(VersionComponent::Epoch)
    );
    assert_eq!(
        KitVersion::try_from("65536.0.0.1").unwrap_err(),
        VersionParseError::ComponentOverflow(VersionComponent::Epoch)
    );
    assert_eq!(
        KitVersion::try_from("2021.300.0.1").unwrap_err(),
        VersionParseError::ComponentOverflow(VersionComponent::Major)
    );
    assert_eq!(
        KitVersion::try_from("2021.0.256.1").unwrap_err(),
        VersionParseError::ComponentOverflow(VersionComponent::Minor)
    );
    assert_eq!(
        KitVersion::try_from("2021.0.0.999").unwrap_err(),
        VersionParseError::ComponentOverflow(VersionComponent::Patch)
    );
    // The epoch is checked first when several components overflow.
    assert_eq!(
        KitVersion::try_from("99999.300.0.1").unwrap_err(),
        VersionParseError::ComponentOverflow(VersionComponent::Epoch)
    );
    // Width checks run only on a string that matches the grammar.
    assert_eq!(
        KitVersion::try_from("99999.0.0.1x").unwrap_err(),
        VersionParseError::GrammarMismatch
    );
}

#[test]
fn reject_commit_length_out_of_bounds() {
    // Four hex characters: one too few.
    assert_eq!(
        KitVersion::try_from("2021.0.0.1:1234").unwrap_err(),
        VersionParseError::GrammarMismatch
    );
    // Five is the shortest accepted commit.
    assert!(KitVersion::try_from("2021.0.0.1:12345").is_ok());
    // Forty is the longest accepted commit.
    let forty = "a".repeat(40);
    assert!(KitVersion::try_from(format!("2021.0.0.1:{forty}").as_str()).is_ok());
    let fortyone = "a".repeat(41);
    assert_eq!(
        KitVersion::try_from(format!("2021.0.0.1:{fortyone}").as_str()).unwrap_err(),
        VersionParseError::GrammarMismatch
    );
}

#[test]
fn reject_bad_build_info() {
    for s in [
        "2021.0.0.1:ABCDEF",
        "2021.0.0.1:123456@",
        "2021.0.0.1:123456@mas-ter",
        "2021.0.0.1:",
        "2021.0.0.1@master",
    ] {
        assert_eq!(
            KitVersion::try_from(s).unwrap_err(),
            VersionParseError::GrammarMismatch,
            "{s}"
        );
    }
}

#[test]
fn reject_surrounding_garbage() {
    for s in [
        " 2021.0.0.1",
        "2021.0.0.1 ",
        "x2021.0.0.1",
        "2021.0.0.1x",
        "2021.0.0.1devx",
        "2021.0.0.1dev ",
        "v2021.0.0.1",
        "2021.0.0.1.2",
    ] {
        assert_eq!(
            KitVersion::try_from(s).unwrap_err(),
            VersionParseError::GrammarMismatch,
            "{s}"
        );
    }
}
