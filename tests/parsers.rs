use rpm_builder::changelog::parse_changelog_entry;
use rpm_builder::error::{ArgCategory, SpecError};
use rpm_builder::file_spec::parse_file_spec;
use rpm_builder::numbers::{parse_epoch, parse_release};
use rpm_builder::relation::{parse_dependency, Comparator, VersionConstraint};

fn pair(raw: &str) -> Option<(String, String)> {
    parse_file_spec(raw, ArgCategory::File).ok()
}

#[test]
fn file_spec_splits_on_single_colon() {
    assert_eq!(pair("a.txt:/usr/bin/x"), Some(("a.txt".to_string(), "/usr/bin/x".to_string())));
    assert_eq!(pair("./rel/path:/opt/p q"), Some(("./rel/path".to_string(), "/opt/p q".to_string())));
}

#[test]
fn file_spec_rejects_other_colon_counts() {
    for raw in ["nocolon", "a:b:c", "::", "", "a:b:"] {
        match parse_file_spec(raw, ArgCategory::ConfigFile) {
            Err(SpecError::MalformedFileSpec { category, raw: r }) => {
                assert_eq!(category, ArgCategory::ConfigFile);
                assert_eq!(r, raw);
            }
            other => panic!("unexpected {:?} for {:?}", other, raw),
        }
    }
}

#[test]
fn file_spec_rejects_empty_sides() {
    assert_eq!(pair(":/usr/bin/x"), None);
    assert_eq!(pair("a.txt:"), None);
}

fn constraint(raw: &str) -> Option<(String, Option<(Comparator, String)>)> {
    match parse_dependency(raw, ArgCategory::Requires) {
        Ok(d) => Some((
            d.name,
            match d.constraint {
                VersionConstraint::Unconstrained => None,
                VersionConstraint::Constrained { comparator, version } => Some((comparator, version)),
            },
        )),
        Err(_) => None,
    }
}

#[test]
fn dependency_without_comparator_has_no_version() {
    assert_eq!(constraint("libfoo"), Some(("libfoo".to_string(), None)));
    assert_eq!(constraint("a-b.c_d9"), Some(("a-b.c_d9".to_string(), None)));
}

#[test]
fn dependency_with_each_comparator() {
    let cases = [
        ("libfoo >= 1.2", Comparator::GreaterEq, "1.2"),
        ("libfoo>1.2", Comparator::Greater, "1.2"),
        ("libfoo = 2", Comparator::Equal, "2"),
        ("libfoo<=3.0-1", Comparator::LessEq, "3.0-1"),
        ("libfoo   < 4 beta", Comparator::Less, "4 beta"),
    ];
    for (raw, cmp, version) in cases {
        assert_eq!(
            constraint(raw),
            Some(("libfoo".to_string(), Some((cmp, version.to_string())))),
            "{}",
            raw
        );
    }
}

#[test]
fn dependency_version_is_text_after_comparator() {
    assert_eq!(
        constraint("x>=\u{3000}1:2.0"),
        Some(("x".to_string(), Some((Comparator::GreaterEq, "1:2.0".to_string()))))
    );
}

#[test]
fn dependency_rejects_malformed() {
    for raw in ["", ">= 1", "lib foo", "libfoo >=", "libfoo >= ", "libfoo >= 1\n2", "lib/foo", "libfoo ~ 1"] {
        match parse_dependency(raw, ArgCategory::Provides) {
            Err(SpecError::MalformedRelationship { category, raw: r }) => {
                assert_eq!(category, ArgCategory::Provides);
                assert_eq!(r, raw);
            }
            other => panic!("unexpected {:?} for {:?}", other, raw),
        }
    }
}

#[test]
fn changelog_entry_parses_to_midnight_utc() {
    let entry = parse_changelog_entry("jane:fixed bug:2024-01-15").unwrap();
    assert_eq!(entry.author, "jane");
    assert_eq!(entry.content, "fixed bug");
    assert_eq!(entry.timestamp, 1705276800);
}

#[test]
fn changelog_dates_around_epoch_and_leap_day() {
    assert_eq!(parse_changelog_entry("a:b:1970-01-01").unwrap().timestamp, 0);
    assert_eq!(parse_changelog_entry("a:b:1969-12-31").unwrap().timestamp, -86400);
    assert_eq!(parse_changelog_entry("a:b:2024-02-29").unwrap().timestamp, 1709164800);
    assert_eq!(parse_changelog_entry("a:b:2000-03-01").unwrap().timestamp, 951868800);
}

#[test]
fn changelog_rejects_day_first_date() {
    match parse_changelog_entry("jane:fixed bug:15-01-2024") {
        Err(SpecError::InvalidChangelogDate { raw }) => assert_eq!(raw, "jane:fixed bug:15-01-2024"),
        other => panic!("unexpected {:?}", other),
    }
    assert!(matches!(
        parse_changelog_entry("jane:x:2023-02-29"),
        Err(SpecError::InvalidChangelogDate { .. })
    ));
}

#[test]
fn changelog_needs_three_parts() {
    for raw in ["jane:fixed bug", "jane:fixed:bug:2024-01-15", "no colons"] {
        match parse_changelog_entry(raw) {
            Err(SpecError::MalformedChangelogEntry { raw: r }) => assert_eq!(r, raw),
            other => panic!("unexpected {:?} for {:?}", other, raw),
        }
    }
}

#[test]
fn release_and_epoch_numbers() {
    assert_eq!(parse_release("1").unwrap(), 1);
    assert_eq!(parse_release("+65535").unwrap(), 65535);
    assert!(matches!(parse_release("65536"), Err(SpecError::InvalidRelease { .. })));
    assert!(matches!(parse_release("-1"), Err(SpecError::InvalidRelease { .. })));
    assert!(matches!(parse_release("foo-bar"), Err(SpecError::InvalidRelease { .. })));
    assert_eq!(parse_epoch("-5").unwrap(), -5);
    assert_eq!(parse_epoch("2147483647").unwrap(), 2147483647);
    assert!(matches!(parse_epoch(" 5"), Err(SpecError::InvalidEpoch { .. })));
    assert!(matches!(parse_epoch("2147483648"), Err(SpecError::InvalidEpoch { .. })));
}
