use crate2bib::version::select_version;
use crate2bib::Crate2BibError;

fn nums(list: &[&str]) -> Vec<String> {
    list.iter().map(|s| String::from(*s)).collect()
}

#[test]
fn highest_matching_version_wins() {
    // The highest-precedence candidate satisfying the constraint wins,
    // not the first-listed one.
    let v = nums(&["1.0.1", "1.2.3", "1.1.0", "0.9.0"]);
    let (i, ver) = select_version("demo", Some("1"), &v).unwrap();
    assert_eq!(i, 1);
    assert_eq!(ver.major, 1);
    assert_eq!(ver.minor, 2);
    assert_eq!(ver.patch, 3);
}

#[test]
fn no_constraint_takes_highest_precedence() {
    let v = nums(&["1.0.1", "2.0.0-alpha", "1.9.9"]);
    let (i, ver) = select_version("demo", None, &v).unwrap();
    // 2.0.0-alpha has the highest precedence: major wins over pre-release.
    assert_eq!(i, 1);
    assert_eq!(ver.major, 2);
    assert_eq!(ver.pre.as_str(), "alpha");
}

#[test]
fn prerelease_orders_below_release() {
    let v = nums(&["1.0.0-alpha", "1.0.0", "1.0.0-beta"]);
    let (i, _) = select_version("demo", None, &v).unwrap();
    assert_eq!(i, 1);
}

#[test]
fn prerelease_identifiers_order_numerically_and_lexically() {
    // Standard pre-release ordering: alpha < alpha.1 < alpha.beta < beta < beta.2 < beta.11
    let v = nums(&[
        "1.0.0-alpha",
        "1.0.0-beta.11",
        "1.0.0-alpha.1",
        "1.0.0-beta.2",
        "1.0.0-alpha.beta",
    ]);
    let (i, ver) = select_version("demo", None, &v).unwrap();
    assert_eq!(i, 1);
    assert_eq!(ver.pre.as_str(), "beta.11");
}

#[test]
fn invalid_entries_are_excluded_not_fatal() {
    // An entry that is not a semantic version never wins and never makes
    // the match fail.
    let v = nums(&["not-a-version", "0.3.1", "also bad", "0.3.0"]);
    let (i, ver) = select_version("demo", Some("0.3"), &v).unwrap();
    assert_eq!(i, 1);
    assert_eq!(ver.patch, 1);
}

#[test]
fn invalid_entry_never_wins_even_when_listed_first() {
    let v = nums(&["9999999999999999999999.0.0", "1.0.0"]);
    let (i, _) = select_version("demo", None, &v).unwrap();
    assert_eq!(i, 1);
}

#[test]
fn empty_list_is_not_found() {
    let v: Vec<String> = Vec::new();
    let e = select_version("demo", None, &v).unwrap_err();
    match e {
        Crate2BibError::NotFound(m) => {
            assert_eq!(m.as_str(), "Could not find crate demo");
        }
        _ => panic!("expected NotFound"),
    }
}

#[test]
fn unsatisfied_constraint_is_not_found_with_constraint_in_message() {
    let v = nums(&["0.1.0", "0.2.5"]);
    let e = select_version("demo", Some("3"), &v).unwrap_err();
    match e {
        Crate2BibError::NotFound(m) => {
            assert_eq!(m.as_str(), "Could not find version 3 for crate demo");
        }
        _ => panic!("expected NotFound"),
    }
}

#[test]
fn malformed_constraint_is_a_config_error() {
    let v = nums(&["1.0.0"]);
    let e = select_version("demo", Some("not a constraint !!"), &v).unwrap_err();
    match e {
        Crate2BibError::Config(m) => {
            assert_eq!(
                m.as_str(),
                "Could not parse version constraint not a constraint !!"
            );
        }
        _ => panic!("expected Config"),
    }
}

#[test]
fn caret_semantics_of_bare_constraints() {
    // A bare "0.1" behaves like a caret requirement: 0.1.x matches, 0.2.x
    // does not.
    let v = nums(&["0.2.0", "0.1.7", "0.1.3"]);
    let (i, ver) = select_version("demo", Some("0.1"), &v).unwrap();
    assert_eq!(i, 1);
    assert_eq!(ver.minor, 1);
    assert_eq!(ver.patch, 7);
}

#[test]
fn build_metadata_is_carried_but_ignored_by_matching() {
    let v = nums(&["1.2.0+build7"]);
    let (_, ver) = select_version("demo", Some("1.2.0"), &v).unwrap();
    assert_eq!(ver.build.as_str(), "build7");
}
