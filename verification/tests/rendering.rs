use crate2bib::bib::{render_author, render_authors, render_date, render_version};
use crate2bib::cff::{Author, Date};
use crate2bib::version::SemVer;

fn person(given: Option<&str>, particle: Option<&str>, family: Option<&str>, suffix: Option<&str>) -> Author {
    Author {
        given_names: given.map(String::from),
        name_particle: particle.map(String::from),
        family_names: family.map(String::from),
        name_suffix: suffix.map(String::from),
        orcid: None,
        name: None,
    }
}

fn entity(name: &str) -> Author {
    Author {
        given_names: None,
        name_particle: None,
        family_names: None,
        name_suffix: None,
        orcid: None,
        name: Some(String::from(name)),
    }
}

#[test]
fn dates_render_zero_padded() {
    let d = Date { year: 2024, month: 12, day: 27 };
    assert_eq!(render_date(&d).as_str(), "2024-12-27");
    let d = Date { year: 985, month: 3, day: 7 };
    assert_eq!(render_date(&d).as_str(), "0985-03-07");
}

#[test]
fn versions_render_with_pre_release_and_build() {
    let v = SemVer {
        major: 1,
        minor: 0,
        patch: 217,
        pre: String::new(),
        build: String::new(),
    };
    assert_eq!(render_version(&v).as_str(), "1.0.217");
    let v = SemVer {
        major: 2,
        minor: 0,
        patch: 0,
        pre: String::from("alpha.1"),
        build: String::from("build7"),
    };
    assert_eq!(render_version(&v).as_str(), "2.0.0-alpha.1+build7");
}

#[test]
fn person_parts_join_with_single_spaces_and_trim() {
    let a = person(Some("Alexander"), Some("von"), Some("Humboldt"), None);
    assert_eq!(render_author(&a).as_str(), "Alexander von Humboldt");
    let a = person(Some("Sammy"), None, Some("Davis"), Some("Jr."));
    assert_eq!(render_author(&a).as_str(), "Sammy Davis Jr.");
    // absent components are omitted, trailing blanks trimmed
    let a = person(None, None, Some("Pleyer"), None);
    assert_eq!(render_author(&a).as_str(), "Pleyer");
    let a = person(None, None, None, None);
    assert_eq!(render_author(&a).as_str(), "");
}

#[test]
fn entity_and_anonymous_authors_render_by_rule() {
    assert_eq!(render_author(&entity("Dark Side Software")).as_str(), "Dark Side Software");
    assert_eq!(render_author(&entity("anonymous")).as_str(), "Anonymous");
}

#[test]
fn authors_join_with_comma_and_space_in_document_order() {
    let authors = vec![
        person(Some("Jonas"), None, Some("Pleyer"), None),
        entity("Dark Side Software"),
    ];
    assert_eq!(
        render_authors(&authors).as_str(),
        "Jonas Pleyer, Dark Side Software"
    );
    let none: Vec<Author> = Vec::new();
    assert_eq!(render_authors(&none).as_str(), "");
}
