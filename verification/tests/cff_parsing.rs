use crate2bib::bib::BibLaTeXCratesIO;
use crate2bib::cff::{CitationCff, WorkType};
use crate2bib::Crate2BibError;

#[test]
fn test_cellular_raza() {}

fn fixture() -> String {
    let mut t = String::new();
    t.push_str("cff-version: 1.2.0\n");
    t.push_str("message: If you use this software, please cite it.\n");
    t.push_str("title: cellular_raza\n");
    t.push_str("type: software\n");
    t.push_str("version: 0.1.0\n");
    t.push_str("date-released: 2024-01-15\n");
    t.push_str("url: https://github.com/jonaspleyer/cellular_raza\n");
    t.push_str("license: GPL-2.0\n");
    t.push_str("authors:\n");
    t.push_str("  - given-names: Jonas\n");
    t.push_str("    family-names: Pleyer\n");
    t
}

#[test]
fn parses_scalar_fields() {
    let c = CitationCff::parse(&fixture()).unwrap();
    assert_eq!(c.cff_version.as_deref(), Some("1.2.0"));
    assert_eq!(c.title.as_deref(), Some("cellular_raza"));
    assert_eq!(c.work_type, Some(WorkType::Software));
    assert_eq!(c.version.as_deref(), Some("0.1.0"));
    let d = c.date_released.unwrap();
    assert_eq!((d.year, d.month, d.day), (2024, 1, 15));
    assert_eq!(
        c.url.as_deref(),
        Some("https://github.com/jonaspleyer/cellular_raza")
    );
    assert_eq!(c.license.len(), 1);
    assert_eq!(c.license[0].as_str(), "GPL-2.0");
}

#[test]
fn parses_person_authors() {
    let c = CitationCff::parse(&fixture()).unwrap();
    assert_eq!(c.authors.len(), 1);
    assert_eq!(c.authors[0].given_names.as_deref(), Some("Jonas"));
    assert_eq!(c.authors[0].family_names.as_deref(), Some("Pleyer"));
    assert!(c.authors[0].name.is_none());
}

#[test]
fn parses_entity_and_anonymous_authors() {
    let mut text = String::new();
    text.push_str("title: Opaquity\n");
    text.push_str("authors:\n");
    text.push_str("  - name: Dark Side Software\n");
    text.push_str("  - name: anonymous\n");
    text.push_str("  - family-names: Vader\n");
    text.push_str("    name-suffix: Skywalker\n");
    text.push_str("    given-names: 'Anakin \"Darth\"'\n");
    let c = CitationCff::parse(&text).unwrap();
    assert_eq!(c.authors.len(), 3);
    assert_eq!(c.authors[0].name.as_deref(), Some("Dark Side Software"));
    assert_eq!(c.authors[1].name.as_deref(), Some("anonymous"));
    assert_eq!(c.authors[2].given_names.as_deref(), Some("Anakin \"Darth\""));
    let b = BibLaTeXCratesIO::from_citation_cff(&c).unwrap();
    assert_eq!(
        b.author.as_str(),
        "Dark Side Software, Anonymous, Anakin \"Darth\" Vader Skywalker"
    );
}

#[test]
fn license_list_entries_are_gathered_in_order() {
    let text = "license:\n  - MIT\n  - Apache-2.0\n";
    let c = CitationCff::parse(text).unwrap();
    assert_eq!(c.license.len(), 2);
    assert_eq!(c.license[0].as_str(), "MIT");
    assert_eq!(c.license[1].as_str(), "Apache-2.0");
}

#[test]
fn missing_fields_are_never_an_error() {
    let c = CitationCff::parse("").unwrap();
    assert!(c.title.is_none());
    assert!(c.authors.is_empty());
    assert!(c.license.is_empty());
    assert!(c.date_released.is_none());
}

#[test]
fn comments_blank_lines_and_unknown_keys_are_skipped() {
    let mut text = String::new();
    text.push_str("# a comment\n");
    text.push_str("\n");
    text.push_str("title: demo\n");
    text.push_str("keywords:\n");
    text.push_str("  - alpha\n");
    text.push_str("  - beta\n");
    text.push_str("doi: 10.0000/x\n");
    let c = CitationCff::parse(&text).unwrap();
    assert_eq!(c.title.as_deref(), Some("demo"));
}

#[test]
fn quoted_values_lose_their_quotes() {
    let c = CitationCff::parse("title: \"A quoted title\"\n").unwrap();
    assert_eq!(c.title.as_deref(), Some("A quoted title"));
}

#[test]
fn malformed_date_is_ignored_not_fatal() {
    let c = CitationCff::parse("date-released: 2024-13-99\n").unwrap();
    assert!(c.date_released.is_none());
    let c = CitationCff::parse("date-released: soon\n").unwrap();
    assert!(c.date_released.is_none());
}

#[test]
fn untokenizable_text_is_a_parse_error() {
    let e = CitationCff::parse("this is not a citation file at all").unwrap_err();
    assert!(matches!(e, Crate2BibError::Parse(_)));
    // a BibTeX entry is not CFF: its closing brace line has no colon
    let e = CitationCff::parse("@software {Pleyer2024,\n}\n").unwrap_err();
    assert!(matches!(e, Crate2BibError::Parse(_)));
}

#[test]
fn list_item_at_top_level_is_a_parse_error() {
    let e = CitationCff::parse("- MIT\n").unwrap_err();
    assert!(matches!(e, Crate2BibError::Parse(_)));
}

#[test]
fn formatting_a_parsed_fixture_reproduces_the_fixed_field_order() {
    // Parsing a well-formed citation file, then formatting it, must give
    // exactly the documented field order and punctuation.
    let c = CitationCff::parse(&fixture()).unwrap();
    let b = BibLaTeXCratesIO::from_citation_cff(&c).unwrap();
    let mut expected = String::new();
    expected.push_str("@software {Pleyer2024,\n");
    expected.push_str("    author = {Jonas Pleyer},\n");
    expected.push_str("    title = {{cellular_raza}},\n");
    expected.push_str("    url = {https://github.com/jonaspleyer/cellular_raza},\n");
    expected.push_str("    date = {2024-01-15},\n");
    expected.push_str("    version = {0.1.0},\n");
    expected.push_str("    license = {GPL-2.0},\n");
    expected.push_str("}");
    assert_eq!(b.to_biblatex_string(), expected);
}

#[test]
fn abstract_is_appended_to_the_title_after_a_colon() {
    let text = "title: demo\nabstract: Does things.\n";
    let c = CitationCff::parse(text).unwrap();
    let b = BibLaTeXCratesIO::from_citation_cff(&c).unwrap();
    assert_eq!(b.title.as_str(), "{demo}: Does things.");
}

#[test]
fn key_falls_back_to_title_and_year_segment_can_be_empty() {
    // No author resolves a key part: the title is the fallback; no date:
    // the year segment is empty.
    let c = CitationCff::parse("title: demo\n").unwrap();
    let b = BibLaTeXCratesIO::from_citation_cff(&c).unwrap();
    assert_eq!(b.key.as_str(), "demo");
    // An anonymous first author contributes nothing either.
    let text = "title: demo\ndate-released: 2020-05-01\nauthors:\n  - name: anonymous\n";
    let c = CitationCff::parse(text).unwrap();
    let b = BibLaTeXCratesIO::from_citation_cff(&c).unwrap();
    assert_eq!(b.key.as_str(), "demo2020");
}

#[test]
fn repository_priority_follows_url_first() {
    let text = "repository-artifact: https://a.example\nrepository: https://b.example\n";
    let c = CitationCff::parse(text).unwrap();
    let b = BibLaTeXCratesIO::from_citation_cff(&c).unwrap();
    assert_eq!(b.url.as_deref(), Some("https://b.example"));
}

#[test]
fn zero_authors_still_format_with_an_empty_author_field() {
    let c = CitationCff::parse("title: demo\n").unwrap();
    let b = BibLaTeXCratesIO::from_citation_cff(&c).unwrap();
    assert_eq!(b.author.as_str(), "");
    let rendered = b.to_biblatex_string();
    assert!(rendered.contains("    author = {},\n"));
}
