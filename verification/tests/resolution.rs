use crate2bib::cff::Date;
use crate2bib::crates_io::{crates_io_generate_biblatex, CrateInfo, Publisher, RegistryVersion};
use crate2bib::{get_biblatex, BibLaTeX, Crate2BibError, ScannedFile};

fn serde_info() -> CrateInfo {
    CrateInfo {
        description: Some(String::from(
            "A generic serialization/deserialization framework",
        )),
        repository: Some(String::from("https://github.com/serde-rs/serde")),
        updated_at: Date {
            year: 2024,
            month: 12,
            day: 27,
        },
        versions: vec![
            RegistryVersion {
                num: String::from("1.0.217"),
                published_by: Some(Publisher {
                    name: Some(String::from("David Tolnay")),
                    login: String::from("dtolnay"),
                }),
                license: Some(String::from("MIT OR Apache-2.0")),
                updated_at: Date {
                    year: 2024,
                    month: 12,
                    day: 27,
                },
            },
            RegistryVersion {
                num: String::from("1.0.216"),
                published_by: Some(Publisher {
                    name: Some(String::from("David Tolnay")),
                    login: String::from("dtolnay"),
                }),
                license: Some(String::from("MIT OR Apache-2.0")),
                updated_at: Date {
                    year: 2024,
                    month: 12,
                    day: 10,
                },
            },
            RegistryVersion {
                num: String::from("not-semver"),
                published_by: None,
                license: None,
                updated_at: Date {
                    year: 2015,
                    month: 1,
                    day: 1,
                },
            },
        ],
    }
}

fn cellular_raza_info() -> CrateInfo {
    CrateInfo {
        description: Some(String::from("Cellular agent-based modeling")),
        repository: Some(String::from("https://github.com/jonaspleyer/cellular_raza")),
        updated_at: Date {
            year: 2024,
            month: 6,
            day: 1,
        },
        versions: vec![
            RegistryVersion {
                num: String::from("0.1.5"),
                published_by: Some(Publisher {
                    name: Some(String::from("Jonas Pleyer")),
                    login: String::from("jonaspleyer"),
                }),
                license: Some(String::from("GPL-2.0")),
                updated_at: Date {
                    year: 2024,
                    month: 2,
                    day: 14,
                },
            },
            RegistryVersion {
                num: String::from("0.2.1"),
                published_by: Some(Publisher {
                    name: Some(String::from("Jonas Pleyer")),
                    login: String::from("jonaspleyer"),
                }),
                license: Some(String::from("GPL-2.0")),
                updated_at: Date {
                    year: 2024,
                    month: 5,
                    day: 30,
                },
            },
        ],
    }
}

#[test]
fn registry_entry_for_an_exact_constraint() {
    // Package "serde" under the constraint "1.0.217": the key, license
    // and version of the registry entry are pinned.
    let info = serde_info();
    let entry = crates_io_generate_biblatex("serde", Some("1.0.217"), &info).unwrap();
    assert_eq!(entry.key.as_str(), "Tolnay2024");
    assert_eq!(entry.license.as_deref(), Some("MIT OR Apache-2.0"));
    let v = entry.version.as_ref().unwrap();
    assert_eq!((v.major, v.minor, v.patch), (1, 0, 217));

    let mut expected = String::new();
    expected.push_str("@software {Tolnay2024,\n");
    expected.push_str("    author = {David Tolnay},\n");
    expected.push_str("    title = {{serde}: A generic serialization/deserialization framework},\n");
    expected.push_str("    url = {https://github.com/serde-rs/serde},\n");
    expected.push_str("    date = {2024-12-27},\n");
    expected.push_str("    version = {1.0.217},\n");
    expected.push_str("    license = {MIT OR Apache-2.0},\n");
    expected.push_str("}");
    assert_eq!(entry.to_biblatex_string(), expected);
}

#[test]
fn a_found_citation_file_adds_a_second_entry() {
    // A repository hosting a CITATION.cff: the result has two entries and
    // the second one was built from the citation file.
    let info = cellular_raza_info();
    let mut cff = String::new();
    cff.push_str("cff-version: 1.2.0\n");
    cff.push_str("title: cellular_raza\n");
    cff.push_str("version: 0.1.5\n");
    cff.push_str("date-released: 2024-02-14\n");
    cff.push_str("license: GPL-2.0\n");
    cff.push_str("authors:\n");
    cff.push_str("  - given-names: Jonas\n");
    cff.push_str("    family-names: Pleyer\n");
    let scanned = ScannedFile {
        filename: String::from("CITATION.cff"),
        content: cff,
    };
    let results = get_biblatex("cellular-raza", Some("0.1"), &info, Some(&scanned)).unwrap();
    assert!(results.len() >= 2);
    assert!(matches!(results[0], BibLaTeX::CratesIO(_)));
    match &results[1] {
        BibLaTeX::CITATIONCFF(b) => {
            assert_eq!(b.key.as_str(), "Pleyer2024");
            assert_eq!(b.author.as_str(), "Jonas Pleyer");
        }
        _ => panic!("expected an entry built from the citation file"),
    }
}

#[test]
fn no_constraint_resolves_to_the_highest_published_version() {
    let info = cellular_raza_info();
    let results = get_biblatex("cellular-raza", None, &info, None).unwrap();
    assert!(!results.is_empty());
    match &results[0] {
        BibLaTeX::CratesIO(b) => {
            let v = b.version.as_ref().unwrap();
            assert_eq!((v.major, v.minor, v.patch), (0, 2, 1));
        }
        _ => panic!("expected a registry entry"),
    }
}

#[test]
fn unrecognized_repository_host_still_succeeds_with_one_entry() {
    // The scan of a non-GitHub URL finds nothing; the overall call still
    // succeeds, with exactly the registry entry.
    let mut info = serde_info();
    info.repository = Some(String::from("https://example.org/some/where"));
    assert!(crate2bib::github::parse_repo_url("https://example.org/some/where").is_none());
    let results = get_biblatex("serde", Some("1.0.217"), &info, None).unwrap();
    assert_eq!(results.len(), 1);
    assert!(matches!(results[0], BibLaTeX::CratesIO(_)));
}

#[test]
fn a_bibliography_file_passes_through_verbatim() {
    let info = cellular_raza_info();
    let mut bib = String::new();
    bib.push_str("@software {Pleyer2024,\n");
    bib.push_str("    author = {Jonas Pleyer},\n");
    bib.push_str("}\n");
    let scanned = ScannedFile {
        filename: String::from("citation.bib"),
        content: bib.clone(),
    };
    let results = get_biblatex("cellular-raza", None, &info, Some(&scanned)).unwrap();
    assert_eq!(results.len(), 2);
    match &results[1] {
        BibLaTeX::Plain(p) => {
            assert_eq!(p.bibliography, bib);
            assert_eq!(
                p.repository.as_str(),
                "https://github.com/jonaspleyer/cellular_raza"
            );
            assert_eq!(p.filename.as_str(), "citation.bib");
            assert_eq!(results[1].to_biblatex_string(), bib);
        }
        _ => panic!("expected a raw bibliography entry"),
    }
}

#[test]
fn an_unreadable_citation_file_is_a_parse_error() {
    let info = cellular_raza_info();
    let scanned = ScannedFile {
        filename: String::from("CITATION.cff"),
        content: String::from("not a citation file at all"),
    };
    let e = get_biblatex("cellular-raza", None, &info, Some(&scanned)).unwrap_err();
    assert!(matches!(e, Crate2BibError::Parse(_)));
}

#[test]
fn version_resolution_failures_abort_the_whole_call() {
    let info = cellular_raza_info();
    let e = get_biblatex("cellular-raza", Some("9"), &info, None).unwrap_err();
    match e {
        Crate2BibError::NotFound(m) => {
            assert_eq!(
                m.as_str(),
                "Could not find version 9 for crate cellular-raza"
            );
        }
        _ => panic!("expected NotFound"),
    }
    let e = get_biblatex("cellular-raza", Some("=!?"), &info, None).unwrap_err();
    assert!(matches!(e, Crate2BibError::Config(_)));
}

#[test]
fn error_messages_are_reachable_through_the_message_accessor() {
    let e = Crate2BibError::Network(String::from("connection timed out"));
    assert_eq!(e.message().as_str(), "connection timed out");
}

#[test]
fn publisher_without_a_display_name_falls_back_to_the_login() {
    let mut info = serde_info();
    info.versions[0].published_by = Some(Publisher {
        name: None,
        login: String::from("dtolnay"),
    });
    let entry = crates_io_generate_biblatex("serde", Some("1.0.217"), &info).unwrap();
    assert_eq!(entry.author.as_str(), "dtolnay");
    // the key falls back to the crate name
    assert_eq!(entry.key.as_str(), "serde2024");
}
