use crate2bib::github::{
    extract_default_branch, first_found_index, is_cff_filename, is_not_found_sentinel,
    metadata_url, parse_repo_url, pick_scanned, probe_urls, raw_file_url,
};

#[test]
fn recognizes_a_github_repository_url() {
    let (owner, name) = parse_repo_url("https://github.com/serde-rs/serde").unwrap();
    assert_eq!(owner.as_str(), "serde-rs");
    assert_eq!(name.as_str(), "serde");
}

#[test]
fn accepts_a_single_trailing_slash() {
    let (owner, name) = parse_repo_url("https://github.com/jonaspleyer/cellular_raza/").unwrap();
    assert_eq!(owner.as_str(), "jonaspleyer");
    assert_eq!(name.as_str(), "cellular_raza");
}

#[test]
fn drops_a_git_suffix_from_the_repository_name() {
    let (_, name) = parse_repo_url("https://github.com/serde-rs/serde.git").unwrap();
    assert_eq!(name.as_str(), "serde");
}

#[test]
fn rejects_other_hosts_and_other_shapes() {
    // an unrecognized hosting platform
    assert!(parse_repo_url("https://gitlab.com/owner/repo").is_none());
    // more than owner and repository
    assert!(parse_repo_url("https://github.com/owner/repo/tree/main").is_none());
    // owner without repository
    assert!(parse_repo_url("https://github.com/owner").is_none());
    // empty segments
    assert!(parse_repo_url("https://github.com//repo").is_none());
    assert!(parse_repo_url("not a url at all").is_none());
}

#[test]
fn endpoint_urls_have_the_documented_shape() {
    assert_eq!(
        metadata_url("serde-rs", "serde").as_str(),
        "https://api.github.com/repos/serde-rs/serde"
    );
    assert_eq!(
        raw_file_url("serde-rs", "serde", "master", "CITATION.cff").as_str(),
        "https://raw.githubusercontent.com/serde-rs/serde/master/CITATION.cff"
    );
}

#[test]
fn reads_the_default_branch_out_of_a_metadata_response() {
    let body = "{\"id\":1,\"name\":\"serde\",\"default_branch\":\"master\",\"fork\":false}";
    assert_eq!(extract_default_branch(body).unwrap().as_str(), "master");
    assert!(extract_default_branch("{\"name\":\"serde\"}").is_none());
}

#[test]
fn the_not_found_sentinel_is_recognized_exactly() {
    assert!(is_not_found_sentinel("404: Not Found"));
    assert!(!is_not_found_sentinel("cff-version: 1.2.0"));
    assert!(!is_not_found_sentinel(""));
}

#[test]
fn the_winning_probe_is_decided_by_candidate_order() {
    // Probes may resolve in any order; the first candidate in the
    // caller's list that was found wins, even when a later one also was.
    let outcomes: Vec<Option<String>> = vec![
        None,
        Some(String::from("second candidate's content")),
        Some(String::from("third candidate's content")),
    ];
    assert_eq!(first_found_index(&outcomes), Some(1));
    let none: Vec<Option<String>> = vec![None, None];
    assert_eq!(first_found_index(&none), None);
    let empty: Vec<Option<String>> = Vec::new();
    assert_eq!(first_found_index(&empty), None);
}

#[test]
fn probe_urls_keep_the_candidate_order() {
    let filenames = vec![String::from("CITATION.cff"), String::from("citation.bib")];
    let urls = probe_urls("serde-rs", "serde", "master", &filenames);
    assert_eq!(urls.len(), 2);
    assert_eq!(
        urls[0].as_str(),
        "https://raw.githubusercontent.com/serde-rs/serde/master/CITATION.cff"
    );
    assert_eq!(
        urls[1].as_str(),
        "https://raw.githubusercontent.com/serde-rs/serde/master/citation.bib"
    );
}

#[test]
fn the_scanned_file_pairs_the_winning_candidate_with_its_content() {
    let filenames = vec![String::from("CITATION.cff"), String::from("citation.bib")];
    let outcomes = vec![None, Some(String::from("@software {X,\n}"))];
    let f = pick_scanned(&filenames, outcomes).unwrap();
    assert_eq!(f.filename.as_str(), "citation.bib");
    assert_eq!(f.content.as_str(), "@software {X,\n}");
    let nothing = pick_scanned(&filenames, vec![None, None]);
    assert!(nothing.is_none());
}

#[test]
fn cff_files_are_told_apart_by_their_extension() {
    assert!(is_cff_filename("CITATION.cff"));
    assert!(is_cff_filename("citation.cff"));
    assert!(!is_cff_filename("citation.bib"));
    assert!(!is_cff_filename("cff"));
}
