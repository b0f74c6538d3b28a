use crate2bib::bib::format_license;

fn licenses(list: &[&str]) -> Vec<String> {
    list.iter().map(|s| String::from(*s)).collect()
}

#[test]
fn empty_list_formats_as_absent() {
    assert!(format_license(&licenses(&[])).is_none());
}

#[test]
fn single_license_renders_as_is() {
    let r = format_license(&licenses(&["MIT"])).unwrap();
    assert_eq!(r.as_str(), "MIT");
}

#[test]
fn two_licenses_join_with_or() {
    let r = format_license(&licenses(&["MIT", "Apache-2.0"])).unwrap();
    assert_eq!(r.as_str(), "MIT OR Apache-2.0");
}

#[test]
fn longer_lists_comma_join_all_but_the_last() {
    let r = format_license(&licenses(&["MIT", "Apache-2.0", "GPL-2.0"])).unwrap();
    assert_eq!(r.as_str(), "MIT, Apache-2.0 OR GPL-2.0");
    let r = format_license(&licenses(&["A", "B", "C", "D"])).unwrap();
    assert_eq!(r.as_str(), "A, B, C OR D");
}
