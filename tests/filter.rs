use pfp::should_include;

fn filter(exts: &[&str]) -> Option<Vec<String>> {
    Some(exts.iter().map(|e| e.to_string()).collect())
}

#[test]
fn no_filter_includes_every_file() {
    assert!(should_include(&Some(String::from("png")), &None));
    assert!(should_include(&None, &None));
}

#[test]
fn filter_includes_listed_extensions() {
    let exts = filter(&["txt", "jpg"]);
    assert!(should_include(&Some(String::from("txt")), &exts));
    assert!(should_include(&Some(String::from("jpg")), &exts));
}

#[test]
fn filter_excludes_other_extensions() {
    let exts = filter(&["txt", "jpg"]);
    assert!(!should_include(&Some(String::from("png")), &exts));
    assert!(!should_include(&Some(String::from("TXT")), &exts));
}

#[test]
fn filter_excludes_files_without_extension() {
    let exts = filter(&["txt"]);
    assert!(!should_include(&None, &exts));
}

#[test]
fn empty_filter_excludes_everything() {
    let exts = filter(&[]);
    assert!(!should_include(&Some(String::from("txt")), &exts));
}
