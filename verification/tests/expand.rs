use xcom::expand::collect_paths;
use xcom::{expand, wildcard_directory, DirectoryEntry, Listing};

fn texts(items: &[&str]) -> Vec<String> {
    items.iter().map(|s| s.to_string()).collect()
}

fn listing(directory: &str, entries: &[&str]) -> Listing {
    Listing { directory: directory.to_string(), entries: texts(entries) }
}

#[test]
fn a_star_yields_the_current_directory_once_and_in_order() {
    let listings = vec![listing(".", &["./c", "./a", "./b"])];
    assert_eq!(expand(&texts(&["*"]), &listings), Ok(texts(&["./c", "./a", "./b"])));
}

#[test]
fn a_token_given_twice_yields_its_paths_twice() {
    let listings = vec![listing("dir", &["dir/a", "dir/b"])];
    assert_eq!(
        expand(&texts(&["dir*", "dir*"]), &listings),
        Ok(texts(&["dir/a", "dir/b", "dir/a", "dir/b"]))
    );
}

#[test]
fn overlapping_tokens_are_not_merged() {
    let listings = vec![listing(".", &["./a", "./b"])];
    assert_eq!(
        expand(&texts(&["./a", "*", "./a"]), &listings),
        Ok(texts(&["./a", "./a", "./b", "./a"]))
    );
}

#[test]
fn a_plain_token_passes_through() {
    assert_eq!(expand(&texts(&["no such file"]), &vec![]), Ok(texts(&["no such file"])));
    assert_eq!(expand(&texts(&["a*b", ""]), &vec![]), Ok(texts(&["a*b", ""])));
    assert_eq!(expand(&vec![], &vec![]), Ok(vec![]));
}

#[test]
fn the_directory_of_a_wildcard_is_what_stands_before_the_star() {
    assert_eq!(wildcard_directory("*"), Some(".".to_string()));
    assert_eq!(wildcard_directory("dir*"), Some("dir".to_string()));
    assert_eq!(wildcard_directory("C:\\data\\*"), Some("C:\\data\\".to_string()));
    assert_eq!(wildcard_directory("**"), Some("*".to_string()));
    assert_eq!(wildcard_directory("dir"), None);
    assert_eq!(wildcard_directory("*dir"), None);
    assert_eq!(wildcard_directory(""), None);
}

#[test]
fn the_first_listing_of_a_directory_counts() {
    let listings = vec![listing("d", &["d/1"]), listing("d", &["d/2"])];
    assert_eq!(expand(&texts(&["d*"]), &listings), Ok(texts(&["d/1"])));
}

#[test]
fn a_missing_listing_is_an_error_naming_the_directory() {
    let listings = vec![listing(".", &["./a"])];
    assert_eq!(expand(&texts(&["x", "dir*", "*"]), &listings), Err("dir".to_string()));
    assert_eq!(expand(&texts(&["*"]), &vec![]), Err(".".to_string()));
}

#[test]
fn only_regular_files_are_collected_from_a_walk() {
    let entries = vec![
        DirectoryEntry { path: "t".to_string(), is_file: false },
        DirectoryEntry { path: "t/a".to_string(), is_file: true },
        DirectoryEntry { path: "t/b".to_string(), is_file: true },
    ];
    assert_eq!(collect_paths(&entries, true), texts(&["t/a", "t/b"]));
    assert_eq!(collect_paths(&entries, false), texts(&["t", "t/a", "t/b"]));
    assert!(collect_paths(&vec![], true).is_empty());
}
