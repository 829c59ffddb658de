use xcom::catalog::{contains_text, resolve, text_of_wide};
use xcom::{enumerate, search, DeletedItem, StoreEntry};

fn entry(name: Option<&str>, path: Option<&str>) -> StoreEntry {
    StoreEntry {
        display_name: name.map(|s| s.to_string()),
        original_path: path.map(|s| s.to_string()),
        deleted_at: None,
        size_bytes: None,
    }
}

fn item(name: &str, path: &str, deleted_at: i64, size_bytes: u64) -> DeletedItem {
    DeletedItem {
        display_name: name.to_string(),
        original_path: path.to_string(),
        deleted_at,
        size_bytes,
    }
}

#[test]
fn an_enumeration_keeps_the_order_of_the_store() {
    let entries = vec![
        entry(Some("b.txt"), Some("C:\\b.txt")),
        entry(Some("a.txt"), Some("C:\\a.txt")),
    ];
    assert_eq!(
        enumerate(&entries, 7),
        vec![item("b.txt", "C:\\b.txt", 7, 0), item("a.txt", "C:\\a.txt", 7, 0)]
    );
}

#[test]
fn entries_without_name_or_path_are_skipped() {
    let entries = vec![
        entry(None, Some("C:\\x")),
        entry(Some("kept"), Some("C:\\kept")),
        entry(Some("no path"), None),
        entry(Some(""), Some("C:\\nameless")),
        entry(Some("pathless"), Some("")),
        entry(None, None),
    ];
    assert_eq!(
        enumerate(&entries, 0),
        vec![item("kept", "C:\\kept", 0, 0), item("pathless", "", 0, 0)]
    );
    assert!(enumerate(&vec![], 0).is_empty());
}

#[test]
fn what_the_store_tells_is_kept_and_the_rest_filled_in() {
    let told = StoreEntry {
        display_name: Some("n".to_string()),
        original_path: Some("p".to_string()),
        deleted_at: Some(1_700_000_000_000_000),
        size_bytes: Some(42),
    };
    assert_eq!(resolve(&told, 5), Some(item("n", "p", 1_700_000_000_000_000, 42)));
    assert_eq!(resolve(&entry(Some("n"), Some("p")), 5), Some(item("n", "p", 5, 0)));
    assert_eq!(resolve(&entry(Some(""), Some("p")), 5), None);
}

#[test]
fn a_wide_buffer_gives_its_text_without_the_padding() {
    let mut buffer: Vec<u16> = "report.docx".encode_utf16().collect();
    buffer.resize(260, 0);
    assert_eq!(text_of_wide(&buffer), "report.docx");
    assert_eq!(text_of_wide(&vec![0; 260]), "");
    assert_eq!(text_of_wide(&vec![]), "");
    assert_eq!(text_of_wide(&vec![0x61, 0, 0x62, 0, 0]), "a\0b");
    assert_eq!(text_of_wide(&vec![0xD83D, 0xDE00, 0]), "\u{1F600}");
}

#[test]
fn a_unit_that_is_no_text_becomes_the_replacement_character() {
    assert_eq!(text_of_wide(&vec![0x61, 0xD800, 0x62, 0]), "a\u{FFFD}b");
    assert_eq!(text_of_wide(&vec![0xDC00]), "\u{FFFD}");
}

fn chars(text: &str) -> Vec<char> {
    text.chars().collect()
}

#[test]
fn a_text_is_found_wherever_it_stands() {
    assert!(contains_text(&chars("holiday.jpg"), &chars("holiday")));
    assert!(contains_text(&chars("holiday.jpg"), &chars(".jpg")));
    assert!(contains_text(&chars("holiday.jpg"), &chars("lid")));
    assert!(contains_text(&chars("holiday.jpg"), &chars("holiday.jpg")));
    assert!(contains_text(&chars("holiday.jpg"), &chars("")));
    assert!(contains_text(&chars(""), &chars("")));
    assert!(!contains_text(&chars("holiday.jpg"), &chars("holidays")));
    assert!(!contains_text(&chars("holiday.jpg"), &chars("jpgx")));
    assert!(!contains_text(&chars("aab"), &chars("abb")));
    assert!(contains_text(&chars("aaab"), &chars("aab")));
    assert!(!contains_text(&chars(""), &chars("a")));
}

#[test]
fn a_search_looks_at_names_whatever_their_case() {
    let items = vec![
        item("Report.DOCX", "C:\\a", 0, 0),
        item("photo.jpg", "C:\\report", 0, 0),
        item("old REPORT", "C:\\c", 0, 0),
        item("ÉTÉ.txt", "C:\\d", 0, 0),
    ];
    assert_eq!(search(&items, "report"), vec![0, 2]);
    assert_eq!(search(&items, "été"), vec![3]);
    assert_eq!(search(&items, "Report"), Vec::<usize>::new());
    assert_eq!(search(&items, "zip"), Vec::<usize>::new());
    assert_eq!(search(&items, "."), vec![0, 1, 3]);
    assert_eq!(search(&vec![], "a"), Vec::<usize>::new());
}
