use xcom::{select_mode, split_arguments, wants_version, BinMode, TransferArguments};

fn texts(items: &[&str]) -> Vec<String> {
    items.iter().map(|s| s.to_string()).collect()
}

#[test]
fn the_first_flag_in_rank_decides_the_mode() {
    assert_eq!(select_mode(false, false, false), BinMode::CleanThenList);
    assert_eq!(select_mode(true, false, false), BinMode::List);
    assert_eq!(select_mode(false, true, false), BinMode::Clean);
    assert_eq!(select_mode(false, false, true), BinMode::Interactive);
    assert_eq!(select_mode(true, true, true), BinMode::List);
    assert_eq!(select_mode(false, true, true), BinMode::Clean);
    assert_eq!(select_mode(true, false, true), BinMode::List);
}

#[test]
fn the_version_is_asked_for_by_one_flag_alone() {
    assert!(wants_version(&texts(&["xcopy", "-v"])));
    assert!(wants_version(&texts(&["xcopy", "--version"])));
    assert!(!wants_version(&texts(&["xcopy"])));
    assert!(!wants_version(&texts(&["xcopy", "-V"])));
    assert!(!wants_version(&texts(&["xcopy", "-v", "x"])));
    assert!(!wants_version(&texts(&["-v", "xcopy"])));
    assert!(!wants_version(&vec![]));
}

#[test]
fn the_last_argument_is_the_destination() {
    assert_eq!(
        split_arguments(&texts(&["xcopy", "a", "b*", "dest"])),
        Some(TransferArguments { sources: texts(&["a", "b*"]), destination: "dest".to_string() })
    );
    assert_eq!(
        split_arguments(&texts(&["xcopy", "a", "dest"])),
        Some(TransferArguments { sources: texts(&["a"]), destination: "dest".to_string() })
    );
}

#[test]
fn fewer_than_two_arguments_are_not_enough() {
    assert_eq!(split_arguments(&texts(&["xcopy", "dest"])), None);
    assert_eq!(split_arguments(&texts(&["xcopy"])), None);
    assert_eq!(split_arguments(&vec![]), None);
}
