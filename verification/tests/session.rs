use xcom::session::{interpret_command, normalize};
use xcom::{parse_command, Action, Command, DeletedItem, Event, Phase, Session};

fn item(name: &str) -> DeletedItem {
    DeletedItem {
        display_name: name.to_string(),
        original_path: format!("C:\\{}", name),
        deleted_at: 0,
        size_bytes: 0,
    }
}

fn items(names: &[&str]) -> Vec<DeletedItem> {
    names.iter().map(|name| item(name)).collect()
}

fn line(text: &str) -> Event {
    Event::Line(text.to_string())
}

fn awaiting(names: &[&str]) -> Session {
    let mut session = Session::new();
    assert_eq!(session.step(Event::Snapshot(items(names))), Action::ShowListing);
    assert_eq!(session.phase, Phase::AwaitingCommand);
    session
}

#[test]
fn a_session_starts_by_awaiting_a_snapshot() {
    let session = Session::new();
    assert_eq!(session.phase, Phase::Listing);
    assert!(session.snapshot.is_empty());
    assert!(session.ends_when_empty);
    assert!(!session.is_terminated());
}

#[test]
fn an_empty_store_ends_the_session_at_the_start() {
    let mut session = Session::new();
    assert_eq!(session.step(Event::Snapshot(vec![])), Action::ShowListing);
    assert!(session.is_terminated());
}

#[test]
fn purging_the_second_of_three_leaves_the_other_two() {
    let mut store = items(&["A", "B", "C"]);
    let mut session = Session::new();
    session.step(Event::Snapshot(store.clone()));
    let action = session.step(line("2d"));
    assert_eq!(action, Action::Purge(vec![1]));
    assert_eq!(session.phase, Phase::Purging);
    if let Action::Purge(chosen) = action {
        let doomed: Vec<DeletedItem> =
            chosen.iter().map(|&at| session.snapshot[at].clone()).collect();
        assert_eq!(doomed, items(&["B"]));
        store.retain(|held| !doomed.contains(held));
    }
    assert_eq!(session.step(Event::Processed), Action::Enumerate);
    assert_eq!(session.phase, Phase::Listing);
    assert_eq!(session.step(Event::Snapshot(store.clone())), Action::ShowListing);
    assert_eq!(session.snapshot, items(&["A", "C"]));
    assert_eq!(session.phase, Phase::AwaitingCommand);
}

#[test]
fn clearing_to_an_empty_store_ends_the_session() {
    let mut session = awaiting(&["A", "B"]);
    assert_eq!(session.step(line("c")), Action::Clear);
    assert_eq!(session.phase, Phase::Clearing);
    assert_eq!(session.step(Event::Cleared(true)), Action::Enumerate);
    assert_eq!(session.phase, Phase::Listing);
    assert_eq!(session.step(Event::Snapshot(vec![])), Action::ShowListing);
    assert_eq!(session.phase, Phase::Terminated);
    assert!(session.is_terminated());
}

#[test]
fn clearing_that_leaves_items_goes_on() {
    let mut session = awaiting(&["A", "B"]);
    session.step(line("C"));
    session.step(Event::Cleared(true));
    session.step(Event::Snapshot(items(&["B"])));
    assert_eq!(session.phase, Phase::AwaitingCommand);
    assert_eq!(session.snapshot, items(&["B"]));
}

#[test]
fn a_failed_clear_is_reported_and_the_session_goes_on() {
    let mut session = awaiting(&["A"]);
    session.step(line("c"));
    assert_eq!(session.step(Event::Cleared(false)), Action::ReportClearFailure);
    assert_eq!(session.phase, Phase::AwaitingCommand);
    assert_eq!(session.snapshot, items(&["A"]));
}

#[test]
fn two_searches_report_against_the_same_stale_snapshot() {
    let mut store = items(&["alpha.txt", "beta.txt", "Alphabet"]);
    let mut session = Session::new();
    session.step(Event::Snapshot(store.clone()));
    let before = session.clone();
    assert_eq!(session.step(line("alpha")), Action::ShowMatches(vec![0, 2]));
    assert_eq!(session, before);
    store.remove(0);
    store.push(item("alpha-new"));
    assert_eq!(session.step(line("ALPHA")), Action::ShowMatches(vec![0, 2]));
    assert_eq!(session, before);
    assert_eq!(session.step(line("txt")), Action::ShowMatches(vec![0, 1]));
    assert_eq!(session.snapshot, items(&["alpha.txt", "beta.txt", "Alphabet"]));
}

#[test]
fn a_search_without_match_shows_none() {
    let mut session = awaiting(&["A", "B"]);
    assert_eq!(session.step(line("zzz")), Action::ShowMatches(vec![]));
    assert_eq!(session.phase, Phase::AwaitingCommand);
}

#[test]
fn an_empty_line_asks_for_a_new_listing_that_never_ends_the_session() {
    let mut session = awaiting(&["A"]);
    assert_eq!(session.step(line("   ")), Action::Enumerate);
    assert_eq!(session.phase, Phase::Listing);
    assert_eq!(session.step(Event::Snapshot(vec![])), Action::ShowListing);
    assert_eq!(session.phase, Phase::AwaitingCommand);
    assert!(session.snapshot.is_empty());
}

#[test]
fn the_quit_words_end_the_session() {
    for word in ["q", "x", "exit", "quit", " Q ", "EXIT\n", "Quit"] {
        let mut session = awaiting(&["A"]);
        assert_eq!(session.step(line(word)), Action::Exit);
        assert!(session.is_terminated());
    }
}

#[test]
fn nothing_follows_the_end() {
    let mut session = awaiting(&["A"]);
    session.step(line("q"));
    let ended = session.clone();
    for event in [line("1d"), Event::Snapshot(items(&["B"])), Event::Cleared(true), Event::Processed]
    {
        assert_eq!(session.step(event), Action::Ignore);
        assert_eq!(session, ended);
    }
}

#[test]
fn an_event_out_of_turn_changes_nothing() {
    let mut session = awaiting(&["A"]);
    let before = session.clone();
    assert_eq!(session.step(Event::Processed), Action::Ignore);
    assert_eq!(session.step(Event::Cleared(true)), Action::Ignore);
    assert_eq!(session.step(Event::Snapshot(vec![])), Action::Ignore);
    assert_eq!(session, before);
    let mut fresh = Session::new();
    assert_eq!(fresh.step(line("q")), Action::Ignore);
    assert_eq!(fresh, Session::new());
}

#[test]
fn restoring_goes_through_the_selection_in_ascending_order() {
    let mut session = awaiting(&["A", "B", "C", "D"]);
    assert_eq!(session.step(line("3,1,3r")), Action::Restore(vec![0, 2]));
    assert_eq!(session.phase, Phase::Restoring);
    assert_eq!(session.step(Event::Processed), Action::Enumerate);
    assert_eq!(session.step(Event::Snapshot(vec![])), Action::ShowListing);
    assert!(session.is_terminated());
}

#[test]
fn a_selection_of_nothing_is_reported() {
    for text in ["r", "d", "9d", "0r", "xr", "bird", "5-2d", "1 d"] {
        let mut session = awaiting(&["A", "B"]);
        let before = session.clone();
        assert_eq!(session.step(line(text)), Action::ReportInvalidSelection, "{}", text);
        assert_eq!(session, before);
    }
}

#[test]
fn a_line_is_trimmed_and_lowered_before_it_is_read() {
    assert_eq!(normalize("  2D \r\n"), "2d");
    assert_eq!(normalize("\t"), "");
    assert_eq!(normalize("Old Report"), "old report");
    assert_eq!(normalize("\u{a0}ÄB\u{3000}"), "äb");
}

#[test]
fn commands_are_told_apart_in_their_order() {
    assert_eq!(parse_command("", 3), Command::Refresh);
    assert_eq!(parse_command(" ", 3), Command::Refresh);
    assert_eq!(parse_command("q", 3), Command::Quit);
    assert_eq!(parse_command("c", 3), Command::Clear);
    assert_eq!(parse_command("1-2R", 3), Command::Restore(vec![0, 1]));
    assert_eq!(parse_command("1,3d", 3), Command::Purge(vec![0, 2]));
    assert_eq!(parse_command("2-9d", 3), Command::Purge(vec![1, 2]));
    assert_eq!(parse_command("4d", 3), Command::InvalidSelection);
    assert_eq!(parse_command("1d", 0), Command::InvalidSelection);
    assert_eq!(parse_command("Photo", 3), Command::Search("photo".to_string()));
    assert_eq!(parse_command("qq", 3), Command::Search("qq".to_string()));
    assert_eq!(parse_command("2", 3), Command::Search("2".to_string()));
}

#[test]
fn a_normalized_line_is_read_as_it_stands() {
    assert_eq!(interpret_command("Q", 3), Command::Search("Q".to_string()));
    assert_eq!(interpret_command("1D", 3), Command::Search("1D".to_string()));
    assert_eq!(interpret_command("1d", 3), Command::Purge(vec![0]));
    assert_eq!(interpret_command(" 1d", 3), Command::InvalidSelection);
}

#[test]
fn a_failed_enumeration_is_reported_and_may_be_tried_again() {
    let mut session = awaiting(&["A", "B"]);
    assert_eq!(session.step(line("")), Action::Enumerate);
    assert_eq!(session.step(Event::EnumerationFailed), Action::ReportEnumerationFailure);
    assert_eq!(session.phase, Phase::AwaitingCommand);
    assert_eq!(session.snapshot, items(&["A", "B"]));
    assert_eq!(session.step(line("")), Action::Enumerate);
    assert_eq!(session.step(Event::Snapshot(items(&["A"]))), Action::ShowListing);
    assert_eq!(session.snapshot, items(&["A"]));
    let mut fresh = Session::new();
    assert_eq!(fresh.step(Event::EnumerationFailed), Action::ReportEnumerationFailure);
    assert!(!fresh.is_terminated());
    let mut idle = awaiting(&["A"]);
    assert_eq!(idle.step(Event::EnumerationFailed), Action::Ignore);
}
