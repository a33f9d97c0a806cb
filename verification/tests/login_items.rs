use loginitems::login_items::{
    add_login_item, format_entry_line, insert_login_entry, list_login_items, remove_matching,
    removal_decision, rm_login_item, InsertFailure, InternalLogger,
};
use loginitems::sys::{EntryModel, Scope, SimSystem};

fn entry(name: &str, encoded_path: &str) -> EntryModel {
    EntryModel {
        present: true,
        resolvable: true,
        name: Some(name.to_string()),
        encoded_path: Some(encoded_path.to_string()),
        removable: true,
    }
}

fn system_with(session: Vec<EntryModel>) -> SimSystem {
    SimSystem {
        session_items: Some(session),
        global_items: Some(Vec::new()),
        string_create_fails: false,
        url_create_fails: false,
        insert_fails: false,
        seed: 1,
        next_handle: 0,
        live: Vec::new(),
    }
}

#[test]
fn list_formats_one_line_per_entry() {
    let mut sys = system_with(vec![
        entry("Alpha", "/Applications/Alpha.app"),
        entry("Beta", "/Applications/Beta.app"),
    ]);
    let out = list_login_items(&mut sys, false);
    assert_eq!(out, "Alpha: /Applications/Alpha.app\nBeta: /Applications/Beta.app\n");
    assert_eq!(sys.live_handle_count(), 0);
}

#[test]
fn list_on_unopenable_list_is_empty() {
    let mut sys = system_with(Vec::new());
    sys.session_items = None;
    let out = list_login_items(&mut sys, false);
    assert_eq!(out, "");
    assert_eq!(sys.live_handle_count(), 0);
}

#[test]
fn list_uses_the_selected_scope() {
    let mut sys = system_with(vec![entry("SessionThing", "/s")]);
    sys.global_items = Some(vec![entry("GlobalThing", "/g")]);
    assert_eq!(list_login_items(&mut sys, false), "SessionThing: /s\n");
    assert_eq!(list_login_items(&mut sys, true), "GlobalThing: /g\n");
}

#[test]
fn absence_then_presence_after_add() {
    let mut sys = system_with(vec![entry("Alpha", "/a")]);
    let before = list_login_items(&mut sys, false);
    assert!(!before.contains("Beta: /Applications/Beta.app\n"));
    assert!(add_login_item(&mut sys, false, "Beta", "/Applications/Beta.app"));
    let after = list_login_items(&mut sys, false);
    assert!(after.contains("Beta: /Applications/Beta.app\n"));
    assert_eq!(after, format!("{}Beta: /Applications/Beta.app\n", before));
    assert_eq!(sys.live_handle_count(), 0);
}

#[test]
fn add_then_remove_round_trip() {
    let mut sys = system_with(vec![entry("Alpha", "/a")]);
    let before = list_login_items(&mut sys, false);
    assert!(add_login_item(&mut sys, false, "Beta", "/b"));
    assert!(rm_login_item(&mut sys, false, "Beta", "/b"));
    let after = list_login_items(&mut sys, false);
    assert_eq!(before, after);
    assert_eq!(sys.live_handle_count(), 0);
}

#[test]
fn remove_matches_names_exactly() {
    let mut sys = system_with(vec![
        entry("Foo", "/apps/foo"),
        entry("FooBar", "/apps/foobar"),
        entry("foo", "/apps/foolower"),
    ]);
    assert!(rm_login_item(&mut sys, false, "Foo", "/nowhere"));
    let out = list_login_items(&mut sys, false);
    assert_eq!(out, "FooBar: /apps/foobar\nfoo: /apps/foolower\n");
}

#[test]
fn remove_matches_decoded_paths() {
    let mut sys = system_with(vec![
        entry("Spaced", "/Users/a%20b/App.app"),
        entry("Other", "/Users/c/App.app"),
    ]);
    assert!(rm_login_item(&mut sys, false, "NoSuchName", "/Users/a b/App.app"));
    let out = list_login_items(&mut sys, false);
    assert_eq!(out, "Other: /Users/c/App.app\n");
}

#[test]
fn unresolvable_entry_is_skipped_not_fatal() {
    let mut broken = entry("Broken", "/apps/broken");
    broken.resolvable = false;
    let mut sys = system_with(vec![entry("First", "/1"), broken, entry("Last", "/2")]);
    let out = list_login_items(&mut sys, false);
    assert_eq!(out, "First: /1\nLast: /2\n");
    assert_eq!(sys.live_handle_count(), 0);
}

#[test]
fn unresolvable_entry_is_never_removed() {
    let mut broken = entry("Target", "/t");
    broken.resolvable = false;
    let mut sys = system_with(vec![broken, entry("Target", "/t")]);
    assert!(rm_login_item(&mut sys, false, "Target", "/nowhere"));
    // The resolvable duplicate went; the unresolvable one stays (and stays hidden).
    assert_eq!(list_login_items(&mut sys, false), "");
    assert!(sys.session_items.as_ref().unwrap()[0].present);
    assert!(!sys.session_items.as_ref().unwrap()[1].present);
}

#[test]
fn percent_encoded_path_is_decoded_in_listing() {
    let mut sys = system_with(vec![entry("Spaced", "/Users/a%20b/App.app")]);
    let out = list_login_items(&mut sys, false);
    assert_eq!(out, "Spaced: /Users/a b/App.app\n");
}

#[test]
fn remove_on_empty_list_succeeds_with_zero_matches() {
    let mut sys = system_with(Vec::new());
    assert!(rm_login_item(&mut sys, false, "Anything", "/anything"));
    assert_eq!(sys.live_handle_count(), 0);
}

#[test]
fn remove_on_unopenable_list_fails() {
    let mut sys = system_with(Vec::new());
    sys.session_items = None;
    assert!(!rm_login_item(&mut sys, false, "Anything", "/anything"));
    assert_eq!(sys.live_handle_count(), 0);
}

#[test]
fn rejected_removal_aborts_with_partial_effect() {
    let mut stuck = entry("Target", "/2");
    stuck.removable = false;
    let mut sys = system_with(vec![entry("Target", "/1"), stuck, entry("Target", "/3")]);
    assert!(!rm_login_item(&mut sys, false, "Target", "/nowhere"));
    // The first match was removed before the abort; the rest stand untouched.
    let out = list_login_items(&mut sys, false);
    assert_eq!(out, "Target: /2\nTarget: /3\n");
    assert_eq!(sys.live_handle_count(), 0);
}

#[test]
fn add_fails_when_list_cannot_open() {
    let mut sys = system_with(Vec::new());
    sys.session_items = None;
    assert!(!add_login_item(&mut sys, false, "Beta", "/b"));
    assert_eq!(sys.live_handle_count(), 0);
}

#[test]
fn add_fails_when_insertion_is_rejected() {
    let mut sys = system_with(vec![entry("Alpha", "/a")]);
    sys.insert_fails = true;
    let before = list_login_items(&mut sys, false);
    assert!(!add_login_item(&mut sys, false, "Beta", "/b"));
    assert_eq!(list_login_items(&mut sys, false), before);
    assert_eq!(sys.live_handle_count(), 0);
}

#[test]
fn add_fails_when_a_resource_cannot_be_built() {
    let mut sys = system_with(Vec::new());
    sys.string_create_fails = true;
    assert!(!add_login_item(&mut sys, false, "Beta", "/b"));
    sys.string_create_fails = false;
    sys.url_create_fails = true;
    assert!(!add_login_item(&mut sys, false, "Beta", "/b"));
    assert_eq!(sys.live_handle_count(), 0);
}

#[test]
fn insert_reports_the_first_failing_step() {
    let mut sys = system_with(Vec::new());
    sys.string_create_fails = true;
    sys.url_create_fails = true;
    let lh = sys.open_list(Scope::Session).unwrap();
    assert_eq!(insert_login_entry(&mut sys, &lh, "N", "/p"), Err(InsertFailure::NameConstruction));
    sys.string_create_fails = false;
    assert_eq!(insert_login_entry(&mut sys, &lh, "N", "/p"), Err(InsertFailure::UrlConstruction));
    sys.url_create_fails = false;
    sys.insert_fails = true;
    assert_eq!(insert_login_entry(&mut sys, &lh, "N", "/p"), Err(InsertFailure::Rejected));
    sys.insert_fails = false;
    assert_eq!(insert_login_entry(&mut sys, &lh, "N", "/p"), Ok(()));
    sys.release(lh.id);
    assert_eq!(sys.live_handle_count(), 0);
}

#[test]
fn remove_matching_counts_removed_entries() {
    let mut sys = system_with(vec![entry("T", "/1"), entry("Other", "/2"), entry("T", "/3")]);
    let lh = sys.open_list(Scope::Session).unwrap();
    assert_eq!(remove_matching(&mut sys, &lh, "T", "/nowhere"), Ok(2));
    sys.release(lh.id);
    assert_eq!(list_login_items(&mut sys, false), "Other: /2\n");
    assert_eq!(sys.live_handle_count(), 0);
}

#[test]
fn global_scope_is_independent_of_session_scope() {
    let mut sys = system_with(vec![entry("SessionThing", "/s")]);
    assert!(add_login_item(&mut sys, true, "GlobalThing", "/g"));
    assert_eq!(list_login_items(&mut sys, false), "SessionThing: /s\n");
    assert_eq!(list_login_items(&mut sys, true), "GlobalThing: /g\n");
    assert!(rm_login_item(&mut sys, true, "GlobalThing", "/g"));
    assert_eq!(list_login_items(&mut sys, false), "SessionThing: /s\n");
    assert_eq!(list_login_items(&mut sys, true), "");
}

#[test]
fn missing_name_shows_as_empty_and_matches_nothing() {
    let mut nameless = entry("", "/apps/nameless");
    nameless.name = None;
    let mut sys = system_with(vec![nameless]);
    assert_eq!(list_login_items(&mut sys, false), ": /apps/nameless\n");
    // An absent name does not even match an empty target name.
    assert!(rm_login_item(&mut sys, false, "", "/nowhere"));
    assert_eq!(list_login_items(&mut sys, false), ": /apps/nameless\n");
}

#[test]
fn missing_path_shows_as_empty_and_matches_nothing() {
    let mut pathless = entry("Pathless", "");
    pathless.encoded_path = None;
    let mut sys = system_with(vec![pathless]);
    assert_eq!(list_login_items(&mut sys, false), "Pathless: \n");
    // An absent path does not even match an empty target path.
    assert!(rm_login_item(&mut sys, false, "NoSuchName", ""));
    assert_eq!(list_login_items(&mut sys, false), "Pathless: \n");
}

#[test]
fn undecodable_path_skips_the_entry_when_listing() {
    // "%ff" decodes to a byte sequence that is not valid UTF-8.
    let mut sys = system_with(vec![entry("Bad", "/x/%ff"), entry("Good", "/y")]);
    assert_eq!(list_login_items(&mut sys, false), "Good: /y\n");
    assert_eq!(sys.live_handle_count(), 0);
}

#[test]
fn undecodable_path_still_matches_by_name_when_removing() {
    let mut sys = system_with(vec![entry("Bad", "/x/%ff")]);
    assert!(rm_login_item(&mut sys, false, "Bad", "/x"));
    assert_eq!(list_login_items(&mut sys, false), "");
}

#[test]
fn every_acquired_handle_is_released_once_per_run() {
    let mut broken = entry("Broken", "/b");
    broken.resolvable = false;
    let mut stuck = entry("Stuck", "/s");
    stuck.removable = false;
    let mut sys = system_with(vec![entry("Fine", "/f"), broken, stuck]);
    assert_eq!(sys.live_handle_count(), 0);
    let handles_before = sys.next_handle;
    list_login_items(&mut sys, false);
    assert_eq!(sys.live_handle_count(), 0);
    assert!(sys.next_handle > handles_before);
    add_login_item(&mut sys, false, "New", "/n");
    assert_eq!(sys.live_handle_count(), 0);
    // This removal pass aborts at the rejected call; handles are still released.
    assert!(!rm_login_item(&mut sys, false, "Stuck", "/s"));
    assert_eq!(sys.live_handle_count(), 0);
}

#[test]
fn format_entry_line_decodes_and_terminates() {
    assert_eq!(format_entry_line("A", "/x%20y").unwrap(), "A: /x y\n");
    assert_eq!(format_entry_line("", "").unwrap(), ": \n");
    assert!(format_entry_line("A", "%ff").is_none());
}

#[test]
fn removal_decision_checks_name_then_path() {
    let name = Some("Foo".to_string());
    let path = Some("/a%20b".to_string());
    assert!(removal_decision(&name, &path, "Foo", "/zzz"));
    assert!(removal_decision(&name, &path, "zzz", "/a b"));
    assert!(!removal_decision(&name, &path, "zzz", "/a%20b"));
    assert!(!removal_decision(&None, &None, "", ""));
}

#[test]
fn logger_records_messages_in_order() {
    let mut logger = InternalLogger::new();
    logger.log("first");
    logger.log("second");
    assert_eq!(logger.messages.len(), 2);
    assert_eq!(logger.messages[0], "first");
    assert_eq!(logger.messages[1], "second");
}
