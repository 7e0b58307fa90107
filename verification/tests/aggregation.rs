use visited_systems::aggregate::{aggregate, AggregateState};
use visited_systems::report::{escape_filename, id_line};
use visited_systems::scan::{scan_lines, ScanRecord};

fn record(path: &str, owner: &str, id: Option<&str>, visited: &[&str]) -> ScanRecord {
    ScanRecord {
        path: path.to_string(),
        owner: owner.to_string(),
        stable_id: id.map(|id| id.to_string()),
        visited: visited.iter().map(|s| s.to_string()).collect(),
    }
}

fn none() -> Vec<String> {
    Vec::new()
}

#[test]
fn new_aggregate_is_empty() {
    let state = AggregateState::new();
    assert_eq!(state.owners(), none());
    assert_eq!(state.identified(), none());
    assert_eq!(state.systems("CMDR_A"), none());
    assert_eq!(state.stable_id("CMDR_A"), None);
}

#[test]
fn merge_unites_the_systems_of_one_owner() {
    let mut state = AggregateState::new();
    state.merge(&record("1", "CMDR_A", None, &["Sol", "Deciat"]));
    state.merge(&record("2", "CMDR_A", None, &["Achenar", "Sol"]));
    assert_eq!(state.owners(), vec!["CMDR_A"]);
    assert_eq!(state.systems("CMDR_A"), vec!["Achenar", "Deciat", "Sol"]);
}

#[test]
fn merge_is_commutative_on_the_systems() {
    let a = record("1", "CMDR_A", Some("F1"), &["Sol", "Deciat"]);
    let b = record("2", "CMDR_A", Some("F2"), &["Achenar", "Sol"]);
    let c = record("3", "CMDR_B", None, &["Sol"]);
    let mut one = AggregateState::new();
    one.merge(&a);
    one.merge(&b);
    one.merge(&c);
    let mut other = AggregateState::new();
    other.merge(&c);
    other.merge(&b);
    other.merge(&a);
    assert_eq!(one.owners(), other.owners());
    assert_eq!(one.systems("CMDR_A"), other.systems("CMDR_A"));
    assert_eq!(one.systems("CMDR_B"), other.systems("CMDR_B"));
    assert_eq!(one.systems("CMDR_A"), vec!["Achenar", "Deciat", "Sol"]);
}

#[test]
fn merge_is_idempotent_on_the_systems() {
    let a = record("1", "CMDR_A", None, &["Sol", "Deciat", "Sol"]);
    let mut once = AggregateState::new();
    once.merge(&a);
    let mut twice = AggregateState::new();
    twice.merge(&a);
    twice.merge(&a);
    assert_eq!(once.owners(), twice.owners());
    assert_eq!(once.systems("CMDR_A"), twice.systems("CMDR_A"));
    assert_eq!(twice.systems("CMDR_A"), vec!["Deciat", "Sol"]);
}

#[test]
fn record_without_systems_adds_no_owner() {
    let mut state = AggregateState::new();
    state.merge(&record("1", "_Unknown", None, &[]));
    state.merge(&record("2", "CMDR_B", Some("F2"), &[]));
    assert_eq!(state.owners(), none());
    assert_eq!(state.systems("_Unknown"), none());
    assert_eq!(state.systems("CMDR_B"), none());
    assert_eq!(state.identified(), vec!["CMDR_B"]);
    assert_eq!(state.stable_id("CMDR_B"), Some("F2".to_string()));
}

#[test]
fn record_without_systems_leaves_an_entry_as_it_was() {
    let mut state = AggregateState::new();
    state.merge(&record("1", "CMDR_A", None, &["Sol"]));
    state.merge(&record("2", "CMDR_A", None, &[]));
    assert_eq!(state.owners(), vec!["CMDR_A"]);
    assert_eq!(state.systems("CMDR_A"), vec!["Sol"]);
}

#[test]
fn last_identifier_wins() {
    let mut state = AggregateState::new();
    state.merge(&record("1", "CMDR_A", Some("F1"), &["Sol"]));
    state.merge(&record("2", "CMDR_A", None, &["Sol"]));
    assert_eq!(state.stable_id("CMDR_A"), Some("F1".to_string()));
    state.merge(&record("3", "CMDR_A", Some("F9"), &[]));
    assert_eq!(state.stable_id("CMDR_A"), Some("F9".to_string()));
}

#[test]
fn owners_and_systems_come_in_dictionary_order() {
    let state = aggregate(&vec![
        record("1", "Zed", Some("F3"), &["b", "a", "B"]),
        record("2", "Alice", Some("F1"), &["Sol"]),
        record("3", "alice", None, &["Sol A", "Sol"]),
        record("4", "Bob", Some("F2"), &["Deciat"]),
    ]);
    assert_eq!(state.owners(), vec!["Alice", "Bob", "Zed", "alice"]);
    assert_eq!(state.systems("Zed"), vec!["B", "a", "b"]);
    assert_eq!(state.systems("alice"), vec!["Sol", "Sol A"]);
    assert_eq!(state.identified(), vec!["Alice", "Bob", "Zed"]);
}

#[test]
fn aggregate_of_no_record_is_empty() {
    let state = aggregate(&Vec::new());
    assert_eq!(state.owners(), none());
    assert_eq!(state.identified(), none());
}

#[test]
fn three_files_of_one_commander_and_one_without_location() {
    let files: Vec<(&str, Vec<&str>)> = vec![
        (
            "Journal.1.log",
            vec![
                r#"{"event":"Commander","FID":"F100","Name":"CMDR_A"}"#,
                r#"{"event":"Location","StarSystem":"Sol"}"#,
            ],
        ),
        (
            "Journal.2.log",
            vec![
                r#"{"event":"LoadGame","Commander":"CMDR_A"}"#,
                r#"{"event":"FSDJump","StarSystem":"Sol"}"#,
                r#"{"event":"FSDJump","StarSystem":"Sol"}"#,
            ],
        ),
        (
            "Journal.3.log",
            vec![
                r#"{"event":"LoadGame","Commander":"CMDR_A"}"#,
                r#"{"event":"FSDJump","StarSystem":"Deciat"}"#,
            ],
        ),
        (
            "Journal.4.log",
            vec![
                r#"{"event":"Commander","FID":"F200","Name":"CMDR_B"}"#,
                r#"{"event":"Docked","StarSystem":"Shinrarta Dezhra"}"#,
            ],
        ),
    ];
    let mut records = Vec::new();
    for (path, text) in files {
        let text: Vec<String> = text.iter().map(|line| line.to_string()).collect();
        records.push(scan_lines(path, &text).unwrap());
    }
    let state = aggregate(&records);
    assert_eq!(state.owners(), vec!["CMDR_A"]);
    assert_eq!(state.systems("CMDR_A"), vec!["Deciat", "Sol"]);
    assert_eq!(state.systems("CMDR_B"), none());
    assert_eq!(state.identified(), vec!["CMDR_A", "CMDR_B"]);
    assert_eq!(state.stable_id("CMDR_A"), Some("F100".to_string()));
    assert_eq!(state.stable_id("CMDR_B"), Some("F200".to_string()));
}

#[test]
fn escape_filename_keeps_letters_digits_and_three_signs() {
    assert_eq!(escape_filename("CMDR Jameson_01-x"), "CMDR Jameson_01-x");
    assert_eq!(escape_filename("azAZ09"), "azAZ09");
}

#[test]
fn escape_filename_blanks_everything_else() {
    assert_eq!(escape_filename("a/b\\c:d*e?f"), "a b c d e f");
    assert_eq!(escape_filename("é日本.txt"), "    txt");
    assert_eq!(escape_filename("@[`{"), "    ");
    assert_eq!(escape_filename("/:"), "  ");
    assert_eq!(escape_filename(""), "");
}

#[test]
fn id_line_has_both_labels_and_a_tab() {
    assert_eq!(id_line("CMDR_A", "F100"), "Cmdr:CMDR_A\tID:F100");
    assert_eq!(id_line("", ""), "Cmdr:\tID:");
}
