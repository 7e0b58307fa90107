use visited_systems::event::{DecodeError, Event};
use visited_systems::scan::{is_journal_name, scan_lines, ScanRecord};

fn lines(text: &[&str]) -> Vec<String> {
    text.iter().map(|line| line.to_string()).collect()
}

#[test]
fn journal_names() {
    assert!(is_journal_name("Journal.210101000000.01.log"));
    assert!(is_journal_name("Journal..log"));
    assert!(is_journal_name("Journal.log"));
    assert!(!is_journal_name("journal.210101000000.01.log"));
    assert!(!is_journal_name("Journal.210101000000.01.txt"));
    assert!(!is_journal_name("xJournal.1.log"));
    assert!(!is_journal_name("Journal.1.log.bak"));
    assert!(!is_journal_name("Status.json"));
    assert!(!is_journal_name(".log"));
    assert!(!is_journal_name(""));
}

#[test]
fn new_record_has_the_placeholder_owner() {
    assert_eq!(
        ScanRecord::new("a/Journal.1.log"),
        ScanRecord {
            path: "a/Journal.1.log".to_string(),
            owner: "_Unknown".to_string(),
            stable_id: None,
            visited: Vec::new(),
        }
    );
}

#[test]
fn apply_follows_the_event() {
    let mut record = ScanRecord::new("p");
    record.apply(Event::LoadGame { commander: "A".to_string() });
    assert_eq!(record.owner, "A");
    assert_eq!(record.stable_id, None);
    record.apply(Event::Commander { name: "B".to_string(), fid: Some("F1".to_string()) });
    assert_eq!(record.owner, "B");
    assert_eq!(record.stable_id, Some("F1".to_string()));
    record.apply(Event::Location { star_system: "Sol".to_string() });
    record.apply(Event::Other);
    record.apply(Event::FSDJump { star_system: "Deciat".to_string() });
    record.apply(Event::FSDJump { star_system: "Sol".to_string() });
    assert_eq!(record.visited, vec!["Sol", "Deciat", "Sol"]);
    record.apply(Event::Commander { name: "C".to_string(), fid: None });
    assert_eq!(record.owner, "C");
    assert_eq!(record.stable_id, None);
    assert_eq!(record.path, "p");
}

#[test]
fn scan_folds_the_lines_in_order() {
    let text = lines(&[
        r#"{"event":"Fileheader","part":1}"#,
        r#"{"event":"Commander","FID":"F42","Name":"CMDR_A"}"#,
        r#"{"event":"LoadGame","Commander":"CMDR_A"}"#,
        r#"{"event":"Location","StarSystem":"Sol"}"#,
        r#"{"event":"FSDJump","StarSystem":"Sol"}"#,
        r#"{"event":"FSDJump","StarSystem":"Deciat"}"#,
        r#"{"event":"Shutdown"}"#,
    ]);
    assert_eq!(
        scan_lines("Journal.1.log", &text),
        Ok(ScanRecord {
            path: "Journal.1.log".to_string(),
            owner: "CMDR_A".to_string(),
            stable_id: Some("F42".to_string()),
            visited: vec!["Sol".to_string(), "Sol".to_string(), "Deciat".to_string()],
        })
    );
}

#[test]
fn scan_of_no_line_is_the_blank_record() {
    assert_eq!(scan_lines("Journal.1.log", &Vec::new()), Ok(ScanRecord::new("Journal.1.log")));
}

#[test]
fn scan_without_identity_keeps_the_placeholder() {
    let text = lines(&[r#"{"event":"Location","StarSystem":"Sol"}"#]);
    let record = scan_lines("Journal.1.log", &text).unwrap();
    assert_eq!(record.owner, "_Unknown");
    assert_eq!(record.visited, vec!["Sol"]);
}

#[test]
fn scan_fails_at_the_first_corrupt_line() {
    let text = lines(&[
        r#"{"event":"LoadGame","Commander":"CMDR_A"}"#,
        r#"{"event":"Location","StarSystem":"Sol"}"#,
        r#"{"event":"Location","StarSystem":"#,
        r#"{"event":"Location","StarSystem":"Deciat"}"#,
        "again corrupt",
    ]);
    assert_eq!(
        scan_lines("dir/Journal.9.log", &text),
        Err(DecodeError { path: "dir/Journal.9.log".to_string(), line: 3 })
    );
}

#[test]
fn scan_counts_lines_from_one() {
    let text = lines(&["{"]);
    assert_eq!(
        scan_lines("Journal.1.log", &text),
        Err(DecodeError { path: "Journal.1.log".to_string(), line: 1 })
    );
}

#[test]
fn scan_fails_on_an_empty_line() {
    let text = lines(&[r#"{"event":"Shutdown"}"#, ""]);
    assert_eq!(
        scan_lines("Journal.1.log", &text),
        Err(DecodeError { path: "Journal.1.log".to_string(), line: 2 })
    );
}
