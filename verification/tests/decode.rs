use visited_systems::event::{decode_line, event_from_members, DecodeError, Event};
use visited_systems::json::{lookup, read_optional_text, read_optional_unsigned, read_text, Member};

fn decode(line: &str) -> Result<Event, DecodeError> {
    decode_line("Journal.1.log", 1, line)
}

fn failure() -> Result<Event, DecodeError> {
    Err(DecodeError { path: "Journal.1.log".to_string(), line: 1 })
}

#[test]
fn decode_load_game() {
    let line = r#"{ "timestamp":"2021-01-01T00:00:00Z", "event":"LoadGame", "FID":"F1", "Commander":"Jameson", "Ship":"SideWinder", "Credits":1000 }"#;
    assert_eq!(decode(line), Ok(Event::LoadGame { commander: "Jameson".to_string() }));
}

#[test]
fn decode_commander_with_id() {
    let line = r#"{ "timestamp":"2021-01-01T00:00:00Z", "event":"Commander", "FID":"F1234567", "Name":"Jameson" }"#;
    assert_eq!(
        decode(line),
        Ok(Event::Commander { name: "Jameson".to_string(), fid: Some("F1234567".to_string()) })
    );
}

#[test]
fn decode_commander_without_id() {
    assert_eq!(
        decode(r#"{"event":"Commander","Name":"Jameson"}"#),
        Ok(Event::Commander { name: "Jameson".to_string(), fid: None })
    );
    assert_eq!(
        decode(r#"{"event":"Commander","Name":"Jameson","FID":null}"#),
        Ok(Event::Commander { name: "Jameson".to_string(), fid: None })
    );
}

#[test]
fn decode_location_and_jump() {
    assert_eq!(
        decode(r#"{"event":"Location","StarSystem":"Shinrarta Dezhra","Docked":true}"#),
        Ok(Event::Location { star_system: "Shinrarta Dezhra".to_string() })
    );
    assert_eq!(
        decode(r#"{"event":"FSDJump","StarSystem":"Sol","StarPos":[0.0,0.0,0.0],"JumpDist":8.5}"#),
        Ok(Event::FSDJump { star_system: "Sol".to_string() })
    );
}

#[test]
fn decode_reads_escapes_in_strings() {
    assert_eq!(
        decode(r#"{"event":"Location","StarSystem":"A\u00e9 \"B\""}"#),
        Ok(Event::Location { star_system: "Aé \"B\"".to_string() })
    );
}

#[test]
fn decode_unknown_kind_is_other() {
    assert_eq!(decode(r#"{"event":"Docked","StationName":"Jameson Memorial"}"#), Ok(Event::Other));
    assert_eq!(decode(r#"{"event":"loadgame","Commander":"Jameson"}"#), Ok(Event::Other));
    assert_eq!(decode(r#"{"event":""}"#), Ok(Event::Other));
    assert_eq!(decode(r#"{"event":"Fileheader","part":1,"StarSystem":5}"#), Ok(Event::Other));
}

#[test]
fn decode_rejects_what_is_no_json_object() {
    assert_eq!(decode(""), failure());
    assert_eq!(decode("not json"), failure());
    assert_eq!(decode(r#"{"event":"Location","StarSystem":"Sol""#), failure());
    assert_eq!(decode(r#"["event","Location"]"#), failure());
    assert_eq!(decode("null"), failure());
    assert_eq!(decode("5"), failure());
    assert_eq!(decode(r#"{"event":"Docked"} trailing"#), failure());
}

#[test]
fn decode_rejects_a_missing_or_wrong_kind() {
    assert_eq!(decode("{}"), failure());
    assert_eq!(decode(r#"{"StarSystem":"Sol"}"#), failure());
    assert_eq!(decode(r#"{"event":5}"#), failure());
    assert_eq!(decode(r#"{"event":null}"#), failure());
}

#[test]
fn decode_rejects_missing_or_wrong_members() {
    assert_eq!(decode(r#"{"event":"LoadGame"}"#), failure());
    assert_eq!(decode(r#"{"event":"LoadGame","Commander":null}"#), failure());
    assert_eq!(decode(r#"{"event":"Commander","FID":"F1"}"#), failure());
    assert_eq!(decode(r#"{"event":"Commander","Name":"Jameson","FID":17}"#), failure());
    assert_eq!(decode(r#"{"event":"Location"}"#), failure());
    assert_eq!(decode(r#"{"event":"FSDJump","StarSystem":["Sol"]}"#), failure());
}

#[test]
fn decode_error_carries_file_and_line() {
    assert_eq!(
        decode_line("C:/logs/Journal.7.log", 42, "oops"),
        Err(DecodeError { path: "C:/logs/Journal.7.log".to_string(), line: 42 })
    );
}

#[test]
fn event_from_members_reads_the_kind_first() {
    let members = vec![
        ("StarSystem".to_string(), Member::Text("Sol".to_string())),
        ("event".to_string(), Member::Text("FSDJump".to_string())),
    ];
    assert_eq!(
        event_from_members(&members),
        Some(Event::FSDJump { star_system: "Sol".to_string() })
    );
    let unknown = vec![("event".to_string(), Member::Text("Scan".to_string()))];
    assert_eq!(event_from_members(&unknown), Some(Event::Other));
    let wrong = vec![("event".to_string(), Member::Unsigned(3))];
    assert_eq!(event_from_members(&wrong), None);
    assert_eq!(event_from_members(&Vec::new()), None);
}

#[test]
fn lookup_finds_the_first_member_of_a_name() {
    let members = vec![
        ("a".to_string(), Member::Null),
        ("b".to_string(), Member::Unsigned(1)),
        ("b".to_string(), Member::Unsigned(2)),
    ];
    assert_eq!(lookup(&members, "a"), Some(&Member::Null));
    assert_eq!(lookup(&members, "b"), Some(&Member::Unsigned(1)));
    assert_eq!(lookup(&members, "c"), None);
}

#[test]
fn readers_tell_missing_from_wrong() {
    let members = vec![
        ("text".to_string(), Member::Text("x".to_string())),
        ("null".to_string(), Member::Null),
        ("number".to_string(), Member::Unsigned(9)),
        ("other".to_string(), Member::Other),
    ];
    assert_eq!(read_text(&members, "text"), Some("x".to_string()));
    assert_eq!(read_text(&members, "null"), None);
    assert_eq!(read_text(&members, "absent"), None);
    assert_eq!(read_optional_text(&members, "text"), Some(Some("x".to_string())));
    assert_eq!(read_optional_text(&members, "null"), Some(None));
    assert_eq!(read_optional_text(&members, "absent"), Some(None));
    assert_eq!(read_optional_text(&members, "number"), None);
    assert_eq!(read_optional_unsigned(&members, "number"), Some(Some(9)));
    assert_eq!(read_optional_unsigned(&members, "null"), Some(None));
    assert_eq!(read_optional_unsigned(&members, "absent"), Some(None));
    assert_eq!(read_optional_unsigned(&members, "text"), None);
    assert_eq!(read_optional_unsigned(&members, "other"), None);
}
