use archive_forms::errors::EditError;
use archive_forms::forms::Form;
use archive_forms::masters::master_video_from_form;
use archive_forms::timestamps::{EventTimestamp, EventType};
use archive_forms::videos::parse_duration;

#[test]
fn try_from_should_parse_timestamp_without_time_of_day() {
    let input_str =
        "00:08:05: Local coverage commences with an ‘Eyewitness News Special Report’. [normal]";
    let event_timestamp = EventTimestamp::parse(input_str).unwrap();
    assert_eq!(event_timestamp.event_type, EventType::Normal);
    assert_eq!(
        event_timestamp.description,
        "Local coverage commences with an ‘Eyewitness News Special Report’."
    );
    assert_eq!(event_timestamp.time_of_day, None);
    assert_eq!(Some(event_timestamp.timestamp_ms), parse_duration("00:08:05"));
}

#[test]
fn try_from_should_parse_timestamp_with_time_of_day() {
    let input_str = "00:20:00: UA175 hits the South Tower during a call with eyewitness Winston Mitchell. [0903] [wtc2-impact]";
    let event_timestamp = EventTimestamp::parse(input_str).unwrap();
    assert_eq!(event_timestamp.event_type, EventType::Wtc2Impact);
    assert_eq!(
        event_timestamp.description,
        "UA175 hits the South Tower during a call with eyewitness Winston Mitchell."
    );
    assert_eq!(event_timestamp.time_of_day, Some((9, 3)));
    assert_eq!(Some(event_timestamp.timestamp_ms), parse_duration("00:20:00"));
}

#[test]
fn to_string_should_print_timestamp_without_time_of_day() {
    let timestamp = EventTimestamp {
        id: 1,
        description: "Local coverage commences with an ‘Eyewitness News Special Report’.".to_string(),
        event_type: EventType::Normal,
        timestamp_ms: parse_duration("00:08:05").unwrap(),
        time_of_day: None,
    };
    let timestamp = timestamp.to_string();
    assert_eq!(
        timestamp,
        "00:08:05: Local coverage commences with an ‘Eyewitness News Special Report’. [normal]"
    );
}

#[test]
fn to_string_should_print_timestamp_with_time_of_day() {
    let timestamp = EventTimestamp {
        id: 1,
        description: "UA175 hits the South Tower during a call with eyewitness Winston Mitchell."
            .to_string(),
        event_type: EventType::Wtc2Impact,
        timestamp_ms: parse_duration("00:20:00").unwrap(),
        time_of_day: Some((9, 3)),
    };
    let timestamp = timestamp.to_string();
    assert_eq!(
        timestamp,
        "00:20:00: UA175 hits the South Tower during a call with eyewitness Winston Mitchell. [0903] [wtc2-impact]"
    );
}

#[test]
fn timestamp_edge_forms() {
    let e = EventTimestamp::parse("00:00:01: Smoke [] [key]").unwrap();
    assert_eq!(e.description, "Smoke");
    assert_eq!(e.time_of_day, None);
    assert_eq!(e.timestamp_ms, 1000);
    let e = EventTimestamp::parse("00:00:01: Smoke [9999] [key]").unwrap();
    assert_eq!(e.description, "Smoke");
    assert_eq!(e.time_of_day, None);
    let e = EventTimestamp::parse("01:00:00: Smoke [abc] [report]").unwrap();
    assert_eq!(e.description, "Smoke [abc]");
    assert_eq!(e.timestamp_ms, 3_600_000);
    assert!(EventTimestamp::parse("00:00:01: Smoke [unknown-kind]").is_none());
    assert!(EventTimestamp::parse("0:00:01: Smoke [key]").is_none());
    assert!(EventTimestamp::parse("00:00:01:  [key]").is_none());
    assert_eq!(EventTimestamp::parse("00:00:01:   [key]").unwrap().description, "");
    assert!(EventTimestamp::parse("00:00:01: [key]").is_none());
}

#[test]
fn master_form_reads_timestamps() {
    let mut text = String::from("News Broadcasts:\n---\nTitle: T\n---\nCategories: news\n---\nDate: 2001-09-11\n---\nDescription:\nD\n---\nLinks:\n---\nTimestamps:\n00:00:05: Tower hit [0903] [wtc2-impact]\n00:01:00: Report begins [report]\n---\nNIST Notes:\n---\n");
    for label in ["Eyewitnesses", "Fire", "Police", "Port Authority", "Reporters", "Survivors", "Victims", "Videographers"] {
        text.push_str(label);
        text.push_str(":\n---\n");
    }
    text.push_str("NIST Files:\n");
    let form = Form::from_master_video_str(&text).unwrap();
    let m = master_video_from_form(0, &form, &vec![], &vec![]).unwrap();
    assert_eq!(m.timestamps.len(), 2);
    assert_eq!(m.timestamps[0].event_type, EventType::Wtc2Impact);
    assert_eq!(m.timestamps[1].timestamp_ms, 60_000);
    let bad = text.replace("[report]", "[unknown]");
    let form = Form::from_master_video_str(&bad).unwrap();
    let r = master_video_from_form(0, &form, &vec![], &vec![]);
    assert!(matches!(r, Err(EditError::InvalidTimestamp(l)) if l == "00:01:00: Report begins [unknown]"));
}

#[test]
fn event_line_reads_back_as_written() {
    let e = EventTimestamp {
        id: 4,
        description: "Second plane".to_string(),
        timestamp_ms: 3_725_000,
        event_type: EventType::Wtc2Impact,
        time_of_day: Some((9, 3)),
    };
    let line = e.to_string();
    assert_eq!(line, "01:02:05: Second plane [0903] [wtc2-impact]");
    let back = EventTimestamp::parse(&line).unwrap();
    assert_eq!(back.id, 0);
    assert_eq!(back.description, e.description);
    assert_eq!(back.timestamp_ms, e.timestamp_ms);
    assert_eq!(back.event_type, e.event_type);
    assert_eq!(back.time_of_day, e.time_of_day);
}
