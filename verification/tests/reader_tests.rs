use bioc_extract::{collect_until_close, seek, NameList, XmlEvent};

fn open(t: &str) -> XmlEvent {
    XmlEvent::Open(t.to_string())
}

fn close(t: &str) -> XmlEvent {
    XmlEvent::Close(t.to_string())
}

fn text(t: &str) -> XmlEvent {
    XmlEvent::Text(t.to_string())
}

fn sec_stream() -> Vec<XmlEvent> {
    vec![
        open("sec"),
        open("p"),
        text("before"),
        open("xref"),
        text("REF"),
        close("xref"),
        text("after"),
        close("p"),
        close("sec"),
    ]
}

#[test]
fn seek_finds_the_next_start_tag() {
    let events = sec_stream();
    assert_eq!(seek(&events, 0, "sec"), Some(1));
    assert_eq!(seek(&events, 0, "xref"), Some(4));
    assert_eq!(seek(&events, 4, "xref"), None);
}

#[test]
fn seek_missing_tag_is_a_failure() {
    let events = sec_stream();
    assert_eq!(seek(&events, 0, "table"), None);
}

#[test]
fn scoped_region_excludes_cross_reference_text() {
    let events = sec_stream();
    let mut exclusions = NameList::new();
    exclusions.push("xref".to_string());
    let start = seek(&events, 0, "sec").expect("sec must be found");
    let collected = collect_until_close(&events, start, "sec", &exclusions);
    assert_eq!(collected.text, "beforeafter");
    assert!(collected.closed);
    assert_eq!(collected.end, events.len());
}

#[test]
fn scoped_region_without_exclusions_keeps_all_text() {
    let events = sec_stream();
    let exclusions = NameList::new();
    let start = seek(&events, 0, "sec").expect("sec must be found");
    let collected = collect_until_close(&events, start, "sec", &exclusions);
    assert_eq!(collected.text, "beforeREFafter");
    assert!(collected.closed);
}

#[test]
fn unmatched_close_is_a_defensive_stop() {
    let events = vec![text("x"), close("other")];
    let exclusions = NameList::new();
    let collected = collect_until_close(&events, 0, "sec", &exclusions);
    assert_eq!(collected.text, "x");
    assert!(!collected.closed);
    assert_eq!(collected.end, 2);
}

#[test]
fn end_of_stream_is_a_defensive_stop() {
    let events = vec![text("x"), open("p"), text("y")];
    let exclusions = NameList::new();
    let collected = collect_until_close(&events, 0, "sec", &exclusions);
    assert_eq!(collected.text, "xy");
    assert!(!collected.closed);
    assert_eq!(collected.end, 3);
}

#[test]
fn nested_same_name_tags_keep_depth() {
    let events = vec![
        text("a"),
        open("sec"),
        text("inner"),
        close("sec"),
        text("b"),
        close("sec"),
        text("past the close"),
    ];
    let exclusions = NameList::new();
    let collected = collect_until_close(&events, 0, "sec", &exclusions);
    assert_eq!(collected.text, "ainnerb");
    assert!(collected.closed);
    assert_eq!(collected.end, 6);
}
