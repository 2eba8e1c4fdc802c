use tracker_sync::payload::{assemble_trackers, parse_all, parse_tracker, ParseError};
use tracker_sync::sources::{is_literal_descriptor, partition_sources};
use tracker_sync::text::{join_strs, split_str};
use tracker_sync::trackers::{is_root_path, merge_trackers, TrackerCollection};

fn strings(items: &[&str]) -> Vec<String> {
    items.iter().map(|s| s.to_string()).collect()
}

#[test]
fn literal_descriptor_ends_with_announce() {
    assert!(is_literal_descriptor("udp://a/announce"));
    assert!(is_literal_descriptor("announce"));
    assert!(!is_literal_descriptor("https://list.example/x"));
    assert!(!is_literal_descriptor("nounce"));
    assert!(!is_literal_descriptor(""));
}

#[test]
fn partition_separates_literals_from_fetchables() {
    let sources = strings(&[
        "udp://a/announce",
        "https://list.example/x",
        "wss://b/announce",
    ]);
    let (literals, fetchables) = partition_sources(&sources);
    assert_eq!(literals, strings(&["udp://a/announce", "wss://b/announce"]));
    assert_eq!(fetchables, strings(&["https://list.example/x"]));
}

#[test]
fn split_by_comma() {
    let parts = split_str("a,b,c", ",");
    assert_eq!(parts, strings(&["a", "b", "c"]));
}

#[test]
fn split_without_separator_keeps_whole() {
    let parts = split_str("abc", ",");
    assert_eq!(parts, strings(&["abc"]));
}

#[test]
fn split_keeps_empty_pieces() {
    let parts = split_str("a,,b,", ",");
    assert_eq!(parts, strings(&["a", "", "b", ""]));
}

#[test]
fn join_with_comma() {
    assert_eq!(join_strs(&strings(&["a", "b", "c"]), ","), "a,b,c");
    assert_eq!(join_strs(&strings(&["a"]), ","), "a");
    assert_eq!(join_strs(&strings(&[]), ","), "");
}

#[test]
fn join_then_split_round_trips() {
    let parts = strings(&["udp://a/announce", "udp://b/announce", "wss://c/announce"]);
    let joined = join_strs(&parts, ",");
    assert_eq!(split_str(&joined, ","), parts);
}

#[test]
fn merge_removes_duplicates_and_empties() {
    let literals = strings(&["udp://a/announce", "udp://b/announce", "udp://a/announce"]);
    let fetched = vec![
        strings(&["udp://b/announce", "udp://c/announce", ""]),
        strings(&["udp://c/announce", "udp://a/announce"]),
    ];
    let ts = merge_trackers(&literals, &fetched);
    assert_eq!(
        *ts.entries(),
        strings(&["udp://a/announce", "udp://b/announce", "udp://c/announce"])
    );
    assert_eq!(ts.len(), 3);
}

#[test]
fn merge_of_nothing_is_empty() {
    let ts = merge_trackers(&strings(&[]), &vec![]);
    assert_eq!(ts.len(), 0);
    assert_eq!(ts.join(","), "");
}

#[test]
fn collection_skips_duplicates_on_insert() {
    let mut ts = TrackerCollection::new();
    ts.insert("udp://a/announce".to_string());
    ts.insert("udp://a/announce".to_string());
    ts.insert("".to_string());
    ts.insert("udp://b/announce".to_string());
    assert_eq!(*ts.entries(), strings(&["udp://a/announce", "udp://b/announce"]));
    assert!(ts.contains(&"udp://a/announce".to_string()));
    assert!(!ts.contains(&"udp://c/announce".to_string()));
}

#[test]
fn json_document_shape_wins() {
    let body = "{\"trackers\":[\"udp://x/announce\",\"a,b\"]}";
    let parsed = parse_tracker(body).unwrap();
    assert_eq!(parsed, strings(&["udp://x/announce", "a,b"]));
}

#[test]
fn comma_text_shape() {
    let parsed = parse_tracker("udp://a/announce,udp://b/announce").unwrap();
    assert_eq!(parsed, strings(&["udp://a/announce", "udp://b/announce"]));
}

#[test]
fn blank_line_text_shape() {
    let parsed = parse_tracker("udp://a/announce\n\nudp://b/announce").unwrap();
    assert_eq!(parsed, strings(&["udp://a/announce", "udp://b/announce"]));
}

#[test]
fn unrecognized_payload_is_rejected() {
    assert_eq!(
        parse_tracker("just one tracker"),
        Err(ParseError::UnrecognizedFormat)
    );
    assert_eq!(
        parse_tracker("{\"other\":1}"),
        Err(ParseError::UnrecognizedFormat)
    );
}

#[test]
fn one_bad_payload_fails_the_batch() {
    let bodies = strings(&["udp://a/announce,udp://b/announce", "no shape here"]);
    assert_eq!(parse_all(&bodies), Err(ParseError::UnrecognizedFormat));
}

#[test]
fn assemble_json_source() {
    let sources = strings(&["udp://a/announce", "https://list.example/x"]);
    let bodies = strings(&["{\"trackers\":[\"udp://b/announce\",\"udp://c/announce\"]}"]);
    let ts = assemble_trackers(&sources, &bodies).unwrap();
    assert_eq!(
        *ts.entries(),
        strings(&["udp://a/announce", "udp://b/announce", "udp://c/announce"])
    );
}

#[test]
fn assemble_comma_source() {
    let sources = strings(&["https://list.example/y"]);
    let bodies = strings(&["udp://a/announce,udp://b/announce"]);
    let ts = assemble_trackers(&sources, &bodies).unwrap();
    assert_eq!(*ts.entries(), strings(&["udp://a/announce", "udp://b/announce"]));
}

#[test]
fn assemble_fails_on_unrecognized_payload() {
    let sources = strings(&["udp://a/announce", "https://list.example/x"]);
    let bodies = strings(&["nothing recognizable"]);
    assert!(matches!(
        assemble_trackers(&sources, &bodies),
        Err(ParseError::UnrecognizedFormat)
    ));
}

#[test]
fn render_by_path() {
    let ts = merge_trackers(&strings(&["udp://a/announce", "udp://b/announce"]), &vec![]);
    assert!(is_root_path("/"));
    assert!(!is_root_path("/list"));
    assert!(!is_root_path(""));
    assert_eq!(ts.render(true), "udp://a/announce,udp://b/announce");
    assert_eq!(ts.render(false), "udp://a/announce\n\nudp://b/announce");
}
