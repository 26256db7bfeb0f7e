use ripdrag::codec::{decode, decode_line, encode, payload_lines};

fn strings(items: &[&str]) -> Vec<String> {
    items.iter().map(|s| s.to_string()).collect()
}

#[test]
fn encode_two_paths_joins_with_lf() {
    let payload = encode(&strings(&["/tmp/a.txt", "/tmp/b.txt"]));
    assert_eq!(payload, "file:///tmp/a.txt\nfile:///tmp/b.txt");
}

#[test]
fn encode_percent_encodes_path_segments() {
    let payload = encode(&strings(&["/tmp/a b.txt"]));
    assert_eq!(payload, "file:///tmp/a%20b.txt");
}

#[test]
fn encode_empty_sequence_yields_empty_payload() {
    let payload = encode(&strings(&[]));
    assert_eq!(payload, "");
}

#[test]
fn decode_empty_payload_yields_empty_sequence() {
    let paths = decode("");
    assert!(paths.is_empty());
}

#[test]
fn decode_reads_file_uris_in_order() {
    let paths = decode("file:///tmp/d.txt\nfile:///tmp/e.txt");
    assert_eq!(paths, strings(&["/tmp/d.txt", "/tmp/e.txt"]));
}

#[test]
fn decode_percent_decodes_segments() {
    let paths = decode("file:///tmp/x%20y.txt");
    assert_eq!(paths, strings(&["/tmp/x y.txt"]));
}

#[test]
fn decode_tolerates_carriage_returns() {
    let paths = decode("file:///tmp/d.txt\r\nfile:///tmp/e.txt\r\n");
    assert_eq!(paths, strings(&["/tmp/d.txt", "/tmp/e.txt"]));
}

#[test]
fn decode_skips_empty_lines() {
    let paths = decode("file:///tmp/d.txt\n\n\nfile:///tmp/e.txt\n");
    assert_eq!(paths, strings(&["/tmp/d.txt", "/tmp/e.txt"]));
}

#[test]
fn decode_skips_non_file_schemes() {
    let paths = decode("https://example.com/a\nfile:///tmp/e.txt");
    assert_eq!(paths, strings(&["/tmp/e.txt"]));
}

#[test]
fn decode_skips_unparsable_lines() {
    let paths = decode("not a uri at all\nfile:///tmp/e.txt");
    assert_eq!(paths, strings(&["/tmp/e.txt"]));
}

#[test]
fn decode_of_garbage_payload_is_empty_batch() {
    let paths = decode("\u{1}\u{2}garbage\nmore garbage");
    assert!(paths.is_empty());
}

#[test]
fn round_trip_preserves_order_and_duplicates() {
    let input = strings(&["/tmp/a.txt", "/tmp/b.txt", "/tmp/a.txt"]);
    let out = decode(&encode(&input));
    assert_eq!(out, input);
}

#[test]
fn round_trip_survives_awkward_characters() {
    let input = strings(&["/tmp/sp ace", "/tmp/per%cent", "/tmp/h#ash?q"]);
    let out = decode(&encode(&input));
    assert_eq!(out, input);
}

#[test]
fn decode_line_accepts_file_uri() {
    assert_eq!(decode_line("file:///tmp/a"), Some("/tmp/a".to_string()));
}

#[test]
fn decode_line_rejects_other_scheme() {
    assert_eq!(decode_line("mailto:someone@example.com"), None);
}

#[test]
fn payload_lines_splits_verbatim() {
    let lines = payload_lines("file:///tmp/d.txt\nfile:///tmp/e.txt");
    assert_eq!(lines, strings(&["file:///tmp/d.txt", "file:///tmp/e.txt"]));
}

#[test]
fn payload_lines_drops_final_separator_and_crs() {
    let lines = payload_lines("one\r\ntwo\nthree\n");
    assert_eq!(lines, strings(&["one", "two", "three"]));
    assert!(payload_lines("").is_empty());
}
