use folding_physics::fasta::InputLoader;
use folding_physics::logline::{
    escape_field, escape_json, field_value, generate_run_id, parse_decimal, parse_fields,
    parse_u64_field, parse_usize_field, parse_violation_detail, run_id_for, split_text,
    timestamp_for, current_timestamp, LogLineWriter, TrajectoryVisualizer,
};

#[test]
fn escape_field_replaces_separators() {
    assert_eq!(escape_field("a|b=c"), "a_b_c");
    assert_eq!(escape_field("plain"), "plain");
    assert_eq!(escape_field(""), "");
}

#[test]
fn escape_json_escapes_quotes() {
    assert_eq!(escape_json("say \"hi\""), "say \\\"hi\\\"");
    assert_eq!(escape_json("a"), "a");
}

#[test]
fn split_text_keeps_empty_pieces() {
    assert_eq!(split_text("a||b", '|'), vec!["a", "", "b"]);
    assert_eq!(split_text("", '|'), vec![""]);
    assert_eq!(split_text("x|", '|'), vec!["x", ""]);
}

#[test]
fn fields_are_read_after_the_tag() {
    let fields = parse_fields("span|id=a|duration_ms=5||ghost_flag=1").unwrap();
    assert_eq!(
        fields,
        vec![
            ("id".to_string(), "a".to_string()),
            ("duration_ms".to_string(), "5".to_string()),
            ("ghost_flag".to_string(), "1".to_string()),
        ]
    );
    assert_eq!(parse_fields("span|id=a=b").unwrap()[0].1, "a=b");
}

#[test]
fn field_without_equals_is_an_error() {
    assert_eq!(parse_fields("span|id=a|broken").unwrap_err(), "invalid field: broken");
}

#[test]
fn later_field_wins() {
    let fields = parse_fields("m|k=1|k=2").unwrap();
    assert_eq!(field_value(&fields, "k"), Some("2".to_string()));
    assert_eq!(field_value(&fields, "absent"), None);
}

#[test]
fn integer_fields() {
    let fields = parse_fields("metadata|time_step_ms=12|accepted_spans=+7|bad=1x|huge=18446744073709551616").unwrap();
    assert_eq!(parse_u64_field(&fields, "time_step_ms"), Ok(12));
    assert_eq!(parse_usize_field(&fields, "accepted_spans"), Ok(7));
    assert_eq!(parse_u64_field(&fields, "bad").unwrap_err(), "invalid integer for bad");
    assert_eq!(parse_u64_field(&fields, "huge").unwrap_err(), "invalid integer for huge");
    assert_eq!(parse_u64_field(&fields, "none").unwrap_err(), "missing field none");
}

#[test]
fn decimal_parsing_matches_std() {
    for text in ["0", "42", "+5", "", "+", "-1", "12a", "18446744073709551615", "18446744073709551616"] {
        assert_eq!(parse_decimal(text, u64::MAX), text.parse::<u64>().ok(), "{text}");
    }
    assert_eq!(parse_decimal("300", 255), None);
    assert_eq!(parse_decimal("255", 255), Some(255));
}

#[test]
fn violation_detail_is_extracted() {
    assert_eq!(parse_violation_detail("violation|detail=too close"), "too close");
    assert_eq!(parse_violation_detail("violation|other=1"), "unknown violation");
    assert_eq!(parse_violation_detail("detail=x"), "unknown violation");
}

#[test]
fn violation_line_escapes_detail() {
    let writer = LogLineWriter::new();
    assert_eq!(writer.violation_line("a|b"), "violation|detail=a_b");
}

#[test]
fn run_ids_are_lower_hex() {
    assert_eq!(run_id_for(255), "ff");
    assert_eq!(run_id_for(0), "0");
    assert_eq!(run_id_for(0x1a2b), format!("{:x}", 0x1a2bu128));
    let id = generate_run_id();
    assert!(!id.is_empty() && id.chars().all(|c| c.is_ascii_hexdigit()));
}

#[test]
fn timestamps_pad_nanoseconds() {
    assert_eq!(timestamp_for(5_000_000_042), "5.000000042");
    assert_eq!(timestamp_for(0), "0.000000000");
    let now = current_timestamp();
    assert_eq!(now.split('.').nth(1).map(|s| s.len()), Some(9));
}

#[test]
fn json_array_framing() {
    let items = vec!["{\"a\":1}".to_string(), "2".to_string()];
    assert_eq!(TrajectoryVisualizer::json_array(&items), "[{\"a\":1},2]");
    assert_eq!(TrajectoryVisualizer::json_array(&[]), "[]");
}

#[test]
fn fasta_headers_and_white_space_are_skipped() {
    let text = ">sp|Q9 test\nAC DE\r\n>second\nFG\n";
    assert_eq!(InputLoader::fasta_sequence(text).unwrap(), "ACDEFG");
    assert_eq!(
        InputLoader::fasta_sequence(">only header\n\n").unwrap_err(),
        "FASTA contained no sequence data"
    );
    assert_eq!(InputLoader::fasta_sequence("ac\u{3000}d").unwrap(), "acd");
}
