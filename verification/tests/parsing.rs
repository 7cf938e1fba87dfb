use mongolog::parser::{match_line, ParseError, Parser};
use mongolog::extract::{extract_execution_time, extract_metrics, extract_plan_summary, MetricName};

#[test]
fn envelope_extracts_four_groups() {
    let line = b"2019-06-25T10:15:30.123-0300 I COMMAND [conn1] hello world";
    let env = match_line(line).expect("line is well-formed");
    assert_eq!(env.timestamp, b"2019-06-25T10:15:30.123-0300".to_vec());
    assert_eq!(env.severity, b'I');
    assert_eq!(env.component, b"COMMAND".to_vec());
    assert_eq!(env.message, b"hello world".to_vec());
}

#[test]
fn envelope_rejects_malformed_line() {
    assert!(match_line(b"this is not a log line").is_none());
    assert!(match_line(b"").is_none());
    assert!(match_line(b"2019-06-25T10:15:30.123-0300 I COMMAND [conn1]").is_none());
    assert!(match_line(b"2019-06-25T10:15:30.123-0300 info COMMAND [conn1] msg").is_none());
    assert!(match_line(b"2019-06-25T10:15:30.123-0300 I lower [conn1] msg").is_none());
}

#[test]
fn structural_failure_yields_error_and_no_record() {
    let p = Parser::new();
    let r = p.parse_line(b"this is not a log line");
    assert_eq!(r.err(), Some(ParseError::NoStructuralMatch));
}

#[test]
fn bad_timestamp_yields_error() {
    let p = Parser::new();
    let r = p.parse_line(b"2019-02-30T10:15:30.123-0300 I COMMAND [conn1] msg");
    assert_eq!(r.err(), Some(ParseError::BadTimestamp));
}

#[test]
fn timestamp_parses_to_epoch_millis() {
    let p = Parser::new();
    let rec = p
        .parse_line(b"2019-06-25T10:15:30.123-0300 I COMMAND [conn1] hello world")
        .expect("line parses");
    assert_eq!(rec.timestamp, 1561457730123i64);
    assert_eq!(rec.severity, b'I');
    assert_eq!(rec.component, b"COMMAND".to_vec());
    assert_eq!(rec.message_raw, b"hello world".to_vec());
}

#[test]
fn parsing_twice_yields_identical_records() {
    let p = Parser::new();
    let line: &[u8] =
        b"2019-06-25T10:15:30.123-0300 I WRITE [conn7] update mydb.orders planSummary: IXSCAN docsExamined:4 100ms";
    let a = p.parse_line(line).expect("line parses");
    let b = p.parse_line(line).expect("line parses");
    assert_eq!(a.timestamp, b.timestamp);
    assert_eq!(a.severity, b.severity);
    assert_eq!(a.component, b.component);
    assert_eq!(a.message_raw, b.message_raw);
    assert_eq!(a.execution_time, b.execution_time);
    assert_eq!(a.plan_summary, b.plan_summary);
    assert_eq!(a.command, b.command);
    assert_eq!(a.db, b.db);
    assert_eq!(a.collection, b.collection);
    assert_eq!(a.metrics, b.metrics);
}

#[test]
fn empty_enrichments_are_omitted() {
    let p = Parser::new();
    let rec = p
        .parse_line(b"2019-06-25T10:15:30.123-0300 I NETWORK [listener] connection accepted")
        .expect("line parses");
    assert_eq!(rec.plan_summary, None);
    assert_eq!(rec.command, None);
    assert_eq!(rec.db, None);
    assert_eq!(rec.collection, None);
    assert_eq!(rec.execution_time, 0);
    assert!(rec.metrics.is_empty());
}

#[test]
fn metric_pairs_round_trip() {
    let got = extract_metrics(b"docsExamined: 42 keysExamined:7");
    assert_eq!(
        got,
        vec![(MetricName::DocsExamined, 42i64), (MetricName::KeysExamined, 7i64)]
    );
}

#[test]
fn metric_pairs_all_names_and_shapes() {
    let got = extract_metrics(b"bytesRead: 10 nreturned 7 reslen:22");
    assert_eq!(
        got,
        vec![
            (MetricName::BytesRead, 10i64),
            (MetricName::Nreturned, 7i64),
            (MetricName::Reslen, 22i64),
        ]
    );
    assert_eq!(extract_metrics(b"no pairs here"), vec![]);
    assert_eq!(extract_metrics(b"docsExamined: x"), vec![]);
}

#[test]
fn metric_value_saturates() {
    let got = extract_metrics(b"reslen: 99999999999999999999");
    assert_eq!(got, vec![(MetricName::Reslen, i64::MAX)]);
}

#[test]
fn execution_time_boundary() {
    assert_eq!(extract_execution_time(b"query took 123ms"), 123);
    assert_eq!(extract_execution_time(b"123ms"), 123);
    assert_eq!(extract_execution_time(b"no trailing token"), 0);
    assert_eq!(extract_execution_time(b"123ms and more"), 0);
    assert_eq!(extract_execution_time(b"ms"), 0);
}

#[test]
fn plan_summary_token() {
    assert_eq!(extract_plan_summary(b"x planSummary: COLLSCAN y"), b"COLLSCAN".to_vec());
    assert_eq!(extract_plan_summary(b"planSummary: IXSCAN"), b"IXSCAN".to_vec());
    assert_eq!(extract_plan_summary(b"no summary"), b"".to_vec());
}

#[test]
fn write_component_branches_to_write_patterns() {
    let p = Parser::new();
    let q = p.get_metrics_from_string(b"update mydb.orders query: { a: 1 }", b"WRITE");
    assert_eq!(q.command, b"update".to_vec());
    assert_eq!(q.db, b"mydb".to_vec());
    assert_eq!(q.collection, b"orders".to_vec());
}

#[test]
fn read_component_branches_to_read_patterns() {
    let p = Parser::new();
    let q = p.get_metrics_from_string(
        b"command mydb.orders command: find { find: \"orders\", $db: \"mydb\" } 241ms",
        b"QUERY",
    );
    assert_eq!(q.command, b"find".to_vec());
    assert_eq!(q.db, b"mydb".to_vec());
    assert_eq!(q.collection, b"orders".to_vec());
    assert_eq!(q.execution_time, 241);
}

#[test]
fn full_write_line_parses_with_enrichments() {
    let p = Parser::new();
    let rec = p
        .parse_line(
            b"2019-06-25T10:15:30.123-0300 I WRITE [conn7] update mydb.orders planSummary: IXSCAN docsExamined:4 keysExamined: 2 100ms",
        )
        .expect("line parses");
    assert_eq!(rec.command, Some(b"update".to_vec()));
    assert_eq!(rec.db, Some(b"mydb".to_vec()));
    assert_eq!(rec.collection, Some(b"orders".to_vec()));
    assert_eq!(rec.plan_summary, Some(b"IXSCAN".to_vec()));
    assert_eq!(rec.execution_time, 100);
    assert_eq!(
        rec.metrics,
        vec![(MetricName::DocsExamined, 4i64), (MetricName::KeysExamined, 2i64)]
    );
}
