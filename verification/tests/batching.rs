use mongolog::parser::{ParsedRecord, Parser};
use mongolog::pipeline::{dispatch_lines, Dispatcher, LoadWorker};
use mongolog::store::{get_client, split_namespace};

fn record(tag: i64) -> ParsedRecord {
    ParsedRecord {
        timestamp: tag,
        severity: b'I',
        component: b"WRITE".to_vec(),
        message_raw: b"m".to_vec(),
        execution_time: 0,
        plan_summary: None,
        command: None,
        db: None,
        collection: None,
        metrics: Vec::new(),
    }
}

#[test]
fn capacity_plus_one_records_flush_exactly_once() {
    let cap = 3usize;
    let mut w = LoadWorker::new(cap);
    let mut flushes: Vec<Vec<ParsedRecord>> = Vec::new();
    for tag in 0..(cap as i64 + 1) {
        if let Some(batch) = w.push(record(tag)) {
            flushes.push(batch);
        }
    }
    assert_eq!(flushes.len(), 1);
    assert_eq!(flushes[0].len(), cap);
    for (i, r) in flushes[0].iter().enumerate() {
        assert_eq!(r.timestamp, i as i64);
    }
    let rest = w.drain().expect("one record is pending");
    assert_eq!(rest.len(), 1);
    assert_eq!(rest[0].timestamp, cap as i64);
    assert!(w.drain().is_none());
}

#[test]
fn drain_of_empty_worker_is_none() {
    let mut w = LoadWorker::new(5);
    assert!(w.drain().is_none());
}

#[test]
fn dispatcher_routes_round_robin() {
    let mut d = Dispatcher::new(3);
    assert_eq!(d.route(), 0);
    assert_eq!(d.route(), 1);
    assert_eq!(d.route(), 2);
    assert_eq!(d.route(), 0);
}

#[test]
fn three_lines_one_malformed_two_delivered_one_skip() {
    let p = Parser::new();
    let lines: Vec<Vec<u8>> = vec![
        b"2019-06-25T10:15:30.123-0300 I WRITE [conn7] update mydb.orders 10ms".to_vec(),
        b"garbage in the middle".to_vec(),
        b"2019-06-25T10:15:31.000-0300 I COMMAND [conn8] command mydb.orders command: find { find: \"orders\", $db: \"mydb\" }".to_vec(),
    ];
    let (deliveries, skips) = dispatch_lines(&p, &lines, 2);
    assert_eq!(deliveries.len(), 2);
    assert_eq!(skips.len(), 1);
    assert_eq!(skips[0].0, 2);
    assert_eq!(deliveries[0].0, 0);
    assert_eq!(deliveries[1].0, 1);
    assert_eq!(deliveries[0].1.command, Some(b"update".to_vec()));
    assert_eq!(deliveries[1].1.command, Some(b"find".to_vec()));
}

#[test]
fn all_lines_bad_delivers_nothing() {
    let p = Parser::new();
    let lines: Vec<Vec<u8>> = vec![b"x".to_vec(), b"y".to_vec()];
    let (deliveries, skips) = dispatch_lines(&p, &lines, 4);
    assert_eq!(deliveries.len(), 0);
    assert_eq!(skips.len(), 2);
    assert_eq!(skips[0].0, 1);
    assert_eq!(skips[1].0, 2);
}

#[test]
fn client_keeps_its_uri() {
    let c = get_client(String::from("mongodb://localhost:27017"));
    assert_eq!(c.uri, "mongodb://localhost:27017");
}

#[test]
fn namespace_splits_at_first_dot() {
    let (db, coll) = split_namespace(b"mydb.orders").expect("namespace has a dot");
    assert_eq!(db, b"mydb".to_vec());
    assert_eq!(coll, b"orders".to_vec());
    let (db2, coll2) = split_namespace(b"a.b.c").expect("namespace has a dot");
    assert_eq!(db2, b"a".to_vec());
    assert_eq!(coll2, b"b".to_vec());
    assert!(split_namespace(b"nodot").is_none());
}
