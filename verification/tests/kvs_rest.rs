use animus::kvs_api::{
    KeyValueRow, KeyValueSelectionDirectives, KeyValueSelectionTermination,
    KeyValueStorageReaderError, KeyValueStorageReaderMetadata, ReadEntry,
};
use animus::kvs_rest_client::{
    extract_cursor, is_success, try_extract_cursor, unexpected_status_error, PageEnd, PagedRead,
};
use animus::kvs_rest_common::{serialize_cursor, Query};
use animus::kvs_rest_server::{
    negotiate, plan_query, plan_read, read_error_response, response_headers, rows_to_send, AcceptHeader,
};
use animus::kvs_rest_tests::read_through_rest;
use animus::kvs_tck::mock_reader::MockReader;
use animus::kvs_tck::reader_assertions::test_data;

fn row(ns: &str, n: &str, k: &str, v: &str) -> ReadEntry {
    Ok(KeyValueRow::new(ns, n, k, v))
}

fn read_via_rest(select: impl FnOnce(KeyValueSelectionDirectives) -> KeyValueSelectionTermination) -> Result<Vec<ReadEntry>, KeyValueStorageReaderError> {
    let data = test_data();
    let backend = MockReader::new(&data);
    let page_size = 2;
    read_through_rest(&backend, select(KeyValueSelectionDirectives::default()), page_size)
}

#[test]
fn ensure_reads_unlimited_test() {
    let actual = read_via_rest(|it| it.select()).expect("Read failed");
    assert_eq!(actual, test_data());
}

#[test]
fn ensure_reads_selected_by_namespace_test() {
    let actual = read_via_rest(|it| it.namespace("robots").select()).expect("Read failed");
    assert_eq!(actual, vec![row("robots", "T-1000", "classification", "Infiltration and Assasination Unit")]);
}

#[test]
fn ensure_reads_selected_by_name_test() {
    let actual = read_via_rest(|it| it.name("DV190").select()).expect("Read failed");
    assert_eq!(
        actual,
        vec![
            row("feature", "DV190", "name", "Add significant feature"),
            row("feature", "DV190", "status", "IN_PROGRESS"),
        ]
    );
}

#[test]
fn ensure_reads_selected_by_key_test() {
    let actual = read_via_rest(|it| it.key("classification").select()).expect("Read failed");
    assert_eq!(actual, vec![row("robots", "T-1000", "classification", "Infiltration and Assasination Unit")]);
}

#[test]
fn ensure_reads_selected_by_nnk_test() {
    let actual = read_via_rest(|it| it.namespace("feature").name("DV191").key("name").select()).expect("Read failed");
    assert_eq!(actual, vec![row("feature", "DV191", "name", "Add another significant feature")]);
}

#[test]
fn limit_is_unsupported() {
    let result = read_via_rest(|it| it.limit(&1).select());
    assert!(result.is_err());
}

#[test]
fn rest_read_leaves_out_errors_and_spans_many_pages() {
    let mut data = Vec::new();
    for i in 0..7 {
        data.push(row("n", "m", &format!("k{i}"), "v"));
        if i == 3 {
            data.push(Err(KeyValueStorageReaderError::UnknownError("lost".into())));
        }
    }
    let backend = MockReader::new(&data);
    let read = read_through_rest(&backend, KeyValueSelectionDirectives::default().select(), 3).unwrap();
    let expected: Vec<ReadEntry> = data.iter().filter(|e| e.is_ok()).cloned().collect();
    assert_eq!(read, expected);
}

#[test]
fn status_success_range() {
    assert!(!is_success(199));
    assert!(is_success(200));
    assert!(is_success(299));
    assert!(!is_success(300));
    assert!(!is_success(404));
}

#[test]
fn status_error_message() {
    let e = unexpected_status_error("400 Bad Request", "Invalid query parameters: limit");
    assert_eq!(e, KeyValueStorageReaderError::UnknownError("400 Bad Request: Invalid query parameters: limit".into()));
}

#[test]
fn start_refuses_limit() {
    let r = PagedRead::start(KeyValueSelectionDirectives::default().limit(&5).select(), 2);
    match r {
        Err(KeyValueStorageReaderError::UnknownError(m)) => assert_eq!(m, "Limit is unsupported"),
        Ok(_) => panic!("a limit must be refused"),
    }
}

#[test]
fn first_query_asks_for_a_page() {
    let read = PagedRead::start(KeyValueSelectionDirectives::default().namespace("robots").select(), 2).unwrap();
    assert_eq!(read.page_size(), 2);
    let q = read.next_query();
    assert_eq!(q.namespace.as_deref(), Some("robots"));
    assert_eq!(q.limit, Some(2));
    assert_eq!(q.cursor, None);
}

fn rows(v: &[(&str, &str, &str, &str)]) -> Vec<KeyValueRow> {
    v.iter().map(|(a, b, c, d)| KeyValueRow::new(a, b, c, d)).collect()
}

#[test]
fn page_with_cursor_leads_to_next_page() {
    let read = PagedRead::start(KeyValueSelectionDirectives::default().select(), 2).unwrap();
    assert_eq!(read.metadata().cursor, None);
    let header = serialize_cursor(&Some(vec![1, 0, 0, 0, 0, 0, 0, 0])).unwrap();
    let cursor = extract_cursor(Some(&header));
    let step = read.on_page(
        cursor,
        vec![Ok(KeyValueRow::new("a", "b", "c", "d")), Ok(KeyValueRow::new("e", "f", "g", "h"))],
    );
    assert_eq!(step.rows, rows(&[("a", "b", "c", "d"), ("e", "f", "g", "h")]));
    let PageEnd::Next(next) = step.end else { panic!("another page follows") };
    let q = next.next_query();
    assert_eq!(q.cursor, Some(vec![1, 0, 0, 0, 0, 0, 0, 0]));
    // The next request carries the header text unchanged.
    assert_eq!(serialize_cursor(&q.cursor), Some(header));
}

#[test]
fn page_without_cursor_ends_reading() {
    let read = PagedRead::start(KeyValueSelectionDirectives::default().select(), 2).unwrap();
    let step = read.on_page(extract_cursor(None), vec![Ok(KeyValueRow::new("a", "b", "c", "d"))]);
    assert_eq!(step.rows, rows(&[("a", "b", "c", "d")]));
    assert!(matches!(step.end, PageEnd::Done));
}

#[test]
fn csv_error_ends_reading() {
    let read = PagedRead::start(KeyValueSelectionDirectives::default().select(), 3).unwrap();
    let step = read.on_page(
        Some(vec![1]),
        vec![Ok(KeyValueRow::new("a", "b", "c", "d")), Err("bad record".into()), Ok(KeyValueRow::new("e", "f", "g", "h"))],
    );
    assert_eq!(step.rows, rows(&[("a", "b", "c", "d")]));
    match step.end {
        PageEnd::Failed(e) => assert_eq!(e, KeyValueStorageReaderError::UnknownError("bad record".into())),
        _ => panic!("the CSV error ends reading"),
    }
}

#[test]
fn oversized_page_stops_the_task() {
    let read = PagedRead::start(KeyValueSelectionDirectives::default().select(), 1).unwrap();
    let step = read.on_page(
        None,
        vec![Ok(KeyValueRow::new("a", "b", "c", "d")), Ok(KeyValueRow::new("e", "f", "g", "h"))],
    );
    assert_eq!(step.rows, rows(&[("a", "b", "c", "d")]));
    assert!(matches!(step.end, PageEnd::PermitMissing));
}

#[test]
fn failed_status_ends_reading_with_one_error() {
    let read = PagedRead::start(KeyValueSelectionDirectives::default().select(), 1).unwrap();
    let e = read.on_failure("503 Service Unavailable", "down");
    assert_eq!(e, KeyValueStorageReaderError::UnknownError("503 Service Unavailable: down".into()));
}

#[test]
fn cursor_header_extraction() {
    assert_eq!(extract_cursor(None), None);
    assert_eq!(extract_cursor(Some("AQAAAAAAAAA=")), Some(vec![1, 0, 0, 0, 0, 0, 0, 0]));
    assert_eq!(try_extract_cursor(None).unwrap(), None);
    assert_eq!(try_extract_cursor(Some("-_8=")).unwrap(), Some(vec![0xfb, 0xff]));
    assert!(try_extract_cursor(Some("%%%")).is_err());
    // Non-canonical padding is refused.
    assert!(try_extract_cursor(Some("AQ")).is_err());
}

#[test]
fn server_plans_csv_reads() {
    let q = Query { namespace: Some("robots".into()), limit: Some(2), ..Query::default() };
    for media in [None, Some("application/csv"), Some("text/csv")] {
        let sel = plan_query(media, &q, "unused").ok().expect("served");
        assert_eq!(sel.namespace.as_deref(), Some("robots"));
        assert_eq!(sel.limit, Some(2));
    }
    let e = plan_query(Some("application/json"), &q, "unused").err().expect("refused");
    assert_eq!((e.status, e.message.as_str()), (406, "Not Acceptable"));
}

#[test]
fn server_refuses_invalid_query() {
    let q = Query { key: Some("k".repeat(1025)), limit: Some(5000), ..Query::default() };
    let e = plan_query(None, &q, "key: too long").err().expect("refused");
    assert_eq!((e.status, e.message.as_str()), (400, "key: too long"));
    // Media type is decided first.
    let e = plan_query(Some("text/html"), &q, "key: too long").err().expect("refused");
    assert_eq!(e.status, 406);
}

#[test]
fn server_error_answer() {
    let e = read_error_response(&KeyValueStorageReaderError::UnknownError("disk".into()));
    assert_eq!((e.status, e.message.as_str()), (400, "Server error"));
}

#[test]
fn server_headers() {
    let h = response_headers(&KeyValueStorageReaderMetadata::new());
    assert_eq!(h, vec![("content-type".to_string(), "application/csv".to_string())]);
    let h = response_headers(&KeyValueStorageReaderMetadata::with_cursor(&[1, 0, 0, 0, 0, 0, 0, 0]));
    assert_eq!(
        h,
        vec![
            ("content-type".to_string(), "application/csv".to_string()),
            ("X-Cursor".to_string(), "AQAAAAAAAAA=".to_string())
        ]
    );
}

#[test]
fn server_sends_rows_only() {
    let entries = vec![
        row("a", "b", "c", "d"),
        Err(KeyValueStorageReaderError::UnknownError("x".into())),
        row("e", "f", "g", "h"),
    ];
    let rows = rows_to_send(&entries);
    assert_eq!(rows, vec![KeyValueRow::new("a", "b", "c", "d"), KeyValueRow::new("e", "f", "g", "h")]);
}

fn text(s: &str) -> AcceptHeader {
    AcceptHeader::Text(s.to_string())
}

#[test]
fn negotiation_picks_preferred_csv() {
    assert_eq!(negotiate(&text("application/csv")).ok().unwrap().as_deref(), Some("application/csv"));
    assert_eq!(negotiate(&text("text/csv")).ok().unwrap().as_deref(), Some("text/csv"));
    assert_eq!(negotiate(&text("text/csv;q=0.5, application/csv")).ok().unwrap().as_deref(), Some("application/csv"));
    assert_eq!(negotiate(&text("*/*")).ok().unwrap().as_deref(), Some("application/csv"));
    assert_eq!(negotiate(&text("application/json")).ok().unwrap(), None);
}

#[test]
fn negotiation_refuses_bad_headers() {
    let e = negotiate(&AcceptHeader::Missing).err().expect("refused");
    assert_eq!((e.status, e.message.as_str()), (400, "Header of type `accept` was missing"));
    let e = negotiate(&AcceptHeader::Unreadable).err().expect("refused");
    assert_eq!((e.status, e.message.as_str()), (400, "invalid HTTP header (accept)"));
    let e = negotiate(&text("not a media type")).err().expect("refused");
    assert_eq!((e.status, e.message.as_str()), (400, "invalid HTTP header (accept)"));
}

#[test]
fn read_plan_serves_csv_by_default() {
    let q = Query { key: Some("status".into()), ..Query::default() };
    let sel = plan_read(&text("application/json"), &q, "").ok().expect("CSV is sent by default");
    assert_eq!(sel.key.as_deref(), Some("status"));
    let sel = plan_read(&text("text/csv"), &q, "").ok().expect("served");
    assert_eq!(sel.key.as_deref(), Some("status"));
    let e = plan_read(&AcceptHeader::Missing, &q, "").err().expect("refused");
    assert_eq!(e.status, 400);
    let bad = Query { value: Some("v".repeat(1025)), ..Query::default() };
    let e = plan_read(&text("application/csv"), &bad, "value: too long").err().expect("refused");
    assert_eq!((e.status, e.message.as_str()), (400, "value: too long"));
}
