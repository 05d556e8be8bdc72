use animus::kvs_api::{KeyValueRow, KeyValueSelectionDirectives, KeyValueStorageReaderError, ReadEntry};
use animus::kvs_tck::mock_reader::MockReader;
use animus::kvs_tck::reader_assertions::test_data;
use animus::kvs_tck::{usize_from_le_bytes, usize_to_le_bytes, MockReader as PagesMockReader};

fn row(ns: &str, n: &str, k: &str, v: &str) -> ReadEntry {
    Ok(KeyValueRow::new(ns, n, k, v))
}

#[test]
fn le_bytes_round_trip() {
    for n in [0usize, 1, 255, 256, 0x0102_0304, usize::MAX] {
        let b = usize_to_le_bytes(n);
        assert_eq!(b, n.to_le_bytes().to_vec());
        assert_eq!(usize_from_le_bytes(&b), n);
    }
}

#[test]
fn mock_reads_everything_without_limit() {
    let data = test_data();
    let mock = MockReader::new(&data);
    let (page, meta) = mock.read(&KeyValueSelectionDirectives::default().select());
    assert_eq!(page, data);
    assert_eq!(meta.cursor, None);
    assert!(mock.invocations.is_empty());
}

#[test]
fn mock_pages_follow_cursors() {
    let data = test_data();
    let mock = MockReader::new(&data);
    let mut all = Vec::new();
    let mut cursor = None;
    let mut pages: usize = 0;
    loop {
        let mut d = KeyValueSelectionDirectives::default().limit(&2);
        if let Some(c) = &cursor {
            d = d.cursor(c);
        }
        let (page, meta) = mock.read(&d.select());
        assert!(page.len() <= 2);
        all.extend(page);
        pages += 1;
        match meta.cursor {
            Some(c) => {
                assert_eq!(c, pages.to_le_bytes().to_vec());
                cursor = Some(c)
            }
            None => break,
        }
    }
    assert_eq!(pages, 3);
    assert_eq!(all, data);
}

#[test]
fn mock_selects_by_fields() {
    let data = test_data();
    let mock = MockReader::new(&data);
    let (page, meta) = mock.read(&KeyValueSelectionDirectives::default().name("DV190").select());
    assert_eq!(page, vec![data[1].clone(), data[2].clone()]);
    assert_eq!(meta.cursor, None);
    let (page, _) = mock.read(&KeyValueSelectionDirectives::default().namespace("feature").name("DV191").key("name").select());
    assert_eq!(page, vec![row("feature", "DV191", "name", "Add another significant feature")]);
    let (page, _) = mock.read(&KeyValueSelectionDirectives::default().namespace("nobody").select());
    assert!(page.is_empty());
}

#[test]
fn mock_keeps_errors() {
    let err: ReadEntry = Err(KeyValueStorageReaderError::UnknownError("broken".into()));
    let data = vec![row("a", "b", "c", "d"), err.clone(), row("x", "y", "z", "w")];
    let mock = MockReader::new(&data);
    let (page, _) = mock.read(&KeyValueSelectionDirectives::default().namespace("x").select());
    assert_eq!(page, vec![err, row("x", "y", "z", "w")]);
}

#[test]
fn mock_empty_selection_has_no_cursor() {
    let mock = MockReader::new(&[]);
    let (page, meta) = mock.read(&KeyValueSelectionDirectives::default().limit(&3).select());
    assert!(page.is_empty());
    assert_eq!(meta.cursor, None);
}

#[test]
fn pages_mock_serves_pages_in_order() {
    let p0 = vec![row("robots", "T-1000", "classification", "Infiltration and Assasination Unit")];
    let p1 = vec![row("a", "b", "c", "d"), row("e", "f", "g", "h")];
    let mock = PagesMockReader::new(vec![p0.clone(), p1.clone()]);
    let (first, meta) = mock.read(&KeyValueSelectionDirectives::default().select());
    assert_eq!(first, p0);
    let c = meta.cursor.expect("a second page follows");
    assert_eq!(c, 1usize.to_le_bytes().to_vec());
    let (second, meta) = mock.read(&KeyValueSelectionDirectives::default().cursor(&c).select());
    assert_eq!(second, p1);
    assert_eq!(meta.cursor, None);
}

fn count_reads(mock: &MockReader, limit: usize) -> (usize, Vec<ReadEntry>) {
    let mut all = Vec::new();
    let mut cursor: Option<Vec<u8>> = None;
    let mut reads = 0;
    loop {
        let mut d = KeyValueSelectionDirectives::default().limit(&limit);
        if let Some(c) = &cursor {
            d = d.cursor(c);
        }
        let (page, meta) = mock.read(&d.select());
        reads += 1;
        all.extend(page);
        match meta.cursor {
            Some(c) => cursor = Some(c),
            None => return (reads, all),
        }
    }
}

#[test]
fn mock_read_count_is_pages_rounded_up() {
    let data = test_data();
    let mock = MockReader::new(&data);
    for (limit, expected) in [(1, 5), (2, 3), (3, 2), (5, 1), (9, 1)] {
        let (reads, all) = count_reads(&mock, limit);
        assert_eq!(reads, expected);
        assert_eq!(all, data);
    }
    let empty = MockReader::new(&[]);
    assert_eq!(count_reads(&empty, 4), (1, vec![]));
}
