use animus::api::{KeyValueRow, KeyValueSelectionDirectives};
use animus::rest_common::CsvKeyValueRow;

#[test]
fn api_row_new_keeps_fields() {
    let row = KeyValueRow::new("a", "b", "c", "d");
    assert_eq!((row.namespace.as_str(), row.name.as_str(), row.key.as_str(), row.value.as_str()), ("a", "b", "c", "d"));
}

#[test]
fn api_directives_build_selector() {
    let s = KeyValueSelectionDirectives::default().namespace("robots").name("T-1000").build();
    assert_eq!(s.namespace.as_deref(), Some("robots"));
    assert_eq!(s.name.as_deref(), Some("T-1000"));
    assert_eq!(s.key, None);
    assert_eq!(s.value, None);
    let k = KeyValueSelectionDirectives::default().key("status").build();
    assert_eq!(k.key.as_deref(), Some("status"));
    assert_eq!(k.namespace, None);
}

#[test]
fn csv_row_round_trip() {
    let row = KeyValueRow::new("robots", "T-1000", "status", "Experimental Phase 1");
    let csv: CsvKeyValueRow = row.clone().into();
    assert_eq!(csv.namespace, "robots");
    assert_eq!(csv.value, "Experimental Phase 1");
    let back: KeyValueRow = csv.into();
    assert_eq!(back, row);
}
