use animus::kvs_api::{
    KeyValueRow, KeyValueSelectionDirectives, KeyValueStorageReaderError,
    KeyValueStorageReaderMetadata,
};

#[test]
fn row_new_keeps_fields() {
    let row = KeyValueRow::new("robots", "T-1000", "classification", "Infiltration and Assasination Unit");
    assert_eq!(row.namespace, "robots");
    assert_eq!(row.name, "T-1000");
    assert_eq!(row.key, "classification");
    assert_eq!(row.value, "Infiltration and Assasination Unit");
    assert_eq!(row.copy(), row);
}

#[test]
fn metadata_constructors() {
    assert_eq!(KeyValueStorageReaderMetadata::new().cursor, None);
    let m = KeyValueStorageReaderMetadata::with_cursor(&[1, 2, 3]);
    assert_eq!(m.cursor, Some(vec![1, 2, 3]));
}

#[test]
fn default_directives_select_everything() {
    let s = KeyValueSelectionDirectives::default().select();
    assert_eq!(s.namespace, None);
    assert_eq!(s.name, None);
    assert_eq!(s.key, None);
    assert_eq!(s.value, None);
    assert_eq!(s.cursor, None);
    assert_eq!(s.limit, None);
}

#[test]
fn directives_set_each_field() {
    let s = KeyValueSelectionDirectives::default()
        .namespace("feature")
        .name("DV191")
        .key("name")
        .cursor(&vec![7, 0, 0, 0, 0, 0, 0, 0])
        .limit(&3)
        .select();
    assert_eq!(s.namespace.as_deref(), Some("feature"));
    assert_eq!(s.name.as_deref(), Some("DV191"));
    assert_eq!(s.key.as_deref(), Some("name"));
    assert_eq!(s.value, None);
    assert_eq!(s.cursor, Some(vec![7, 0, 0, 0, 0, 0, 0, 0]));
    assert_eq!(s.limit, Some(3));
    let c = s.copy();
    assert_eq!(c.namespace, s.namespace);
    assert_eq!(c.cursor, s.cursor);
}

#[test]
fn later_directive_overrides_earlier() {
    let s = KeyValueSelectionDirectives::default().namespace("a").namespace("b").select();
    assert_eq!(s.namespace.as_deref(), Some("b"));
}

#[test]
fn reader_error_equality() {
    let e = KeyValueStorageReaderError::UnknownError("x".to_string());
    assert_eq!(e.clone(), KeyValueStorageReaderError::UnknownError("x".to_string()));
}
