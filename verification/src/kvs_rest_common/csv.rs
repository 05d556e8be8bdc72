//! The CSV row of the key-value storage.

use vstd::prelude::*;
use vstd::std_specs::convert::FromSpec;
use vstd::std_specs::convert::FromSpecImpl;
use crate::kvs_api::KeyValueRow;

verus! {

/// A Data Transfer Object that is designed for representing a CSV row.
#[derive(Debug, PartialEq, Eq)]
pub struct CsvKeyValueRow {
    pub namespace: String,
    pub name: String,
    pub key: String,
    pub value: String,
}

impl From<CsvKeyValueRow> for KeyValueRow {
    /// The row with the same four fields.
    fn from(v: CsvKeyValueRow) -> (r: KeyValueRow)
        ensures
            r.namespace == v.namespace,
            r.name == v.name,
            r.key == v.key,
            r.value == v.value,
    {
        KeyValueRow { namespace: v.namespace, name: v.name, key: v.key, value: v.value }
    }
}

impl FromSpecImpl<CsvKeyValueRow> for KeyValueRow {
    open spec fn obeys_from_spec() -> bool {
        true
    }

    open spec fn from_spec(v: CsvKeyValueRow) -> KeyValueRow {
        KeyValueRow { namespace: v.namespace, name: v.name, key: v.key, value: v.value }
    }
}

impl<'a> From<&'a KeyValueRow> for CsvKeyValueRow {
    /// The CSV row with copies of the four fields.
    fn from(v: &'a KeyValueRow) -> (r: CsvKeyValueRow)
        ensures
            r.namespace == v.namespace,
            r.name == v.name,
            r.key == v.key,
            r.value == v.value,
    {
        CsvKeyValueRow {
            namespace: v.namespace.clone(),
            name: v.name.clone(),
            key: v.key.clone(),
            value: v.value.clone(),
        }
    }
}

impl<'a> FromSpecImpl<&'a KeyValueRow> for CsvKeyValueRow {
    open spec fn obeys_from_spec() -> bool {
        true
    }

    open spec fn from_spec(v: &'a KeyValueRow) -> CsvKeyValueRow {
        CsvKeyValueRow {
            namespace: v.namespace,
            name: v.name,
            key: v.key,
            value: v.value,
        }
    }
}

/// Converting a row to its CSV form keeps each field in its place: the CSV
/// row's namespace, name, key and value are the row's namespace, name, key and
/// value; and so does converting a CSV row to a row. A row converted to its
/// CSV form and back is the same row.
pub proof fn lemma_csv_row_fields(row: &KeyValueRow, csv: CsvKeyValueRow)
    ensures
        ({
            let c = <CsvKeyValueRow as FromSpec<&KeyValueRow>>::from_spec(row);
            &&& c.namespace == row.namespace
            &&& c.name == row.name
            &&& c.key == row.key
            &&& c.value == row.value
        }),
        ({
            let r = <KeyValueRow as FromSpec<CsvKeyValueRow>>::from_spec(csv);
            &&& r.namespace == csv.namespace
            &&& r.name == csv.name
            &&& r.key == csv.key
            &&& r.value == csv.value
        }),
        <KeyValueRow as FromSpec<CsvKeyValueRow>>::from_spec(
            <CsvKeyValueRow as FromSpec<&KeyValueRow>>::from_spec(row),
        ) == *row,
{
}

} // verus!
