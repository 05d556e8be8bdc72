//! What the REST client and server of the general key-value API share: the
//! CSV row.

use vstd::prelude::*;
use vstd::std_specs::convert::FromSpec;
use vstd::std_specs::convert::FromSpecImpl;
use crate::api::KeyValueRow;

verus! {

/// Data Transfer Object for CSV.
#[derive(Debug, PartialEq, Eq)]
pub struct CsvKeyValueRow {
    pub namespace: String,
    pub name: String,
    pub key: String,
    pub value: String,
}

impl From<CsvKeyValueRow> for KeyValueRow {
    /// The row with the same four fields.
    fn from(v: CsvKeyValueRow) -> (r: KeyValueRow)
        ensures
            r.namespace == v.namespace,
            r.name == v.name,
            r.key == v.key,
            r.value == v.value,
    {
        KeyValueRow { namespace: v.namespace, name: v.name, key: v.key, value: v.value }
    }
}

impl FromSpecImpl<CsvKeyValueRow> for KeyValueRow {
    open spec fn obeys_from_spec() -> bool {
        true
    }

    open spec fn from_spec(v: CsvKeyValueRow) -> KeyValueRow {
        KeyValueRow { namespace: v.namespace, name: v.name, key: v.key, value: v.value }
    }
}

impl From<KeyValueRow> for CsvKeyValueRow {
    /// The CSV row with the same four fields.
    fn from(v: KeyValueRow) -> (r: CsvKeyValueRow)
        ensures
            r.namespace == v.namespace,
            r.name == v.name,
            r.key == v.key,
            r.value == v.value,
    {
        CsvKeyValueRow { namespace: v.namespace, name: v.name, key: v.key, value: v.value }
    }
}

impl FromSpecImpl<KeyValueRow> for CsvKeyValueRow {
    open spec fn obeys_from_spec() -> bool {
        true
    }

    open spec fn from_spec(v: KeyValueRow) -> CsvKeyValueRow {
        CsvKeyValueRow { namespace: v.namespace, name: v.name, key: v.key, value: v.value }
    }
}

/// Converting a row to its CSV form keeps each field in its place: the CSV
/// row's namespace, name, key and value are the row's namespace, name, key and
/// value; and so does converting a CSV row to a row.
pub proof fn lemma_csv_row_fields(row: KeyValueRow, csv: CsvKeyValueRow)
    ensures
        ({
            let c = <CsvKeyValueRow as FromSpec<KeyValueRow>>::from_spec(row);
            &&& c.namespace == row.namespace
            &&& c.name == row.name
            &&& c.key == row.key
            &&& c.value == row.value
        }),
        ({
            let r = <KeyValueRow as FromSpec<CsvKeyValueRow>>::from_spec(csv);
            &&& r.namespace == csv.namespace
            &&& r.name == csv.name
            &&& r.key == csv.key
            &&& r.value == csv.value
        }),
{
}

/// A row converted to its CSV form and back is the same row, and so is a CSV
/// row converted to a row and back.
pub proof fn lemma_csv_row_round_trip(row: KeyValueRow, csv: CsvKeyValueRow)
    ensures
        <KeyValueRow as FromSpec<CsvKeyValueRow>>::from_spec(
            <CsvKeyValueRow as FromSpec<KeyValueRow>>::from_spec(row),
        ) == row,
        <CsvKeyValueRow as FromSpec<KeyValueRow>>::from_spec(
            <KeyValueRow as FromSpec<CsvKeyValueRow>>::from_spec(csv),
        ) == csv,
{
}

} // verus!
