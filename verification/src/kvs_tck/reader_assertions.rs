//! The data that reader assertions read.

use vstd::prelude::*;
use crate::kvs_api::{entries_view, KeyValueRow, ReadEntry, RowModel};

verus! {

/// A row of four texts.
pub open spec fn row_of(namespace: &str, name: &str, key: &str, value: &str) -> Result<RowModel, Seq<char>> {
    Ok(RowModel { namespace: namespace@, name: name@, key: key@, value: value@ })
}

/// The entries that readers under test hold: a robot and two features, with
/// a name and a status each.
pub fn test_data() -> (r: Vec<ReadEntry>)
    ensures
        entries_view(r@) == seq![
            row_of("robots", "T-1000", "classification", "Infiltration and Assasination Unit"),
            row_of("feature", "DV190", "name", "Add significant feature"),
            row_of("feature", "DV190", "status", "IN_PROGRESS"),
            row_of("feature", "DV191", "name", "Add another significant feature"),
            row_of("feature", "DV191", "status", "IN_PROGRESS"),
        ],
{
    let mut v: Vec<ReadEntry> = Vec::new();
    v.push(Ok(KeyValueRow::new("robots", "T-1000", "classification", "Infiltration and Assasination Unit")));
    v.push(Ok(KeyValueRow::new("feature", "DV190", "name", "Add significant feature")));
    v.push(Ok(KeyValueRow::new("feature", "DV190", "status", "IN_PROGRESS")));
    v.push(Ok(KeyValueRow::new("feature", "DV191", "name", "Add another significant feature")));
    v.push(Ok(KeyValueRow::new("feature", "DV191", "status", "IN_PROGRESS")));
    assert(entries_view(v@) =~= seq![
        row_of("robots", "T-1000", "classification", "Infiltration and Assasination Unit"),
        row_of("feature", "DV190", "name", "Add significant feature"),
        row_of("feature", "DV190", "status", "IN_PROGRESS"),
        row_of("feature", "DV191", "name", "Add another significant feature"),
        row_of("feature", "DV191", "status", "IN_PROGRESS"),
    ]);
    v
}

} // verus!
