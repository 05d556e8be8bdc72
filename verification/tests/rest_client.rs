use animus::api::{KeyValueRow, KeyValueSelectionDirectives};
use animus::rest_client::reader::{BatchRead, RestKeyValueReaderError};
use animus::rest_client::upserter::{upsert_outcome, RestKeyValueUpsertTxError};
use animus::rest_client::writer::{RestKeyValueWriter, RestKeyValueWriterError};

fn r(key: &str, value: &str) -> KeyValueRow {
    KeyValueRow::new("robots", "T-1000", key, value)
}

type Parts = (
    Option<String>,
    Option<String>,
    Option<String>,
    Option<String>,
    Option<String>,
    Option<String>,
    Option<String>,
    Option<usize>,
);

fn parts(last_key: Option<&str>) -> Parts {
    (
        Some("robots".into()),
        Some("T-1000".into()),
        None,
        None,
        last_key.map(|_| "robots".into()),
        last_key.map(|_| "T-1000".into()),
        last_key.map(|k| k.into()),
        Some(5),
    )
}

/// The batch reading of the `read_all_pages` scenario, with the
/// responses handed over directly.
#[test]
fn read_all_pages() {
    let page_1 = vec![
        r("classification", "Infiltration and Assasination Unit"),
        r("estimated_mass", "140"),
        r("physical_specs.composition", "Liquid Metal"),
        r("physical_specs.structural_state", "Amorphous, semi-solid"),
        r("power_source", "Unknown Internal Hydraulic Cell"),
    ];
    let page_2 = vec![
        r("sensory_equipment[0]", "Omni-directional_visual_spectrum"),
        r("sensory_equipment[1]", "Acoustic_analysis"),
        r("sensory_equipment[2]", "Thermal_tracking"),
        r("shape_shifting.human_mimicry.enabled", "true"),
        r("shape_shifting.human_mimicry.features[0]", "Replicate any human biometry"),
    ];
    let page_3 = vec![
        r("shape_shifting.human_mimicry.features[1]", "Mimic clothing and textures"),
        r("shape_shifting.human_mimicry.features[2]", "Voice print simulation"),
        r("status", "Experimental Phase 1"),
    ];
    let selector = KeyValueSelectionDirectives::default().namespace("robots").name("T-1000").build();
    let mut read = BatchRead::start(selector, 5);
    let mut actual = Vec::new();
    let mut queries = Vec::new();
    for page in [page_1.clone(), page_2.clone(), page_3.clone()] {
        queries.push(read.next_query().into_parts());
        let step = read.on_batch(page.into_iter().map(Ok).collect());
        actual.extend(step.entries);
        match step.next {
            Some(n) => read = n,
            None => break,
        }
    }
    assert_eq!(queries, vec![parts(None), parts(Some("power_source")), parts(Some("shape_shifting.human_mimicry.features[0]"))]);
    let expected: Vec<Result<KeyValueRow, RestKeyValueReaderError>> =
        page_1.into_iter().chain(page_2).chain(page_3).map(Ok).collect();
    assert_eq!(actual, expected);
}

#[test]
fn batch_errors_are_yielded_and_counted() {
    let selector = KeyValueSelectionDirectives::default().build();
    let read = BatchRead::start(selector, 2);
    assert_eq!(read.batch_size(), 2);
    let step = read.on_batch(vec![Ok(r("a", "1")), Err("bad".into())]);
    assert_eq!(step.entries, vec![Ok(r("a", "1")), Err(RestKeyValueReaderError::ReadError("bad".into()))]);
    let next = step.next.expect("a full batch asks for more");
    assert_eq!(next.next_query().into_parts().6.as_deref(), Some("a"));
}

#[test]
fn failed_status_ends_reading() {
    let read = BatchRead::start(KeyValueSelectionDirectives::default().build(), 2);
    let step = read.on_failure(503);
    assert_eq!(step.entries, vec![Err(RestKeyValueReaderError::UnexpectedStatus(503))]);
    assert!(step.next.is_none());
}

#[test]
fn upsert_outcomes() {
    assert_eq!(upsert_outcome(200, String::new()), Ok(()));
    assert_eq!(upsert_outcome(201, "created".into()), Err(RestKeyValueUpsertTxError::UnexpectedStatus(201, "created".into())));
    assert_eq!(upsert_outcome(500, "boom".into()), Err(RestKeyValueUpsertTxError::UnexpectedStatus(500, "boom".into())));
}

#[test]
fn writer_keeps_uri() {
    let w = RestKeyValueWriter::new("http://localhost:8080");
    assert_eq!(w.repository_uri(), "http://localhost:8080");
    assert_eq!(RestKeyValueWriterError::Unknown, RestKeyValueWriterError::Unknown);
}
