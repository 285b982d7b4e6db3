use raiden::attr::{AttrValueTable, AttributeValue};
use raiden::batch::{run_batch, BatchFetcher, BatchGetResponse, KeyTuple};
use raiden::codec::{FieldSpec, FieldType, FieldValue};
use raiden::error::RaidenError;

fn schema() -> Vec<FieldSpec> {
    vec![FieldSpec {
        ident: "id".to_string(),
        attr_key: "id".to_string(),
        required: true,
        ty: FieldType::S,
    }]
}

fn keys(n: usize) -> Vec<KeyTuple> {
    let mut out = Vec::new();
    for i in 0..n {
        out.push(KeyTuple {
            partition: AttributeValue::S(format!("k{}", i)),
            sort: None,
        });
    }
    out
}

fn item(id: &str) -> AttrValueTable {
    let mut m = AttrValueTable::new();
    m.insert("id".to_string(), AttributeValue::S(id.to_string()));
    m
}

fn good_response(table: &str, item_ids: &[&str], capacity: u64) -> BatchGetResponse {
    let items: Vec<AttrValueTable> = item_ids.iter().map(|id| item(id)).collect();
    BatchGetResponse {
        consumed_capacity: capacity,
        responses: Some(vec![(table.to_string(), items)]),
        unprocessed_keys: None,
    }
}

fn fetcher(n: usize) -> BatchFetcher {
    BatchFetcher::new("user".to_string(), "id", None, schema(), keys(n))
}

#[test]
fn test_chunking_250_keys_three_requests() {
    let mut f = fetcher(250);
    let first = f.take_chunk().unwrap();
    assert_eq!(first.table_name, "user");
    assert_eq!(first.keys.len(), 100);
    let second = f.take_chunk().unwrap();
    assert_eq!(second.keys.len(), 100);
    let third = f.take_chunk().unwrap();
    assert_eq!(third.keys.len(), 50);
    assert!(f.take_chunk().is_none());
}

#[test]
fn test_run_batch_250_keys() {
    let f = fetcher(250);
    let responses = vec![
        good_response("user", &["a", "b", "c"], 10),
        good_response("user", &["d"], 20),
        good_response("user", &["e", "f"], 5),
    ];
    let (out, issued) = run_batch(f, responses).unwrap();
    assert_eq!(issued, 3);
    // The store resolved six keys across the three answers.
    assert_eq!(out.items.len(), 6);
    assert_eq!(out.items[0], vec![FieldValue::S("a".to_string())]);
    assert_eq!(out.items[5], vec![FieldValue::S("f".to_string())]);
    assert_eq!(out.unprocessed_keys.len(), 0);
    assert_eq!(out.consumed_capacity, 35);
}

#[test]
fn test_missing_table_is_resource_not_found() {
    let f = fetcher(1);
    let responses = vec![good_response("other_table", &["a"], 0)];
    match run_batch(f, responses) {
        Err(e) => assert_eq!(
            e,
            RaidenError::ResourceNotFound {
                detail: "'user' table not found or not active".to_string()
            }
        ),
        Ok(_) => panic!("a response without the table must fail"),
    }
}

#[test]
fn test_missing_response_map_is_resource_not_found() {
    let f = fetcher(1);
    let responses = vec![BatchGetResponse {
        consumed_capacity: 0,
        responses: None,
        unprocessed_keys: None,
    }];
    match run_batch(f, responses) {
        Err(e) => assert_eq!(
            e,
            RaidenError::ResourceNotFound {
                detail: "resource not found".to_string()
            }
        ),
        Ok(_) => panic!("an absent response map must fail"),
    }
}

#[test]
fn test_decode_failure_aborts_and_discards_progress() {
    let f = fetcher(150);
    let bad_item = {
        let mut m = AttrValueTable::new();
        m.insert("id".to_string(), AttributeValue::Bool(true));
        m
    };
    let responses = vec![
        good_response("user", &["a", "b"], 1),
        BatchGetResponse {
            consumed_capacity: 1,
            responses: Some(vec![("user".to_string(), vec![bad_item])]),
            unprocessed_keys: None,
        },
    ];
    // The failing second chunk loses the two items of the first one.
    match run_batch(f, responses) {
        Err(e) => assert_eq!(
            e,
            RaidenError::AttributeConvertError {
                attr_name: "id".to_string()
            }
        ),
        Ok(_) => panic!("a decode failure must abort the run"),
    }
}

#[test]
fn test_unprocessed_keys_accumulate_and_are_not_retried() {
    let f = fetcher(150);
    let responses = vec![
        BatchGetResponse {
            consumed_capacity: 0,
            responses: Some(vec![("user".to_string(), vec![item("a")])]),
            unprocessed_keys: Some(vec![(
                "user".to_string(),
                vec![item("k7"), item("k8")],
            )]),
        },
        good_response("user", &["b"], 0),
    ];
    // Exactly two requests: the deferred keys never re-enter the queue.
    let (out, issued) = run_batch(f, responses).unwrap();
    assert_eq!(issued, 2);
    assert_eq!(out.items.len(), 2);
    assert_eq!(out.unprocessed_keys.len(), 2);
    assert_eq!(
        out.unprocessed_keys[0].get("id"),
        Some(&AttributeValue::S("k7".to_string()))
    );
}

#[test]
fn test_zero_keys_issue_no_request() {
    let f = fetcher(0);
    let (out, issued) = run_batch(f, Vec::new()).unwrap();
    assert_eq!(issued, 0);
    assert_eq!(out.items.len(), 0);
    assert_eq!(out.consumed_capacity, 0);
}

#[test]
fn test_sort_key_tuples_build_two_entry_key_maps() {
    let keys = vec![KeyTuple {
        partition: AttributeValue::S("org1".to_string()),
        sort: Some(AttributeValue::N("42".to_string())),
    }];
    let mut f = BatchFetcher::new("docs".to_string(), "org", Some("seq"), schema(), keys);
    let req = f.take_chunk().unwrap();
    assert_eq!(req.keys.len(), 1);
    assert_eq!(
        req.keys[0].get("org"),
        Some(&AttributeValue::S("org1".to_string()))
    );
    assert_eq!(
        req.keys[0].get("seq"),
        Some(&AttributeValue::N("42".to_string()))
    );
}

#[test]
fn test_capacity_saturates() {
    let f = fetcher(150);
    let responses = vec![
        good_response("user", &[], u64::MAX),
        good_response("user", &["a"], 3),
    ];
    let (out, _) = run_batch(f, responses).unwrap();
    assert_eq!(out.consumed_capacity, u64::MAX);
}
