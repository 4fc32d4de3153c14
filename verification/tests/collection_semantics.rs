use collection_bootstrap::collection::{BackendModel, CollectionModel, Metric};
use collection_bootstrap::driver::sample_points;
use collection_bootstrap::payload::{MatchCondition, PayloadField, PayloadValue};
use collection_bootstrap::point::PointRecord;

fn text_field(key: &str, value: &str) -> PayloadField {
    PayloadField { key: key.to_owned(), value: PayloadValue::Text(value.to_owned()) }
}

fn point(id: u64, vector: Vec<u32>, payload: Vec<PayloadField>) -> PointRecord {
    PointRecord { id, vector, payload }
}

#[test]
fn ensure_creates_absent_collection_and_it_then_exists() {
    let mut backend = BackendModel::new();
    let name = "image_embeddings".to_owned();
    assert!(!backend.collection_exists(&name));

    let created = backend.ensure_collection(&name, 768, Metric::Cosine);
    assert!(created);
    assert!(backend.collection_exists(&name));
    assert_eq!(backend.collections.len(), 1);
    assert_eq!(backend.collections[0].name, name);
    assert_eq!(backend.collections[0].dims, 768);
    assert!(matches!(backend.collections[0].metric, Metric::Cosine));
    assert_eq!(backend.collections[0].point_count(), 0);
}

#[test]
fn ensure_on_existing_collection_creates_nothing() {
    let mut backend = BackendModel::new();
    let name = "image_embeddings".to_owned();
    assert!(backend.ensure_collection(&name, 768, Metric::Cosine));

    let created_again = backend.ensure_collection(&name, 768, Metric::Cosine);
    assert!(!created_again);
    assert_eq!(backend.collections.len(), 1);

    // Even a mismatched request leaves an existing collection untouched.
    let created_mismatched = backend.ensure_collection(&name, 512, Metric::Cosine);
    assert!(!created_mismatched);
    assert_eq!(backend.collections.len(), 1);
    assert_eq!(backend.collections[0].dims, 768);
}

#[test]
fn upserting_three_fresh_points_raises_count_by_three() {
    let mut c = CollectionModel::new("cars".to_owned(), 4, Metric::Cosine);
    assert_eq!(c.point_count(), 0);

    let batch = vec![
        point(1, vec![10, 10, 10, 10], vec![text_field("model", "F-Type")]),
        point(2, vec![11, 11, 11, 11], vec![text_field("model", "GT-40")]),
        point(3, vec![11, 11, 11, 11], vec![text_field("model", "E-Type")]),
    ];
    assert!(c.upsert(batch).is_ok());
    assert_eq!(c.point_count(), 3);
}

#[test]
fn reupserting_the_same_identifiers_overwrites_without_duplicating() {
    let mut c = CollectionModel::new("cars".to_owned(), 2, Metric::Cosine);
    let batch = vec![
        point(1, vec![10, 10], vec![text_field("model", "F-Type")]),
        point(2, vec![11, 11], vec![text_field("model", "GT-40")]),
        point(3, vec![12, 12], vec![text_field("model", "E-Type")]),
    ];
    assert!(c.upsert(batch).is_ok());
    assert_eq!(c.point_count(), 3);

    let again = vec![
        point(2, vec![20, 20], vec![text_field("model", "XK120")]),
        point(3, vec![21, 21], vec![text_field("model", "E-Type")]),
    ];
    assert!(c.upsert(again).is_ok());
    assert_eq!(c.point_count(), 3);

    // The overwritten point carries the new payload.
    let cond = MatchCondition { key: "model".to_owned(), value: "XK120".to_owned() };
    assert_eq!(c.search_filtered(&cond, 10), vec![2u64]);
}

#[test]
fn filtered_search_returns_only_the_matching_point() {
    let mut c = CollectionModel::new("image_embeddings".to_owned(), 768, Metric::Cosine);
    assert!(c.upsert(sample_points(100, 200, 200)).is_ok());

    let cond = MatchCondition { key: "model".to_owned(), value: "E-Type".to_owned() };
    assert_eq!(c.search_filtered(&cond, 3), vec![3u64]);
    // The limit does not change a single-match result.
    assert_eq!(c.search_filtered(&cond, 1), vec![3u64]);
    assert_eq!(c.search_filtered(&cond, 1000), vec![3u64]);
}

#[test]
fn filter_distinguishes_key_and_value() {
    let mut c = CollectionModel::new("cars".to_owned(), 1, Metric::Cosine);
    let batch = vec![
        point(7, vec![1], vec![text_field("model", "E-Type"), text_field("make", "Jaguar")]),
        point(8, vec![2], vec![text_field("make", "E-Type")]),
        point(9, vec![3], vec![text_field("model", "F-Type")]),
    ];
    assert!(c.upsert(batch).is_ok());

    let by_model = MatchCondition { key: "model".to_owned(), value: "E-Type".to_owned() };
    assert_eq!(c.search_filtered(&by_model, 10), vec![7u64]);

    let by_make = MatchCondition { key: "make".to_owned(), value: "Jaguar".to_owned() };
    assert_eq!(c.search_filtered(&by_make, 10), vec![7u64]);

    let absent = MatchCondition { key: "year".to_owned(), value: "1969".to_owned() };
    assert_eq!(c.search_filtered(&absent, 10), Vec::<u64>::new());
}

#[test]
fn search_limit_truncates_multiple_matches() {
    let mut c = CollectionModel::new("cars".to_owned(), 1, Metric::Cosine);
    let batch = vec![
        point(1, vec![1], vec![text_field("make", "Jaguar")]),
        point(2, vec![2], vec![text_field("make", "Ford")]),
        point(3, vec![3], vec![text_field("make", "Jaguar")]),
        point(4, vec![4], vec![text_field("make", "Jaguar")]),
    ];
    assert!(c.upsert(batch).is_ok());

    let cond = MatchCondition { key: "make".to_owned(), value: "Jaguar".to_owned() };
    assert_eq!(c.search_filtered(&cond, 10), vec![1u64, 3, 4]);
    assert_eq!(c.search_filtered(&cond, 2), vec![1u64, 3]);
    assert_eq!(c.search_filtered(&cond, 0), Vec::<u64>::new());
}

#[test]
fn mismatched_vector_dimension_fails_the_whole_upsert() {
    let mut c = CollectionModel::new("cars".to_owned(), 3, Metric::Cosine);
    let ok_batch = vec![point(1, vec![5, 5, 5], vec![text_field("model", "F-Type")])];
    assert!(c.upsert(ok_batch).is_ok());
    assert_eq!(c.point_count(), 1);

    // Second point of the batch is one component short.
    let bad_batch = vec![
        point(2, vec![6, 6, 6], vec![text_field("model", "GT-40")]),
        point(3, vec![7, 7], vec![text_field("model", "E-Type")]),
    ];
    let err = c.upsert(bad_batch).unwrap_err();
    assert_eq!(err.index, 1);
    assert_eq!(err.found, 2);
    assert_eq!(err.expected, 3);

    // Nothing was written and nothing was truncated or padded.
    assert_eq!(c.point_count(), 1);
    assert_eq!(c.points[0].vector, vec![5u32, 5, 5]);

    // A vector that is too long fails as well.
    let long_batch = vec![point(4, vec![8, 8, 8, 8], Vec::new())];
    let err = c.upsert(long_batch).unwrap_err();
    assert_eq!(err.index, 0);
    assert_eq!(err.found, 4);
    assert_eq!(err.expected, 3);
    assert_eq!(c.point_count(), 1);
}
