use collection_bootstrap::driver::{
    bootstrap_config, sample_points, Action, Driver, Event, Phase, BOOTSTRAP_DIMS,
    BOOTSTRAP_LIMIT,
};
use collection_bootstrap::collection::Metric;
use collection_bootstrap::payload::PayloadValue;
use collection_bootstrap::point::{filled_vector, validate_dimensions, PointRecord};

const FILL_A: u32 = 0x3F800000; // bit pattern of the first sample component
const FILL_B: u32 = 0x3F8CCCCD; // second and third sample component
const FILL_Q: u32 = 0x3F99999A; // query component

#[test]
fn bootstrap_config_carries_the_fixed_parameters() {
    let cfg = bootstrap_config(FILL_A, FILL_B, FILL_B, FILL_Q);
    assert_eq!(cfg.collection_name, "image_embeddings");
    assert_eq!(cfg.dims, 768);
    assert_eq!(cfg.dims, BOOTSTRAP_DIMS);
    assert!(matches!(cfg.metric, Metric::Cosine));
    assert_eq!(cfg.limit, 3);
    assert_eq!(cfg.limit, BOOTSTRAP_LIMIT);
    assert_eq!(cfg.filter.key, "model");
    assert_eq!(cfg.filter.value, "E-Type");
    assert!(cfg.wait_upsert);
    assert!(cfg.with_payload);
    assert_eq!(cfg.query_vector.len(), 768);
    assert!(cfg.query_vector.iter().all(|&b| b == FILL_Q));
}

#[test]
fn sample_points_carry_the_fixed_records() {
    let points = sample_points(FILL_A, FILL_B, FILL_B);
    assert_eq!(points.len(), 3);
    for (i, expected_id) in [1u64, 2, 3].iter().enumerate() {
        assert_eq!(points[i].id, *expected_id);
        assert_eq!(points[i].vector.len(), 768);
        assert_eq!(points[i].payload.len(), 4);
    }
    assert!(points[0].vector.iter().all(|&b| b == FILL_A));
    assert!(points[1].vector.iter().all(|&b| b == FILL_B));
    assert!(points[2].vector.iter().all(|&b| b == FILL_B));

    let field = |i: usize, j: usize| -> (&str, &PayloadValue) {
        (points[i].payload[j].key.as_str(), &points[i].payload[j].value)
    };
    for i in 0..3 {
        assert_eq!(field(i, 0).0, "item_id");
        assert_eq!(field(i, 1).0, "make");
        assert_eq!(field(i, 2).0, "model");
        assert_eq!(field(i, 3).0, "year");
    }
    let text_of = |v: &PayloadValue| -> String {
        match v {
            PayloadValue::Text(s) => s.clone(),
            PayloadValue::Int(n) => n.to_string(),
        }
    };
    assert_eq!(text_of(field(0, 0).1), "item001");
    assert_eq!(text_of(field(0, 1).1), "Jaguar");
    assert_eq!(text_of(field(0, 2).1), "F-Type");
    assert_eq!(text_of(field(0, 3).1), "2015");
    assert_eq!(text_of(field(1, 0).1), "item002");
    assert_eq!(text_of(field(1, 1).1), "Ford");
    assert_eq!(text_of(field(1, 2).1), "GT-40");
    assert_eq!(text_of(field(1, 3).1), "1972");
    assert_eq!(text_of(field(2, 0).1), "item003");
    assert_eq!(text_of(field(2, 1).1), "Jaguar");
    assert_eq!(text_of(field(2, 2).1), "E-Type");
    assert_eq!(text_of(field(2, 3).1), "1969");
}

#[test]
fn absent_collection_run_issues_exactly_one_creation_call() {
    let mut d = Driver::new(bootstrap_config(FILL_A, FILL_B, FILL_B, FILL_Q));
    let mut actions = Vec::new();
    actions.push(d.step(Event::Start));
    actions.push(d.step(Event::ExistsChecked(false)));
    actions.push(d.step(Event::CollectionCreated));
    actions.push(d.step(Event::PointsUpserted));
    actions.push(d.step(Event::SearchReturned));
    assert_eq!(
        actions,
        vec![
            Action::CheckExists,
            Action::CreateCollection,
            Action::UpsertPoints,
            Action::RunSearch,
            Action::Finish,
        ],
    );
    assert_eq!(d.phase, Phase::Done);
}

#[test]
fn existing_collection_run_issues_zero_creation_calls() {
    let mut d = Driver::new(bootstrap_config(FILL_A, FILL_B, FILL_B, FILL_Q));
    let mut actions = Vec::new();
    actions.push(d.step(Event::Start));
    actions.push(d.step(Event::ExistsChecked(true)));
    actions.push(d.step(Event::PointsUpserted));
    actions.push(d.step(Event::SearchReturned));
    assert_eq!(
        actions,
        vec![Action::CheckExists, Action::UpsertPoints, Action::RunSearch, Action::Finish],
    );
    assert_eq!(d.phase, Phase::Done);
    assert!(!actions.contains(&Action::CreateCollection));
}

#[test]
fn transport_failure_aborts_the_run() {
    let mut d = Driver::new(bootstrap_config(FILL_A, FILL_B, FILL_B, FILL_Q));
    assert_eq!(d.step(Event::Start), Action::CheckExists);
    assert_eq!(d.step(Event::TransportFailed), Action::Abort);
    assert_eq!(d.phase, Phase::Failed);
}

#[test]
fn unexpected_event_aborts_the_run() {
    let mut d = Driver::new(bootstrap_config(FILL_A, FILL_B, FILL_B, FILL_Q));
    assert_eq!(d.step(Event::SearchReturned), Action::Abort);
    assert_eq!(d.phase, Phase::Failed);
}

#[test]
fn batch_with_wrong_dimension_is_rejected_before_the_upsert() {
    let mut cfg = bootstrap_config(FILL_A, FILL_B, FILL_B, FILL_Q);
    // One point one component short of the declared dimensionality.
    cfg.points.push(PointRecord {
        id: 4,
        vector: filled_vector(767, FILL_A),
        payload: Vec::new(),
    });
    assert!(validate_dimensions(&cfg.points, cfg.dims).is_err());

    let mut d = Driver::new(cfg);
    assert_eq!(d.step(Event::Start), Action::CheckExists);
    assert_eq!(d.step(Event::ExistsChecked(true)), Action::RejectPoints);
    assert_eq!(d.phase, Phase::Failed);
}

#[test]
fn valid_batch_passes_dimension_validation() {
    let cfg = bootstrap_config(FILL_A, FILL_B, FILL_B, FILL_Q);
    assert!(validate_dimensions(&cfg.points, cfg.dims).is_ok());
    let err = validate_dimensions(&cfg.points, 512).unwrap_err();
    assert_eq!(err.index, 0);
    assert_eq!(err.found, 768);
    assert_eq!(err.expected, 512);
}
