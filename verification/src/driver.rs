//! The bootstrap-and-query state machine.
//!
//! The program's run is a strictly linear sequence: check that the target
//! collection exists, create it when absent, write the sample batch, run
//! one filtered similarity search, finish. All network traffic is the
//! caller's: the caller performs the action the driver hands out, feeds the
//! response back as an event, and the driver decides the next action. Every
//! transition, including the rejection of a batch with a wrong vector
//! dimension before any upsert is issued, is stated by [`step_spec`].

use vstd::prelude::*;

use crate::collection::Metric;
use crate::payload::{
    fields_view, MatchCondition, PayloadField, PayloadFieldView, PayloadValue, PayloadValueView,
};
use crate::point::{
    all_dims_ok, const_vector, filled_vector, points_view, validate_dimensions, PointRecord,
    PointView,
};

verus! {

/// Where the run stands: which response it is waiting for, or how it ended.
#[derive(Clone, Copy, Debug, PartialEq, Eq, Structural)]
pub enum Phase {
    Init,
    AwaitExists,
    AwaitCreate,
    AwaitUpsert,
    AwaitSearch,
    Done,
    Failed,
}

/// What the caller reports back: the start of the run, a response from the
/// service, or a transport failure.
#[derive(Clone, Copy, Debug, PartialEq, Eq, Structural)]
pub enum Event {
    Start,
    ExistsChecked(bool),
    CollectionCreated,
    PointsUpserted,
    SearchReturned,
    TransportFailed,
}

/// What the caller must do next. Request parameters are read from the
/// driver's [`RunConfig`].
#[derive(Clone, Copy, Debug, PartialEq, Eq, Structural)]
pub enum Action {
    CheckExists,
    CreateCollection,
    UpsertPoints,
    RunSearch,
    Finish,
    RejectPoints,
    Abort,
}

/// Everything one run is parameterized by: the collection descriptor, the
/// batch to write, and the one search to issue.
#[derive(Debug)]
pub struct RunConfig {
    pub collection_name: String,
    pub dims: usize,
    pub metric: Metric,
    pub points: Vec<PointRecord>,
    pub query_vector: Vec<u32>,
    pub limit: usize,
    pub filter: MatchCondition,
    pub wait_upsert: bool,
    pub with_payload: bool,
}

/// Whether every point of the configured batch carries a vector of the
/// configured dimensionality.
pub open spec fn config_points_ok(cfg: RunConfig) -> bool {
    all_dims_ok(points_view(cfg.points@), cfg.dims as nat)
}

/// The step taken when the collection is known to exist: hand out the
/// upsert, unless the batch violates the dimension invariant, in which case
/// the batch is rejected before any write is issued.
pub open spec fn upsert_or_reject(points_ok: bool) -> (Phase, Action) {
    if points_ok {
        (Phase::AwaitUpsert, Action::UpsertPoints)
    } else {
        (Phase::Failed, Action::RejectPoints)
    }
}

/// The whole transition table: next phase and next action for each phase
/// and event. Any event a phase does not expect aborts the run.
pub open spec fn step_spec(phase: Phase, ev: Event, points_ok: bool) -> (Phase, Action) {
    match (phase, ev) {
        (Phase::Init, Event::Start) => (Phase::AwaitExists, Action::CheckExists),
        (Phase::AwaitExists, Event::ExistsChecked(present)) => if present {
            upsert_or_reject(points_ok)
        } else {
            (Phase::AwaitCreate, Action::CreateCollection)
        },
        (Phase::AwaitCreate, Event::CollectionCreated) => upsert_or_reject(points_ok),
        (Phase::AwaitUpsert, Event::PointsUpserted) => (Phase::AwaitSearch, Action::RunSearch),
        (Phase::AwaitSearch, Event::SearchReturned) => (Phase::Done, Action::Finish),
        _ => (Phase::Failed, Action::Abort),
    }
}

/// The run's state: its fixed parameters and where it stands.
#[derive(Debug)]
pub struct Driver {
    pub config: RunConfig,
    pub phase: Phase,
}

impl Driver {
    /// A run that has not started yet.
    pub fn new(config: RunConfig) -> (d: Driver)
        ensures
            d.config == config,
            d.phase == Phase::Init,
    {
        Driver { config, phase: Phase::Init }
    }

    /// Decides the step the transition table prescribes for the reported
    /// event; only the phase changes, never the run's parameters.
    pub fn step(&mut self, ev: Event) -> (a: Action)
        ensures
            final(self).config == old(self).config,
            final(self).phase == step_spec(
                old(self).phase,
                ev,
                config_points_ok(old(self).config),
            ).0,
            a == step_spec(old(self).phase, ev, config_points_ok(old(self).config)).1,
    {
        let next: (Phase, Action) = match (self.phase, ev) {
            (Phase::Init, Event::Start) => (Phase::AwaitExists, Action::CheckExists),
            (Phase::AwaitExists, Event::ExistsChecked(present)) => if present {
                self.check_batch_and_plan()
            } else {
                (Phase::AwaitCreate, Action::CreateCollection)
            },
            (Phase::AwaitCreate, Event::CollectionCreated) => self.check_batch_and_plan(),
            (Phase::AwaitUpsert, Event::PointsUpserted) => (
                Phase::AwaitSearch,
                Action::RunSearch,
            ),
            (Phase::AwaitSearch, Event::SearchReturned) => (Phase::Done, Action::Finish),
            _ => (Phase::Failed, Action::Abort),
        };
        self.phase = next.0;
        next.1
    }

    /// Validates the configured batch against the configured
    /// dimensionality and plans the upsert or the rejection.
    fn check_batch_and_plan(&self) -> (r: (Phase, Action))
        ensures
            r == upsert_or_reject(config_points_ok(self.config)),
    {
        match validate_dimensions(&self.config.points, self.config.dims) {
            Ok(()) => (Phase::AwaitUpsert, Action::UpsertPoints),
            Err(_) => (Phase::Failed, Action::RejectPoints),
        }
    }
}

/// The actions a run hands out from a phase, under a sequence of reported
/// events.
pub open spec fn run_steps(phase: Phase, events: Seq<Event>, points_ok: bool) -> Seq<Action>
    decreases events.len(),
{
    if events.len() == 0 {
        Seq::<Action>::empty()
    } else {
        let next = step_spec(phase, events[0], points_ok);
        seq![next.1] + run_steps(next.0, events.subrange(1, events.len() as int), points_ok)
    }
}

/// How many creation calls a sequence of actions contains.
pub open spec fn count_creates(actions: Seq<Action>) -> nat
    decreases actions.len(),
{
    if actions.len() == 0 {
        0
    } else {
        (if actions[0] == Action::CreateCollection {
            1nat
        } else {
            0nat
        }) + count_creates(actions.subrange(1, actions.len() as int))
    }
}

/// Whether a phase lies strictly after the existence check.
pub open spec fn past_existence_check(phase: Phase) -> bool {
    !(phase is Init || phase is AwaitExists)
}

proof fn lemma_count_creates_cons(a: Action, rest: Seq<Action>)
    ensures
        count_creates(seq![a] + rest) == (if a == Action::CreateCollection {
            1nat
        } else {
            0nat
        }) + count_creates(rest),
{
    let whole = seq![a] + rest;
    assert(whole[0] == a);
    assert(whole.subrange(1, whole.len() as int) =~= rest);
}

/// Law: a run issues a creation call only from the phase right after an
/// existence check, so any run issues at most one; from any phase past the
/// existence check it issues none.
pub proof fn lemma_creates_bound(phase: Phase, events: Seq<Event>, points_ok: bool)
    ensures
        count_creates(run_steps(phase, events, points_ok)) <= 1,
        past_existence_check(phase) ==> count_creates(run_steps(phase, events, points_ok)) == 0,
    decreases events.len(),
{
    if events.len() > 0 {
        let next = step_spec(phase, events[0], points_ok);
        let rest = events.subrange(1, events.len() as int);
        lemma_creates_bound(next.0, rest, points_ok);
        lemma_count_creates_cons(next.1, run_steps(next.0, rest, points_ok));
        assert(next.1 == Action::CreateCollection ==> phase is AwaitExists);
        assert(phase is AwaitExists ==> past_existence_check(next.0));
        assert(phase is Init && next.1 != Action::CreateCollection ==> true);
    }
}

/// Law: when the existence check reports the collection absent, the run
/// issues exactly one creation call, and it is the immediate next action.
pub proof fn lemma_absent_issues_one_create(events: Seq<Event>, points_ok: bool)
    requires
        events.len() >= 1,
        events[0] == Event::ExistsChecked(false),
    ensures
        count_creates(run_steps(Phase::AwaitExists, events, points_ok)) == 1,
        run_steps(Phase::AwaitExists, events, points_ok)[0] == Action::CreateCollection,
{
    let rest = events.subrange(1, events.len() as int);
    lemma_creates_bound(Phase::AwaitCreate, rest, points_ok);
    lemma_count_creates_cons(
        Action::CreateCollection,
        run_steps(Phase::AwaitCreate, rest, points_ok),
    );
}

/// Law: when the existence check reports the collection present, the whole
/// remaining run issues zero creation calls.
pub proof fn lemma_present_issues_no_create(events: Seq<Event>, points_ok: bool)
    requires
        events.len() >= 1,
        events[0] == Event::ExistsChecked(true),
    ensures
        count_creates(run_steps(Phase::AwaitExists, events, points_ok)) == 0,
{
    let next = step_spec(Phase::AwaitExists, events[0], points_ok);
    let rest = events.subrange(1, events.len() as int);
    lemma_creates_bound(next.0, rest, points_ok);
    lemma_count_creates_cons(next.1, run_steps(next.0, rest, points_ok));
}

/// The vector dimensionality the bootstrap collection is declared with.
pub const BOOTSTRAP_DIMS: usize = 768;

/// The result limit of the bootstrap similarity search.
pub const BOOTSTRAP_LIMIT: usize = 3;

/// A sample payload: item identifier, make, model, and year.
pub open spec fn car_payload(
    item: Seq<char>,
    make: Seq<char>,
    model: Seq<char>,
    year: int,
) -> Seq<PayloadFieldView> {
    seq![
        PayloadFieldView { key: "item_id"@, value: PayloadValueView::Text(item) },
        PayloadFieldView { key: "make"@, value: PayloadValueView::Text(make) },
        PayloadFieldView { key: "model"@, value: PayloadValueView::Text(model) },
        PayloadFieldView { key: "year"@, value: PayloadValueView::Int(year) },
    ]
}

/// Builds one sample payload.
fn car_payload_fields(item: &str, make: &str, model: &str, year: i64) -> (r: Vec<PayloadField>)
    ensures
        fields_view(r@) == car_payload(item@, make@, model@, year as int),
{
    let mut r: Vec<PayloadField> = Vec::new();
    r.push(PayloadField { key: "item_id".to_owned(), value: PayloadValue::Text(item.to_owned()) });
    r.push(PayloadField { key: "make".to_owned(), value: PayloadValue::Text(make.to_owned()) });
    r.push(PayloadField { key: "model".to_owned(), value: PayloadValue::Text(model.to_owned()) });
    r.push(PayloadField { key: "year".to_owned(), value: PayloadValue::Int(year) });
    proof {
        assert(fields_view(r@) =~= car_payload(item@, make@, model@, year as int));
    }
    r
}

/// The three sample points the bootstrap run writes. Vector components are
/// bit patterns the caller chooses; each point's vector is one component
/// repeated over the declared dimensionality.
pub open spec fn sample_point_views(fill1: u32, fill2: u32, fill3: u32) -> Seq<PointView> {
    seq![
        PointView {
            id: 1,
            vector: const_vector(BOOTSTRAP_DIMS as nat, fill1),
            payload: car_payload("item001"@, "Jaguar"@, "F-Type"@, 2015),
        },
        PointView {
            id: 2,
            vector: const_vector(BOOTSTRAP_DIMS as nat, fill2),
            payload: car_payload("item002"@, "Ford"@, "GT-40"@, 1972),
        },
        PointView {
            id: 3,
            vector: const_vector(BOOTSTRAP_DIMS as nat, fill3),
            payload: car_payload("item003"@, "Jaguar"@, "E-Type"@, 1969),
        },
    ]
}

/// Builds the three sample points.
pub fn sample_points(fill1: u32, fill2: u32, fill3: u32) -> (r: Vec<PointRecord>)
    ensures
        points_view(r@) == sample_point_views(fill1, fill2, fill3),
{
    let mut r: Vec<PointRecord> = Vec::new();
    r.push(
        PointRecord {
            id: 1,
            vector: filled_vector(BOOTSTRAP_DIMS, fill1),
            payload: car_payload_fields("item001", "Jaguar", "F-Type", 2015),
        },
    );
    r.push(
        PointRecord {
            id: 2,
            vector: filled_vector(BOOTSTRAP_DIMS, fill2),
            payload: car_payload_fields("item002", "Ford", "GT-40", 1972),
        },
    );
    r.push(
        PointRecord {
            id: 3,
            vector: filled_vector(BOOTSTRAP_DIMS, fill3),
            payload: car_payload_fields("item003", "Jaguar", "E-Type", 1969),
        },
    );
    proof {
        assert(points_view(r@) =~= sample_point_views(fill1, fill2, fill3));
    }
    r
}

/// The full configuration of the bootstrap run: the fixed collection name,
/// dimensionality and metric, the three sample points, and one similarity
/// search filtered on `model == "E-Type"`, waiting for the upsert to be
/// durably applied and asking for payloads in the results. The sample
/// batch always satisfies the dimension invariant.
pub fn bootstrap_config(fill1: u32, fill2: u32, fill3: u32, query_fill: u32) -> (cfg: RunConfig)
    ensures
        cfg.collection_name@ == "image_embeddings"@,
        cfg.dims == BOOTSTRAP_DIMS,
        cfg.metric == Metric::Cosine,
        points_view(cfg.points@) == sample_point_views(fill1, fill2, fill3),
        cfg.query_vector@ == const_vector(BOOTSTRAP_DIMS as nat, query_fill),
        cfg.limit == BOOTSTRAP_LIMIT,
        cfg.filter@.key == "model"@,
        cfg.filter@.value == "E-Type"@,
        cfg.wait_upsert,
        cfg.with_payload,
        config_points_ok(cfg),
{
    let cfg = RunConfig {
        collection_name: "image_embeddings".to_owned(),
        dims: BOOTSTRAP_DIMS,
        metric: Metric::Cosine,
        points: sample_points(fill1, fill2, fill3),
        query_vector: filled_vector(BOOTSTRAP_DIMS, query_fill),
        limit: BOOTSTRAP_LIMIT,
        filter: MatchCondition { key: "model".to_owned(), value: "E-Type".to_owned() },
        wait_upsert: true,
        with_payload: true,
    };
    proof {
        let pvs = points_view(cfg.points@);
        assert(pvs[0].vector.len() == BOOTSTRAP_DIMS);
        assert(pvs[1].vector.len() == BOOTSTRAP_DIMS);
        assert(pvs[2].vector.len() == BOOTSTRAP_DIMS);
        assert(config_points_ok(cfg));
    }
    cfg
}

} // verus!
