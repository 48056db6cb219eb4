//! The idempotent loader: the decision logic of the one-time ingestion.
//!
//! Ingestion runs as a dialogue with the environment.  The loader is an
//! explicit transition system: the caller carries out each requested
//! [`LoaderAction`] (count the store, read the configured key, fetch the
//! directory, bulk-insert the records) and answers with a [`LoaderEvent`];
//! [`loader_step`] decides what follows.  A positive count ends the run at
//! once — that check is the entire idempotence guarantee — and any failure
//! is fatal to the run, never retried.

use vstd::prelude::*;
use vstd::string::StringExecFns;

use crate::directory::{spec_flatten_payload, flatten_payload, DirectoryPayload,
    DirectoryPayloadView};
use crate::record::{StationRecord, StationRecordView};

verus! {

/// Why an ingestion run failed.  Every failure aborts the run.
#[derive(Debug, Clone, Copy, PartialEq, Eq, Structural)]
pub enum LoaderError {
    /// No API key is configured, and the store was empty, so ingestion
    /// actually had to run.
    MissingApiKey,
    /// The bulk fetch answered with this non-success status.
    UpstreamStatus(u16),
    /// The bulk fetch did not answer at all.
    UpstreamTransport,
    /// The bulk fetch answered, but not with a readable directory payload.
    PayloadInvalid,
    /// The store could not say how many records it holds.
    StoreCountFailed,
    /// The store refused the bulk insert.
    StoreInsertFailed,
}

/// How an ingestion run ended.
#[derive(Debug, Clone, Copy, PartialEq, Eq, Structural)]
pub enum LoaderOutcome {
    /// The store was already populated; nothing was fetched or written.
    AlreadyInitialized,
    /// The store was empty and one bulk insert filled it.
    Initialized,
    /// The run aborted.
    Failed(LoaderError),
}

/// Where an ingestion run stands.
#[derive(Debug, Clone, Copy, PartialEq, Eq, Structural)]
pub enum LoaderPhase {
    /// Waiting for the store's record count.
    Counting,
    /// The store was empty; waiting for the configured API key.
    ReadingKey,
    /// Waiting for the bulk fetch's result.
    Fetching,
    /// Waiting for the bulk insert's result.
    Inserting,
    /// The run is over.
    Complete(LoaderOutcome),
}

/// What the environment answers a loader action with.
#[derive(Debug)]
pub enum LoaderEvent {
    /// The store holds this many records.
    CountDone(u64),
    /// The store could not be counted.
    CountFailed,
    /// The configured API key.
    KeyFound(String),
    /// No API key is configured.
    KeyMissing,
    /// The bulk fetch answered with this status and, if the body was a
    /// readable directory payload, the payload.
    FetchDone(u16, Option<DirectoryPayload>),
    /// The bulk fetch did not answer.
    FetchTransportFailed,
    /// The bulk insert succeeded.
    InsertDone,
    /// The bulk insert failed.
    InsertFailed,
}

/// The value of a [`LoaderEvent`].
pub enum LoaderEventView {
    CountDone(u64),
    CountFailed,
    KeyFound(Seq<char>),
    KeyMissing,
    FetchDone(u16, Option<DirectoryPayloadView>),
    FetchTransportFailed,
    InsertDone,
    InsertFailed,
}

impl View for LoaderEvent {
    type V = LoaderEventView;

    open spec fn view(&self) -> LoaderEventView {
        match self {
            LoaderEvent::CountDone(n) => LoaderEventView::CountDone(*n),
            LoaderEvent::CountFailed => LoaderEventView::CountFailed,
            LoaderEvent::KeyFound(k) => LoaderEventView::KeyFound(k@),
            LoaderEvent::KeyMissing => LoaderEventView::KeyMissing,
            LoaderEvent::FetchDone(status, body) => LoaderEventView::FetchDone(
                *status,
                body.deep_view(),
            ),
            LoaderEvent::FetchTransportFailed => LoaderEventView::FetchTransportFailed,
            LoaderEvent::InsertDone => LoaderEventView::InsertDone,
            LoaderEvent::InsertFailed => LoaderEventView::InsertFailed,
        }
    }
}

/// What the loader asks the environment to do next.
#[derive(Debug)]
pub enum LoaderAction {
    /// Count the records the store holds.
    CountStations,
    /// Read the configured API key.
    ReadApiKey,
    /// Fetch the directory from this URL.
    FetchDirectory(String),
    /// Bulk-insert these records into the store.
    InsertStations(Vec<StationRecord>),
    /// Nothing; the run is over.
    Halt,
}

/// The value of a [`LoaderAction`].
pub enum LoaderActionView {
    CountStations,
    ReadApiKey,
    FetchDirectory(Seq<char>),
    InsertStations(Seq<StationRecordView>),
    Halt,
}

impl View for LoaderAction {
    type V = LoaderActionView;

    open spec fn view(&self) -> LoaderActionView {
        match self {
            LoaderAction::CountStations => LoaderActionView::CountStations,
            LoaderAction::ReadApiKey => LoaderActionView::ReadApiKey,
            LoaderAction::FetchDirectory(url) => LoaderActionView::FetchDirectory(url@),
            LoaderAction::InsertStations(recs) => LoaderActionView::InsertStations(
                recs.deep_view(),
            ),
            LoaderAction::Halt => LoaderActionView::Halt,
        }
    }
}

/// The bulk-fetch URL for a given API key.
pub open spec fn spec_api_url(key: Seq<char>) -> Seq<char> {
    "https://api.rasp.yandex.net/v3.0/stations_list/?apikey="@ + key
        + "&lang=ru_RU&format=json"@
}

/// Builds the bulk-fetch URL around the configured API key.
pub fn build_api_url(key: &str) -> (url: String)
    ensures
        url@ == spec_api_url(key@),
{
    let mut url = String::from_str("https://api.rasp.yandex.net/v3.0/stations_list/?apikey=");
    url.append(key);
    url.append("&lang=ru_RU&format=json");
    url
}

/// One loader transition: from this phase, on this event, the next phase
/// and the action the environment should carry out.
///
/// A positive count completes the run without touching anything else.  A
/// zero count leads through key, fetch and a single bulk insert of the
/// flattened payload.  Every failure event completes the run with its
/// error.  A complete run stays complete, asking for nothing, and an event
/// that does not belong to the phase changes nothing.
pub open spec fn spec_loader_step(phase: LoaderPhase, event: LoaderEventView) -> (LoaderPhase,
    LoaderActionView) {
    match (phase, event) {
        (LoaderPhase::Counting, LoaderEventView::CountDone(n)) => if n > 0 {
            (LoaderPhase::Complete(LoaderOutcome::AlreadyInitialized), LoaderActionView::Halt)
        } else {
            (LoaderPhase::ReadingKey, LoaderActionView::ReadApiKey)
        },
        (LoaderPhase::Counting, LoaderEventView::CountFailed) => (
            LoaderPhase::Complete(LoaderOutcome::Failed(LoaderError::StoreCountFailed)),
            LoaderActionView::Halt,
        ),
        (LoaderPhase::ReadingKey, LoaderEventView::KeyFound(key)) => (
            LoaderPhase::Fetching,
            LoaderActionView::FetchDirectory(spec_api_url(key)),
        ),
        (LoaderPhase::ReadingKey, LoaderEventView::KeyMissing) => (
            LoaderPhase::Complete(LoaderOutcome::Failed(LoaderError::MissingApiKey)),
            LoaderActionView::Halt,
        ),
        (LoaderPhase::Fetching, LoaderEventView::FetchDone(status, body)) => if status != 200 {
            (
                LoaderPhase::Complete(LoaderOutcome::Failed(LoaderError::UpstreamStatus(status))),
                LoaderActionView::Halt,
            )
        } else {
            match body {
                Some(payload) => (
                    LoaderPhase::Inserting,
                    LoaderActionView::InsertStations(spec_flatten_payload(payload)),
                ),
                None => (
                    LoaderPhase::Complete(LoaderOutcome::Failed(LoaderError::PayloadInvalid)),
                    LoaderActionView::Halt,
                ),
            }
        },
        (LoaderPhase::Fetching, LoaderEventView::FetchTransportFailed) => (
            LoaderPhase::Complete(LoaderOutcome::Failed(LoaderError::UpstreamTransport)),
            LoaderActionView::Halt,
        ),
        (LoaderPhase::Inserting, LoaderEventView::InsertDone) => (
            LoaderPhase::Complete(LoaderOutcome::Initialized),
            LoaderActionView::Halt,
        ),
        (LoaderPhase::Inserting, LoaderEventView::InsertFailed) => (
            LoaderPhase::Complete(LoaderOutcome::Failed(LoaderError::StoreInsertFailed)),
            LoaderActionView::Halt,
        ),
        (LoaderPhase::Complete(o), _) => (LoaderPhase::Complete(o), LoaderActionView::Halt),
        (p, _) => (p, LoaderActionView::Halt),
    }
}

/// Where every ingestion run begins: ask the store for its count.
pub fn loader_start() -> (r: (LoaderPhase, LoaderAction))
    ensures
        r.0 == LoaderPhase::Counting,
        r.1@ == LoaderActionView::CountStations,
{
    (LoaderPhase::Counting, LoaderAction::CountStations)
}

/// Carries the loader one step: see [`spec_loader_step`].
pub fn loader_step(phase: LoaderPhase, event: LoaderEvent) -> (r: (LoaderPhase, LoaderAction))
    ensures
        r.0 == spec_loader_step(phase, event@).0,
        r.1@ == spec_loader_step(phase, event@).1,
{
    match (phase, event) {
        (LoaderPhase::Counting, LoaderEvent::CountDone(n)) => if n > 0 {
            (LoaderPhase::Complete(LoaderOutcome::AlreadyInitialized), LoaderAction::Halt)
        } else {
            (LoaderPhase::ReadingKey, LoaderAction::ReadApiKey)
        },
        (LoaderPhase::Counting, LoaderEvent::CountFailed) => (
            LoaderPhase::Complete(LoaderOutcome::Failed(LoaderError::StoreCountFailed)),
            LoaderAction::Halt,
        ),
        (LoaderPhase::ReadingKey, LoaderEvent::KeyFound(key)) => (
            LoaderPhase::Fetching,
            LoaderAction::FetchDirectory(build_api_url(key.as_str())),
        ),
        (LoaderPhase::ReadingKey, LoaderEvent::KeyMissing) => (
            LoaderPhase::Complete(LoaderOutcome::Failed(LoaderError::MissingApiKey)),
            LoaderAction::Halt,
        ),
        (LoaderPhase::Fetching, LoaderEvent::FetchDone(status, body)) => if status != 200 {
            (
                LoaderPhase::Complete(LoaderOutcome::Failed(LoaderError::UpstreamStatus(status))),
                LoaderAction::Halt,
            )
        } else {
            match body {
                Some(payload) => (
                    LoaderPhase::Inserting,
                    LoaderAction::InsertStations(flatten_payload(&payload)),
                ),
                None => (
                    LoaderPhase::Complete(LoaderOutcome::Failed(LoaderError::PayloadInvalid)),
                    LoaderAction::Halt,
                ),
            }
        },
        (LoaderPhase::Fetching, LoaderEvent::FetchTransportFailed) => (
            LoaderPhase::Complete(LoaderOutcome::Failed(LoaderError::UpstreamTransport)),
            LoaderAction::Halt,
        ),
        (LoaderPhase::Inserting, LoaderEvent::InsertDone) => (
            LoaderPhase::Complete(LoaderOutcome::Initialized),
            LoaderAction::Halt,
        ),
        (LoaderPhase::Inserting, LoaderEvent::InsertFailed) => (
            LoaderPhase::Complete(LoaderOutcome::Failed(LoaderError::StoreInsertFailed)),
            LoaderAction::Halt,
        ),
        (LoaderPhase::Complete(o), _) => (LoaderPhase::Complete(o), LoaderAction::Halt),
        (p, _) => (p, LoaderAction::Halt),
    }
}

/// The actions a run requests: from `phase`, answering each event in turn.
pub open spec fn spec_run_actions(
    phase: LoaderPhase,
    events: Seq<LoaderEventView>,
) -> Seq<LoaderActionView>
    decreases events.len(),
{
    if events.len() == 0 {
        Seq::empty()
    } else {
        let step = spec_loader_step(phase, events[0]);
        seq![step.1] + spec_run_actions(step.0, events.drop_first())
    }
}

/// How many bulk inserts a run requests.
pub open spec fn spec_insert_count(phase: LoaderPhase, events: Seq<LoaderEventView>) -> int
    decreases events.len(),
{
    if events.len() == 0 {
        0int
    } else {
        let step = spec_loader_step(phase, events[0]);
        (if step.1 is InsertStations {
            1int
        } else {
            0int
        }) + spec_insert_count(step.0, events.drop_first())
    }
}

/// A run never asks for a second bulk insert: at most one insert from the
/// start, and none at all once the insert was handed out or the run is
/// complete.
proof fn lemma_run_insert_bound(phase: LoaderPhase, events: Seq<LoaderEventView>)
    ensures
        spec_insert_count(phase, events) <= 1,
        (phase is Inserting || phase is Complete) ==> spec_insert_count(phase, events) == 0,
    decreases events.len(),
{
    if events.len() > 0 {
        let step = spec_loader_step(phase, events[0]);
        lemma_run_insert_bound(step.0, events.drop_first());
    }
}

/// Idempotence law: a run that observes a positive record count — as the
/// second of two sequential runs does once the first has bulk-inserted a
/// nonempty record set — completes at once and never requests an insert;
/// and no single run requests more than one.  Across the two runs the bulk
/// insert therefore happens exactly once.
pub proof fn lemma_loader_idempotent(
    first: Seq<LoaderEventView>,
    second: Seq<LoaderEventView>,
    n: u64,
)
    requires
        second.len() > 0,
        second[0] == LoaderEventView::CountDone(n),
        n > 0,
    ensures
        spec_insert_count(LoaderPhase::Counting, first) <= 1,
        spec_insert_count(LoaderPhase::Counting, second) == 0,
        spec_loader_step(LoaderPhase::Counting, second[0]) == (
            LoaderPhase::Complete(LoaderOutcome::AlreadyInitialized),
            LoaderActionView::Halt,
        ),
{
    lemma_run_insert_bound(LoaderPhase::Counting, first);
    let step = spec_loader_step(LoaderPhase::Counting, second[0]);
    lemma_run_insert_bound(step.0, second.drop_first());
}

} // verus!
