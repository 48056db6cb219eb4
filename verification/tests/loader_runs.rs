use station_catalog::directory::{Country, DirectoryPayload, Region, Settlement, StationEntity};
use station_catalog::loader::{
    build_api_url, loader_start, loader_step, LoaderAction, LoaderError, LoaderEvent,
    LoaderOutcome, LoaderPhase,
};

fn payload_with_one_station() -> DirectoryPayload {
    DirectoryPayload {
        countries: vec![Country {
            title: Some("Russia".to_string()),
            code: Some("l225".to_string()),
            regions: vec![Region {
                title: Some("Moscow area".to_string()),
                code: Some("l1".to_string()),
                settlements: vec![Settlement {
                    title: Some("Moscow".to_string()),
                    code: Some("c213".to_string()),
                    stations: vec![StationEntity {
                        title: Some("Kursky".to_string()),
                        station_type: Some("train_station".to_string()),
                        yandex_code: Some("s2000001".to_string()),
                        esr_code: None,
                        transport_type: Some("train".to_string()),
                        direction: None,
                        longitude: None,
                        latitude: None,
                    }],
                }],
            }],
        }],
    }
}

#[test]
fn api_url_embeds_the_key() {
    assert_eq!(
        build_api_url("SECRET-REDACTED"),
        "https://api.rasp.yandex.net/v3.0/stations_list/?apikey=SECRET-REDACTED&lang=ru_RU&format=json"
    );
}

#[test]
fn a_run_starts_by_counting() {
    let (phase, action) = loader_start();
    assert_eq!(phase, LoaderPhase::Counting);
    assert!(matches!(action, LoaderAction::CountStations));
}

#[test]
fn populated_store_ends_the_run_at_once() {
    let (phase, action) = loader_step(LoaderPhase::Counting, LoaderEvent::CountDone(42));
    assert_eq!(phase, LoaderPhase::Complete(LoaderOutcome::AlreadyInitialized));
    assert!(matches!(action, LoaderAction::Halt));
}

#[test]
fn empty_store_runs_through_one_bulk_insert() {
    let (phase, action) = loader_step(LoaderPhase::Counting, LoaderEvent::CountDone(0));
    assert_eq!(phase, LoaderPhase::ReadingKey);
    assert!(matches!(action, LoaderAction::ReadApiKey));

    let (phase, action) = loader_step(phase, LoaderEvent::KeyFound("k".to_string()));
    assert_eq!(phase, LoaderPhase::Fetching);
    match action {
        LoaderAction::FetchDirectory(url) => assert_eq!(url, build_api_url("k")),
        other => panic!("expected a fetch, got {:?}", other),
    }

    let (phase, action) =
        loader_step(phase, LoaderEvent::FetchDone(200, Some(payload_with_one_station())));
    assert_eq!(phase, LoaderPhase::Inserting);
    match action {
        LoaderAction::InsertStations(records) => {
            assert_eq!(records.len(), 1);
            assert_eq!(records[0].title, "Kursky");
            assert_eq!(records[0].country, "Russia");
        },
        other => panic!("expected an insert, got {:?}", other),
    }

    let (phase, action) = loader_step(phase, LoaderEvent::InsertDone);
    assert_eq!(phase, LoaderPhase::Complete(LoaderOutcome::Initialized));
    assert!(matches!(action, LoaderAction::Halt));
}

#[test]
fn second_run_against_the_populated_store_is_a_no_op() {
    // First run: empty store, one insert of one record.
    let (phase, _) = loader_step(LoaderPhase::Counting, LoaderEvent::CountDone(0));
    let (phase, _) = loader_step(phase, LoaderEvent::KeyFound("k".to_string()));
    let (phase, action) =
        loader_step(phase, LoaderEvent::FetchDone(200, Some(payload_with_one_station())));
    let inserted = match action {
        LoaderAction::InsertStations(records) => records.len() as u64,
        other => panic!("expected an insert, got {:?}", other),
    };
    let (phase, _) = loader_step(phase, LoaderEvent::InsertDone);
    assert_eq!(phase, LoaderPhase::Complete(LoaderOutcome::Initialized));

    // Second run: the store now counts the inserted records and the run
    // completes without requesting anything.
    let (phase, action) = loader_step(LoaderPhase::Counting, LoaderEvent::CountDone(inserted));
    assert_eq!(phase, LoaderPhase::Complete(LoaderOutcome::AlreadyInitialized));
    assert!(matches!(action, LoaderAction::Halt));
}

#[test]
fn each_failure_ends_the_run_with_its_error() {
    let (phase, _) = loader_step(LoaderPhase::Counting, LoaderEvent::CountFailed);
    assert_eq!(phase, LoaderPhase::Complete(LoaderOutcome::Failed(LoaderError::StoreCountFailed)));

    let (phase, _) = loader_step(LoaderPhase::ReadingKey, LoaderEvent::KeyMissing);
    assert_eq!(phase, LoaderPhase::Complete(LoaderOutcome::Failed(LoaderError::MissingApiKey)));

    let (phase, _) = loader_step(LoaderPhase::Fetching, LoaderEvent::FetchDone(503, None));
    assert_eq!(
        phase,
        LoaderPhase::Complete(LoaderOutcome::Failed(LoaderError::UpstreamStatus(503)))
    );

    let (phase, _) = loader_step(LoaderPhase::Fetching, LoaderEvent::FetchTransportFailed);
    assert_eq!(phase, LoaderPhase::Complete(LoaderOutcome::Failed(LoaderError::UpstreamTransport)));

    let (phase, _) = loader_step(LoaderPhase::Fetching, LoaderEvent::FetchDone(200, None));
    assert_eq!(phase, LoaderPhase::Complete(LoaderOutcome::Failed(LoaderError::PayloadInvalid)));

    let (phase, _) = loader_step(LoaderPhase::Inserting, LoaderEvent::InsertFailed);
    assert_eq!(phase, LoaderPhase::Complete(LoaderOutcome::Failed(LoaderError::StoreInsertFailed)));
}

#[test]
fn a_complete_run_absorbs_further_events() {
    let done = LoaderPhase::Complete(LoaderOutcome::AlreadyInitialized);
    let (phase, action) = loader_step(done, LoaderEvent::CountDone(0));
    assert_eq!(phase, done);
    assert!(matches!(action, LoaderAction::Halt));

    let (phase, action) = loader_step(done, LoaderEvent::InsertDone);
    assert_eq!(phase, done);
    assert!(matches!(action, LoaderAction::Halt));
}

#[test]
fn an_event_from_the_wrong_phase_changes_nothing() {
    let (phase, action) = loader_step(LoaderPhase::Counting, LoaderEvent::InsertDone);
    assert_eq!(phase, LoaderPhase::Counting);
    assert!(matches!(action, LoaderAction::Halt));
}
