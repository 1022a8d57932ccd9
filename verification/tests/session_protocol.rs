use vulnmaster::ingest::plan_ingest;
use vulnmaster::session::{IngestSession, SessionPhase, StoreAction, StoreEvent};

fn three_row_content() -> String {
    let mut s = String::new();
    s.push_str("CVE ID;Product\n");
    s.push_str("CVE-1;Alpha\n");
    s.push_str("CVE-2;Beta\n");
    s.push_str("CVE-3;Gamma\n");
    s
}

/// A toy store: rows visible only once committed; an open transaction's
/// staged rows vanish on rollback.
struct ToyStore {
    staged_records: usize,
    staged_datasets: usize,
    committed_records: usize,
    committed_datasets: usize,
    fail_on_call: Option<usize>,
    calls: usize,
}

impl ToyStore {
    fn new(fail_on_call: Option<usize>) -> ToyStore {
        ToyStore {
            staged_records: 0,
            staged_datasets: 0,
            committed_records: 0,
            committed_datasets: 0,
            fail_on_call,
            calls: 0,
        }
    }

    fn failing(&mut self) -> bool {
        self.calls += 1;
        self.fail_on_call == Some(self.calls)
    }
}

fn drive(session: &mut IngestSession, store: &mut ToyStore) -> Vec<StoreAction> {
    let mut actions = Vec::new();
    loop {
        let a = session.next_action();
        actions.push(a);
        match a {
            StoreAction::InsertRecord(_) => {
                if store.failing() {
                    session.on_event(StoreEvent::Failed);
                } else {
                    store.staged_records += 1;
                    session.on_event(StoreEvent::Succeeded);
                }
            }
            StoreAction::InsertDataset => {
                if store.failing() {
                    session.on_event(StoreEvent::Failed);
                } else {
                    store.staged_datasets += 1;
                    session.on_event(StoreEvent::Succeeded);
                }
            }
            StoreAction::Commit => {
                if store.failing() {
                    session.on_event(StoreEvent::Failed);
                } else {
                    store.committed_records = store.staged_records;
                    store.committed_datasets = store.staged_datasets;
                    session.on_event(StoreEvent::Succeeded);
                }
            }
            StoreAction::Rollback => {
                store.staged_records = 0;
                store.staged_datasets = 0;
                session.on_event(StoreEvent::Succeeded);
            }
            StoreAction::Idle => break,
        }
    }
    actions
}

#[test]
fn successful_session_runs_in_order() {
    let plan = plan_ingest("data.csv", &three_row_content(), ';').unwrap();
    let mut session = IngestSession::start(plan);
    let mut store = ToyStore::new(None);
    let actions = drive(&mut session, &mut store);
    assert_eq!(
        actions,
        vec![
            StoreAction::InsertRecord(0),
            StoreAction::InsertRecord(1),
            StoreAction::InsertRecord(2),
            StoreAction::InsertDataset,
            StoreAction::Commit,
            StoreAction::Idle,
        ]
    );
    assert!(matches!(session.phase, SessionPhase::Done));
    assert_eq!(store.committed_records, 3);
    assert_eq!(store.committed_datasets, 1);
}

// All-or-nothing: the store fails on the second record insert; the
// attempt rolls back, nothing is committed, and no further insert or
// commit is ever asked for.
#[test]
fn failure_on_nth_insert_leaves_nothing() {
    let plan = plan_ingest("data.csv", &three_row_content(), ';').unwrap();
    let mut session = IngestSession::start(plan);
    let mut store = ToyStore::new(Some(2));
    let actions = drive(&mut session, &mut store);
    assert_eq!(
        actions,
        vec![
            StoreAction::InsertRecord(0),
            StoreAction::InsertRecord(1),
            StoreAction::Rollback,
            StoreAction::Idle,
        ]
    );
    assert!(matches!(session.phase, SessionPhase::Failed));
    assert_eq!(store.committed_records, 0);
    assert_eq!(store.committed_datasets, 0);
    assert_eq!(store.staged_records, 0);
    assert_eq!(store.staged_datasets, 0);
}

#[test]
fn failure_on_dataset_insert_leaves_nothing() {
    let plan = plan_ingest("data.csv", &three_row_content(), ';').unwrap();
    let mut session = IngestSession::start(plan);
    let mut store = ToyStore::new(Some(4));
    let actions = drive(&mut session, &mut store);
    assert_eq!(*actions.last().unwrap(), StoreAction::Idle);
    assert!(actions.contains(&StoreAction::Rollback));
    assert!(!actions.contains(&StoreAction::Commit));
    assert!(matches!(session.phase, SessionPhase::Failed));
    assert_eq!(store.committed_records, 0);
    assert_eq!(store.committed_datasets, 0);
}
