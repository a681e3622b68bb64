use script_server::correlation::{complete_request, PendingRegistry};
use script_server::worker::ExecutionResult;
use tokio::sync::oneshot;

#[test]
fn identifiers_count_up_and_wrap() {
    let mut reg: PendingRegistry<u8> = PendingRegistry::new();
    assert_eq!(reg.get_next_id(), 0);
    assert_eq!(reg.get_next_id(), 1);
    assert_eq!(reg.get_next_id(), 2);

    let mut reg: PendingRegistry<u8> = PendingRegistry::with_start(u32::MAX);
    assert_eq!(reg.get_next_id(), u32::MAX);
    assert_eq!(reg.get_next_id(), 0);
}

#[test]
fn completion_delivers_once_and_then_fails() {
    let mut reg: PendingRegistry<oneshot::Sender<ExecutionResult>> = PendingRegistry::new();
    let id = reg.get_next_id();
    let (tx, mut rx) = oneshot::channel();
    reg.register(id, tx);
    assert_eq!(reg.len(), 1);

    let ok = complete_request(
        &mut reg,
        id,
        ExecutionResult { status_code: 200, body: "done".to_string() },
    );
    assert!(ok.is_ok());
    let got = rx.try_recv().unwrap();
    assert_eq!(got.status_code, 200);
    assert_eq!(got.body, "done");
    assert_eq!(reg.len(), 0);

    // A second completion against the same identifier is a reported
    // failure, not a crash, and delivers nothing.
    let again = complete_request(
        &mut reg,
        id,
        ExecutionResult { status_code: 200, body: "again".to_string() },
    );
    assert_eq!(again.unwrap_err(), format!("No pending request with id {}", id));
    assert!(rx.try_recv().is_err());
}

#[test]
fn completion_of_unknown_identifier_names_it() {
    let mut reg: PendingRegistry<oneshot::Sender<ExecutionResult>> = PendingRegistry::new();
    let err = complete_request(
        &mut reg,
        7,
        ExecutionResult { status_code: 200, body: String::new() },
    )
    .unwrap_err();
    assert_eq!(err, "No pending request with id 7");
}

#[test]
fn completion_against_dropped_receiver_reports_it() {
    let mut reg: PendingRegistry<oneshot::Sender<ExecutionResult>> = PendingRegistry::new();
    let id = reg.get_next_id();
    let (tx, rx) = oneshot::channel::<ExecutionResult>();
    drop(rx);
    reg.register(id, tx);
    let err = complete_request(
        &mut reg,
        id,
        ExecutionResult { status_code: 200, body: String::new() },
    )
    .unwrap_err();
    assert_eq!(err, "Failed to send response - receiver dropped");
    assert_eq!(reg.len(), 0);
}

#[test]
fn timed_out_wait_cleans_up_and_late_completion_is_benign() {
    // A handler that never answers: the host abandons the wait after 50ms,
    // removes the registry entry, and a late completion attempt against
    // the now-absent identifier fails gracefully.
    let rt = tokio::runtime::Builder::new_current_thread()
        .enable_time()
        .build()
        .unwrap();
    rt.block_on(async {
        let mut reg: PendingRegistry<oneshot::Sender<ExecutionResult>> = PendingRegistry::new();
        let id = reg.get_next_id();
        let (tx, rx) = oneshot::channel::<ExecutionResult>();
        reg.register(id, tx);

        let waited = tokio::time::timeout(std::time::Duration::from_millis(50), rx).await;
        assert!(waited.is_err(), "the wait must time out");

        // Defensive cleanup on timeout: the entry leaves exactly once.
        let taken = reg.take(id);
        assert!(taken.is_some());
        assert_eq!(reg.len(), 0);

        let late = complete_request(
            &mut reg,
            id,
            ExecutionResult { status_code: 200, body: "late".to_string() },
        );
        assert_eq!(late.unwrap_err(), format!("No pending request with id {}", id));
    });
}
