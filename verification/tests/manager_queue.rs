use script_server::manager::{JsHandlerManager, WorkerMessage};
use script_server::worker::{
    CommandReply, LoadOutcome, RunOutcome, Worker, WorkerEvent,
};
use tokio::sync::{mpsc, oneshot};

#[test]
fn commands_cross_the_queue_in_order_and_replies_come_back() {
    let rt = tokio::runtime::Builder::new_current_thread().build().unwrap();
    rt.block_on(async {
        let (tx, mut rx) = mpsc::unbounded_channel::<WorkerMessage>();
        let manager = JsHandlerManager::new_with_sender(tx);
        let also = manager.dup();

        let (load_tx, load_rx) = oneshot::channel();
        manager
            .enqueue_load(
                "hello".to_string(),
                "async (req, res) => { res.send('hi'); }".to_string(),
                load_tx,
            )
            .unwrap();

        let (exec_tx, exec_rx) = oneshot::channel();
        also.enqueue_execute(
            "hello".to_string(),
            vec![("id".to_string(), "1".to_string())],
            Vec::new(),
            None,
            exec_tx,
        )
        .unwrap();

        // The worker drains the one queue strictly in arrival order.
        let mut worker = Worker::new();
        for _ in 0..2 {
            match rx.recv().await.unwrap() {
                WorkerMessage::LoadHandler { handler_name, code, response_tx } => {
                    let reply = worker.process(WorkerEvent::Load {
                        handler_name,
                        code,
                        outcome: LoadOutcome::Loaded,
                    });
                    let out = match reply {
                        CommandReply::Load(r) => r,
                        CommandReply::Exec(_) => panic!("a load must get a load reply"),
                    };
                    response_tx.send(out).unwrap();
                }
                WorkerMessage::Execute { response_tx, .. } => {
                    let reply = worker.process(WorkerEvent::Exec {
                        stored: Some((200, "hi".to_string())),
                        run: RunOutcome::Completed,
                    });
                    let out = match reply {
                        CommandReply::Exec(r) => {
                            r.map(|res| (res.status_code, res.body))
                        }
                        CommandReply::Load(_) => panic!("an execute must get an exec reply"),
                    };
                    response_tx.send(out).unwrap();
                }
            }
        }

        assert_eq!(load_rx.await.unwrap(), Ok(()));
        assert_eq!(exec_rx.await.unwrap(), Ok((200, "hi".to_string())));
        assert!(worker.handler_code("hello").is_some());
    });
}

#[test]
fn a_closed_queue_reports_channel_closed() {
    let (tx, rx) = mpsc::unbounded_channel::<WorkerMessage>();
    drop(rx);
    let manager = JsHandlerManager::new_with_sender(tx);
    let (load_tx, _load_rx) = oneshot::channel();
    let err = manager
        .enqueue_load("h".to_string(), "c".to_string(), load_tx)
        .unwrap_err();
    assert_eq!(err, "channel closed");
}
