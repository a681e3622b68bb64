use script_server::worker::{
    build_execute_script, build_load_script, build_request_json, catch_message, CommandReply,
    LoadOutcome, ResponseCapture, ResultStore, RunOutcome, Worker, WorkerEvent,
};

#[test]
fn load_then_execute_returns_what_the_handler_set() {
    let mut w = Worker::new();
    let reply = w.process(WorkerEvent::Load {
        handler_name: "hello".to_string(),
        code: "async (req, res) => { res.status(201).send('made'); }".to_string(),
        outcome: LoadOutcome::Loaded,
    });
    assert!(matches!(reply, CommandReply::Load(Ok(()))));

    // The handler's response operations, as the capture models them.
    let mut res = ResponseCapture::new();
    res.status(201);
    res.send("made".to_string());
    let recorded = res.recorded();
    assert_eq!(recorded, Some((201, "made".to_string())));

    let reply = w.process(WorkerEvent::Exec {
        stored: recorded,
        run: RunOutcome::Completed,
    });
    match reply {
        CommandReply::Exec(Ok(r)) => {
            assert_eq!(r.status_code, 201);
            assert_eq!(r.body, "made");
        }
        _ => panic!("expected the handler's pair"),
    }
}

#[test]
fn execute_without_response_operations_fails() {
    let mut w = Worker::new();
    let res = ResponseCapture::new();
    assert_eq!(res.recorded(), None);
    let reply = w.process(WorkerEvent::Exec {
        stored: None,
        run: RunOutcome::Completed,
    });
    match reply {
        CommandReply::Exec(Err(m)) => assert_eq!(m, "No result stored"),
        _ => panic!("expected the no-result failure"),
    }
}

#[test]
fn thrown_handler_resolves_to_500_with_message() {
    let body = catch_message("boom");
    assert_eq!(body, "Internal Server Error: boom");
    let mut w = Worker::new();
    let reply = w.process(WorkerEvent::Exec {
        stored: Some((500, body)),
        run: RunOutcome::Completed,
    });
    match reply {
        CommandReply::Exec(Ok(r)) => {
            assert_eq!(r.status_code, 500);
            assert_eq!(r.body, "Internal Server Error: boom");
        }
        _ => panic!("expected the catch pair"),
    }
}

#[test]
fn response_capture_defaults_and_last_write_wins() {
    let mut res = ResponseCapture::new();
    assert_eq!(res.status_code, 200);
    res.json("{\"a\":1}".to_string());
    res.send("plain".to_string());
    assert_eq!(res.recorded(), Some((200, "plain".to_string())));

    let mut res = ResponseCapture::new();
    res.status(404);
    assert_eq!(res.recorded(), Some((404, "".to_string())));

    let mut store = ResultStore::new();
    store.store(200, "one".to_string());
    store.store(503, "two".to_string());
    assert_eq!(store.take(), Some((503, "two".to_string())));
    assert_eq!(store.take(), None);
}

#[test]
fn failed_load_leaves_worker_serving() {
    let mut w = Worker::new();
    let reply = w.process(WorkerEvent::Load {
        handler_name: "bad".to_string(),
        code: "]".to_string(),
        outcome: LoadOutcome::ScriptError("SyntaxError: unexpected token".to_string()),
    });
    match reply {
        CommandReply::Load(Err(m)) => assert_eq!(m, "SyntaxError: unexpected token"),
        _ => panic!("expected the load failure"),
    }
    assert!(w.handler_code("bad").is_none());
    let reply = w.process(WorkerEvent::Load {
        handler_name: "good".to_string(),
        code: "async () => {}".to_string(),
        outcome: LoadOutcome::Loaded,
    });
    assert!(matches!(reply, CommandReply::Load(Ok(()))));
    assert_eq!(w.handler_code("good").map(|c| c.as_str()), Some("async () => {}"));
}

#[test]
fn reloading_a_name_overwrites_it() {
    let mut w = Worker::new();
    w.process(WorkerEvent::Load {
        handler_name: "h".to_string(),
        code: "one".to_string(),
        outcome: LoadOutcome::Loaded,
    });
    w.process(WorkerEvent::Load {
        handler_name: "h".to_string(),
        code: "two".to_string(),
        outcome: LoadOutcome::Loaded,
    });
    assert_eq!(w.handler_code("h").map(|c| c.as_str()), Some("two"));
}

#[test]
fn commands_take_effect_in_queue_order() {
    // One total order: a reload after an execute lands after it, and each
    // reply reflects exactly the state the earlier commands left.
    let mut w = Worker::new();
    let evs = vec![
        WorkerEvent::Load {
            handler_name: "h".to_string(),
            code: "one".to_string(),
            outcome: LoadOutcome::Loaded,
        },
        WorkerEvent::Exec {
            stored: Some((200, "from one".to_string())),
            run: RunOutcome::Completed,
        },
        WorkerEvent::Load {
            handler_name: "h".to_string(),
            code: "two".to_string(),
            outcome: LoadOutcome::Loaded,
        },
        WorkerEvent::Exec {
            stored: Some((200, "from two".to_string())),
            run: RunOutcome::Completed,
        },
    ];
    let mut bodies = Vec::new();
    for ev in evs {
        if let CommandReply::Exec(Ok(r)) = w.process(ev) {
            bodies.push(r.body);
        }
    }
    assert_eq!(bodies, vec!["from one".to_string(), "from two".to_string()]);
    assert_eq!(w.handler_code("h").map(|c| c.as_str()), Some("two"));
}

#[test]
fn engine_error_keeps_the_stale_store() {
    let mut w = Worker::new();
    let reply = w.process(WorkerEvent::Exec {
        stored: Some((200, "left behind".to_string())),
        run: RunOutcome::EngineError("event loop failed".to_string()),
    });
    match reply {
        CommandReply::Exec(Err(m)) => assert_eq!(m, "event loop failed"),
        _ => panic!("expected the engine failure"),
    }
    // The next completed execution still finds the stored pair.
    let reply = w.process(WorkerEvent::Exec {
        stored: None,
        run: RunOutcome::Completed,
    });
    match reply {
        CommandReply::Exec(Ok(r)) => assert_eq!(r.body, "left behind"),
        _ => panic!("expected the stale pair"),
    }
}

#[test]
fn script_texts_are_exact() {
    assert_eq!(
        build_load_script("hello", "async () => {}"),
        "globalThis.hello = async () => {};"
    );

    let params = vec![("id".to_string(), "42".to_string())];
    let query = vec![("q".to_string(), "x".to_string())];
    let req = build_request_json(&params, &query, &None);
    assert_eq!(req, "{\"params\":{\"id\":\"42\"},\"query\":{\"q\":\"x\"},\"body\":null}");

    let req2 = build_request_json(&Vec::new(), &Vec::new(), &Some("{\"n\":1}".to_string()));
    assert_eq!(req2, "{\"params\":{},\"query\":{},\"body\":{\"n\":1}}");

    // Awkward characters in a parameter are escaped as serde_json would
    // escape them.
    let params = vec![("q\"uote".to_string(), "a\\b\n".to_string())];
    let req3 = build_request_json(&params, &Vec::new(), &None);
    let mut obj = serde_json::Map::new();
    obj.insert(
        "q\"uote".to_string(),
        serde_json::Value::String("a\\b\n".to_string()),
    );
    let inner = serde_json::Value::Object(obj).to_string();
    assert_eq!(req3, format!("{{\"params\":{inner},\"query\":{{}},\"body\":null}}"));

    let script = build_execute_script("{}", "hello");
    assert!(script.starts_with("(async () => { const req = {}; const res = {"));
    assert!(script.contains("await globalThis.hello(req, res);"));
    assert!(script.contains("op_store_result(res.statusCode, res.body || '')"));
    assert!(script.contains("op_store_result(500, 'Internal Server Error: ' + err.message)"));
}
