//! The handler manager's queue side: the message type that crosses to the
//! worker thread, with one single-use reply channel each, and the
//! enqueueing itself.  Every call crosses the thread boundary exactly once
//! via the queue and once back via the reply channel; awaiting that
//! channel is the caller's side of the bargain and happens outside.

use vstd::prelude::*;
use crate::reply::{clone_unbounded_sender, unbounded_send};

verus! {

/// A message for the worker: a command together with its single-use reply
/// channel.
pub enum WorkerMessage {
    Execute {
        handler_name: String,
        params: Vec<(String, String)>,
        query: Vec<(String, String)>,
        body: Option<String>,
        response_tx: tokio::sync::oneshot::Sender<Result<(u16, String), String>>,
    },
    LoadHandler {
        handler_name: String,
        code: String,
        response_tx: tokio::sync::oneshot::Sender<Result<(), String>>,
    },
}

/// The externally callable facade: it feeds the worker's queue.  Clones of
/// it feed the same queue.
pub struct JsHandlerManager {
    tx: tokio::sync::mpsc::UnboundedSender<WorkerMessage>,
}

impl JsHandlerManager {
    /// A manager over the sending half of the worker's queue.
    pub fn new_with_sender(tx: tokio::sync::mpsc::UnboundedSender<WorkerMessage>) -> Self {
        JsHandlerManager { tx }
    }

    /// Another handle on the same queue.
    pub fn dup(&self) -> Self {
        JsHandlerManager { tx: clone_unbounded_sender(&self.tx) }
    }

    /// Queues a load command.  It fails only when the worker is gone and
    /// the queue closed; the reply then never comes.
    pub fn enqueue_load(
        &self,
        handler_name: String,
        code: String,
        response_tx: tokio::sync::oneshot::Sender<Result<(), String>>,
    ) -> (r: Result<(), String>)
        ensures
            r matches Err(m) ==> m@ == "channel closed"@,
    {
        unbounded_send(
            &self.tx,
            WorkerMessage::LoadHandler { handler_name, code, response_tx },
        )
    }

    /// Queues an execute command, with the same failure mode.
    pub fn enqueue_execute(
        &self,
        handler_name: String,
        params: Vec<(String, String)>,
        query: Vec<(String, String)>,
        body: Option<String>,
        response_tx: tokio::sync::oneshot::Sender<Result<(u16, String), String>>,
    ) -> (r: Result<(), String>)
        ensures
            r matches Err(m) ==> m@ == "channel closed"@,
    {
        unbounded_send(
            &self.tx,
            WorkerMessage::Execute { handler_name, params, query, body, response_tx },
        )
    }
}

} // verus!
