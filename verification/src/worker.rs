//! The worker side of the command protocol.  The worker owns the one script
//! engine; commands reach it over a single queue and are processed strictly
//! one at a time, each to completion, and every command resolves its reply
//! channel exactly once — a failed command never stops the worker.  This
//! module holds what of that is logic: the handler table, the capture of
//! response operations a running handler performs, the result store the
//! script's wrapping layer records into, the script texts handed to the
//! engine, and the sequential-processing law.

use vstd::prelude::*;
use vstd::string::StringExecFns;
use crate::jsontext::{json_obj_str_str, pairs_view, push_json_obj_str_str};
use crate::strmap::{assoc_get, assoc_without, StrMap};
use crate::text::push_str;

verus! {

/// What one handler invocation resolves to.
#[derive(Debug, Clone)]
pub struct ExecutionResult {
    pub status_code: u16,
    pub body: String,
}

/// How the engine answered a load: the source evaluated, or it was refused
/// with a message.
pub enum LoadOutcome {
    Loaded,
    ScriptError(String),
}

/// How the engine's event loop left an execution: run to exhaustion, or
/// failed with a message.
pub enum RunOutcome {
    Completed,
    EngineError(String),
}

/// The reply a command resolves to.
pub enum CommandReply {
    Load(Result<(), String>),
    Exec(Result<ExecutionResult, String>),
}

/// One command as the worker experiences it: the command's content together
/// with what the engine did with it.  For an execution, `stored` is the
/// last pair the script recorded during this command, if any.
pub enum WorkerEvent {
    Load { handler_name: String, code: String, outcome: LoadOutcome },
    Exec { stored: Option<(u16, String)>, run: RunOutcome },
}

/// The slot the script's wrapping layer records a handler's terminal
/// `(status, body)` pair into; recording again overwrites (last write
/// wins), and taking empties it.
pub struct ResultStore {
    slot: Option<(u16, String)>,
}

impl ResultStore {
    /// What is recorded.
    pub closed spec fn view(&self) -> Option<(u16, String)> {
        self.slot
    }

    /// An empty store.
    pub fn new() -> (r: Self)
        ensures
            r@ is None,
    {
        ResultStore { slot: None }
    }

    /// Records a pair; an earlier recording is overwritten.
    pub fn store(&mut self, status_code: u16, body: String)
        ensures
            final(self)@ == Some((status_code, body)),
    {
        self.slot = Some((status_code, body));
    }

    /// Takes the recorded pair out, leaving the store empty.
    pub fn take(&mut self) -> (r: Option<(u16, String)>)
        ensures
            r == old(self)@,
            final(self)@ is None,
    {
        let mut out: Option<(u16, String)> = None;
        core::mem::swap(&mut out, &mut self.slot);
        out
    }
}

/// The response value a running handler sees: `send` and `json` set the
/// body, `status` sets the code, and touching any of them marks that the
/// handler answered at all.  A fresh capture reads status 200 with no body.
pub struct ResponseCapture {
    pub status_code: u16,
    pub body: Option<String>,
    pub touched: bool,
}

impl ResponseCapture {
    /// A fresh capture: status 200, no body, untouched.
    pub fn new() -> (r: Self)
        ensures
            r.status_code == 200,
            r.body is None,
            !r.touched,
    {
        ResponseCapture { status_code: 200, body: None, touched: false }
    }

    /// The handler sent a body as plain text.
    pub fn send(&mut self, data: String)
        ensures
            final(self).status_code == old(self).status_code,
            final(self).body == Some(data),
            final(self).touched,
    {
        self.body = Some(data);
        self.touched = true;
    }

    /// The handler sent a body it had already encoded as JSON (the
    /// content-type mark it also sets lives in the script layer).
    pub fn json(&mut self, data: String)
        ensures
            final(self).status_code == old(self).status_code,
            final(self).body == Some(data),
            final(self).touched,
    {
        self.body = Some(data);
        self.touched = true;
    }

    /// The handler set the status code.
    pub fn status(&mut self, code: u16)
        ensures
            final(self).status_code == code,
            final(self).body == old(self).body,
            final(self).touched,
    {
        self.status_code = code;
        self.touched = true;
    }

    /// What the wrapping layer records when the handler resolves: the
    /// captured pair, the body defaulting to empty — or nothing at all when
    /// the handler never touched the response.
    pub fn recorded(self) -> (r: Option<(u16, String)>)
        ensures
            self.touched ==> (r matches Some(p) && p.0 == self.status_code && p.1@ == match self
                .body {
                Some(b) => b@,
                None => Seq::<char>::empty(),
            }),
            !self.touched ==> r is None,
    {
        if self.touched {
            let body = match self.body {
                Some(b) => b,
                None => String::new(),
            };
            Some((self.status_code, body))
        } else {
            None
        }
    }
}

/// The message a thrown handler resolves to, beside status 500.
pub open spec fn spec_catch_message(msg: Seq<char>) -> Seq<char> {
    "Internal Server Error: "@ + msg
}

/// The body text for a handler that threw: the fixed prefix and the
/// error's message.
pub fn catch_message(msg: &str) -> (r: String)
    ensures
        r@ == spec_catch_message(msg@),
{
    let mut out = String::from_str("Internal Server Error: ");
    push_str(&mut out, msg);
    out
}

/// A reply as contracts speak of it: over character sequences.
pub enum ReplyView {
    LoadOk,
    LoadErr(Seq<char>),
    ExecOk(u16, Seq<char>),
    ExecErr(Seq<char>),
}

/// The view of an exec-side reply.
pub open spec fn reply_view(r: CommandReply) -> ReplyView {
    match r {
        CommandReply::Load(Ok(())) => ReplyView::LoadOk,
        CommandReply::Load(Err(m)) => ReplyView::LoadErr(m@),
        CommandReply::Exec(Ok(res)) => ReplyView::ExecOk(res.status_code, res.body@),
        CommandReply::Exec(Err(m)) => ReplyView::ExecErr(m@),
    }
}

/// What the handler table becomes under a load: on success the handler is
/// defined or overwritten; a refused load changes nothing.
pub open spec fn spec_apply_load(
    h: Seq<(String, String)>,
    handler_name: String,
    code: String,
    outcome: LoadOutcome,
) -> Seq<(String, String)> {
    match outcome {
        LoadOutcome::Loaded => assoc_without(h, handler_name@).push((handler_name, code)),
        LoadOutcome::ScriptError(_) => h,
    }
}

/// The store an execution leaves behind.  What the script recorded
/// overwrites the store; an engine failure leaves that in place; a
/// completed run takes the store with it.
pub open spec fn spec_exec_store(
    store: Option<(u16, String)>,
    stored: Option<(u16, String)>,
    run: RunOutcome,
) -> Option<(u16, String)> {
    let merged = if stored is Some {
        stored
    } else {
        store
    };
    match run {
        RunOutcome::EngineError(_) => merged,
        RunOutcome::Completed => None,
    }
}

/// The worker's per-command state change: the loaded handlers and the
/// result store.
pub open spec fn spec_step(
    st: (Seq<(String, String)>, Option<(u16, String)>),
    ev: WorkerEvent,
) -> (Seq<(String, String)>, Option<(u16, String)>) {
    match ev {
        WorkerEvent::Load { handler_name, code, outcome } => (
            spec_apply_load(st.0, handler_name, code, outcome),
            st.1,
        ),
        WorkerEvent::Exec { stored, run } => (st.0, spec_exec_store(st.1, stored, run)),
    }
}

/// The reply one command resolves to, given the state it meets.  An engine
/// failure is the reply; a completed run answers with the recorded pair, or
/// fails as "No result stored" when nothing was recorded.
pub open spec fn spec_reply(
    st: (Seq<(String, String)>, Option<(u16, String)>),
    ev: WorkerEvent,
) -> ReplyView {
    match ev {
        WorkerEvent::Load { handler_name, code, outcome } => match outcome {
            LoadOutcome::Loaded => ReplyView::LoadOk,
            LoadOutcome::ScriptError(m) => ReplyView::LoadErr(m@),
        },
        WorkerEvent::Exec { stored, run } => {
            let merged = if stored is Some {
                stored
            } else {
                st.1
            };
            match run {
                RunOutcome::EngineError(m) => ReplyView::ExecErr(m@),
                RunOutcome::Completed => match merged {
                    Some((s, b)) => ReplyView::ExecOk(s, b@),
                    None => ReplyView::ExecErr("No result stored"@),
                },
            }
        },
    }
}

/// The state after a sequence of commands, processed strictly in order.
pub open spec fn run_worker(
    st: (Seq<(String, String)>, Option<(u16, String)>),
    evs: Seq<WorkerEvent>,
) -> (Seq<(String, String)>, Option<(u16, String)>)
    decreases evs.len(),
{
    if evs.len() == 0 {
        st
    } else {
        spec_step(run_worker(st, evs.drop_last()), evs.last())
    }
}

/// The replies of a sequence of commands, in order.
pub open spec fn worker_replies(
    st: (Seq<(String, String)>, Option<(u16, String)>),
    evs: Seq<WorkerEvent>,
) -> Seq<ReplyView>
    decreases evs.len(),
{
    if evs.len() == 0 {
        Seq::empty()
    } else {
        worker_replies(st, evs.drop_last()).push(
            spec_reply(run_worker(st, evs.drop_last()), evs.last()),
        )
    }
}

/// The serialization law.  However many callers feed the queue, the worker
/// sees one total order of commands, and processing that order is a
/// sequential fold: splitting the sequence anywhere, what follows acts on
/// exactly the state the prefix left, and each command's reply depends only
/// on the commands before it.  No two commands' effects interleave.
pub proof fn lemma_worker_serial(
    st: (Seq<(String, String)>, Option<(u16, String)>),
    a: Seq<WorkerEvent>,
    b: Seq<WorkerEvent>,
)
    ensures
        run_worker(st, a + b) == run_worker(run_worker(st, a), b),
        worker_replies(st, a + b) == worker_replies(st, a) + worker_replies(
            run_worker(st, a),
            b,
        ),
    decreases b.len(),
{
    if b.len() == 0 {
        assert(a + b =~= a);
        assert(worker_replies(st, a) + worker_replies(run_worker(st, a), b) =~= worker_replies(
            st,
            a,
        ));
    } else {
        lemma_worker_serial(st, a, b.drop_last());
        assert((a + b).drop_last() =~= a + b.drop_last());
        assert((a + b).last() == b.last());
        assert(worker_replies(st, a + b) =~= worker_replies(st, a) + worker_replies(
            run_worker(st, a),
            b,
        ));
    }
}

/// The request-context JSON handed to a handler: its path parameters and
/// query pairs as flat string-to-string objects, and the body as the JSON
/// it arrived as, `null` when there was none.
pub open spec fn spec_request_json(
    params: Seq<(Seq<char>, Seq<char>)>,
    query: Seq<(Seq<char>, Seq<char>)>,
    body: Option<Seq<char>>,
) -> Seq<char> {
    "{\"params\":"@ + json_obj_str_str(params) + ",\"query\":"@ + json_obj_str_str(query)
        + ",\"body\":"@ + (match body {
        Some(b) => b,
        None => "null"@,
    }) + "}"@
}

/// Renders the request context a handler receives.  The body text arrives
/// already JSON-encoded and stands verbatim.
pub fn build_request_json(
    params: &Vec<(String, String)>,
    query: &Vec<(String, String)>,
    body: &Option<String>,
) -> (r: String)
    ensures
        r@ == spec_request_json(pairs_view(params@), pairs_view(query@), match body {
            Some(b) => Some(b@),
            None => None,
        }),
{
    let mut out = String::from_str("{\"params\":");
    push_json_obj_str_str(&mut out, params);
    push_str(&mut out, ",\"query\":");
    push_json_obj_str_str(&mut out, query);
    push_str(&mut out, ",\"body\":");
    match body {
        Some(b) => push_str(&mut out, b.as_str()),
        None => push_str(&mut out, "null"),
    }
    push_str(&mut out, "}");
    assert(out@ =~= spec_request_json(pairs_view(params@), pairs_view(query@), match body {
        Some(b) => Some(b@),
        None => None,
    }));
    out
}

/// The script a load evaluates: it defines (or overwrites) the handler
/// under its name on the global object.
pub open spec fn spec_load_script(handler_name: Seq<char>, code: Seq<char>) -> Seq<char> {
    "globalThis."@ + handler_name + " = "@ + code + ";"@
}

/// Renders the script that defines a handler under its name.
pub fn build_load_script(handler_name: &str, code: &str) -> (r: String)
    ensures
        r@ == spec_load_script(handler_name@, code@),
{
    let mut out = String::from_str("globalThis.");
    push_str(&mut out, handler_name);
    push_str(&mut out, " = ");
    push_str(&mut out, code);
    push_str(&mut out, ";");
    assert(out@ =~= spec_load_script(handler_name@, code@));
    out
}

/// The wrapping script an execution evaluates.  It builds the response
/// value whose operations `ResponseCapture` models, awaits the handler,
/// records the captured pair through the store-result host operation when
/// the handler touched the response, and converts a thrown error into the
/// 500 pair with the catch message.
pub open spec fn spec_execute_script(req_json: Seq<char>, handler_name: Seq<char>) -> Seq<char> {
    "(async () => { const req = "@ + req_json
        + "; const res = { statusCode: 200, body: null, headers: {}, touched: false, send(data) { this.touched = true; this.body = typeof data === 'string' ? data : JSON.stringify(data); }, json(data) { this.touched = true; this.headers['Content-Type'] = 'application/json'; this.body = JSON.stringify(data); }, status(code) { this.touched = true; this.statusCode = code; return this; } }; try { await globalThis."@
        + handler_name
        + "(req, res); if (res.touched) { Deno.core.ops.op_store_result(res.statusCode, res.body || ''); } } catch (err) { Deno.core.ops.op_store_result(500, 'Internal Server Error: ' + err.message); } })()"@
}

/// Renders the wrapping script that runs a handler against a request
/// context.
pub fn build_execute_script(req_json: &str, handler_name: &str) -> (r: String)
    ensures
        r@ == spec_execute_script(req_json@, handler_name@),
{
    let mut out = String::from_str("(async () => { const req = ");
    push_str(&mut out, req_json);
    push_str(
        &mut out,
        "; const res = { statusCode: 200, body: null, headers: {}, touched: false, send(data) { this.touched = true; this.body = typeof data === 'string' ? data : JSON.stringify(data); }, json(data) { this.touched = true; this.headers['Content-Type'] = 'application/json'; this.body = JSON.stringify(data); }, status(code) { this.touched = true; this.statusCode = code; return this; } }; try { await globalThis.",
    );
    push_str(&mut out, handler_name);
    push_str(
        &mut out,
        "(req, res); if (res.touched) { Deno.core.ops.op_store_result(res.statusCode, res.body || ''); } } catch (err) { Deno.core.ops.op_store_result(500, 'Internal Server Error: ' + err.message); } })()",
    );
    assert(out@ =~= spec_execute_script(req_json@, handler_name@));
    out
}

/// The worker's mutable state: the handlers the engine holds, by name, and
/// the store the script's wrapping layer records into.
pub struct Worker {
    handlers: StrMap<String>,
    store: ResultStore,
}

impl Worker {
    /// The loaded handlers, in load order.
    pub closed spec fn handlers_view(&self) -> Seq<(String, String)> {
        self.handlers@
    }

    /// What the store holds.
    pub closed spec fn store_view(&self) -> Option<(u16, String)> {
        self.store@
    }

    /// No handler name occurs twice.
    pub open spec fn wf(&self) -> bool {
        crate::strmap::assoc_distinct(self.handlers_view())
    }

    /// A worker with no handlers and an empty store.
    pub fn new() -> (r: Self)
        ensures
            r.handlers_view() =~= Seq::<(String, String)>::empty(),
            r.store_view() is None,
            r.wf(),
    {
        Worker { handlers: StrMap::new(), store: ResultStore::new() }
    }

    /// The code loaded under a handler name.
    pub fn handler_code(&self, handler_name: &str) -> (r: Option<&String>)
        ensures
            match r {
                Some(code) => assoc_get(self.handlers_view(), handler_name@) == Some(*code),
                None => assoc_get(self.handlers_view(), handler_name@) is None,
            },
    {
        self.handlers.get(handler_name)
    }

    /// Records what the script's wrapping layer stored while a command ran.
    pub fn record(&mut self, status_code: u16, body: String)
        ensures
            final(self).store_view() == Some((status_code, body)),
            final(self).handlers_view() == old(self).handlers_view(),
            old(self).wf() ==> final(self).wf(),
    {
        self.store.store(status_code, body);
    }

    /// Processes one command to completion: the handler table and store
    /// move exactly as the sequential model says, and the reply — success
    /// or failure — is handed back for the command's reply channel.
    pub fn process(&mut self, ev: WorkerEvent) -> (r: CommandReply)
        requires
            old(self).wf(),
        ensures
            final(self).wf(),
            (final(self).handlers_view(), final(self).store_view()) == spec_step(
                (old(self).handlers_view(), old(self).store_view()),
                ev,
            ),
            reply_view(r) == spec_reply((old(self).handlers_view(), old(self).store_view()), ev),
    {
        match ev {
            WorkerEvent::Load { handler_name, code, outcome } => match outcome {
                LoadOutcome::Loaded => {
                    self.handlers.insert(handler_name, code);
                    CommandReply::Load(Ok(()))
                },
                LoadOutcome::ScriptError(m) => CommandReply::Load(Err(m)),
            },
            WorkerEvent::Exec { stored, run } => {
                if let Some((s, b)) = stored {
                    self.store.store(s, b);
                }
                match run {
                    RunOutcome::EngineError(m) => CommandReply::Exec(Err(m)),
                    RunOutcome::Completed => match self.store.take() {
                        Some((s, b)) => CommandReply::Exec(
                            Ok(ExecutionResult { status_code: s, body: b }),
                        ),
                        None => CommandReply::Exec(
                            Err(String::from_str("No result stored")),
                        ),
                    },
                }
            },
        }
    }
}

} // verus!
