//! The daemon: its protocol, its running turns and what it answers.
use std::collections::VecDeque;

use vstd::prelude::*;

use crate::config::ConfigStore;
use crate::cron::CronManager;
use crate::daemon::approval::ApprovalBroker;
use crate::daemon::chat::ActiveRequests;
use crate::daemon::handlers::Call;
use crate::daemon::protocol::{
    EventFrame, EventKind, EventView, FrameView, JsonRpcRequest, JsonRpcResponse, RequestId, RequestIdView,
    ServerFrame,
};
use crate::json;
use crate::json::{Json, JsonView};
use crate::loop_engine::CancellationToken;
use crate::provider;

pub mod approval;
pub mod audit;
pub mod chat;
pub mod commands;
pub mod control;
pub mod delegation_tool;
pub mod dogfood;
pub mod handlers;
pub mod models;
pub mod pages;
pub mod params;
pub mod protocol;
pub mod runtime;
pub mod server;
pub mod sessions;
pub mod slash;
pub mod subscribe;

verus! {

/// How many bytes of a running turn are kept for those who join late.
pub const ACTIVE_REPLAY_BYTES: usize = 1_048_576;

/// What each kept update counts for beyond its text.
pub const REPLAY_OVERHEAD: usize = 64;

/// A request in its session.
#[derive(Debug)]
pub struct ActiveKey {
    pub session_id: String,
    pub request_id: RequestId,
}

/// What a request in its session says.
pub struct KeyView {
    pub session_id: Seq<char>,
    pub request_id: RequestIdView,
}

impl View for ActiveKey {
    type V = KeyView;

    open spec fn view(&self) -> KeyView {
        KeyView { session_id: self.session_id@, request_id: self.request_id@ }
    }
}

impl Clone for ActiveKey {
    fn clone(&self) -> (r: Self)
        ensures
            r@ == self@,
    {
        ActiveKey { session_id: self.session_id.clone(), request_id: self.request_id.clone() }
    }
}

impl ActiveKey {
    /// Two keys name the same request in the same session.
    pub fn same(&self, other: &ActiveKey) -> (r: bool)
        ensures
            r == (self@ == other@),
    {
        crate::text::same(self.session_id.as_str(), other.session_id.as_str())
            && self.request_id.same(&other.request_id)
    }
}

/// What a running turn tells those who watch it: an event, or how it ended.
#[derive(Debug)]
pub enum ActiveRequestUpdate {
    Event { kind: EventKind, data: Json, run_id: Option<String>, seq: Option<u64> },
    Completed(Json),
    Failed { code: i64, message: String },
}

/// What an update says.
pub enum UpdateView {
    Event { kind: EventKind, data: JsonView, run_id: Option<Seq<char>>, seq: Option<u64> },
    Completed(JsonView),
    Failed { code: i64, message: Seq<char> },
}

impl View for ActiveRequestUpdate {
    type V = UpdateView;

    open spec fn view(&self) -> UpdateView {
        match *self {
            ActiveRequestUpdate::Event { kind, data, run_id, seq } => UpdateView::Event {
                kind,
                data: data@,
                run_id: json::opt_text(run_id),
                seq,
            },
            ActiveRequestUpdate::Completed(result) => UpdateView::Completed(result@),
            ActiveRequestUpdate::Failed { code, message } => UpdateView::Failed {
                code,
                message: message@,
            },
        }
    }
}

impl Clone for ActiveRequestUpdate {
    fn clone(&self) -> (r: Self)
        ensures
            r@ == self@,
    {
        match self {
            ActiveRequestUpdate::Event { kind, data, run_id, seq } => ActiveRequestUpdate::Event {
                kind: *kind,
                data: data.clone(),
                run_id: provider::clone_opt(run_id),
                seq: *seq,
            },
            ActiveRequestUpdate::Completed(result) => ActiveRequestUpdate::Completed(
                result.clone(),
            ),
            ActiveRequestUpdate::Failed { code, message } => ActiveRequestUpdate::Failed {
                code: *code,
                message: message.clone(),
            },
        }
    }
}

/// The update ends its turn.
pub open spec fn is_terminal(u: UpdateView) -> bool {
    !(u is Event)
}

/// The frame that carries an update to a request.
pub open spec fn update_frame(u: UpdateView, id: RequestIdView) -> FrameView {
    match u {
        UpdateView::Event { kind, data, run_id, seq } => FrameView::Event(
            EventView {
                jsonrpc: protocol::JSONRPC_VERSION@,
                request_id: id,
                event: kind,
                data,
                run_id,
                seq,
            },
        ),
        UpdateView::Completed(result) => FrameView::Response(protocol::success_view(id, result)),
        UpdateView::Failed { code, message } => FrameView::Response(
            protocol::failure_view(id, code, message),
        ),
    }
}

/// The bytes that an update counts for: its text and an overhead, at most the highest
/// machine number.
pub open spec fn update_bytes(u: UpdateView) -> nat {
    let text = match u {
        UpdateView::Event { data, .. } => json::json_text_of(data),
        UpdateView::Completed(result) => json::json_text_of(result),
        UpdateView::Failed { message, .. } => message,
    };
    let n = vstd::utf8::encode_utf8(text).len() + REPLAY_OVERHEAD;
    if n > usize::MAX {
        usize::MAX as nat
    } else {
        n as nat
    }
}

impl ActiveRequestUpdate {
    /// The frame that carries the update to a request.
    pub fn to_frame(&self, request_id: RequestId) -> (r: ServerFrame)
        ensures
            r@ == update_frame(self@, request_id@),
    {
        match self {
            ActiveRequestUpdate::Event { kind, data, run_id, seq } => {
                let mut frame = EventFrame::new(request_id, *kind, data.clone());
                frame.run_id = provider::clone_opt(run_id);
                frame.seq = *seq;
                ServerFrame::Event(frame)
            },
            ActiveRequestUpdate::Completed(result) => ServerFrame::Response(
                JsonRpcResponse::success(request_id, result.clone()),
            ),
            ActiveRequestUpdate::Failed { code, message } => ServerFrame::Response(
                JsonRpcResponse::failure(request_id, *code, message.as_str()),
            ),
        }
    }

    /// The bytes that the update counts for.
    pub fn replay_bytes(&self) -> (n: usize)
        ensures
            n == update_bytes(self@),
    {
        let len: usize = match self {
            ActiveRequestUpdate::Event { data, .. } => json::json_text(data).as_str().as_bytes().len(),
            ActiveRequestUpdate::Completed(result) => json::json_text(
                result,
            ).as_str().as_bytes().len(),
            ActiveRequestUpdate::Failed { message, .. } => message.as_str().as_bytes().len(),
        };
        len.saturating_add(REPLAY_OVERHEAD)
    }
}

/// What a list of updates says.
pub open spec fn update_views(v: Seq<ActiveRequestUpdate>) -> Seq<UpdateView> {
    Seq::new(v.len(), |i: int| v[i]@)
}

/// The bytes of a list of updates.
pub open spec fn total_bytes(v: Seq<UpdateView>) -> nat
    decreases v.len(),
{
    if v.len() == 0 {
        0
    } else {
        update_bytes(v[0]) + total_bytes(v.drop_first())
    }
}

/// The latest updates that fit.
pub open spec fn latest_fitting(v: Seq<UpdateView>) -> Seq<UpdateView>
    decreases v.len(),
{
    if v.len() == 0 || total_bytes(v) <= ACTIVE_REPLAY_BYTES {
        v
    } else {
        latest_fitting(v.drop_first())
    }
}

proof fn lemma_total_push(v: Seq<UpdateView>, u: UpdateView)
    ensures
        total_bytes(v.push(u)) == total_bytes(v) + update_bytes(u),
    decreases v.len(),
{
    if v.len() == 0 {
        assert(v.push(u).drop_first() =~= Seq::<UpdateView>::empty());
        assert(total_bytes(Seq::<UpdateView>::empty()) == 0);
    } else {
        assert(v.push(u).drop_first() =~= v.drop_first().push(u));
        lemma_total_push(v.drop_first(), u);
    }
}

proof fn lemma_oversized_last(v: Seq<UpdateView>)
    requires
        v.len() > 0,
        update_bytes(v.last()) > ACTIVE_REPLAY_BYTES,
    ensures
        latest_fitting(v) == Seq::<UpdateView>::empty(),
    decreases v.len(),
{
    let front = v.drop_last();
    lemma_total_push(front, v.last());
    assert(front.push(v.last()) =~= v);
    if v.len() > 1 {
        assert(v.drop_first().last() == v.last());
        lemma_oversized_last(v.drop_first());
    } else {
        assert(v.drop_first() =~= Seq::<UpdateView>::empty());
        assert(latest_fitting(v.drop_first()) == v.drop_first());
    }
}

/// A running turn as those who join late see it.
#[derive(Debug)]
pub struct ActiveRequest {
    pub cancellation: CancellationToken,
    pub run_id: String,
    pub storage_error: Option<String>,
    pub replay: VecDeque<ActiveRequestUpdate>,
    pub replay_bytes: usize,
}

/// What is known of a running turn.
pub struct ActiveView {
    pub cancelled: bool,
    pub run_id: Seq<char>,
    pub storage_error: Option<Seq<char>>,
    pub kept: Seq<UpdateView>,
}

impl View for ActiveRequest {
    type V = ActiveView;

    open spec fn view(&self) -> ActiveView {
        ActiveView {
            cancelled: self.cancellation.cancelled,
            run_id: self.run_id@,
            storage_error: json::opt_text(self.storage_error),
            kept: self.kept(),
        }
    }
}

impl ActiveRequest {
    /// What is kept of the turn.
    pub open spec fn kept(self) -> Seq<UpdateView> {
        update_views(self.replay@)
    }

    /// The bytes are counted right and stay within the bound.
    pub open spec fn wf(self) -> bool {
        &&& self.replay_bytes == total_bytes(self.kept())
        &&& self.replay_bytes <= ACTIVE_REPLAY_BYTES
    }

    /// A turn of which nothing is kept yet.
    pub fn new(cancellation: CancellationToken, run_id: &str) -> (r: Self)
        ensures
            r.wf(),
            r@ == (ActiveView {
                cancelled: cancellation.cancelled,
                run_id: run_id@,
                storage_error: None,
                kept: Seq::empty(),
            }),
    {
        let r = ActiveRequest {
            cancellation,
            run_id: run_id.to_owned(),
            storage_error: None,
            replay: VecDeque::new(),
            replay_bytes: 0,
        };
        assert(r.kept() =~= Seq::<UpdateView>::empty());
        r
    }

    /// Keeps an update; the oldest make room for it.
    pub fn publish(&mut self, update: &ActiveRequestUpdate)
        requires
            old(self).wf(),
        ensures
            final(self).wf(),
            final(self)@ == (ActiveView {
                kept: latest_fitting(old(self)@.kept.push(update@)),
                ..old(self)@
            }),
    {
        let bytes: usize = update.replay_bytes();
        let ghost before = self.kept();
        let ghost all = before.push(update@);
        proof {
            lemma_total_push(before, update@);
            assert(all.last() == update@);
        }
        if bytes > ACTIVE_REPLAY_BYTES {
            self.replay = VecDeque::new();
            self.replay_bytes = 0;
            proof {
                lemma_oversized_last(all);
                assert(self.kept() =~= Seq::<UpdateView>::empty());
            }
            return;
        }
        self.replay.push_back(update.clone());
        assert(self.kept() =~= all);
        self.replay_bytes = self.replay_bytes + bytes;
        while self.replay_bytes > ACTIVE_REPLAY_BYTES
            invariant
                self.replay_bytes == total_bytes(self.kept()),
                latest_fitting(self.kept()) == latest_fitting(all),
                self.run_id == old(self).run_id,
                self.cancellation == old(self).cancellation,
                self.storage_error == old(self).storage_error,
            decreases self.replay@.len(),
        {
            let ghost now = self.kept();
            assert(now.len() > 0);
            match self.replay.pop_front() {
                Some(removed) => {
                    assert(self.kept() =~= now.drop_first());
                    assert(removed@ == now[0]);
                    self.replay_bytes = self.replay_bytes - removed.replay_bytes();
                },
                None => {},
            }
        }
    }

    /// What is kept of the turn, for one who joins.
    pub fn subscribe(&self) -> (r: Vec<ActiveRequestUpdate>)
        ensures
            update_views(r@) == self.kept(),
    {
        let mut out: Vec<ActiveRequestUpdate> = Vec::new();
        let mut i: usize = 0;
        while i < self.replay.len()
            invariant
                i <= self.replay@.len(),
                out@.len() == i,
                forall|k: int| 0 <= k < i ==> (#[trigger] out@[k])@ == self.replay@[k]@,
            decreases self.replay@.len() - i,
        {
            out.push(self.replay[i].clone());
            i = i + 1;
        }
        assert(update_views(out@) =~= self.kept());
        out
    }
}

/// What is kept of a turn are its latest updates, in order and without a gap.
pub proof fn law_replay_is_a_suffix(v: Seq<UpdateView>)
    ensures
        latest_fitting(v).len() <= v.len(),
        latest_fitting(v) == v.skip(v.len() - latest_fitting(v).len()),
        total_bytes(latest_fitting(v)) <= ACTIVE_REPLAY_BYTES,
        total_bytes(v) <= ACTIVE_REPLAY_BYTES ==> latest_fitting(v) == v,
    decreases v.len(),
{
    if v.len() == 0 || total_bytes(v) <= ACTIVE_REPLAY_BYTES {
        assert(v.skip(0) =~= v);
    } else {
        law_replay_is_a_suffix(v.drop_first());
        let kept = latest_fitting(v.drop_first());
        assert(v.drop_first().skip(v.len() - 1 - kept.len()) =~= v.skip(v.len() - kept.len()));
    }
}

/// What the daemon holds while it runs.
#[derive(Debug)]
pub struct DaemonState {
    pub default_session: String,
    pub current_session: String,
    pub active: ActiveRequests,
    pub approvals: ApprovalBroker,
    pub cron: Option<CronManager>,
    pub config_store: ConfigStore,
    pub daemon_log_path: String,
    pub shutdown: CancellationToken,
}

impl DaemonState {
    /// What is held is in order.
    pub open spec fn wf(self) -> bool {
        &&& self.active.wf()
        &&& approval::distinct_ids(self.approvals@)
        &&& self.cron is Some ==> self.cron->0.wf()
    }

    /// A daemon that has nothing to do yet.
    pub fn new(default_session: &str, approvals: ApprovalBroker, daemon_log_path: &str) -> (r: Self)
        requires
            approval::distinct_ids(approvals@),
        ensures
            r.wf(),
            r.default_session@ == default_session@,
            r.current_session@ == default_session@,
            r.approvals == approvals,
            r.cron is None,
            r.daemon_log_path@ == daemon_log_path@,
            r.active.keys() == Seq::<KeyView>::empty(),
            !r.shutdown.cancelled,
    {
        DaemonState::new_with_services_and_log_path(
            default_session,
            approvals,
            None,
            daemon_log_path,
            ConfigStore::new(""),
        )
    }

    /// A daemon with its services that has nothing to do yet.
    pub fn new_with_services_and_log_path(
        default_session: &str,
        approvals: ApprovalBroker,
        cron: Option<CronManager>,
        daemon_log_path: &str,
        config_store: ConfigStore,
    ) -> (r: Self)
        requires
            approval::distinct_ids(approvals@),
            cron is Some ==> cron->0.wf(),
        ensures
            r.wf(),
            r.default_session@ == default_session@,
            r.current_session@ == default_session@,
            r.approvals == approvals,
            r.cron == cron,
            r.config_store == config_store,
            r.daemon_log_path@ == daemon_log_path@,
            r.active.keys() == Seq::<KeyView>::empty(),
            !r.shutdown.cancelled,
    {
        DaemonState {
            default_session: default_session.to_owned(),
            current_session: default_session.to_owned(),
            active: ActiveRequests::new(),
            approvals,
            cron,
            config_store,
            daemon_log_path: daemon_log_path.to_owned(),
            shutdown: CancellationToken::new(),
        }
    }

    /// Makes a session that was opened anew the current one, and answers the one who asked for
    /// it. To take up a session again changes nothing of this.
    pub fn session_opened(&mut self, session_id: &str) -> (r: Json)
        ensures
            final(self).current_session@ == session_id@,
            final(self).default_session == old(self).default_session,
            final(self).active == old(self).active,
            final(self).approvals == old(self).approvals,
            final(self).cron == old(self).cron,
            final(self).config_store == old(self).config_store,
            final(self).daemon_log_path == old(self).daemon_log_path,
            final(self).shutdown == old(self).shutdown,
            r@ == sessions::new_session_json(session_id@),
    {
        self.current_session = session_id.to_owned();
        sessions::session_new(session_id)
    }

    /// A turn runs or waits for its turn.
    pub fn has_active_turns(&self) -> (r: bool)
        ensures
            r == (self.active.keys().len() > 0),
    {
        self.active.has_active_turns()
    }

    /// Something is to be done even if nobody is connected.
    pub fn has_persistent_background_work(&self) -> (r: bool)
        ensures
            r == (match self.cron {
                Some(cron) => cron.heartbeat_ms is Some || exists|i: int|
                    0 <= i < cron.store@.len() && (#[trigger] cron.store@[i]).enabled,
                None => false,
            }),
    {
        match &self.cron {
            Some(cron) => cron.keeps_daemon_alive(),
            None => false,
        }
    }

    /// Reads the call of a request. One that is no call is answered at once.
    pub fn handle_request(&self, request: &JsonRpcRequest) -> (r: Result<Call, JsonRpcResponse>)
        ensures
            match handlers::call_of(request@.method, request@.params) {
                None => r is Err && r->Err_0@ == protocol::failure_view(
                    request@.id,
                    handlers::METHOD_NOT_FOUND,
                    "未知 RPC 方法: "@ + request@.method,
                ),
                Some(None) => r is Err && r->Err_0@ == protocol::failure_view(
                    request@.id,
                    handlers::INVALID_PARAMS,
                    handlers::PARAMS_ERROR@,
                ),
                Some(Some(c)) => r is Ok && r->Ok_0@ == c,
            },
    {
        match handlers::route(request.method.as_str(), &request.params) {
            Ok(call) => Ok(call),
            Err((code, message)) => Err(
                JsonRpcResponse::failure(request.id.clone(), code, message.as_str()),
            ),
        }
    }
}

/// An update is told to the request it is for: an event as an event of its kind with what it
/// carries, an end as the one reply, with the result or with the error.
pub proof fn law_updates_are_told_as_they_are(u: UpdateView, id: RequestIdView)
    ensures
        protocol::frame_id(update_frame(u, id)) == id,
        update_frame(u, id) is Event <==> u is Event,
        u matches UpdateView::Event { kind, data, run_id, seq } ==> (update_frame(
            u,
            id,
        ) matches FrameView::Event(e) && e.event == kind && e.data == data && e.run_id == run_id
            && e.seq == seq && e.request_id == id),
        u matches UpdateView::Completed(result) ==> (update_frame(u, id) matches FrameView::Response(
            r,
        ) && r.result == Some(result) && r.error is None && r.id == id),
        u matches UpdateView::Failed { code, message } ==> (update_frame(
            u,
            id,
        ) matches FrameView::Response(r) && r.result is None && r.error is Some
            && r.error->0.code == code && r.error->0.message == message && r.id == id),
        is_terminal(u) <==> update_frame(u, id) is Response,
{
}

/// What is kept for a replay is as much of the end as fits: one update more would be too
/// much.
pub proof fn law_replay_keeps_what_fits(v: Seq<UpdateView>)
    ensures
        latest_fitting(v).len() < v.len() ==> total_bytes(
            v.skip(v.len() - latest_fitting(v).len() - 1),
        ) > ACTIVE_REPLAY_BYTES,
    decreases v.len(),
{
    law_replay_is_a_suffix(v);
    if v.len() > 0 && total_bytes(v) > ACTIVE_REPLAY_BYTES {
        let w = v.drop_first();
        law_replay_keeps_what_fits(w);
        law_replay_is_a_suffix(w);
        let n = latest_fitting(v).len();
        if n < w.len() {
            assert(w.skip(w.len() - n - 1) =~= v.skip(v.len() - n - 1));
        } else {
            assert(v.skip(0) =~= v);
        }
    }
}

/// The size of a log is the size of its parts together.
pub proof fn law_sizes_add_up(a: Seq<UpdateView>, b: Seq<UpdateView>)
    ensures
        total_bytes(a + b) == total_bytes(a) + total_bytes(b),
    decreases a.len(),
{
    if a.len() == 0 {
        assert(a + b =~= b);
    } else {
        law_sizes_add_up(a.drop_first(), b);
        assert((a + b).drop_first() =~= a.drop_first() + b);
        assert((a + b)[0] == a[0]);
    }
}

} // verus!
