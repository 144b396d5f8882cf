//! The daemon's socket: frames in and out, and how long the daemon stays.
use vstd::prelude::*;

use crate::daemon::approval;
use crate::daemon::approval::PendingView;
use crate::daemon::protocol;
use crate::daemon::protocol::{
    decode_request, encode_server_frame, server_frame_request_id, FrameView, JsonRpcRequest,
    JsonRpcResponse, ProtocolError, RequestId, RequestIdView, ServerFrame, MAX_FRAME_BYTES,
};
use crate::daemon::{ActiveView, DaemonState, KeyView};
use crate::loop_engine::CancellationToken;
use crate::text;

verus! {

/// The code for what is too large.
pub const TOO_LARGE: i64 = -32002;

/// The code for what cannot be read.
pub const PARSE_ERROR: i64 = -32700;

/// How long the daemon stays when nobody is connected, in milliseconds.
pub const IDLE_EXIT_MS: u64 = 2000;

/// Who is connected, and since when nobody is.
#[derive(Clone, Copy, Debug, PartialEq, Eq, Structural)]
pub struct Lifecycle {
    pub clients: usize,
    pub accepted_any: bool,
    pub idle_since: Option<u64>,
}

impl Lifecycle {
    /// Nobody was ever connected.
    pub fn new() -> (r: Self)
        ensures
            r == (Lifecycle { clients: 0, accepted_any: false, idle_since: None }),
    {
        Lifecycle { clients: 0, accepted_any: false, idle_since: None }
    }

    /// Someone connects.
    pub fn on_accept(&mut self)
        ensures
            *final(self) == (Lifecycle {
                clients: if old(self).clients == usize::MAX {
                    usize::MAX
                } else {
                    (old(self).clients + 1) as usize
                },
                accepted_any: true,
                idle_since: None,
            }),
    {
        self.clients = self.clients.saturating_add(1);
        self.accepted_any = true;
        self.idle_since = None;
    }

    /// Someone leaves at `now`.
    pub fn on_done(&mut self, now: u64)
        ensures
            ({
                let left: usize = if old(self).clients == 0 {
                    0
                } else {
                    (old(self).clients - 1) as usize
                };
                *final(self) == (Lifecycle {
                    clients: left,
                    accepted_any: old(self).accepted_any,
                    idle_since: if left == 0 {
                        Some(now)
                    } else {
                        old(self).idle_since
                    },
                })
            }),
    {
        self.clients = self.clients.saturating_sub(1);
        if self.clients == 0 {
            self.idle_since = Some(now);
        }
    }

    /// The daemon is done: someone was there, nobody is any more and has not been for a
    /// while, no turn runs, and nothing is to be done in the background.
    pub fn is_done(&self, state: &DaemonState, now: u64) -> (r: bool)
        ensures
            r == (self.accepted_any && self.clients == 0 && state.active.keys().len() == 0 && !(
            match state.cron {
                Some(cron) => cron.heartbeat_ms is Some || exists|i: int|
                    0 <= i < cron.store@.len() && (#[trigger] cron.store@[i]).enabled,
                None => false,
            }) && (match self.idle_since {
                Some(since) => now - since >= IDLE_EXIT_MS,
                None => false,
            })),
    {
        self.accepted_any && self.clients == 0 && !state.has_active_turns()
            && !state.has_persistent_background_work() && match self.idle_since {
            Some(since) => now >= since && now - since >= IDLE_EXIT_MS,
            None => false,
        }
    }
}

/// The questions that stay when all the requests end, one after the other.
pub open spec fn after_requests(v: Seq<PendingView>, keys: Seq<KeyView>) -> Seq<PendingView>
    decreases keys.len(),
{
    if keys.len() == 0 {
        v
    } else {
        approval::staying(
            after_requests(v, keys.drop_last()),
            Some(keys.last().session_id),
            keys.last().request_id,
        )
    }
}

/// The questions that end when all the requests end.
pub open spec fn ended_questions(v: Seq<PendingView>, keys: Seq<KeyView>) -> Seq<Seq<char>>
    decreases keys.len(),
{
    if keys.len() == 0 {
        Seq::empty()
    } else {
        ended_questions(v, keys.drop_last()) + approval::ending(
            after_requests(v, keys.drop_last()),
            Some(keys.last().session_id),
            keys.last().request_id,
        )
    }
}

fn append_texts(a: &mut Vec<String>, b: Vec<String>)
    ensures
        text::views(final(a)@) == text::views(old(a)@) + text::views(b@),
{
    let ghost before = a@;
    let ghost other = b@;
    let mut b = b;
    a.append(&mut b);
    assert(text::views(a@) =~= text::views(before) + text::views(other));
}

/// The requests once all of them were asked to stop.
pub open spec fn all_stopped(v: Seq<(KeyView, ActiveView)>) -> Seq<(KeyView, ActiveView)> {
    Seq::new(v.len(), |i: int| (v[i].0, ActiveView { cancelled: true, ..v[i].1 }))
}

impl DaemonState {
    /// Stops the daemon: no new message is admitted, every turn is asked to stop, and its
    /// questions end. Gives the questions that ended.
    pub fn begin_shutdown(&mut self) -> (refused: Vec<String>)
        requires
            old(self).wf(),
        ensures
            final(self).wf(),
            *final(self) == (DaemonState {
                active: final(self).active,
                approvals: final(self).approvals,
                shutdown: CancellationToken { cancelled: true },
                ..*old(self)
            }),
            final(self).active@ == all_stopped(old(self).active@),
            final(self).approvals@ == after_requests(
                old(self).approvals@,
                old(self).active.keys(),
            ),
            text::views(refused@) == ended_questions(
                old(self).approvals@,
                old(self).active.keys(),
            ),
    {
        self.shutdown.cancel();
        let ghost keys = self.active.keys();
        let ghost running = self.active@;
        let ghost asked = self.approvals@;
        let mut refused: Vec<String> = Vec::new();
        assert(keys.take(0) =~= Seq::<KeyView>::empty());
        assert(text::views(refused@) =~= Seq::<Seq<char>>::empty());
        let mut i: usize = 0;
        while i < self.active.entries.len()
            invariant
                self.wf(),
                *self == (DaemonState {
                    active: self.active,
                    approvals: self.approvals,
                    shutdown: CancellationToken { cancelled: true },
                    ..*old(self)
                }),
                i <= self.active.entries@.len(),
                running == old(self).active@,
                self.active@.len() == running.len(),
                keys == old(self).active.keys(),
                asked == old(self).approvals@,
                self.active.keys() == keys,
                forall|k: int|
                    0 <= k < running.len() ==> #[trigger] self.active@[k] == (if k < i {
                        all_stopped(running)[k]
                    } else {
                        running[k]
                    }),
                self.approvals@ == after_requests(asked, keys.take(i as int)),
                text::views(refused@) == ended_questions(asked, keys.take(i as int)),
            decreases self.active.entries@.len() - i,
        {
            proof {
                assert(keys.take(i + 1).drop_last() =~= keys.take(i as int));
                assert(keys.take(i + 1).last() == self.active.entries@[i as int].0@);
            }
            let ghost before = self.active.entries@;
            let ghost views = self.active@;
            self.active.entries[i].1.cancellation.cancel();
            assert(self.active.keys() =~= keys);
            assert forall|k: int| 0 <= k < running.len() implies #[trigger] self.active@[k] == (if k
                < i + 1 {
                all_stopped(running)[k]
            } else {
                running[k]
            }) by {
                if k == i {
                    let (key, was) = before[k];
                    let (same, now) = self.active.entries@[k];
                    assert(views[k] == (key@, was@));
                    assert(views[k] == running[k]);
                    assert(now@ == (ActiveView { cancelled: true, ..was@ }));
                    assert(self.active@[k] == (same@, now@));
                } else {
                    assert(self.active.entries@[k] == before[k]);
                    assert(self.active@[k] == views[k]);
                }
            }
            assert forall|k: int| 0 <= k < self.active.entries@.len() implies (
            #[trigger] self.active.entries@[k]).1.wf() by {
                assert(before[k].1.wf());
            }
            let session_id = self.active.entries[i].0.session_id.clone();
            let request_id = self.active.entries[i].0.request_id.clone();
            let ended = self.approvals.cancel_request_in_session(
                session_id.as_str(),
                &request_id,
            );
            append_texts(&mut refused, ended);
            i = i + 1;
        }
        assert(keys.take(i as int) =~= keys);
        assert(self.active@ =~= all_stopped(running));
        refused
    }
}

proof fn lemma_kept_is_no_ones(v: Seq<PendingView>, keys: Seq<KeyView>, p: PendingView, i: int)
    requires
        after_requests(v, keys).contains(p),
        0 <= i < keys.len(),
    ensures
        v.contains(p),
        !(p.info.request_id == keys[i].request_id && p.session_id == Some(keys[i].session_id)),
    decreases keys.len(),
{
    let front = keys.drop_last();
    let before = after_requests(v, front);
    let session = Some(keys.last().session_id);
    let request = keys.last().request_id;
    let after = approval::staying(before, session, request);
    approval::lemma_staying_from(before, session, request);
    let k = choose|k: int| 0 <= k < after.len() && after[k] == p;
    assert(after[k] == p);
    let j = choose|j: int|
        0 <= j < before.len() && before[j] == after[k] && !approval::cancelled_with(
            before[j],
            session,
            request,
        );
    assert(before[j] == p);
    assert(before.contains(p));
    if i < front.len() {
        assert(front[i] == keys[i]);
        lemma_kept_is_no_ones(v, front, p, i);
    } else if front.len() > 0 {
        lemma_kept_is_no_ones(v, front, p, 0);
    }
}

/// A shutdown leaves no question of a turn that was running: what still waits waited before,
/// and belongs to none of them.
pub proof fn law_shutdown_leaves_no_question(v: Seq<PendingView>, keys: Seq<KeyView>, p: PendingView)
    requires
        after_requests(v, keys).contains(p),
    ensures
        v.contains(p),
        forall|i: int|
            0 <= i < keys.len() ==> !(p.info.request_id == (#[trigger] keys[i]).request_id
                && p.session_id == Some(keys[i].session_id)),
{
    if keys.len() > 0 {
        lemma_kept_is_no_ones(v, keys, p, 0);
    }
    assert forall|i: int| 0 <= i < keys.len() implies !(p.info.request_id == (
    #[trigger] keys[i]).request_id && p.session_id == Some(keys[i].session_id)) by {
        lemma_kept_is_no_ones(v, keys, p, i);
    }
}

/// The frame for a line that is no request.
pub open spec fn refusal(code: i64, message: Seq<char>) -> FrameView {
    FrameView::Response(protocol::failure_view(RequestIdView::Text("protocol"@), code, message))
}

/// The message for a line that is too long.
pub open spec fn too_long_message() -> Seq<char> {
    "协议帧超过 "@ + text::decimal(MAX_FRAME_BYTES as nat) + " 字节限制"@
}

/// The message of a refusal.
pub open spec fn refusal_message(e: protocol::ProtocolErrorView) -> Seq<char> {
    match e {
        protocol::ProtocolErrorView::FrameTooLarge(n) => "协议帧大小 "@ + text::decimal(n)
            + " 字节，超过 "@ + text::decimal(MAX_FRAME_BYTES as nat) + " 字节限制"@,
        protocol::ProtocolErrorView::InvalidJson(e) => "JSON-RPC 帧不是合法 JSON: "@ + e,
        protocol::ProtocolErrorView::UnsupportedVersion(v) => "不支持的 JSON-RPC 版本: "@ + v,
    }
}

fn refuse(code: i64, message: &str) -> (r: ServerFrame)
    ensures
        r@ == refusal(code, message@),
{
    ServerFrame::Response(
        JsonRpcResponse::failure(RequestId::String("protocol".to_owned()), code, message),
    )
}

/// What is done with a line of so many bytes of which this was read.
pub open spec fn line_outcome(
    size: nat,
    read: Result<protocol::RequestView, Seq<char>>,
) -> Result<protocol::RequestView, FrameView> {
    if size > MAX_FRAME_BYTES + 1 {
        Err(refusal(TOO_LARGE, too_long_message()))
    } else {
        match protocol::request_judged(size, read) {
            Ok(q) => Ok(q),
            Err(e) => Err(refusal(PARSE_ERROR, refusal_message(e))),
        }
    }
}

/// Decides on a line of so many bytes of the socket, once it was read as a request: the
/// request, or the frame that refuses it.
pub fn judge_line(size: usize, read: Result<JsonRpcRequest, String>) -> (r: Result<
    JsonRpcRequest,
    ServerFrame,
>)
    ensures
        match line_outcome(size as nat, protocol::read_view(read)) {
            Ok(q) => r is Ok && r->Ok_0@ == q,
            Err(f) => r is Err && r->Err_0@ == f,
        },
{
    if size > MAX_FRAME_BYTES + 1 {
        let mut m = "协议帧超过 ".to_owned();
        m.append(text::decimal_text(MAX_FRAME_BYTES as u64).as_str());
        m.append(" 字节限制");
        return Err(refuse(TOO_LARGE, m.as_str()));
    }
    match protocol::judge_request(size, read) {
        Ok(q) => Ok(q),
        Err(e) => Err(refuse(PARSE_ERROR, e.message().as_str())),
    }
}

/// Reads a line of the socket: a request, or the frame that refuses it.
pub fn read_line(line: &[u8]) -> (r: Result<JsonRpcRequest, ServerFrame>)
    ensures
        if line@.len() > MAX_FRAME_BYTES + 1 {
            r is Err && r->Err_0@ == refusal(TOO_LARGE, too_long_message())
        } else {
            match protocol::request_outcome(line@) {
                Ok(q) => r is Ok && r->Ok_0@ == q,
                Err(e) => r is Err && r->Err_0@ == refusal(PARSE_ERROR, refusal_message(e)),
            }
        },
{
    if line.len() > MAX_FRAME_BYTES + 1 {
        let mut m = "协议帧超过 ".to_owned();
        m.append(text::decimal_text(MAX_FRAME_BYTES as u64).as_str());
        m.append(" 字节限制");
        return Err(refuse(TOO_LARGE, m.as_str()));
    }
    match decode_request(line) {
        Ok(q) => Ok(q),
        Err(e) => Err(refuse(PARSE_ERROR, e.message().as_str())),
    }
}

/// The frame that stands for one that is too large.
pub open spec fn too_large_frame(f: FrameView) -> FrameView {
    FrameView::Response(
        protocol::failure_view(
            protocol::frame_id(f),
            TOO_LARGE,
            refusal_message(
                protocol::ProtocolErrorView::FrameTooLarge(
                    protocol::wire_bytes(protocol::frame_json(f)).len(),
                ),
            ),
        ),
    )
}

/// The bytes of a frame on the socket; one that is too large is told as an error of its
/// request instead.
pub fn write_frame(frame: &ServerFrame) -> (r: Result<Vec<u8>, ProtocolError>)
    ensures
        ({
            let bytes = protocol::wire_bytes(protocol::frame_json(frame@));
            let instead = protocol::wire_bytes(
                protocol::frame_json(too_large_frame(frame@)),
            );
            if bytes.len() <= MAX_FRAME_BYTES {
                r is Ok && r->Ok_0@ == bytes.push(10u8)
            } else if instead.len() <= MAX_FRAME_BYTES {
                r is Ok && r->Ok_0@ == instead.push(10u8)
            } else {
                r is Err
            }
        }),
{
    match encode_server_frame(frame) {
        Ok(bytes) => Ok(bytes),
        Err(e) => {
            let id = server_frame_request_id(frame).clone();
            let instead = ServerFrame::Response(
                JsonRpcResponse::failure(id, TOO_LARGE, e.message().as_str()),
            );
            encode_server_frame(&instead)
        },
    }
}

/// Stopping everything marks every request and changes nothing else of it.
pub proof fn law_stopping_everything(v: Seq<(KeyView, ActiveView)>, i: int)
    requires
        0 <= i < v.len(),
    ensures
        all_stopped(v).len() == v.len(),
        all_stopped(v)[i].0 == v[i].0,
        all_stopped(v)[i].1.cancelled,
        all_stopped(v)[i].1.run_id == v[i].1.run_id,
        all_stopped(v)[i].1.storage_error == v[i].1.storage_error,
        all_stopped(v)[i].1.kept == v[i].1.kept,
{
}

/// A line is taken exactly where it is within the limit and is a request of the version that
/// is spoken; anything else is answered with an error and no result.
pub proof fn law_lines_are_taken_or_answered(
    size: nat,
    read: Result<protocol::RequestView, Seq<char>>,
)
    ensures
        line_outcome(size, read) is Ok <==> size <= MAX_FRAME_BYTES && read is Ok
            && read->Ok_0.jsonrpc == protocol::JSONRPC_VERSION@,
        line_outcome(size, read) matches Ok(q) ==> q == read->Ok_0,
        line_outcome(size, read) matches Err(f) ==> (f matches FrameView::Response(r) && r.result
            is None && r.error is Some && (r.error->0.code == TOO_LARGE <==> size > MAX_FRAME_BYTES
            + 1)),
{
}

/// A frame that is too large to send is answered in its place, to the same request, as too
/// large.
pub proof fn law_frames_too_large_are_answered(f: FrameView)
    ensures
        protocol::frame_id(too_large_frame(f)) == protocol::frame_id(f),
        too_large_frame(f) matches FrameView::Response(r) && r.result is None && r.error is Some
            && r.error->0.code == TOO_LARGE,
{
}

/// Each question of a request that is stopped is refused, and every other question stays.
pub proof fn law_shutdown_refuses_or_keeps(v: Seq<PendingView>, keys: Seq<KeyView>)
    ensures
        after_requests(v, keys).len() + ended_questions(v, keys).len() == v.len(),
    decreases keys.len(),
{
    if keys.len() > 0 {
        law_shutdown_refuses_or_keeps(v, keys.drop_last());
        approval::law_questions_stay_or_are_refused(
            after_requests(v, keys.drop_last()),
            Some(keys.last().session_id),
            keys.last().request_id,
        );
    }
}

} // verus!
