//! Watching a request: what was told so far, and what is told from now on.
use vstd::prelude::*;

use crate::daemon::chat;
use crate::daemon::chat::{ActiveRequests, Failure, RunRecord, RunStatus, RunView};
use crate::daemon::handlers;
use crate::daemon::handlers::{
    StoredEvent, INTERNAL_ERROR, INVALID_PARAMS, PARAMS_ERROR, REQUEST_CONFLICT,
};
use crate::daemon::params;
use crate::daemon::protocol;
use crate::daemon::protocol::{FrameView, JsonRpcResponse, RequestId, RequestIdView, ServerFrame};
use crate::daemon::{ActiveRequestUpdate, KeyView, UpdateView};
use crate::json;
use crate::json::{Json, JsonView};
use crate::text;

verus! {

/// How many stored events are told at once.
pub const REPLAY_EVENTS: usize = 1000;

/// What is to be watched, and from where on.
#[derive(Debug)]
pub struct SubscribeParams {
    pub request_id: RequestId,
    pub session_id: Option<String>,
    pub after_seq: Option<u64>,
}

impl SubscribeParams {
    /// The place after which stored events are told again: the start, unless one is given.
    pub fn replay_after(&self) -> (r: u64)
        ensures
            r == (match self.after_seq {
                Some(n) => n,
                None => 0,
            }),
    {
        match self.after_seq {
            Some(n) => n,
            None => 0,
        }
    }
}

/// The parameters of a watch by their names.
pub open spec fn watch_fields(p: JsonView) -> JsonView {
    params::named(p, seq!["request_id"@, "session_id"@, "after_seq"@], 1)
}

/// Reads what is to be watched.
pub fn subscribe_params(p: &Json) -> (r: Result<SubscribeParams, Failure>)
    ensures
        match (
            params::need_id(watch_fields(p@), "request_id"@),
            params::may_str(watch_fields(p@), "session_id"@),
            params::may_u64(watch_fields(p@), "after_seq"@),
        ) {
            (Some(id), Some(session), Some(after)) => r is Ok && r->Ok_0.request_id@ == id
                && json::opt_text(r->Ok_0.session_id) == session && r->Ok_0.after_seq == after,
            _ => chat::fails(r, INVALID_PARAMS, PARAMS_ERROR@),
        },
{
    let names: [&'static str; 3] = ["request_id", "session_id", "after_seq"];
    let arranged = params::arrange(p, &names, 1);
    assert(params::name_views(names@) =~= seq!["request_id"@, "session_id"@, "after_seq"@]);
    let p = &arranged;
    match (
        params::read_id(p, "request_id"),
        params::read_opt_str(p, "session_id"),
        params::read_opt_u64(p, "after_seq"),
    ) {
        (Some(request_id), Some(session_id), Some(after_seq)) => Ok(
            SubscribeParams { request_id, session_id, after_seq },
        ),
        _ => Err((INVALID_PARAMS, PARAMS_ERROR.to_owned())),
    }
}

/// The request is the one that is to be watched.
pub open spec fn is_watched(
    key: KeyView,
    request_id: RequestIdView,
    session: Option<Seq<char>>,
) -> bool {
    key.request_id == request_id && (session is None || session->0 == key.session_id)
}

/// How many requests could be meant.
pub open spec fn watched_count(
    keys: Seq<KeyView>,
    request_id: RequestIdView,
    session: Option<Seq<char>>,
) -> nat
    decreases keys.len(),
{
    if keys.len() == 0 {
        0
    } else {
        watched_count(keys.drop_last(), request_id, session) + if is_watched(
            keys.last(),
            request_id,
            session,
        ) {
            1nat
        } else {
            0nat
        }
    }
}

/// Finds the request that is to be watched among those that are being worked on. One
/// that several sessions have must be named with its session.
pub fn find_watched(active: &ActiveRequests, p: &SubscribeParams) -> (r: Result<
    Option<usize>,
    Failure,
>)
    ensures
        ({
            let session = json::opt_text(p.session_id);
            let n = watched_count(active.keys(), p.request_id@, session);
            if n > 1 {
                chat::fails(
                    r,
                    REQUEST_CONFLICT,
                    "request_id 跨 session 不唯一；请指定 session_id"@,
                )
            } else if n == 1 {
                r is Ok && r->Ok_0 is Some && r->Ok_0->0 < active.entries@.len() && is_watched(
                    active.keys()[r->Ok_0->0 as int],
                    p.request_id@,
                    session,
                )
            } else {
                r is Ok && r->Ok_0 is None
            }
        }),
{
    let ghost keys = active.keys();
    let ghost session = json::opt_text(p.session_id);
    let mut found: Option<usize> = None;
    let mut several = false;
    let mut i: usize = 0;
    assert(keys.take(0) =~= Seq::<KeyView>::empty());
    while i < active.entries.len()
        invariant
            i <= active.entries@.len(),
            keys == active.keys(),
            session == json::opt_text(p.session_id),
            several == (watched_count(keys.take(i as int), p.request_id@, session) > 1),
            found is None == (watched_count(keys.take(i as int), p.request_id@, session) == 0),
            found is Some ==> found->0 < i && is_watched(
                keys[found->0 as int],
                p.request_id@,
                session,
            ),
        decreases active.entries@.len() - i,
    {
        proof {
            assert(keys.take(i + 1).drop_last() =~= keys.take(i as int));
            assert(keys.take(i + 1).last() == active.entries@[i as int].0@);
        }
        let key = &active.entries[i].0;
        let in_session = match &p.session_id {
            Some(s) => text::same(s.as_str(), key.session_id.as_str()),
            None => true,
        };
        if key.request_id.same(&p.request_id) && in_session {
            if found.is_some() {
                several = true;
            }
            found = Some(i);
        }
        i = i + 1;
    }
    assert(keys.take(i as int) =~= keys);
    if several {
        return Err(
            (REQUEST_CONFLICT, "request_id 跨 session 不唯一；请指定 session_id".to_owned()),
        );
    }
    Ok(found)
}

/// Where the run of what is to be watched is looked up.
#[derive(Debug)]
pub enum WatchLookup {
    /// The run of the request that is being worked on.
    Run(String),
    /// The run that the request has in the session.
    Request { session_id: String },
    /// Nowhere.
    Nothing,
}

/// Decides where the run of what is to be watched is looked up: what is being worked on goes
/// by its run, anything else by its session.
pub fn watch_lookup(active: &ActiveRequests, p: &SubscribeParams) -> (r: Result<
    WatchLookup,
    Failure,
>)
    ensures
        ({
            let session = json::opt_text(p.session_id);
            let n = watched_count(active.keys(), p.request_id@, session);
            if n > 1 {
                chat::fails(
                    r,
                    REQUEST_CONFLICT,
                    "request_id 跨 session 不唯一；请指定 session_id"@,
                )
            } else if n == 1 {
                r is Ok && (r->Ok_0 matches WatchLookup::Run(run) && exists|i: int|
                    0 <= i < active@.len() && is_watched(
                        (#[trigger] active@[i]).0,
                        p.request_id@,
                        session,
                    ) && active@[i].1.run_id == run@)
            } else {
                match session {
                    Some(s) => r is Ok && (r->Ok_0 matches WatchLookup::Request { session_id }
                        && session_id@ == s),
                    None => r is Ok && r->Ok_0 is Nothing,
                }
            }
        }),
{
    match find_watched(active, p) {
        Err(failure) => Err(failure),
        Ok(Some(i)) => {
            let run = active.entries[i].1.run_id.clone();
            assert(active@[i as int].1.run_id == run@);
            Ok(WatchLookup::Run(run))
        },
        Ok(None) => match &p.session_id {
            Some(s) => Ok(WatchLookup::Request { session_id: s.clone() }),
            None => Ok(WatchLookup::Nothing),
        },
    }
}

/// The answer that a request is not watched, with the reason.
pub open spec fn unwatched_json(
    request_id: RequestIdView,
    run_id: Option<Seq<char>>,
    reason: Seq<char>,
) -> JsonView {
    let head = seq![
        ("subscribed"@, JsonView::Bool(false)),
        ("request_id"@, protocol::id_json(request_id)),
    ];
    let mid = match run_id {
        Some(id) => head.push(("run_id"@, JsonView::Str(id))),
        None => head,
    };
    JsonView::Object(mid.push(("reason"@, JsonView::Str(reason))))
}

fn unwatched(request_id: &RequestId, run_id: Option<&str>, reason: &str) -> (r: Json)
    ensures
        r@ == unwatched_json(request_id@, json::opt_view(run_id), reason@),
{
    let mut f = json::no_fields();
    json::put(&mut f, "subscribed", Json::Bool(false));
    json::put(&mut f, "request_id", protocol::id_to_json(request_id));
    if let Some(id) = run_id {
        json::put(&mut f, "run_id", Json::of_str(id));
    }
    json::put(&mut f, "reason", Json::of_str(reason));
    assert(json::fields_view(f@) =~= unwatched_json(
        request_id@,
        json::opt_view(run_id),
        reason@,
    )->Object_0);
    json::object(f)
}

/// Decides on the run that was looked up: without one there is nothing to watch.
pub fn watched_run(p: &SubscribeParams, read: Result<Option<RunRecord>, String>) -> (r: Result<
    RunRecord,
    Result<Json, Failure>,
>)
    ensures
        match read {
            Ok(Some(run)) => r is Ok && r->Ok_0@ == run@,
            Ok(None) => r is Err && r->Err_0 is Ok && r->Err_0->Ok_0@ == unwatched_json(
                p.request_id@,
                None,
                "请求未在执行"@,
            ),
            Err(e) => r is Err && chat::fails(r->Err_0, INTERNAL_ERROR, e@),
        },
{
    match read {
        Ok(Some(run)) => Ok(run),
        Ok(None) => Err(Ok(unwatched(&p.request_id, None, "请求未在执行"))),
        Err(e) => Err(Err((INTERNAL_ERROR, e))),
    }
}

/// The place of the last of the events, or where they were to begin.
pub open spec fn last_place(events: Seq<StoredEvent>, start: u64) -> u64 {
    if events.len() == 0 {
        start
    } else {
        events.last().seq
    }
}

/// The frames that tell the stored events, without the questions that are answered.
pub open spec fn replay_frames(
    events: Seq<StoredEvent>,
    pending: Seq<Seq<char>>,
    id: RequestIdView,
) -> Seq<FrameView>
    decreases events.len(),
{
    if events.len() == 0 {
        Seq::empty()
    } else {
        let rest = replay_frames(events.drop_last(), pending, id);
        match handlers::stored_update(events.last()) {
            Some(u) => if handlers::resolved(u, pending) {
                rest
            } else {
                rest.push(crate::daemon::update_frame(u, id))
            },
            None => rest,
        }
    }
}

/// What a list of frames says.
pub open spec fn frame_views(v: Seq<ServerFrame>) -> Seq<FrameView> {
    Seq::new(v.len(), |i: int| v[i]@)
}

/// What is missing so that a watch can go on: where the watch stands, and where the run does.
pub open spec fn resync_json(snapshot: JsonView, last_seq: Option<u64>, cursor: u64) -> JsonView {
    JsonView::Object(
        seq![
            ("kind"@, JsonView::Str("resync_required"@)),
            ("snapshot"@, snapshot),
            (
                "last_seq"@,
                match last_seq {
                    Some(n) => JsonView::Int(n as int),
                    None => JsonView::Null,
                },
            ),
            ("cursor"@, JsonView::Int(cursor as int)),
            ("next_method"@, JsonView::Str("run.events"@)),
        ],
    )
}

fn resync(snapshot: Json, last_seq: Option<u64>, cursor: u64) -> (r: Json)
    ensures
        r@ == resync_json(snapshot@, last_seq, cursor),
{
    let ghost given = snapshot@;
    let mut f = json::no_fields();
    json::put(&mut f, "kind", Json::of_str("resync_required"));
    json::put(&mut f, "snapshot", snapshot);
    let last = match last_seq {
        Some(n) => Json::Unsigned(n),
        None => Json::Null,
    };
    json::put(&mut f, "last_seq", last);
    json::put(&mut f, "cursor", Json::Unsigned(cursor));
    json::put(&mut f, "next_method", Json::of_str("run.events"));
    assert(json::fields_view(f@) =~= resync_json(given, last_seq, cursor)->Object_0);
    json::object(f)
}

/// The name of the state in which a run ended badly.
pub open spec fn ended_name(status: RunStatus) -> Seq<char> {
    match status {
        RunStatus::Failed => "Failed"@,
        RunStatus::Cancelled => "Cancelled"@,
        _ => "UnknownAfterRestart"@,
    }
}

/// A run ended without an answer.
pub open spec fn ended_badly(status: RunStatus) -> bool {
    status == RunStatus::Failed || status == RunStatus::Cancelled || status
        == RunStatus::UnknownAfterRestart
}

/// The reply of a watch that ends once the stored events are told; none where it goes on.
pub open spec fn end_of_replay(
    run: RunView,
    request_id: RequestIdView,
    active: bool,
) -> Option<Result<JsonView, (i64, Seq<char>)>> {
    if run.status == RunStatus::Completed {
        Some(Ok(chat::done_json(run.content, run)))
    } else if ended_badly(run.status) {
        Some(
            Err(
                (
                    match run.error_code {
                        Some(code) => code,
                        None => INTERNAL_ERROR,
                    },
                    match run.error_message {
                        Some(m) => m,
                        None => "run 状态: "@ + ended_name(run.status),
                    },
                ),
            ),
        )
    } else if !active {
        Some(Ok(unwatched_json(request_id, Some(run.run_id), "请求没有活动执行体"@)))
    } else {
        None
    }
}

/// What a reply says: its document, or its code and message.
pub open spec fn outcome_view(r: Result<Json, Failure>) -> Result<JsonView, (i64, Seq<char>)> {
    match r {
        Ok(j) => Ok(j@),
        Err((code, m)) => Err((code, m@)),
    }
}

/// A watch of a run.
#[derive(Debug)]
pub struct Subscription {
    /// The request that asked for the watch.
    pub id: RequestId,
    /// The request that is watched.
    pub request_id: RequestId,
    /// The place of the last event that was told.
    pub cursor: u64,
}

/// What follows the look at the stored events.
#[derive(Debug)]
pub enum WatchStart {
    /// Too much was missed: the one who asked has to read the run anew.
    Resync(JsonRpcResponse),
    /// Tell the frames and end with the reply.
    Ended { frames: Vec<ServerFrame>, reply: Result<Json, Failure> },
    /// Tell the frames and go on with what comes.
    Live { frames: Vec<ServerFrame>, watch: Subscription },
}

/// More was missed than is told at once.
pub open spec fn too_far_behind(events: Seq<StoredEvent>, run: RunView) -> bool {
    events.len() == REPLAY_EVENTS && events.last().seq < run.last_seq
}

fn replay(events: Vec<StoredEvent>, pending_ids: &Vec<String>, id: &RequestId, start: u64) -> (r: (
    Vec<ServerFrame>,
    u64,
))
    ensures
        frame_views(r.0@) == replay_frames(events@, text::views(pending_ids@), id@),
        r.1 == last_place(events@, start),
{
    let ghost all = events@;
    let ghost pending = text::views(pending_ids@);
    let mut frames: Vec<ServerFrame> = Vec::new();
    let mut cursor: u64 = start;
    assert(all.take(0) =~= Seq::<StoredEvent>::empty());
    assert(frame_views(frames@) =~= Seq::<FrameView>::empty());
    for event in it: events
        invariant
            it.seq() == all,
            pending == text::views(pending_ids@),
            frame_views(frames@) == replay_frames(all.take(it.index() as int), pending, id@),
            cursor == last_place(all.take(it.index() as int), start),
    {
        proof {
            let i = it.index() as int;
            assert(all.take(i + 1).drop_last() =~= all.take(i));
            assert(all.take(i + 1).last() == all[i]);
            assert(event == all[i]);
        }
        cursor = event.seq;
        match handlers::stored_event_update(event) {
            Some(update) => {
                if !handlers::is_resolved_approval(&update, pending_ids) {
                    let ghost before = frame_views(frames@);
                    let frame = update.to_frame(id.clone());
                    frames.push(frame);
                    assert(frame_views(frames@) =~= before.push(frame@));
                }
            },
            None => {},
        }
    }
    assert(all.take(all.len() as int) =~= all);
    (frames, cursor)
}

/// Starts a watch: tells what is stored after the place that was named, and then ends or
/// goes on. `snapshot` is the document of the run, `active` says that it is being worked on.
pub fn handle_subscribe(
    id: RequestId,
    p: &SubscribeParams,
    run: &RunRecord,
    snapshot: Json,
    active: bool,
    events: Vec<StoredEvent>,
    pending_ids: &Vec<String>,
) -> (r: WatchStart)
    ensures
        ({
            let start = match p.after_seq {
                Some(n) => n,
                None => 0,
            };
            let told = replay_frames(events@, text::views(pending_ids@), id@);
            if too_far_behind(events@, run@) {
                r matches WatchStart::Resync(reply) && reply@ == protocol::failure_data_view(
                    id@,
                    REQUEST_CONFLICT,
                    "resync_required"@,
                    resync_json(snapshot@, Some(run@.last_seq), events@.last().seq),
                )
            } else {
                match end_of_replay(run@, p.request_id@, active) {
                    Some(end) => r matches WatchStart::Ended { frames, reply } && frame_views(
                        frames@,
                    ) == told && outcome_view(reply) == end,
                    None => r matches WatchStart::Live { frames, watch } && frame_views(frames@)
                        == told && watch.id@ == id@ && watch.request_id@ == p.request_id@
                        && watch.cursor == last_place(events@, start),
                }
            }
        }),
        r matches WatchStart::Ended { reply: Ok(j), .. } ==> if run.status is Completed {
            json::at_key(j@, "content"@) == (match run.content {
                Some(c) => JsonView::Str(c@),
                None => JsonView::Null,
            })
        } else {
            (run.status is Queued || run.status is Running || run.status is WaitingInteraction)
                && !active && json::at_key(j@, "content"@) is Null
        },
        run.status is Failed || run.status is Cancelled || run.status is UnknownAfterRestart ==> r
            is Resync || (r matches WatchStart::Ended { reply: Err((code, m)), .. } && (
        run.error_code is Some ==> code == run.error_code->0) && (run.error_message is Some ==> m@
            == run.error_message->0@)),
        r is Live ==> active,
{
    proof {
        chat::law_done_reads_back(run@.content, run@);
        law_unwatched_reads_back(p.request_id@, Some(run@.run_id), "请求没有活动执行体"@);
    }
    let start: u64 = match p.after_seq {
        Some(n) => n,
        None => 0,
    };
    if events.len() == REPLAY_EVENTS {
        let last: u64 = events[events.len() - 1].seq;
        if last < run.last_seq {
            return WatchStart::Resync(
                JsonRpcResponse::failure_data(
                    id,
                    REQUEST_CONFLICT,
                    "resync_required",
                    resync(snapshot, Some(run.last_seq), last),
                ),
            );
        }
    }
    let (frames, cursor) = replay(events, pending_ids, &id, start);
    if run.status == RunStatus::Completed {
        let reply = Ok(chat::done_reply(&run.content, run));
        return WatchStart::Ended { frames, reply };
    }
    if run.status == RunStatus::Failed || run.status == RunStatus::Cancelled || run.status
        == RunStatus::UnknownAfterRestart {
        let code: i64 = match run.error_code {
            Some(code) => code,
            None => INTERNAL_ERROR,
        };
        let message = match &run.error_message {
            Some(m) => m.clone(),
            None => {
                let mut m = "run 状态: ".to_owned();
                if run.status == RunStatus::Failed {
                    m.append("Failed");
                } else if run.status == RunStatus::Cancelled {
                    m.append("Cancelled");
                } else {
                    m.append("UnknownAfterRestart");
                }
                m
            },
        };
        return WatchStart::Ended { frames, reply: Err((code, message)) };
    }
    if !active {
        let reply = Ok(
            unwatched(&p.request_id, Some(run.run_id.as_str()), "请求没有活动执行体"),
        );
        return WatchStart::Ended { frames, reply };
    }
    WatchStart::Live {
        frames,
        watch: Subscription { id, request_id: p.request_id.clone(), cursor },
    }
}

/// What a watch does with an update.
#[derive(Debug)]
pub enum WatchStep {
    /// It was told already.
    Skip,
    /// Tell it and go on.
    Tell(ServerFrame),
    /// Tell it; the watch is over.
    End(ServerFrame),
}

/// The place of an update that is stored.
pub open spec fn place_of(u: UpdateView) -> Option<u64> {
    match u {
        UpdateView::Event { seq, .. } => seq,
        _ => None,
    }
}

impl Subscription {
    /// Takes an update. An event at or before the place where the watch stands was told
    /// already; any other is told and moves the watch on.
    pub fn on_update(&mut self, update: &ActiveRequestUpdate) -> (r: WatchStep)
        ensures
            final(self).id == old(self).id,
            final(self).request_id == old(self).request_id,
            match place_of(update@) {
                Some(n) => if n <= old(self).cursor {
                    r is Skip && final(self).cursor == old(self).cursor
                } else {
                    final(self).cursor == n && (r matches WatchStep::Tell(f) && f@
                        == crate::daemon::update_frame(update@, old(self).id@))
                },
                None => final(self).cursor == old(self).cursor && if crate::daemon::is_terminal(
                    update@,
                ) {
                    r matches WatchStep::End(f) && f@ == crate::daemon::update_frame(
                        update@,
                        old(self).id@,
                    )
                } else {
                    r matches WatchStep::Tell(f) && f@ == crate::daemon::update_frame(
                        update@,
                        old(self).id@,
                    )
                },
            },
    {
        let terminal = match update {
            ActiveRequestUpdate::Event { seq, .. } => {
                if let Some(n) = seq {
                    if *n <= self.cursor {
                        return WatchStep::Skip;
                    }
                    self.cursor = *n;
                }
                false
            },
            _ => true,
        };
        let frame = update.to_frame(self.id.clone());
        if terminal {
            WatchStep::End(frame)
        } else {
            WatchStep::Tell(frame)
        }
    }

    /// The reply when the request is over and its end was not seen.
    pub fn on_closed(&self) -> (r: JsonRpcResponse)
        ensures
            r@ == protocol::success_view(
                self.id@,
                unwatched_json(self.request_id@, None, "请求已结束"@),
            ),
    {
        JsonRpcResponse::success(self.id.clone(), unwatched(&self.request_id, None, "请求已结束"))
    }

    /// The reply when the watch fell too far behind; `snapshot` is the document of the run and
    /// its last place, where it could be read.
    pub fn on_lagged(&self, snapshot: Option<(Json, u64)>) -> (r: JsonRpcResponse)
        ensures
            r@ == protocol::failure_data_view(
                self.id@,
                REQUEST_CONFLICT,
                "resync_required"@,
                match snapshot {
                    Some((j, n)) => resync_json(j@, Some(n), self.cursor),
                    None => resync_json(JsonView::Null, None, self.cursor),
                },
            ),
    {
        let data = match snapshot {
            Some((j, n)) => resync(j, Some(n), self.cursor),
            None => resync(Json::Null, None, self.cursor),
        };
        JsonRpcResponse::failure_data(self.id.clone(), REQUEST_CONFLICT, "resync_required", data)
    }
}

/// Where a watch stands after a series of updates.
pub open spec fn cursor_after(cursor: u64, updates: Seq<UpdateView>) -> u64
    decreases updates.len(),
{
    if updates.len() == 0 {
        cursor
    } else {
        let before = cursor_after(cursor, updates.drop_last());
        match place_of(updates.last()) {
            Some(n) => if n > before {
                n
            } else {
                before
            },
            None => before,
        }
    }
}

/// An event is told only if its place lies after those of all events before it and after the
/// place where the watch began: nothing is told twice, and nothing out of order.
pub proof fn law_events_are_told_in_order(cursor: u64, updates: Seq<UpdateView>, i: int)
    requires
        0 <= i < updates.len(),
        place_of(updates[i]) is Some,
    ensures
        cursor <= cursor_after(cursor, updates),
        place_of(updates[i])->0 <= cursor_after(cursor, updates),
    decreases updates.len(),
{
    let front = updates.drop_last();
    lemma_cursor_grows(cursor, front);
    if i < front.len() {
        assert(front[i] == updates[i]);
        law_events_are_told_in_order(cursor, front, i);
    }
}

proof fn lemma_cursor_grows(cursor: u64, updates: Seq<UpdateView>)
    ensures
        cursor <= cursor_after(cursor, updates),
    decreases updates.len(),
{
    if updates.len() > 0 {
        lemma_cursor_grows(cursor, updates.drop_last());
    }
}

/// Reading back: what is missing so that a watch can go on: where the watch stands, and
/// where the run does, field by field.
pub proof fn law_resync_reads_back(snapshot: JsonView, last_seq: Option<u64>, cursor: u64)
    ensures
        json::at_key(resync_json(snapshot, last_seq, cursor), "kind"@)
            == JsonView::Str("resync_required"@),
        json::at_key(resync_json(snapshot, last_seq, cursor), "snapshot"@) == snapshot,
        json::at_key(resync_json(snapshot, last_seq, cursor), "last_seq"@)
            == match last_seq { Some(n) => JsonView::Int(n as int), None => JsonView::Null, },
        json::at_key(resync_json(snapshot, last_seq, cursor), "cursor"@)
            == JsonView::Int(cursor as int),
        json::at_key(resync_json(snapshot, last_seq, cursor), "next_method"@)
            == JsonView::Str("run.events"@),
{
    reveal_strlit("cursor");
    reveal_strlit("kind");
    reveal_strlit("last_seq");
    reveal_strlit("next_method");
    reveal_strlit("snapshot");
    assert("kind"@.len() != "snapshot"@.len());
    assert("kind"@.len() != "last_seq"@.len());
    assert("snapshot"@[0] != "last_seq"@[0]);
    assert("kind"@.len() != "cursor"@.len());
    assert("snapshot"@.len() != "cursor"@.len());
    assert("last_seq"@.len() != "cursor"@.len());
    assert("kind"@.len() != "next_method"@.len());
    assert("snapshot"@.len() != "next_method"@.len());
    assert("last_seq"@.len() != "next_method"@.len());
    assert("cursor"@.len() != "next_method"@.len());
    json::lemma_field_at(resync_json(snapshot, last_seq, cursor), "kind"@, 0);
    json::lemma_field_at(resync_json(snapshot, last_seq, cursor), "snapshot"@, 1);
    json::lemma_field_at(resync_json(snapshot, last_seq, cursor), "last_seq"@, 2);
    json::lemma_field_at(resync_json(snapshot, last_seq, cursor), "cursor"@, 3);
    json::lemma_field_at(resync_json(snapshot, last_seq, cursor), "next_method"@, 4);
}

/// The answer that a request is not watched says so, names the request and the reason, and
/// the run where there is one. It holds no content.
pub proof fn law_unwatched_reads_back(
    request_id: RequestIdView,
    run_id: Option<Seq<char>>,
    reason: Seq<char>,
)
    ensures
        ({
            let j = unwatched_json(request_id, run_id, reason);
            &&& json::at_key(j, "subscribed"@) == JsonView::Bool(false)
            &&& json::at_key(j, "request_id"@) == protocol::id_json(request_id)
            &&& json::at_key(j, "reason"@) == JsonView::Str(reason)
            &&& run_id is Some ==> json::at_key(j, "run_id"@) == JsonView::Str(run_id->0)
            &&& run_id is None ==> json::at_key(j, "run_id"@) is Null
            &&& json::at_key(j, "content"@) is Null
        }),
{
    reveal_strlit("subscribed");
    reveal_strlit("request_id");
    reveal_strlit("reason");
    reveal_strlit("run_id");
    reveal_strlit("content");
    let j = unwatched_json(request_id, run_id, reason);
    assert("subscribed"@[0] != "request_id"@[0]);
    assert("run_id"@[1] != "reason"@[1]);
    assert("subscribed"@.len() == 10 && "request_id"@.len() == 10 && "reason"@.len() == 6
        && "run_id"@.len() == 6 && "content"@.len() == 7);
    json::lemma_field_at(j, "subscribed"@, 0);
    json::lemma_field_at(j, "request_id"@, 1);
    json::lemma_no_field(j, "content"@);
    match run_id {
        Some(_) => {
            json::lemma_field_at(j, "run_id"@, 2);
            json::lemma_field_at(j, "reason"@, 3);
        },
        None => {
            json::lemma_field_at(j, "reason"@, 2);
            json::lemma_no_field(j, "run_id"@);
        },
    }
}

/// How a watch ends after its replay follows the run. Only a completed run gives a success
/// with its content. A run that failed, was cancelled or got lost gives an error, with its
/// own code and message where it has them. One that still goes on is watched while
/// something works on it, and else told as not watched.
pub proof fn law_a_watch_ends_as_its_run(run: RunView, request_id: RequestIdView, active: bool)
    ensures
        ({
            let end = end_of_replay(run, request_id, active);
            match run.status {
                RunStatus::Completed => end is Some && end->0 is Ok && json::at_key(
                    end->0->Ok_0,
                    "content"@,
                ) == (match run.content {
                    Some(c) => JsonView::Str(c),
                    None => JsonView::Null,
                }) && json::at_key(end->0->Ok_0, "run_id"@) == JsonView::Str(run.run_id)
                    && json::at_key(end->0->Ok_0, "turn_id"@) == JsonView::Str(run.turn_id),
                RunStatus::Failed
                | RunStatus::Cancelled
                | RunStatus::UnknownAfterRestart => end is Some && end->0 is Err && (
                run.error_code is Some ==> end->0->Err_0.0 == run.error_code->0) && (
                run.error_code is None ==> end->0->Err_0.0 == INTERNAL_ERROR) && (
                run.error_message is Some ==> end->0->Err_0.1 == run.error_message->0),
                RunStatus::Queued | RunStatus::Running | RunStatus::WaitingInteraction => if active {
                    end is None
                } else {
                    end is Some && end->0 is Ok && json::at_key(end->0->Ok_0, "subscribed"@)
                        == JsonView::Bool(false) && json::at_key(end->0->Ok_0, "run_id"@)
                        == JsonView::Str(run.run_id) && json::at_key(
                        end->0->Ok_0,
                        "content"@,
                    ) is Null
                },
            }
        }),
{
    chat::law_done_reads_back(run.content, run);
    law_unwatched_reads_back(request_id, Some(run.run_id), "请求没有活动执行体"@);
}

/// Runs that ended badly and have no message of their own are told apart by what is said.
pub proof fn law_bad_ends_are_told_apart(a: RunStatus, b: RunStatus)
    requires
        a is Failed || a is Cancelled || a is UnknownAfterRestart,
        b is Failed || b is Cancelled || b is UnknownAfterRestart,
        a != b,
    ensures
        ended_name(a) != ended_name(b),
{
    reveal_strlit("Failed");
    reveal_strlit("Cancelled");
    reveal_strlit("UnknownAfterRestart");
    assert("Failed"@.len() == 6 && "Cancelled"@.len() == 9 && "UnknownAfterRestart"@.len() == 19);
}

/// What is replayed of a log that goes on is what is replayed of its first part and then of
/// the rest.
pub proof fn law_replay_keeps_order(
    a: Seq<StoredEvent>,
    b: Seq<StoredEvent>,
    pending: Seq<Seq<char>>,
    id: RequestIdView,
)
    ensures
        replay_frames(a + b, pending, id) == replay_frames(a, pending, id) + replay_frames(
            b,
            pending,
            id,
        ),
    decreases b.len(),
{
    if b.len() == 0 {
        assert(a + b =~= a);
        assert(replay_frames(b, pending, id) =~= Seq::empty());
    } else {
        law_replay_keeps_order(a, b.drop_last(), pending, id);
        assert((a + b).drop_last() =~= a + b.drop_last());
    }
    assert(replay_frames(a + b, pending, id) =~= replay_frames(a, pending, id) + replay_frames(
        b,
        pending,
        id,
    ));
}

/// One stored event is told once, as its update says, unless it has no update or asks a
/// question that no longer waits.
pub proof fn law_an_event_is_told_once(
    e: StoredEvent,
    pending: Seq<Seq<char>>,
    id: RequestIdView,
)
    ensures
        replay_frames(seq![e], pending, id) == (match handlers::stored_update(e) {
            Some(u) => if handlers::resolved(u, pending) {
                Seq::empty()
            } else {
                seq![crate::daemon::update_frame(u, id)]
            },
            None => Seq::empty(),
        }),
{
    reveal_with_fuel(replay_frames, 2);
    assert(seq![e].drop_last() =~= Seq::empty());
    assert(replay_frames(seq![e].drop_last(), pending, id) =~= Seq::empty());
    assert(replay_frames(seq![e], pending, id) =~= (match handlers::stored_update(e) {
        Some(u) => if handlers::resolved(u, pending) {
            Seq::empty()
        } else {
            seq![crate::daemon::update_frame(u, id)]
        },
        None => Seq::empty(),
    }));
}

/// A watch without a session finds every request with the identifier; one with a session
/// those of that session alone. The count says whether there is one.
pub proof fn law_watched_requests(
    keys: Seq<KeyView>,
    request_id: RequestIdView,
    session: Option<Seq<char>>,
)
    ensures
        watched_count(keys, request_id, session) <= keys.len(),
        watched_count(keys, request_id, session) == 0 <==> forall|i: int|
            0 <= i < keys.len() ==> (#[trigger] keys[i]).request_id != request_id || (
            session is Some && keys[i].session_id != session->0),
        session is Some && keys.no_duplicates() ==> watched_count(keys, request_id, session) <= 1,
    decreases keys.len(),
{
    if keys.len() > 0 {
        let w = keys.drop_last();
        law_watched_requests(w, request_id, session);
        assert(keys[keys.len() - 1] == keys.last());
        assert forall|i: int| 0 <= i < w.len() implies #[trigger] w[i] == keys[i] by {}
        if watched_count(w, request_id, session) > 0 {
            let i = choose|i: int|
                0 <= i < w.len() && !((#[trigger] w[i]).request_id != request_id || (session is Some
                    && w[i].session_id != session->0));
            assert(keys[i] == w[i]);
            if session is Some && keys.no_duplicates() && is_watched(
                keys.last(),
                request_id,
                session,
            ) {
                assert(keys[i] == keys.last());
            }
        } else {
            assert forall|i: int| 0 <= i < w.len() implies (#[trigger] keys[i]).request_id
                != request_id || (session is Some && keys[i].session_id != session->0) by {
                assert(w[i] == keys[i]);
            }
        }
    }
}

/// The place of a watch after a run of updates is the highest that any of them named, or the
/// one it started from; updates at or below it are skipped.
pub proof fn law_the_place_is_the_highest_told(cursor: u64, updates: Seq<UpdateView>)
    ensures
        cursor_after(cursor, updates) == cursor || exists|i: int|
            0 <= i < updates.len() && place_of(#[trigger] updates[i]) == Some(
                cursor_after(cursor, updates),
            ),
        cursor_after(cursor, Seq::empty()) == cursor,
    decreases updates.len(),
{
    if updates.len() > 0 {
        let w = updates.drop_last();
        law_the_place_is_the_highest_told(cursor, w);
        if cursor_after(cursor, updates) == cursor_after(cursor, w) {
            if cursor_after(cursor, w) != cursor {
                let i = choose|i: int|
                    0 <= i < w.len() && place_of(#[trigger] w[i]) == Some(cursor_after(cursor, w));
                assert(updates[i] == w[i]);
            }
        } else {
            assert(updates[updates.len() - 1] == updates.last());
        }
    }
}

/// After a replay the watch stands at the last event it told; without any it stands where it
/// began.
pub proof fn law_the_watch_stands_behind_the_replay(events: Seq<StoredEvent>, start: u64)
    ensures
        events.len() == 0 ==> last_place(events, start) == start,
        events.len() > 0 ==> last_place(events, start) == events[events.len() - 1].seq,
{
}

/// A watch is told to begin anew exactly where a full replay does not reach the end of the
/// run.
pub proof fn law_who_is_too_far_behind(events: Seq<StoredEvent>, run: RunView)
    ensures
        events.len() < REPLAY_EVENTS ==> !too_far_behind(events, run),
        events.len() == REPLAY_EVENTS && events.len() > 0 ==> (too_far_behind(events, run)
            <==> last_place(events, 0) < run.last_seq),
{
}

/// A run ended badly exactly where it failed, was cancelled or was lost in a restart.
pub proof fn law_what_a_bad_end_is(status: RunStatus)
    ensures
        ended_badly(status) <==> status is Failed || status is Cancelled
            || status is UnknownAfterRestart,
{
}

} // verus!
