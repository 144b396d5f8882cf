//! Control of running turns: events, questions, cancellation and audits.
use vstd::prelude::*;

use crate::daemon::chat;
use crate::daemon::chat::{
    Admission, AdmissionStep, Failure, QueueStep, RunEnd, RunRecord, RunStatus, RunView, TurnOutcome,
};
use crate::daemon::handlers::{
    INTERNAL_ERROR, INVALID_PARAMS, REQUEST_CANCELLED, REQUEST_CONFLICT, UNKNOWN_OUTCOME,
};
use crate::daemon::protocol;
use crate::daemon::protocol::{
    EventKind, FrameView, JsonRpcResponse, RequestId, RequestIdView, ServerFrame,
};
use crate::daemon::{ActiveKey, ActiveRequestUpdate, DaemonState, KeyView, UpdateView};
use crate::json;
use crate::json::{Json, JsonView};
use crate::text;

verus! {

/// What becomes of an update of a running turn.
#[derive(Debug)]
pub enum PublishPlan {
    /// Nothing: the end of the turn is told once it is stored.
    Skip,
    /// It is told as it is.
    Tell(ActiveRequestUpdate),
    /// It is stored first, under the run and the name.
    Store { run_id: String, name: String, update: ActiveRequestUpdate },
}

/// The run of a request that is being worked on.
pub open spec fn run_of(s: DaemonState, key: KeyView) -> Option<Seq<char>> {
    if s.active.keys().contains(key) {
        Some(
            s.active.entries@[choose|i: int|
                0 <= i < s.active.keys().len() && s.active.keys()[i] == key].1.run_id@,
        )
    } else {
        None
    }
}

/// The question of an event, as it is stored with its owner.
pub open spec fn interaction_json(
    id: Seq<char>,
    session_id: Seq<char>,
    run_id: Seq<char>,
    approval: JsonView,
) -> JsonView {
    JsonView::Object(
        seq![
            ("interaction_id"@, JsonView::Str(id)),
            ("session_id"@, JsonView::Str(session_id)),
            ("owner_run_id"@, JsonView::Str(run_id)),
            ("kind"@, JsonView::Str("approval"@)),
            ("status"@, JsonView::Str("pending"@)),
            ("revision"@, JsonView::Int(0)),
            ("payload"@, approval),
        ],
    )
}

/// The data of an event with the question that it asks, if it asks one.
pub open spec fn with_interaction(
    kind: EventKind,
    data: JsonView,
    session_id: Seq<char>,
    run_id: Seq<char>,
) -> JsonView {
    let approval = json::at_key(data, "approval"@);
    match (kind == EventKind::ApprovalRequired, json::str_of(json::at_key(approval, "id"@))) {
        (true, Some(id)) => JsonView::Object(
            json::with_field(
                data->Object_0,
                "interaction"@,
                interaction_json(id, session_id, run_id, approval),
            ),
        ),
        _ => data,
    }
}

fn add_interaction(kind: EventKind, data: Json, session_id: &str, run_id: &str) -> (r: Json)
    ensures
        r@ == with_interaction(kind, data@, session_id@, run_id@),
{
    if kind != EventKind::ApprovalRequired {
        return data;
    }
    let approval = match data.get("approval") {
        Some(a) => a.clone(),
        None => return data,
    };
    let id = match approval.str_at("id") {
        Some(id) => id.to_owned(),
        None => return data,
    };
    let ghost asked = approval@;
    let ghost name = id@;
    let mut f = json::no_fields();
    json::put(&mut f, "interaction_id", Json::Str(id));
    json::put(&mut f, "session_id", Json::of_str(session_id));
    json::put(&mut f, "owner_run_id", Json::of_str(run_id));
    json::put(&mut f, "kind", Json::of_str("approval"));
    json::put(&mut f, "status", Json::of_str("pending"));
    json::put(&mut f, "revision", Json::Unsigned(0));
    json::put(&mut f, "payload", approval);
    assert(json::fields_view(f@) =~= interaction_json(
        name,
        session_id@,
        run_id@,
        asked,
    )->Object_0);
    json::set_field(data, "interaction", json::object(f))
}

/// The update with the place at which it is stored.
pub open spec fn placed(u: UpdateView, run_id: Seq<char>, seq: u64) -> UpdateView {
    match u {
        UpdateView::Event { kind, data, .. } => UpdateView::Event {
            kind,
            data,
            run_id: Some(run_id),
            seq: Some(seq),
        },
        other => other,
    }
}

/// Puts an update at its place among the stored events of its run.
pub fn place_update(update: ActiveRequestUpdate, run_id: &str, seq: u64) -> (r: ActiveRequestUpdate)
    ensures
        r@ == placed(update@, run_id@, seq),
{
    match update {
        ActiveRequestUpdate::Event { kind, data, .. } => ActiveRequestUpdate::Event {
            kind,
            data,
            run_id: Some(run_id.to_owned()),
            seq: Some(seq),
        },
        other => other,
    }
}

proof fn lemma_run_of(s: DaemonState, key: KeyView, i: int)
    requires
        s.wf(),
        0 <= i < s.active.entries@.len(),
        s.active.keys()[i] == key,
    ensures
        run_of(s, key) == Some(s.active.entries@[i].1.run_id@),
{
    let keys = s.active.keys();
    assert(keys.contains(key));
    let w = choose|w: int| 0 <= w < keys.len() && keys[w] == key;
    assert(w == i);
}

impl DaemonState {
    /// The run of a request that is being worked on.
    pub fn active_run(&self, key: &ActiveKey) -> (r: Option<String>)
        requires
            self.wf(),
        ensures
            json::opt_text(r) == run_of(*self, key@),
    {
        match self.active.position(key) {
            Some(i) => {
                proof {
                    lemma_run_of(*self, key@, i as int);
                }
                Some(self.active.entries[i].1.run_id.clone())
            },
            None => None,
        }
    }

    /// Decides what becomes of an update of a running turn. Events of a turn are stored before
    /// they are told, a question together with its owner.
    pub fn publish_plan(&self, key: &ActiveKey, update: ActiveRequestUpdate) -> (r: PublishPlan)
        requires
            self.wf(),
        ensures
            match update@ {
                UpdateView::Event { kind, data, run_id, seq } => if kind
                    == EventKind::TurnCompleted {
                    r is Skip
                } else {
                    match run_of(*self, key@) {
                        Some(run) => r matches PublishPlan::Store { run_id: id, name, update: u }
                            && id@ == run && name@ == protocol::kind_name(kind) && u@
                            == (UpdateView::Event {
                            kind,
                            data: with_interaction(kind, data, key@.session_id, run),
                            run_id,
                            seq,
                        }),
                        None => r matches PublishPlan::Tell(u) && u@ == update@,
                    }
                },
                _ => r matches PublishPlan::Tell(u) && u@ == update@,
            },
    {
        match update {
            ActiveRequestUpdate::Event { kind, data, run_id, seq } => {
                if kind == EventKind::TurnCompleted {
                    return PublishPlan::Skip;
                }
                match self.active_run(key) {
                    Some(run) => {
                        let data = add_interaction(
                            kind,
                            data,
                            key.session_id.as_str(),
                            run.as_str(),
                        );
                        PublishPlan::Store {
                            run_id: run,
                            name: protocol::event_name(kind).to_owned(),
                            update: ActiveRequestUpdate::Event { kind, data, run_id, seq },
                        }
                    },
                    None => PublishPlan::Tell(
                        ActiveRequestUpdate::Event { kind, data, run_id, seq },
                    ),
                }
            },
            other => PublishPlan::Tell(other),
        }
    }

    /// Tells an update: those who watch the request see it, and the frame goes to the one who
    /// asked.
    pub fn tell(&mut self, key: &ActiveKey, update: &ActiveRequestUpdate) -> (r: ServerFrame)
        requires
            old(self).wf(),
        ensures
            final(self).wf(),
            final(self).active.keys() == old(self).active.keys(),
            r@ == crate::daemon::update_frame(update@, key@.request_id),
            *final(self) == (DaemonState { active: final(self).active, ..*old(self) }),
            final(self).active@ == chat::told(old(self).active@, key@, update@),
    {
        self.active.publish(key, update);
        update.to_frame(key.request_id.clone())
    }

    /// Goes on with an update that was to be stored: it is told with its place; where storing
    /// it failed, the turn is asked to stop and nothing is told.
    pub fn publish_update(
        &mut self,
        key: &ActiveKey,
        run_id: &str,
        update: ActiveRequestUpdate,
        stored: Result<u64, String>,
    ) -> (r: Option<ServerFrame>)
        requires
            old(self).wf(),
        ensures
            final(self).wf(),
            final(self).active.keys() == old(self).active.keys(),
            match stored {
                Ok(seq) => r is Some && r->0@ == crate::daemon::update_frame(
                    placed(update@, run_id@, seq),
                    key@.request_id,
                ),
                Err(_) => r is None,
            },
            *final(self) == (DaemonState { active: final(self).active, ..*old(self) }),
            final(self).active@ == (match stored {
                Ok(seq) => chat::told(old(self).active@, key@, placed(update@, run_id@, seq)),
                Err(e) => chat::stopped(old(self).active@, key@, Some(e@)),
            }),
    {
        match stored {
            Ok(seq) => {
                let update = place_update(update, run_id, seq);
                Some(self.tell(key, &update))
            },
            Err(e) => {
                self.active.stop(key, Some(e));
                None
            },
        }
    }

    /// Tells the end of a turn that is stored. Its place is the one before the last, which is
    /// that of the run's end.
    pub fn publish_committed_completion(
        &mut self,
        key: &ActiveKey,
        content: &str,
        last_seq: Option<u64>,
    ) -> (r: Option<ServerFrame>)
        requires
            old(self).wf(),
        ensures
            final(self).wf(),
            final(self).active.keys() == old(self).active.keys(),
            match run_of(*old(self), key@) {
                None => r is None && *final(self) == *old(self),
                Some(run) => {
                    let update = completion_update(run, content@, last_seq);
                    &&& r is Some
                    &&& r->0@ == crate::daemon::update_frame(update, key@.request_id)
                    &&& *final(self) == (DaemonState { active: final(self).active, ..*old(self) })
                    &&& final(self).active@ == chat::told(old(self).active@, key@, update)
                },
            },
    {
        let run = match self.active_run(key) {
            Some(run) => run,
            None => return None,
        };
        let mut f = json::no_fields();
        json::put(&mut f, "content", Json::of_str(content));
        assert(json::fields_view(f@) =~= seq![("content"@, JsonView::Str(content@))]);
        let seq = match last_seq {
            Some(n) => Some(n.saturating_sub(1)),
            None => None,
        };
        let update = ActiveRequestUpdate::Event {
            kind: EventKind::TurnCompleted,
            data: json::object(f),
            run_id: Some(run),
            seq,
        };
        Some(self.tell(key, &update))
    }
}

/// What a request to cancel means.
#[derive(Debug)]
pub enum CancelTarget {
    /// A run of the session.
    Run { run_id: String, session_id: String },
    /// A request of the session.
    Request { request_id: RequestId, session_id: String },
    /// A request of whichever session has it.
    RequestAnywhere { request_id: RequestId },
}

/// What a request to cancel means: a run goes before a request, and needs its session.
pub fn cancel_target(
    request_id: Option<RequestId>,
    run_id: Option<String>,
    session_id: Option<String>,
) -> (r: Result<CancelTarget, Failure>)
    ensures
        match (run_id, request_id, session_id) {
            (Some(run), _, Some(session)) => r is Ok && (r->Ok_0 matches CancelTarget::Run {
                run_id: a,
                session_id: b,
            } && a == run && b == session),
            (Some(_), _, None) => chat::fails(
                r,
                INVALID_PARAMS,
                "exact cancel 需要 session_id"@,
            ),
            (None, Some(id), Some(session)) => r is Ok && (
            r->Ok_0 matches CancelTarget::Request { request_id: a, session_id: b } && a == id && b
                == session),
            (None, Some(id), None) => r is Ok && (r->Ok_0 matches CancelTarget::RequestAnywhere {
                request_id: a,
            } && a == id),
            (None, None, _) => chat::fails(r, INVALID_PARAMS, "需要 run_id 或 request_id"@),
        },
{
    match (run_id, request_id, session_id) {
        (Some(run_id), _, Some(session_id)) => Ok(CancelTarget::Run { run_id, session_id }),
        (Some(_), _, None) => Err((INVALID_PARAMS, "exact cancel 需要 session_id".to_owned())),
        (None, Some(request_id), Some(session_id)) => Ok(
            CancelTarget::Request { request_id, session_id },
        ),
        (None, Some(request_id), None) => Ok(CancelTarget::RequestAnywhere { request_id }),
        (None, None, _) => Err((INVALID_PARAMS, "需要 run_id 或 request_id".to_owned())),
    }
}

/// The answer that nothing was cancelled, with the reason.
pub open spec fn not_cancelled(reason: Seq<char>) -> Seq<(Seq<char>, JsonView)> {
    seq![("cancelled"@, JsonView::Bool(false)), ("reason"@, JsonView::Str(reason))]
}

/// What follows the look for what is to be cancelled.
#[derive(Debug)]
pub enum CancelStep {
    /// Answer at once.
    Reply(Json),
    /// Take the run out of the queue; what came of it goes to `DaemonState::cancel_queued`.
    RemoveQueued(RunRecord),
    /// Stop the run with `DaemonState::cancel_running`.
    Stop(RunRecord),
}

/// What follows, where the run was found.
pub open spec fn step_for(run: RunView, r: CancelStep) -> bool {
    if run.status == RunStatus::Queued {
        r matches CancelStep::RemoveQueued(q) && q@ == run
    } else {
        r matches CancelStep::Stop(q) && q@ == run
    }
}

/// Decides what follows the look for what is to be cancelled.
pub fn cancel_found(target: &CancelTarget, found: Result<Option<RunRecord>, String>) -> (r: Result<
    CancelStep,
    Failure,
>)
    ensures
        match (*target, found) {
            (CancelTarget::Run { session_id, .. }, Ok(Some(run))) => if run@.session_id
                == session_id@ {
                r is Ok && step_for(run@, r->Ok_0)
            } else {
                chat::fails(r, REQUEST_CONFLICT, "run 不属于指定 session"@)
            },
            (CancelTarget::Run { .. }, Ok(None)) => chat::fails(
                r,
                INVALID_PARAMS,
                "run 不存在"@,
            ),
            (CancelTarget::Run { .. }, Err(e)) => chat::fails(r, INTERNAL_ERROR, e@),
            (_, Ok(Some(run))) => r is Ok && step_for(run@, r->Ok_0),
            (_, Ok(None)) => r is Ok && (r->Ok_0 matches CancelStep::Reply(j) && j@
                == JsonView::Object(not_cancelled("请求不存在"@))),
            (_, Err(e)) => chat::fails(r, REQUEST_CONFLICT, e@),
        },
{
    let exact = match target {
        CancelTarget::Run { .. } => true,
        _ => false,
    };
    match found {
        Err(e) => if exact {
            Err((INTERNAL_ERROR, e))
        } else {
            Err((REQUEST_CONFLICT, e))
        },
        Ok(None) => if exact {
            Err((INVALID_PARAMS, "run 不存在".to_owned()))
        } else {
            let mut f = json::no_fields();
            json::put(&mut f, "cancelled", Json::Bool(false));
            json::put(&mut f, "reason", Json::of_str("请求不存在"));
            assert(json::fields_view(f@) =~= not_cancelled("请求不存在"@));
            Ok(CancelStep::Reply(json::object(f)))
        },
        Ok(Some(run)) => {
            if let CancelTarget::Run { session_id, .. } = target {
                if !text::same(run.session_id.as_str(), session_id.as_str()) {
                    return Err((REQUEST_CONFLICT, "run 不属于指定 session".to_owned()));
                }
            }
            if run.status == RunStatus::Queued {
                Ok(CancelStep::RemoveQueued(run))
            } else {
                Ok(CancelStep::Stop(run))
            }
        },
    }
}

/// The answer for a run that was cancelled in the state, or not.
pub open spec fn cancel_json(cancelled: bool, run: RunView, status: Seq<char>) -> JsonView {
    JsonView::Object(
        seq![
            ("cancelled"@, JsonView::Bool(cancelled)),
            ("run_id"@, JsonView::Str(run.run_id)),
            ("status"@, JsonView::Str(status)),
        ],
    )
}

fn cancel_to_json(cancelled: bool, run: &RunRecord, status: &str) -> (r: Json)
    ensures
        r@ == cancel_json(cancelled, run@, status@),
{
    let mut f = json::no_fields();
    json::put(&mut f, "cancelled", Json::Bool(cancelled));
    json::put(&mut f, "run_id", Json::Str(run.run_id.clone()));
    json::put(&mut f, "status", Json::of_str(status));
    assert(json::fields_view(f@) =~= cancel_json(cancelled, run@, status@)->Object_0);
    json::object(f)
}

/// The key of a run's request.
pub open spec fn run_key(run: RunView) -> KeyView {
    KeyView { session_id: run.session_id, request_id: run.request_id }
}

fn key_of(run: &RunRecord) -> (r: ActiveKey)
    ensures
        r@ == run_key(run@),
{
    ActiveKey { session_id: run.session_id.clone(), request_id: run.request_id.clone() }
}

/// What came of stopping a run: the answer, and the questions that end with it.
#[derive(Debug)]
pub struct Stopped {
    pub reply: Json,
    pub refused: Vec<String>,
}

impl DaemonState {
    /// Goes on after a run was to be taken out of the queue. One that was there is told to
    /// those who watch; one that had left the queue is read again.
    pub fn cancel_queued(&mut self, run: &RunRecord, removed: Result<bool, String>) -> (r: Result<
        Option<Json>,
        Failure,
    >)
        requires
            old(self).wf(),
        ensures
            final(self).wf(),
            final(self).active.keys() == old(self).active.keys(),
            match removed {
                Err(e) => chat::fails(r, INTERNAL_ERROR, e@) && *final(self) == *old(self),
                Ok(false) => r is Ok && r->Ok_0 is None && *final(self) == *old(self),
                Ok(true) => {
                    &&& r is Ok && r->Ok_0 is Some
                    &&& r->Ok_0->0@ == cancel_json(true, run@, "queued"@)
                    &&& *final(self) == (DaemonState { active: final(self).active, ..*old(self) })
                    &&& final(self).active@ == chat::stopped(
                        chat::told(
                            old(self).active@,
                            run_key(run@),
                            UpdateView::Failed {
                                code: REQUEST_CANCELLED,
                                message: "请求已取消"@,
                            },
                        ),
                        run_key(run@),
                        None,
                    )
                },
            },
    {
        match removed {
            Err(e) => Err((INTERNAL_ERROR, e)),
            Ok(false) => Ok(None),
            Ok(true) => {
                let key = key_of(run);
                let end = ActiveRequestUpdate::Failed {
                    code: REQUEST_CANCELLED,
                    message: "请求已取消".to_owned(),
                };
                self.active.publish(&key, &end);
                self.active.stop(&key, None);
                Ok(Some(cancel_to_json(true, run, "queued")))
            },
        }
    }

    /// Stops a run that is being worked on: its turn is asked to stop and its questions end.
    /// A run that is done, or that nothing works on any more, is left alone.
    pub fn cancel_running(&mut self, run: &RunRecord) -> (r: Stopped)
        requires
            old(self).wf(),
        ensures
            final(self).wf(),
            final(self).active.keys() == old(self).active.keys(),
            ({
                let worked_on = run@.status == RunStatus::Running || run@.status
                    == RunStatus::WaitingInteraction;
                let here = run_of(*old(self), run_key(run@)) == Some(run@.run_id);
                if !worked_on {
                    &&& r.reply@ == cancel_json(false, run@, chat::status_name(run@.status))
                    &&& r.refused@.len() == 0
                    &&& *final(self) == *old(self)
                } else if !here {
                    &&& r.reply@ == JsonView::Object(
                        not_cancelled("执行体已消失"@).push(
                            ("run_id"@, JsonView::Str(run@.run_id)),
                        ),
                    )
                    &&& r.refused@.len() == 0
                    &&& *final(self) == *old(self)
                } else {
                    &&& r.reply@ == cancel_json(true, run@, "running"@)
                    &&& *final(self) == (DaemonState {
                        active: final(self).active,
                        approvals: final(self).approvals,
                        ..*old(self)
                    })
                    &&& final(self).active@ == chat::stopped(
                        old(self).active@,
                        run_key(run@),
                        None,
                    )
                    &&& final(self).approvals@ == crate::daemon::approval::staying(
                        old(self).approvals@,
                        Some(run@.session_id),
                        run@.request_id,
                    )
                    &&& text::views(r.refused@) == crate::daemon::approval::ending(
                        old(self).approvals@,
                        Some(run@.session_id),
                        run@.request_id,
                    )
                }
            }),
    {
        if run.status != RunStatus::Running && run.status != RunStatus::WaitingInteraction {
            return Stopped {
                reply: cancel_to_json(false, run, run.status.name()),
                refused: Vec::new(),
            };
        }
        let key = key_of(run);
        let here = match self.active_run(&key) {
            Some(id) => text::same(id.as_str(), run.run_id.as_str()),
            None => false,
        };
        if !here {
            let mut f = json::no_fields();
            json::put(&mut f, "cancelled", Json::Bool(false));
            json::put(&mut f, "reason", Json::of_str("执行体已消失"));
            json::put(&mut f, "run_id", Json::Str(run.run_id.clone()));
            assert(json::fields_view(f@) =~= not_cancelled("执行体已消失"@).push(
                ("run_id"@, JsonView::Str(run@.run_id)),
            ));
            return Stopped { reply: json::object(f), refused: Vec::new() };
        }
        self.active.stop(&key, None);
        let refused = self.approvals.cancel_request_in_session(
            run.session_id.as_str(),
            &run.request_id,
        );
        Stopped { reply: cancel_to_json(true, run, "running"), refused }
    }
}

/// Decides on a run that had left the queue when it was to be taken out.
pub fn cancel_reread(read: Result<Option<RunRecord>, String>) -> (r: Result<RunRecord, Failure>)
    ensures
        match read {
            Ok(Some(run)) => r is Ok && r->Ok_0@ == run@,
            Ok(None) => chat::fails(r, INVALID_PARAMS, "run 不存在"@),
            Err(e) => chat::fails(r, INTERNAL_ERROR, e@),
        },
{
    match read {
        Ok(Some(run)) => Ok(run),
        Ok(None) => Err((INVALID_PARAMS, "run 不存在".to_owned())),
        Err(e) => Err((INTERNAL_ERROR, e)),
    }
}

/// A stored question.
#[derive(Debug)]
pub struct Interaction {
    pub session_id: String,
    pub owner_run_id: String,
    pub revision: i64,
    pub status: String,
}

/// An answer to a question.
#[derive(Debug)]
pub struct AnswerParams {
    pub approved: Option<bool>,
    pub session_id: Option<String>,
    pub owner_run_id: Option<String>,
    pub revision: Option<i64>,
}

/// What is done with an answer.
#[derive(Clone, Copy, Debug, PartialEq, Eq, Structural)]
pub struct AnswerStep {
    /// The one who asked still waits, and hears the answer.
    pub waiting: bool,
    pub approved: bool,
    pub revision: i64,
}

/// The answer is meant for another owner than the question has.
pub open spec fn owner_differs(p: AnswerParams, current: Interaction) -> bool {
    ||| p.session_id is Some && p.session_id->0@ != current.session_id@
    ||| p.owner_run_id is Some && p.owner_run_id->0@ != current.owner_run_id@
}

/// Decides what is done with an answer: it must say yes or no unless the question is
/// rejected, and must be meant for the owner of the question.
pub fn resolve_interaction(
    p: &AnswerParams,
    rejected: bool,
    current: Result<Option<Interaction>, String>,
) -> (r: Result<AnswerStep, Failure>)
    ensures
        if !rejected && p.approved is None {
            chat::fails(r, INVALID_PARAMS, "缺少 approved"@)
        } else {
            match current {
                Err(e) => chat::fails(r, INTERNAL_ERROR, e@),
                Ok(None) => chat::fails(r, INVALID_PARAMS, "interaction 不存在"@),
                Ok(Some(c)) => if owner_differs(*p, c) {
                    chat::fails(r, REQUEST_CONFLICT, "interaction owner 不匹配"@)
                } else {
                    r == Ok::<AnswerStep, Failure>(
                        AnswerStep {
                            waiting: c.status@ == "pending"@,
                            approved: !rejected && p.approved->0,
                            revision: match p.revision {
                                Some(n) => n,
                                None => c.revision,
                            },
                        },
                    )
                },
            }
        },
{
    let approved = if rejected {
        false
    } else {
        match p.approved {
            Some(b) => b,
            None => return Err((INVALID_PARAMS, "缺少 approved".to_owned())),
        }
    };
    let current = match current {
        Err(e) => return Err((INTERNAL_ERROR, e)),
        Ok(None) => return Err((INVALID_PARAMS, "interaction 不存在".to_owned())),
        Ok(Some(c)) => c,
    };
    let other_session = match &p.session_id {
        Some(s) => !text::same(s.as_str(), current.session_id.as_str()),
        None => false,
    };
    let other_run = match &p.owner_run_id {
        Some(s) => !text::same(s.as_str(), current.owner_run_id.as_str()),
        None => false,
    };
    if other_session || other_run {
        return Err((REQUEST_CONFLICT, "interaction owner 不匹配".to_owned()));
    }
    let revision = match p.revision {
        Some(n) => n,
        None => current.revision,
    };
    Ok(AnswerStep { waiting: text::same(current.status.as_str(), "pending"), approved, revision })
}

/// The reply to an answer that was taken.
pub fn answer_accepted(record: Json) -> (r: Json)
    ensures
        r@ == JsonView::Object(
            seq![("accepted"@, JsonView::Bool(true)), ("interaction"@, record@)],
        ),
{
    let ghost given = record@;
    let mut f = json::no_fields();
    json::put(&mut f, "accepted", Json::Bool(true));
    json::put(&mut f, "interaction", record);
    assert(json::fields_view(f@) =~= seq![
        ("accepted"@, JsonView::Bool(true)),
        ("interaction"@, given),
    ]);
    json::object(f)
}

/// An answer was stored although nobody heard it, so that the end of its run is not known.
pub fn answer_was_lost(status_after: Option<&str>) -> (r: bool)
    ensures
        r == (match status_after {
            Some(s) => s@ == "answered"@ || s@ == "rejected"@,
            None => false,
        }),
{
    match status_after {
        Some(s) => text::same(s, "answered") || text::same(s, "rejected"),
        None => false,
    }
}

/// What follows an answer that was not taken: the failure, and how the run of the question
/// ends where the answer was stored all the same.
pub fn answer_failed(error: String, status_after: Option<&str>) -> (r: (Failure, Option<RunEnd>))
    ensures
        r.0.0 == REQUEST_CONFLICT && r.0.1@ == error@,
        r.1 is Some == (match status_after {
            Some(s) => s@ == "answered"@ || s@ == "rejected"@,
            None => false,
        }),
        match r.1 {
            Some(end) => end.status == RunStatus::UnknownAfterRestart && end.content is None
                && end.error is Some && end.error->Some_0.0 == UNKNOWN_OUTCOME
                && end.error->Some_0.1@ == "审批执行体已消失"@,
            None => true,
        },
{
    let end = if answer_was_lost(status_after) {
        Some(
            RunEnd {
                status: RunStatus::UnknownAfterRestart,
                content: None,
                error: Some((UNKNOWN_OUTCOME, "审批执行体已消失".to_owned())),
            },
        )
    } else {
        None
    };
    ((REQUEST_CONFLICT, error), end)
}

/// The reply for what the store gave, under its name.
pub fn stored_reply(name: &str, read: Result<Json, String>) -> (r: Result<Json, Failure>)
    ensures
        match read {
            Ok(j) => r is Ok && r->Ok_0@ == JsonView::Object(seq![(name@, j@)]),
            Err(e) => chat::fails(r, INTERNAL_ERROR, e@),
        },
{
    match read {
        Ok(j) => {
            let ghost given = j@;
            let mut f = json::no_fields();
            json::put(&mut f, name, j);
            assert(json::fields_view(f@) =~= seq![(name@, given)]);
            Ok(json::object(f))
        },
        Err(e) => Err((INTERNAL_ERROR, e)),
    }
}

/// The reply for a run that was looked up.
pub fn run_reply(read: Result<Option<Json>, String>) -> (r: Result<Json, Failure>)
    ensures
        match read {
            Ok(Some(j)) => r is Ok && r->Ok_0@ == j@,
            Ok(None) => chat::fails(r, INVALID_PARAMS, "run 不存在"@),
            Err(e) => chat::fails(r, INTERNAL_ERROR, e@),
        },
{
    match read {
        Ok(Some(j)) => Ok(j),
        Ok(None) => Err((INVALID_PARAMS, "run 不存在".to_owned())),
        Err(e) => Err((INTERNAL_ERROR, e)),
    }
}

/// Some request that is being worked on belongs to the run.
pub open spec fn worked_on(state: DaemonState, run_id: Seq<char>) -> bool {
    exists|i: int|
        0 <= i < state.active.entries@.len() && (#[trigger] state.active.entries@[i]).1.run_id@
            == run_id
}

/// Decides, before anything is written, whether the end of a run may be settled by hand: not
/// while the run is being worked on.
pub fn may_reconcile(state: &DaemonState, run_id: &str) -> (r: Result<(), Failure>)
    ensures
        if worked_on(*state, run_id@) {
            r is Err && r->Err_0.0 == REQUEST_CONFLICT && r->Err_0.1@ == "run 仍有活动执行体"@
        } else {
            r is Ok
        },
{
    if state.active.has_run(run_id) {
        return Err((REQUEST_CONFLICT, "run 仍有活动执行体".to_owned()));
    }
    Ok(())
}

/// The reply for a run whose end was settled by hand, from what the store said.
pub fn reconcile_reply(settled: Result<Json, String>) -> (r: Result<Json, Failure>)
    ensures
        match settled {
            Ok(j) => r is Ok && r->Ok_0@ == JsonView::Object(seq![("run"@, j@)]),
            Err(e) => chat::fails(r, REQUEST_CONFLICT, e@),
        },
{
    match settled {
        Ok(j) => {
            let ghost given = j@;
            let mut f = json::no_fields();
            json::put(&mut f, "run", j);
            assert(json::fields_view(f@) =~= seq![("run"@, given)]);
            Ok(json::object(f))
        },
        Err(e) => Err((REQUEST_CONFLICT, e)),
    }
}

/// The reply to the one who stops the daemon.
pub fn stop_reply() -> (r: Json)
    ensures
        r@ == JsonView::Object(
            seq![
                ("stopping"@, JsonView::Bool(true)),
                ("active_turns_finish_gracefully"@, JsonView::Bool(false)),
                ("active_turns_cancelled"@, JsonView::Bool(true)),
            ],
        ),
{
    let mut f = json::no_fields();
    json::put(&mut f, "stopping", Json::Bool(true));
    json::put(&mut f, "active_turns_finish_gracefully", Json::Bool(false));
    json::put(&mut f, "active_turns_cancelled", Json::Bool(true));
    assert(json::fields_view(f@) =~= seq![
        ("stopping"@, JsonView::Bool(true)),
        ("active_turns_finish_gracefully"@, JsonView::Bool(false)),
        ("active_turns_cancelled"@, JsonView::Bool(true)),
    ]);
    json::object(f)
}

/// A run as the store keeps it once it has ended.
#[derive(Debug)]
pub struct CommittedRun {
    pub status: RunStatus,
    pub content: Option<String>,
    /// The last place of the run, where it could be read.
    pub last_seq: Option<u64>,
}

/// The update that ends a turn with a reply.
pub open spec fn terminal_update(r: Result<Json, Failure>) -> UpdateView {
    match r {
        Ok(j) => UpdateView::Completed(j@),
        Err((code, message)) => UpdateView::Failed { code, message: message@ },
    }
}

/// The reply that a message gets once its run is stored.
pub open spec fn final_update(committed: RunStatus, response: Result<Json, Failure>) -> UpdateView {
    if committed == RunStatus::UnknownAfterRestart {
        UpdateView::Failed {
            code: crate::daemon::handlers::UNKNOWN_OUTCOME,
            message: "工具执行结果未知，禁止自动重放"@,
        }
    } else {
        terminal_update(response)
    }
}

/// The update that tells the stored answer of a run.
pub open spec fn completion_update(run: Seq<char>, content: Seq<char>, last_seq: Option<u64>) -> UpdateView {
    UpdateView::Event {
        kind: EventKind::TurnCompleted,
        data: JsonView::Object(seq![("content"@, JsonView::Str(content))]),
        run_id: Some(run),
        seq: match last_seq {
            Some(n) => Some(
                if n == 0 {
                    0u64
                } else {
                    (n - 1) as u64
                },
            ),
            None => None,
        },
    }
}

/// The frames that a message gets once its run has ended: the answer, where one is stored, and
/// the reply.
pub open spec fn closing_frames(
    run: Option<Seq<char>>,
    id: RequestIdView,
    stored: Result<CommittedRun, String>,
    response: Result<Json, Failure>,
) -> Seq<FrameView> {
    match stored {
        Err(e) => seq![
            FrameView::Response(
                protocol::failure_view(id, INTERNAL_ERROR, "持久化终态失败: "@ + e@),
            ),
        ],
        Ok(c) => (match (run, c.content) {
            (Some(run), Some(content)) => seq![
                crate::daemon::update_frame(
                    completion_update(run, content@, c.last_seq),
                    id,
                ),
            ],
            _ => Seq::empty(),
        }).push(crate::daemon::update_frame(final_update(c.status, response), id)),
    }
}

/// What follows the admission of a message.
#[derive(Debug)]
pub enum ChatStart {
    /// It is answered at once.
    End(JsonRpcResponse),
    /// It waits for the turn of its run.
    Wait(RunRecord),
}

/// The answer that an admitted message gets at once, if it gets one: one that was sent before
/// is answered from its run unless it still waits, and one that is being worked on is told so.
pub open spec fn admitted_reply(s: DaemonState, key: KeyView, admitted: Admission) -> Option<JsonView> {
    let run = match admitted {
        Admission::New(run) => run@,
        Admission::Existing(run) => run@,
    };
    if admitted is Existing && run.status == RunStatus::Completed {
        Some(chat::done_json(run.content, run))
    } else if admitted is Existing && run.status != RunStatus::Queued {
        Some(chat::duplicate_json(run))
    } else if s.active.keys().contains(key) {
        Some(chat::busy_json(run))
    } else {
        None
    }
}

/// A message goes on to wait, starts, or ends.
#[derive(Debug)]
pub enum QueueMove {
    Start,
    Wait,
    End(JsonRpcResponse),
    /// It ends without an answer.
    Leave,
}

impl DaemonState {
    /// Goes on with a message once the store was asked to admit it; an error of the store
    /// tells whether the rules of the store were broken.
    pub fn chat_admitted(
        &mut self,
        key: &ActiveKey,
        admitted: Result<Admission, (bool, String)>,
    ) -> (r: ChatStart)
        requires
            old(self).wf(),
        ensures
            final(self).wf(),
            match admitted {
                Err((broken, e)) => {
                    &&& *final(self) == *old(self)
                    &&& r matches ChatStart::End(reply) && reply@ == protocol::failure_view(
                        key@.request_id,
                        if broken {
                            REQUEST_CONFLICT
                        } else {
                            INTERNAL_ERROR
                        },
                        e@,
                    )
                },
                Ok(a) => match admitted_reply(*old(self), key@, a) {
                    Some(j) => {
                        &&& *final(self) == *old(self)
                        &&& r matches ChatStart::End(reply) && reply@ == protocol::success_view(
                            key@.request_id,
                            j,
                        )
                    },
                    None => {
                        let run = match a {
                            Admission::New(run) => run@,
                            Admission::Existing(run) => run@,
                        };
                        &&& r matches ChatStart::Wait(q) && q@ == run
                        &&& *final(self) == (DaemonState {
                            active: final(self).active,
                            ..*old(self)
                        })
                        &&& final(self).active@ == old(self).active@.push((key@, chat::begun(run)))
                    },
                },
            },
    {
        match admitted {
            Err((broken, e)) => {
                let (code, message) = chat::admission_failure(broken, e);
                ChatStart::End(
                    JsonRpcResponse::failure(key.request_id.clone(), code, message.as_str()),
                )
            },
            Ok(a) => match chat::admission_step(a) {
                AdmissionStep::Reply(j) => ChatStart::End(
                    JsonRpcResponse::success(key.request_id.clone(), j),
                ),
                AdmissionStep::Enqueue(run) => match self.active.begin(key.clone(), &run) {
                    Ok(()) => ChatStart::Wait(run),
                    Err(j) => ChatStart::End(JsonRpcResponse::success(key.request_id.clone(), j)),
                },
            },
        }
    }

    /// Moves a waiting message on. `started` says whether the store let its run start. One
    /// that ends is let go.
    pub fn queue_move(&mut self, key: &ActiveKey, cancelled: bool, started: Result<bool, String>) -> (r:
        QueueMove)
        requires
            old(self).wf(),
        ensures
            final(self).wf(),
            *final(self) == (DaemonState { active: final(self).active, ..*old(self) }),
            match (cancelled, started) {
                (true, _) => {
                    &&& r matches QueueMove::End(reply) && reply@ == protocol::failure_view(
                        key@.request_id,
                        REQUEST_CANCELLED,
                        "请求已取消"@,
                    )
                    &&& final(self).active@ == chat::let_go(old(self).active@, key@)
                },
                (false, Ok(true)) => r is Start && final(self).active == old(self).active,
                (false, Ok(false)) => if old(self).shutdown.cancelled {
                    r is Leave && final(self).active@ == chat::let_go(old(self).active@, key@)
                } else {
                    r is Wait && final(self).active == old(self).active
                },
                (false, Err(e)) => {
                    &&& r matches QueueMove::End(reply) && reply@ == protocol::failure_view(
                        key@.request_id,
                        INTERNAL_ERROR,
                        e@,
                    )
                    &&& final(self).active@ == chat::let_go(old(self).active@, key@)
                },
            },
    {
        match chat::queue_step(cancelled, started, self.shutdown.is_cancelled()) {
            QueueStep::Start => QueueMove::Start,
            QueueStep::Wait => QueueMove::Wait,
            QueueStep::Leave => {
                self.active.end(key);
                QueueMove::Leave
            },
            QueueStep::Fail(code, message) => {
                self.active.end(key);
                QueueMove::End(
                    JsonRpcResponse::failure(key.request_id.clone(), code, message.as_str()),
                )
            },
        }
    }

    /// The reply to a message whose turn has ended, before it is stored.
    pub fn chat_response(&self, key: &ActiveKey, outcome: TurnOutcome, run: &RunRecord) -> (r: Result<
        Json,
        Failure,
    >)
        requires
            self.wf(),
        ensures
            forall|i: int|
                0 <= i < self.active.entries@.len() && self.active.keys()[i] == key@ ==> {
                    let a = (#[trigger] self.active.entries@[i]).1;
                    match a.storage_error {
                        Some(e) => chat::fails(r, INTERNAL_ERROR, "持久化事件失败: "@ + e@),
                        None => chat::turn_reply(outcome, a.cancellation.cancelled, run@, r),
                    }
                },
            !self.active.keys().contains(key@) ==> chat::turn_reply(outcome, false, run@, r),
    {
        match self.active.position(key) {
            Some(i) => {
                let a = &self.active.entries[i].1;
                let storage_error = match &a.storage_error {
                    Some(e) => Some(e.as_str()),
                    None => None,
                };
                proof {
                    assert forall|k: int|
                        0 <= k < self.active.entries@.len() && self.active.keys()[k]
                            == key@ implies k == i by {
                        assert(self.active.keys().no_duplicates());
                    }
                }
                chat::turn_response(storage_error, outcome, a.cancellation.is_cancelled(), run)
            },
            None => chat::turn_response(None, outcome, false, run),
        }
    }

    /// Ends a message whose run has ended: tells the stored answer and the reply to all who
    /// watch, and lets go of the request. Where the end could not be stored, only the one who
    /// asked is told.
    pub fn finish_chat(
        &mut self,
        key: &ActiveKey,
        stored: Result<CommittedRun, String>,
        response: Result<Json, Failure>,
    ) -> (r: Vec<ServerFrame>)
        requires
            old(self).wf(),
        ensures
            final(self).wf(),
            *final(self) == (DaemonState { active: final(self).active, ..*old(self) }),
            final(self).active@ == chat::let_go(old(self).active@, key@),
            crate::daemon::subscribe::frame_views(r@) == closing_frames(
                run_of(*old(self), key@),
                key@.request_id,
                stored,
                response,
            ),
    {
        let mut frames: Vec<ServerFrame> = Vec::new();
        let ghost before = self.active@;
        let ghost given = stored;
        let ghost reply = response;
        match stored {
            Err(e) => {
                let (code, message) = chat::commit_failure(e.as_str());
                frames.push(
                    ServerFrame::Response(
                        JsonRpcResponse::failure(key.request_id.clone(), code, message.as_str()),
                    ),
                );
            },
            Ok(committed) => {
                if let Some(content) = &committed.content {
                    proof {
                        let run = run_of(*old(self), key@);
                        if run is Some {
                            chat::lemma_told_and_let_go(
                                before,
                                key@,
                                completion_update(run->0, content@, committed.last_seq),
                            );
                        }
                    }
                    if let Some(frame) = self.publish_committed_completion(
                        key,
                        content.as_str(),
                        committed.last_seq,
                    ) {
                        frames.push(frame);
                    }
                }
                let end = match chat::committed_response(committed.status, response) {
                    Ok(j) => ActiveRequestUpdate::Completed(j),
                    Err((code, message)) => ActiveRequestUpdate::Failed { code, message },
                };
                proof {
                    chat::lemma_told_and_let_go(self.active@, key@, end@);
                }
                let frame = self.tell(key, &end);
                frames.push(frame);
            },
        }
        self.active.end(key);
        assert(crate::daemon::subscribe::frame_views(frames@) =~= closing_frames(
            run_of(*old(self), key@),
            key@.request_id,
            given,
            reply,
        ));
        frames
    }
}

/// Every message whose run has ended is answered once, after all that is told of it.
pub proof fn law_message_is_answered_once(
    run: Option<Seq<char>>,
    id: RequestIdView,
    stored: Result<CommittedRun, String>,
    response: Result<Json, Failure>,
)
    ensures
        ({
            let frames = closing_frames(run, id, stored, response);
            &&& frames.len() > 0
            &&& frames.last() matches FrameView::Response(reply) && reply.id == id
            &&& forall|i: int| 0 <= i < frames.len() - 1 ==> (#[trigger] frames[i]) is Event
        }),
{
}

/// Reading back: the question of an event, as it is stored with its owner, field by field.
pub proof fn law_interaction_reads_back(id: Seq<char>, session_id: Seq<char>, run_id: Seq<char>, approval: JsonView)
    ensures
        json::at_key(interaction_json(id, session_id, run_id, approval), "interaction_id"@)
            == JsonView::Str(id),
        json::at_key(interaction_json(id, session_id, run_id, approval), "session_id"@)
            == JsonView::Str(session_id),
        json::at_key(interaction_json(id, session_id, run_id, approval), "owner_run_id"@)
            == JsonView::Str(run_id),
        json::at_key(interaction_json(id, session_id, run_id, approval), "kind"@)
            == JsonView::Str("approval"@),
        json::at_key(interaction_json(id, session_id, run_id, approval), "status"@)
            == JsonView::Str("pending"@),
        json::at_key(interaction_json(id, session_id, run_id, approval), "revision"@)
            == JsonView::Int(0),
        json::at_key(interaction_json(id, session_id, run_id, approval), "payload"@) == approval,
{
    reveal_strlit("interaction_id");
    reveal_strlit("kind");
    reveal_strlit("owner_run_id");
    reveal_strlit("payload");
    reveal_strlit("revision");
    reveal_strlit("session_id");
    reveal_strlit("status");
    assert("interaction_id"@.len() != "session_id"@.len());
    assert("interaction_id"@.len() != "owner_run_id"@.len());
    assert("session_id"@.len() != "owner_run_id"@.len());
    assert("interaction_id"@.len() != "kind"@.len());
    assert("session_id"@.len() != "kind"@.len());
    assert("owner_run_id"@.len() != "kind"@.len());
    assert("interaction_id"@.len() != "status"@.len());
    assert("session_id"@.len() != "status"@.len());
    assert("owner_run_id"@.len() != "status"@.len());
    assert("kind"@.len() != "status"@.len());
    assert("interaction_id"@.len() != "revision"@.len());
    assert("session_id"@.len() != "revision"@.len());
    assert("owner_run_id"@.len() != "revision"@.len());
    assert("kind"@.len() != "revision"@.len());
    assert("status"@.len() != "revision"@.len());
    assert("interaction_id"@.len() != "payload"@.len());
    assert("session_id"@.len() != "payload"@.len());
    assert("owner_run_id"@.len() != "payload"@.len());
    assert("kind"@.len() != "payload"@.len());
    assert("status"@.len() != "payload"@.len());
    assert("revision"@.len() != "payload"@.len());
    json::lemma_field_at(interaction_json(id, session_id, run_id, approval), "interaction_id"@, 0);
    json::lemma_field_at(interaction_json(id, session_id, run_id, approval), "session_id"@, 1);
    json::lemma_field_at(interaction_json(id, session_id, run_id, approval), "owner_run_id"@, 2);
    json::lemma_field_at(interaction_json(id, session_id, run_id, approval), "kind"@, 3);
    json::lemma_field_at(interaction_json(id, session_id, run_id, approval), "status"@, 4);
    json::lemma_field_at(interaction_json(id, session_id, run_id, approval), "revision"@, 5);
    json::lemma_field_at(interaction_json(id, session_id, run_id, approval), "payload"@, 6);
}

/// Reading back: the answer for a run that was cancelled in the state, or not, field by
/// field.
pub proof fn law_cancel_reads_back(cancelled: bool, run: RunView, status: Seq<char>)
    ensures
        json::at_key(cancel_json(cancelled, run, status), "cancelled"@)
            == JsonView::Bool(cancelled),
        json::at_key(cancel_json(cancelled, run, status), "run_id"@) == JsonView::Str(run.run_id),
        json::at_key(cancel_json(cancelled, run, status), "status"@) == JsonView::Str(status),
{
    reveal_strlit("cancelled");
    reveal_strlit("run_id");
    reveal_strlit("status");
    assert("cancelled"@.len() != "run_id"@.len());
    assert("cancelled"@.len() != "status"@.len());
    assert("run_id"@[0] != "status"@[0]);
    json::lemma_field_at(cancel_json(cancelled, run, status), "cancelled"@, 0);
    json::lemma_field_at(cancel_json(cancelled, run, status), "run_id"@, 1);
    json::lemma_field_at(cancel_json(cancelled, run, status), "status"@, 2);
}

/// The event of a question is stored with the interaction it opens, which names the
/// question, the session and the run it belongs to and carries it; any other event is stored
/// as it came.
pub proof fn law_questions_are_stored_with_their_owner(
    kind: EventKind,
    data: JsonView,
    session_id: Seq<char>,
    run_id: Seq<char>,
)
    ensures
        kind != EventKind::ApprovalRequired ==> with_interaction(kind, data, session_id, run_id)
            == data,
        kind == EventKind::ApprovalRequired ==> (json::at_key(
            json::at_key(data, "approval"@),
            "id"@,
        ) matches JsonView::Str(id) ==> data is Object ==> {
            let i = json::at_key(with_interaction(kind, data, session_id, run_id), "interaction"@);
            &&& json::at_key(i, "interaction_id"@) == JsonView::Str(id)
            &&& json::at_key(i, "session_id"@) == JsonView::Str(session_id)
            &&& json::at_key(i, "owner_run_id"@) == JsonView::Str(run_id)
            &&& json::at_key(i, "payload"@) == json::at_key(data, "approval"@)
        }),
{
    if kind == EventKind::ApprovalRequired && data is Object {
        let approval = json::at_key(data, "approval"@);
        if let JsonView::Str(id) = json::at_key(approval, "id"@) {
            law_interaction_reads_back(id, session_id, run_id, approval);
            let f = data->Object_0;
            let j = with_interaction(kind, data, session_id, run_id);
            lemma_key_shape(f, "interaction"@, 0);
            let at = json::key_index(f, "interaction"@, 0);
            json::lemma_field_at(j, "interaction"@, at);
        }
    }
}

proof fn lemma_key_shape(f: Seq<(Seq<char>, JsonView)>, key: Seq<char>, from: int)
    requires
        0 <= from <= f.len(),
    ensures
        from <= json::key_index(f, key, from) <= f.len(),
        json::key_index(f, key, from) < f.len() ==> f[json::key_index(f, key, from)].0 == key,
        forall|k: int| from <= k < json::key_index(f, key, from) ==> (#[trigger] f[k]).0 != key,
    decreases f.len() - from,
{
    if from < f.len() && f[from].0 != key {
        lemma_key_shape(f, key, from + 1);
    }
}

/// A stored event is told with its run and its place, and with the kind and the data it had;
/// an end has no place.
pub proof fn law_stored_events_have_a_place(u: UpdateView, run_id: Seq<char>, seq: u64)
    ensures
        u matches UpdateView::Event { kind, data, .. } ==> (placed(
            u,
            run_id,
            seq,
        ) matches UpdateView::Event { kind: k, data: d, run_id: r, seq: s } && k == kind && d
            == data && r == Some(run_id) && s == Some(seq)),
        !(u is Event) ==> placed(u, run_id, seq) == u,
{
}

/// A refused cancellation says so and why.
pub proof fn law_refused_cancellations_say_why(reason: Seq<char>)
    ensures
        json::at_key(JsonView::Object(not_cancelled(reason)), "cancelled"@) == JsonView::Bool(
            false,
        ),
        json::at_key(JsonView::Object(not_cancelled(reason)), "reason"@) == JsonView::Str(reason),
{
    reveal_strlit("cancelled");
    reveal_strlit("reason");
    let j = JsonView::Object(not_cancelled(reason));
    assert("cancelled"@.len() != "reason"@.len());
    json::lemma_field_at(j, "cancelled"@, 0);
    json::lemma_field_at(j, "reason"@, 1);
}

/// A run that waits is taken out of the queue; any other is stopped. Either way it is the run
/// that was found.
pub proof fn law_waiting_runs_leave_the_queue(run: RunView, r: CancelStep)
    requires
        step_for(run, r),
    ensures
        r is RemoveQueued <==> run.status is Queued,
        r is Stop <==> !(run.status is Queued),
        r matches CancelStep::RemoveQueued(q) ==> q@ == run,
        r matches CancelStep::Stop(q) ==> q@ == run,
{
}

/// A run works under its own session and request.
pub proof fn law_runs_are_keyed_by_session_and_request(a: RunView, b: RunView)
    ensures
        run_key(a).session_id == a.session_id,
        run_key(a).request_id == a.request_id,
        run_key(a) == run_key(b) <==> a.session_id == b.session_id && a.request_id == b.request_id,
{
}

/// An answer is for a question whose session and run it does not contradict.
pub proof fn law_answers_name_the_owner(p: AnswerParams, current: Interaction)
    ensures
        !owner_differs(p, current) <==> (p.session_id is Some ==> p.session_id->0@
            == current.session_id@) && (p.owner_run_id is Some ==> p.owner_run_id->0@
            == current.owner_run_id@),
{
}

/// A turn is told to end as it was answered, except that one whose outcome is unknown always
/// ends as a failure that says so.
pub proof fn law_ends_are_told_as_answered(committed: RunStatus, response: Result<Json, Failure>)
    ensures
        committed is UnknownAfterRestart ==> (final_update(
            committed,
            response,
        ) matches UpdateView::Failed { code, .. } && code
            == crate::daemon::handlers::UNKNOWN_OUTCOME),
        !(committed is UnknownAfterRestart) ==> (response matches Ok(j) ==> final_update(
            committed,
            response,
        ) == UpdateView::Completed(j@)),
        !(committed is UnknownAfterRestart) ==> (response matches Err((code, message))
            ==> final_update(committed, response) == (UpdateView::Failed {
            code,
            message: message@,
        })),
        crate::daemon::is_terminal(final_update(committed, response)),
{
}

/// The answer of a turn is told as the event of its run just before its end, with the text
/// that was kept.
pub proof fn law_the_answer_comes_before_the_end(
    run: Seq<char>,
    content: Seq<char>,
    last_seq: Option<u64>,
)
    ensures
        completion_update(run, content, last_seq) matches UpdateView::Event {
            kind,
            data,
            run_id,
            seq,
        } && kind == EventKind::TurnCompleted && json::at_key(data, "content"@) == JsonView::Str(
            content,
        ) && run_id == Some(run) && (last_seq is None ==> seq is None) && (last_seq is Some
            && last_seq->0 > 0 ==> seq is Some && seq->0 + 1 == last_seq->0),
{
    if let UpdateView::Event { data, .. } = completion_update(run, content, last_seq) {
        json::lemma_field_at(data, "content"@, 0);
    }
}

/// What a client is sent at the end of a turn: a failure to keep the end is told as that
/// failure; else the answer comes as an event where there is one, and then the reply that
/// the turn ended with.
pub proof fn law_what_is_sent_at_the_end(
    run: Option<Seq<char>>,
    id: RequestIdView,
    stored: Result<CommittedRun, String>,
    response: Result<Json, Failure>,
)
    ensures
        ({
            let frames = closing_frames(run, id, stored, response);
            &&& stored is Err ==> frames.len() == 1 && (frames[0] matches FrameView::Response(r)
                && r.id == id && r.result is None && r.error is Some && r.error->0.code
                == INTERNAL_ERROR && stored->Err_0@.is_suffix_of(r.error->0.message))
            &&& stored matches Ok(c) ==> run is Some && c.content is Some ==> frames.len() == 2 && (
            frames[0] matches FrameView::Event(e) && e.request_id == id && e.event
                == EventKind::TurnCompleted && e.run_id == run && json::at_key(
                e.data,
                "content"@,
            ) == JsonView::Str(c.content->0@))
            &&& stored matches Ok(c) ==> run is None || c.content is None ==> frames.len() == 1
            &&& stored matches Ok(c) ==> !(c.status is UnknownAfterRestart) ==> (
            response matches Ok(j) ==> (frames.last() matches FrameView::Response(r) && r.id == id
                && r.result == Some(j@) && r.error is None))
            &&& stored matches Ok(c) ==> !(c.status is UnknownAfterRestart) ==> (
            response matches Err((code, message)) ==> (frames.last() matches FrameView::Response(r)
                && r.id == id && r.error is Some && r.error->0.code == code && r.error->0.message
                == message@))
            &&& stored matches Ok(c) ==> c.status is UnknownAfterRestart ==> (
            frames.last() matches FrameView::Response(r) && r.id == id && r.error is Some
                && r.error->0.code == crate::daemon::handlers::UNKNOWN_OUTCOME)
        }),
{
    match stored {
        Err(e) => {
            let m = "持久化终态失败: "@ + e@;
            assert(m.subrange(m.len() - e@.len(), m.len() as int) =~= e@);
        },
        Ok(c) => {
            if run is Some && c.content is Some {
                law_the_answer_comes_before_the_end(run->0, c.content->0@, c.last_seq);
            }
        },
    }
}

/// A message that is new, or waits already, is worked on unless its request is worked on
/// now. One that was completed is answered with what it gave; any other with the state it is
/// in. Only what is worked on gets no reply yet.
pub proof fn law_messages_are_taken_in_once(s: DaemonState, key: KeyView, admitted: Admission)
    ensures
        ({
            let reply = admitted_reply(s, key, admitted);
            &&& admitted is New ==> (reply is None <==> !s.active.keys().contains(key))
            &&& admitted matches Admission::Existing(run) ==> run.status is Completed ==> reply
                is Some && json::at_key(reply->0, "content"@) == (match run.content {
                Some(c) => JsonView::Str(c@),
                None => JsonView::Null,
            }) && json::at_key(reply->0, "run_id"@) == JsonView::Str(run.run_id@)
            &&& admitted matches Admission::Existing(run) ==> run.status is Queued ==> (reply
                is None <==> !s.active.keys().contains(key))
            &&& admitted matches Admission::Existing(run) ==> !(run.status is Completed)
                && !(run.status is Queued) ==> reply is Some && json::at_key(
                reply->0,
                "duplicate"@,
            ) == JsonView::Bool(true) && json::at_key(reply->0, "status"@) == JsonView::Str(
                chat::status_name(run.status),
            ) && json::at_key(reply->0, "run_id"@) == JsonView::Str(run.run_id@)
        }),
{
    match admitted {
        Admission::New(run) => chat::law_busy_reads_back(run@),
        Admission::Existing(run) => {
            chat::law_done_reads_back(run@.content, run@);
            chat::law_duplicate_reads_back(run@);
            chat::law_busy_reads_back(run@);
        },
    }
}

/// The run of a request is that of its own entry; a request that is not at work has none.
pub proof fn law_the_run_of_a_request(s: DaemonState, key: KeyView, i: int)
    requires
        s.active.wf(),
        0 <= i < s.active.entries@.len(),
    ensures
        s.active.keys()[i] == key ==> run_of(s, key) == Some(s.active.entries@[i].1.run_id@),
        !s.active.keys().contains(key) ==> run_of(s, key) is None,
{
    let keys = s.active.keys();
    if keys[i] == key {
        assert(keys.contains(key));
        let k = choose|k: int| 0 <= k < keys.len() && keys[k] == key;
        assert(keys[k] == keys[i]);
        assert(k == i);
    }
}

/// A run is worked on exactly where some request works on it.
pub proof fn law_runs_that_are_worked_on(state: DaemonState, run_id: Seq<char>, i: int)
    requires
        0 <= i < state.active.entries@.len(),
    ensures
        state.active.entries@[i].1.run_id@ == run_id ==> worked_on(state, run_id),
        (forall|k: int|
            0 <= k < state.active.entries@.len() ==> (
            #[trigger] state.active.entries@[k]).1.run_id@ != run_id) ==> !worked_on(state, run_id),
{
}

} // verus!
