//! A message to the agent, from its admission to its reply.
use vstd::prelude::*;

use crate::daemon::handlers::{
    INTERNAL_ERROR, INVALID_PARAMS, PARAMS_ERROR, REQUEST_CANCELLED, REQUEST_CONFLICT,
    UNKNOWN_OUTCOME,
};
use crate::daemon::params;
use crate::daemon::protocol::{RequestId, RequestIdView};
use crate::daemon::{
    ActiveKey, ActiveRequest, ActiveRequestUpdate, ActiveView, KeyView, UpdateView,
};
use crate::json;
use crate::json::{Json, JsonView};
use crate::loop_engine::CancellationToken;
use crate::text;

verus! {

/// A reply that gives an error: its code and its message.
pub type Failure = (i64, String);

/// The state of a stored run.
#[derive(Clone, Copy, Debug, PartialEq, Eq, Structural)]
pub enum RunStatus {
    Queued,
    Running,
    WaitingInteraction,
    Completed,
    Failed,
    Cancelled,
    UnknownAfterRestart,
}

/// The name of a state.
pub open spec fn status_name(s: RunStatus) -> Seq<char> {
    match s {
        RunStatus::Queued => "queued"@,
        RunStatus::Running => "running"@,
        RunStatus::WaitingInteraction => "waiting_interaction"@,
        RunStatus::Completed => "completed"@,
        RunStatus::Failed => "failed"@,
        RunStatus::Cancelled => "cancelled"@,
        RunStatus::UnknownAfterRestart => "unknown_after_restart"@,
    }
}

/// The state with the name.
pub open spec fn status_named(name: Seq<char>) -> Option<RunStatus> {
    if name == "queued"@ {
        Some(RunStatus::Queued)
    } else if name == "running"@ {
        Some(RunStatus::Running)
    } else if name == "waiting_interaction"@ {
        Some(RunStatus::WaitingInteraction)
    } else if name == "completed"@ {
        Some(RunStatus::Completed)
    } else if name == "failed"@ {
        Some(RunStatus::Failed)
    } else if name == "cancelled"@ {
        Some(RunStatus::Cancelled)
    } else if name == "unknown_after_restart"@ {
        Some(RunStatus::UnknownAfterRestart)
    } else {
        None
    }
}

impl RunStatus {
    /// The state with the name.
    pub fn from_name(name: &str) -> (r: Option<RunStatus>)
        ensures
            r == status_named(name@),
    {
        if text::same(name, "queued") {
            Some(RunStatus::Queued)
        } else if text::same(name, "running") {
            Some(RunStatus::Running)
        } else if text::same(name, "waiting_interaction") {
            Some(RunStatus::WaitingInteraction)
        } else if text::same(name, "completed") {
            Some(RunStatus::Completed)
        } else if text::same(name, "failed") {
            Some(RunStatus::Failed)
        } else if text::same(name, "cancelled") {
            Some(RunStatus::Cancelled)
        } else if text::same(name, "unknown_after_restart") {
            Some(RunStatus::UnknownAfterRestart)
        } else {
            None
        }
    }

    /// The name of the state.
    pub fn name(self) -> (r: &'static str)
        ensures
            r@ == status_name(self),
    {
        match self {
            RunStatus::Queued => "queued",
            RunStatus::Running => "running",
            RunStatus::WaitingInteraction => "waiting_interaction",
            RunStatus::Completed => "completed",
            RunStatus::Failed => "failed",
            RunStatus::Cancelled => "cancelled",
            RunStatus::UnknownAfterRestart => "unknown_after_restart",
        }
    }
}

/// A stored run.
#[derive(Debug)]
pub struct RunRecord {
    pub run_id: String,
    pub turn_id: String,
    pub session_id: String,
    pub request_id: RequestId,
    pub status: RunStatus,
    pub last_seq: u64,
    pub content: Option<String>,
    pub error_code: Option<i64>,
    pub error_message: Option<String>,
}

/// What a stored run says.
pub struct RunView {
    pub run_id: Seq<char>,
    pub turn_id: Seq<char>,
    pub session_id: Seq<char>,
    pub request_id: RequestIdView,
    pub status: RunStatus,
    pub last_seq: u64,
    pub content: Option<Seq<char>>,
    pub error_code: Option<i64>,
    pub error_message: Option<Seq<char>>,
}

impl View for RunRecord {
    type V = RunView;

    open spec fn view(&self) -> RunView {
        RunView {
            run_id: self.run_id@,
            turn_id: self.turn_id@,
            session_id: self.session_id@,
            request_id: self.request_id@,
            status: self.status,
            last_seq: self.last_seq,
            content: json::opt_text(self.content),
            error_code: self.error_code,
            error_message: json::opt_text(self.error_message),
        }
    }
}

/// What happens when a session is busy.
#[derive(Clone, Copy, Debug, PartialEq, Eq, Structural)]
pub enum AdmissionMode {
    Queue,
    RejectIfBusy,
}

/// A message that may be admitted.
#[derive(Debug)]
pub struct ChatParams {
    pub message: String,
    pub session_id: Option<String>,
    pub admission_mode: Option<String>,
}

/// The outcome is the failure with this code and message.
pub open spec fn fails<T>(r: Result<T, Failure>, code: i64, message: Seq<char>) -> bool {
    r is Err && r->Err_0.0 == code && r->Err_0.1@ == message
}

/// The parameters of a message by their names.
pub open spec fn chat_fields(p: JsonView) -> JsonView {
    params::named(p, seq!["message"@, "session_id"@, "admission_mode"@], 1)
}

/// Reads a message, where the daemon still takes messages and this one is not blank.
pub fn chat_params(shutting_down: bool, p: &Json) -> (r: Result<ChatParams, Failure>)
    ensures
        if shutting_down {
            fails(r, REQUEST_CONFLICT, "daemon 正在关闭，停止新准入"@)
        } else {
            match (
                params::need_str(chat_fields(p@), "message"@),
                params::may_str(chat_fields(p@), "session_id"@),
                params::may_str(chat_fields(p@), "admission_mode"@),
            ) {
                (Some(m), Some(s), Some(a)) => if text::blank(m) {
                    fails(r, INVALID_PARAMS, "message 不能为空"@)
                } else {
                    r is Ok && r->Ok_0.message@ == m && json::opt_text(r->Ok_0.session_id) == s
                        && json::opt_text(r->Ok_0.admission_mode) == a
                },
                _ => fails(r, INVALID_PARAMS, PARAMS_ERROR@),
            }
        },
{
    if shutting_down {
        return Err((REQUEST_CONFLICT, "daemon 正在关闭，停止新准入".to_owned()));
    }
    let names: [&'static str; 3] = ["message", "session_id", "admission_mode"];
    let arranged = params::arrange(p, &names, 1);
    assert(params::name_views(names@) =~= seq!["message"@, "session_id"@, "admission_mode"@]);
    let p = &arranged;
    match (
        params::read_str(p, "message"),
        params::read_opt_str(p, "session_id"),
        params::read_opt_str(p, "admission_mode"),
    ) {
        (Some(message), Some(session_id), Some(admission_mode)) => {
            if text::is_blank(message.as_str()) {
                Err((INVALID_PARAMS, "message 不能为空".to_owned()))
            } else {
                Ok(ChatParams { message, session_id, admission_mode })
            }
        },
        _ => Err((INVALID_PARAMS, PARAMS_ERROR.to_owned())),
    }
}

/// Reads how a busy session is dealt with: a message waits unless it says otherwise.
pub fn admission_mode(mode: Option<&str>) -> (r: Result<AdmissionMode, Failure>)
    ensures
        match mode {
            None => r == Ok::<AdmissionMode, Failure>(AdmissionMode::Queue),
            Some(m) => if m@ == "queue"@ {
                r == Ok::<AdmissionMode, Failure>(AdmissionMode::Queue)
            } else if m@ == "reject_if_busy"@ {
                r == Ok::<AdmissionMode, Failure>(AdmissionMode::RejectIfBusy)
            } else {
                fails(r, INVALID_PARAMS, "不支持的 admission_mode"@)
            },
        },
{
    match mode {
        None => Ok(AdmissionMode::Queue),
        Some(m) => if text::same(m, "queue") {
            Ok(AdmissionMode::Queue)
        } else if text::same(m, "reject_if_busy") {
            Ok(AdmissionMode::RejectIfBusy)
        } else {
            Err((INVALID_PARAMS, "不支持的 admission_mode".to_owned()))
        },
    }
}

/// The failure of a message that the store did not admit: a conflict where the protocol was
/// broken, else an internal error.
pub fn admission_failure(protocol_error: bool, message: String) -> (r: Failure)
    ensures
        r.0 == (if protocol_error {
            REQUEST_CONFLICT
        } else {
            INTERNAL_ERROR
        }),
        r.1@ == message@,
{
    if protocol_error {
        (REQUEST_CONFLICT, message)
    } else {
        (INTERNAL_ERROR, message)
    }
}

/// The answer for a run that is done.
pub open spec fn done_json(content: Option<Seq<char>>, run: RunView) -> JsonView {
    JsonView::Object(
        seq![
            ("content"@, crate::daemon::handlers::or_null(content)),
            ("run_id"@, JsonView::Str(run.run_id)),
            ("turn_id"@, JsonView::Str(run.turn_id)),
        ],
    )
}

/// An optional number as a document.
pub open spec fn int_or_null(n: Option<i64>) -> JsonView {
    match n {
        Some(v) => JsonView::Int(v as int),
        None => JsonView::Null,
    }
}

/// The answer for a message that was sent before and is not done.
pub open spec fn duplicate_json(run: RunView) -> JsonView {
    JsonView::Object(
        seq![
            ("run_id"@, JsonView::Str(run.run_id)),
            ("turn_id"@, JsonView::Str(run.turn_id)),
            ("status"@, JsonView::Str(status_name(run.status))),
            ("duplicate"@, JsonView::Bool(true)),
            ("error_code"@, int_or_null(run.error_code)),
            ("error_message"@, crate::daemon::handlers::or_null(run.error_message)),
        ],
    )
}

/// The answer for a message that is being worked on.
pub open spec fn busy_json(run: RunView) -> JsonView {
    JsonView::Object(
        seq![
            ("run_id"@, JsonView::Str(run.run_id)),
            ("turn_id"@, JsonView::Str(run.turn_id)),
            ("status"@, JsonView::Str("queued_or_running"@)),
            ("duplicate"@, JsonView::Bool(true)),
        ],
    )
}

fn opt_str_json(s: &Option<String>) -> (r: Json)
    ensures
        r@ == crate::daemon::handlers::or_null(json::opt_text(*s)),
{
    match s {
        Some(t) => Json::Str(t.clone()),
        None => Json::Null,
    }
}

fn int_json(n: i64) -> (r: Json)
    ensures
        r@ == JsonView::Int(n as int),
{
    if n >= 0 {
        Json::Unsigned(n as u64)
    } else {
        Json::Negative(n)
    }
}

/// The answer for a run that is done.
pub fn done_reply(content: &Option<String>, run: &RunRecord) -> (r: Json)
    ensures
        r@ == done_json(json::opt_text(*content), run@),
{
    let mut f = json::no_fields();
    json::put(&mut f, "content", opt_str_json(content));
    json::put(&mut f, "run_id", Json::Str(run.run_id.clone()));
    json::put(&mut f, "turn_id", Json::Str(run.turn_id.clone()));
    assert(json::fields_view(f@) =~= done_json(json::opt_text(*content), run@)->Object_0);
    json::object(f)
}

/// What the store says to a message.
#[derive(Debug)]
pub enum Admission {
    New(RunRecord),
    Existing(RunRecord),
}

/// What follows the admission of a message.
#[derive(Debug)]
pub enum AdmissionStep {
    /// Answer at once.
    Reply(Json),
    /// Wait for the turn of this run.
    Enqueue(RunRecord),
}

/// Decides what follows the admission of a message: one that was sent before is answered
/// from its run, unless it still waits.
pub fn admission_step(admitted: Admission) -> (r: AdmissionStep)
    ensures
        match admitted {
            Admission::New(run) => r matches AdmissionStep::Enqueue(q) && q@ == run@,
            Admission::Existing(run) => if run@.status == RunStatus::Completed {
                r matches AdmissionStep::Reply(j) && j@ == done_json(run@.content, run@)
            } else if run@.status == RunStatus::Queued {
                r matches AdmissionStep::Enqueue(q) && q@ == run@
            } else {
                r matches AdmissionStep::Reply(j) && j@ == duplicate_json(run@)
            },
        },
{
    match admitted {
        Admission::New(run) => AdmissionStep::Enqueue(run),
        Admission::Existing(run) => {
            if run.status == RunStatus::Completed {
                AdmissionStep::Reply(done_reply(&run.content, &run))
            } else if run.status == RunStatus::Queued {
                AdmissionStep::Enqueue(run)
            } else {
                let mut f = json::no_fields();
                json::put(&mut f, "run_id", Json::Str(run.run_id.clone()));
                json::put(&mut f, "turn_id", Json::Str(run.turn_id.clone()));
                json::put(&mut f, "status", Json::of_str(run.status.name()));
                json::put(&mut f, "duplicate", Json::Bool(true));
                let code = match run.error_code {
                    Some(n) => int_json(n),
                    None => Json::Null,
                };
                json::put(&mut f, "error_code", code);
                json::put(&mut f, "error_message", opt_str_json(&run.error_message));
                assert(json::fields_view(f@) =~= duplicate_json(run@)->Object_0);
                AdmissionStep::Reply(json::object(f))
            }
        },
    }
}

/// The requests that are being worked on.
#[derive(Debug)]
pub struct ActiveRequests {
    pub entries: Vec<(ActiveKey, ActiveRequest)>,
}

/// The keys of the requests that are being worked on.
pub open spec fn key_views(v: Seq<(ActiveKey, ActiveRequest)>) -> Seq<KeyView> {
    Seq::new(v.len(), |i: int| v[i].0@)
}

/// The requests that are being worked on, each with what is known of its turn.
pub open spec fn active_views(v: Seq<(ActiveKey, ActiveRequest)>) -> Seq<(KeyView, ActiveView)> {
    Seq::new(v.len(), |i: int| (v[i].0@, v[i].1@))
}

impl View for ActiveRequests {
    type V = Seq<(KeyView, ActiveView)>;

    open spec fn view(&self) -> Seq<(KeyView, ActiveView)> {
        active_views(self.entries@)
    }
}

/// A turn that has just been taken up for a run.
pub open spec fn begun(run: RunView) -> ActiveView {
    ActiveView { cancelled: false, run_id: run.run_id, storage_error: None, kept: Seq::empty() }
}

/// The requests once an update of one of them was told.
pub open spec fn told(v: Seq<(KeyView, ActiveView)>, key: KeyView, update: UpdateView) -> Seq<
    (KeyView, ActiveView),
> {
    Seq::new(
        v.len(),
        |i: int|
            if v[i].0 == key {
                (
                    key,
                    ActiveView {
                        kept: crate::daemon::latest_fitting(v[i].1.kept.push(update)),
                        ..v[i].1
                    },
                )
            } else {
                v[i]
            },
    )
}

/// The requests once one of them was asked to stop, for want of a place to store its events
/// where there is an error.
pub open spec fn stopped(
    v: Seq<(KeyView, ActiveView)>,
    key: KeyView,
    storage_error: Option<Seq<char>>,
) -> Seq<(KeyView, ActiveView)> {
    Seq::new(
        v.len(),
        |i: int|
            if v[i].0 == key {
                (
                    key,
                    ActiveView {
                        cancelled: true,
                        storage_error: if storage_error is Some {
                            storage_error
                        } else {
                            v[i].1.storage_error
                        },
                        ..v[i].1
                    },
                )
            } else {
                v[i]
            },
    )
}

/// The requests but for one of them.
pub open spec fn let_go(v: Seq<(KeyView, ActiveView)>, key: KeyView) -> Seq<(KeyView, ActiveView)>
    decreases v.len(),
{
    if v.len() == 0 {
        v
    } else if v.last().0 == key {
        let_go(v.drop_last(), key)
    } else {
        let_go(v.drop_last(), key).push(v.last())
    }
}

proof fn lemma_let_go_at(v: Seq<(KeyView, ActiveView)>, key: KeyView, i: int)
    requires
        0 <= i < v.len(),
        forall|k: int| 0 <= k < v.len() ==> ((#[trigger] v[k]).0 == key <==> k == i),
    ensures
        let_go(v, key) == v.remove(i),
    decreases v.len(),
{
    let front = v.drop_last();
    if i == v.len() - 1 {
        lemma_let_go_none(front, key);
        assert(v.remove(i) =~= front);
    } else {
        assert forall|k: int| 0 <= k < front.len() implies ((#[trigger] front[k]).0 == key <==> k
            == i) by {
            assert(front[k] == v[k]);
        }
        lemma_let_go_at(front, key, i);
        assert(v.remove(i) =~= front.remove(i).push(v.last()));
    }
}

proof fn lemma_let_go_none(v: Seq<(KeyView, ActiveView)>, key: KeyView)
    requires
        forall|k: int| 0 <= k < v.len() ==> (#[trigger] v[k]).0 != key,
    ensures
        let_go(v, key) == v,
    decreases v.len(),
{
    if v.len() > 0 {
        let front = v.drop_last();
        assert forall|k: int| 0 <= k < front.len() implies (#[trigger] front[k]).0 != key by {
            assert(front[k] == v[k]);
        }
        lemma_let_go_none(front, key);
        assert(front.push(v.last()) =~= v);
    }
}

/// Where a request is let go of, it does not matter what was told of it before.
pub proof fn lemma_told_and_let_go(v: Seq<(KeyView, ActiveView)>, key: KeyView, update: UpdateView)
    ensures
        let_go(told(v, key, update), key) == let_go(v, key),
    decreases v.len(),
{
    if v.len() > 0 {
        lemma_told_and_let_go(v.drop_last(), key, update);
        assert(told(v, key, update).drop_last() =~= told(v.drop_last(), key, update));
    }
}

impl ActiveRequests {
    /// The keys, in order.
    pub open spec fn keys(self) -> Seq<KeyView> {
        key_views(self.entries@)
    }

    /// No request is there twice, and what is kept of each is in order.
    pub open spec fn wf(self) -> bool {
        &&& self.keys().no_duplicates()
        &&& forall|i: int| 0 <= i < self.entries@.len() ==> (#[trigger] self.entries@[i]).1.wf()
    }

    /// Nothing is being worked on.
    pub fn new() -> (r: Self)
        ensures
            r.wf(),
            r.keys() == Seq::<KeyView>::empty(),
    {
        let r = ActiveRequests { entries: Vec::new() };
        assert(r.keys() =~= Seq::<KeyView>::empty());
        r
    }

    /// Something is being worked on.
    pub fn has_active_turns(&self) -> (r: bool)
        ensures
            r == (self.keys().len() > 0),
    {
        self.entries.len() > 0
    }

    /// Where the request stands among those that are being worked on.
    pub fn position(&self, key: &ActiveKey) -> (r: Option<usize>)
        ensures
            match r {
                Some(i) => i < self.entries@.len() && self.keys()[i as int] == key@,
                None => !self.keys().contains(key@),
            },
    {
        let ghost keys = self.keys();
        let mut i: usize = 0;
        while i < self.entries.len()
            invariant
                i <= self.entries@.len(),
                keys == self.keys(),
                forall|k: int| 0 <= k < i ==> #[trigger] keys[k] != key@,
            decreases self.entries@.len() - i,
        {
            assert(keys[i as int] == self.entries@[i as int].0@);
            if self.entries[i].0.same(key) {
                return Some(i);
            }
            i = i + 1;
        }
        None
    }

    /// A request that is being worked on belongs to the run.
    pub fn has_run(&self, run_id: &str) -> (r: bool)
        ensures
            r == exists|i: int|
                0 <= i < self.entries@.len() && (#[trigger] self.entries@[i]).1.run_id@ == run_id@,
    {
        let mut i: usize = 0;
        while i < self.entries.len()
            invariant
                i <= self.entries@.len(),
                forall|k: int|
                    0 <= k < i ==> (#[trigger] self.entries@[k]).1.run_id@ != run_id@,
            decreases self.entries@.len() - i,
        {
            if text::same(self.entries[i].1.run_id.as_str(), run_id) {
                return true;
            }
            i = i + 1;
        }
        false
    }

    /// Takes a run up, unless its request is being worked on already; then the answer says
    /// so and nothing changes.
    pub fn begin(&mut self, key: ActiveKey, run: &RunRecord) -> (r: Result<(), Json>)
        requires
            old(self).wf(),
        ensures
            final(self).wf(),
            match r {
                Ok(()) => {
                    &&& !old(self).keys().contains(key@)
                    &&& final(self).keys() == old(self).keys().push(key@)
                    &&& final(self)@ == old(self)@.push((key@, begun(run@)))
                },
                Err(j) => {
                    &&& old(self).keys().contains(key@)
                    &&& *final(self) == *old(self)
                    &&& j@ == busy_json(run@)
                },
            },
    {
        if self.position(&key).is_some() {
            let mut f = json::no_fields();
            json::put(&mut f, "run_id", Json::Str(run.run_id.clone()));
            json::put(&mut f, "turn_id", Json::Str(run.turn_id.clone()));
            json::put(&mut f, "status", Json::of_str("queued_or_running"));
            json::put(&mut f, "duplicate", Json::Bool(true));
            assert(json::fields_view(f@) =~= busy_json(run@)->Object_0);
            return Err(json::object(f));
        }
        let ghost before = self.keys();
        let ghost key_view = key@;
        self.entries.push((key, ActiveRequest::new(CancellationToken::new(), run.run_id.as_str())));
        assert(self.keys() =~= before.push(key@));
        assert(self@ =~= old(self)@.push((key_view, begun(run@))));
        Ok(())
    }

    /// Hands an update to those who watch a request.
    pub fn publish(&mut self, key: &ActiveKey, update: &ActiveRequestUpdate)
        requires
            old(self).wf(),
        ensures
            final(self).wf(),
            final(self).keys() == old(self).keys(),
            final(self)@ == told(old(self)@, key@, update@),
    {
        let ghost before = self@;
        let ghost keys = self.keys();
        match self.position(key) {
            Some(i) => {
                self.entries[i].1.publish(update);
                assert(self.keys() =~= keys);
                proof {
                    lemma_only_at(keys, key@, i as int);
                    assert forall|k: int| 0 <= k < before.len() implies self@[k]
                        == #[trigger] told(before, key@, update@)[k] by {
                        assert(before[k].0 == keys[k]);
                    }
                    assert(self@ =~= told(before, key@, update@));
                }
            },
            None => {
                assert forall|k: int| 0 <= k < before.len() implies before[k].0 != key@ by {
                    assert(keys[k] == before[k].0);
                }
                assert(self@ =~= told(before, key@, update@));
            },
        }
    }

    /// Asks a request to stop, for want of a place to store its events where there is an
    /// error.
    pub fn stop(&mut self, key: &ActiveKey, storage_error: Option<String>)
        requires
            old(self).wf(),
        ensures
            final(self).wf(),
            final(self).keys() == old(self).keys(),
            final(self)@ == stopped(old(self)@, key@, json::opt_text(storage_error)),
    {
        let ghost before = self@;
        let ghost keys = self.keys();
        let ghost error = json::opt_text(storage_error);
        match self.position(key) {
            Some(i) => {
                if storage_error.is_some() {
                    self.entries[i].1.storage_error = storage_error;
                }
                self.entries[i].1.cancellation.cancel();
                assert(self.keys() =~= keys);
                proof {
                    lemma_only_at(keys, key@, i as int);
                    assert forall|k: int| 0 <= k < before.len() implies self@[k]
                        == #[trigger] stopped(before, key@, error)[k] by {
                        assert(before[k].0 == keys[k]);
                    }
                    assert(self@ =~= stopped(before, key@, error));
                }
            },
            None => {
                assert forall|k: int| 0 <= k < before.len() implies before[k].0 != key@ by {
                    assert(keys[k] == before[k].0);
                }
                assert(self@ =~= stopped(before, key@, error));
            },
        }
    }

    /// Lets go of a request.
    pub fn end(&mut self, key: &ActiveKey)
        requires
            old(self).wf(),
        ensures
            final(self).wf(),
            final(self)@ == let_go(old(self)@, key@),
            !final(self).keys().contains(key@),
    {
        let ghost before = self.keys();
        let ghost all = self@;
        match self.position(key) {
            Some(i) => {
                self.entries.remove(i);
                proof {
                    let after = self.keys();
                    assert(after =~= before.remove(i as int));
                    lemma_only_at(before, key@, i as int);
                    assert forall|k: int| 0 <= k < all.len() implies ((#[trigger] all[k]).0 == key@
                        <==> k == i) by {
                        assert(all[k].0 == before[k]);
                    }
                    lemma_let_go_at(all, key@, i as int);
                    assert(self@ =~= all.remove(i as int));
                    if after.contains(key@) {
                        let m = choose|m: int| 0 <= m < after.len() && after[m] == key@;
                        if m < i {
                            assert(before[m] == before[i as int]);
                        } else {
                            assert(before[m + 1] == before[i as int]);
                        }
                    }
                }
            },
            None => {
                assert forall|k: int| 0 <= k < all.len() implies (#[trigger] all[k]).0 != key@ by {
                    assert(all[k].0 == before[k]);
                }
                proof {
                    lemma_let_go_none(all, key@);
                }
            },
        }
    }
}

proof fn lemma_only_at(keys: Seq<KeyView>, key: KeyView, i: int)
    requires
        keys.no_duplicates(),
        0 <= i < keys.len(),
        keys[i] == key,
    ensures
        forall|k: int| 0 <= k < keys.len() ==> (#[trigger] keys[k] == key <==> k == i),
{
}

/// What follows a look at the queue.
#[derive(Debug)]
pub enum QueueStep {
    /// It is the turn of this run.
    Start,
    /// Wait until something changes.
    Wait,
    /// Let go of the request and answer with the failure.
    Fail(i64, String),
    /// Let go of the request without an answer.
    Leave,
}

/// Decides what a waiting message does: a cancelled one ends, and so does one whose store
/// fails. `started` says whether the store let the run start; one that did not is not waited
/// for while the daemon stops.
pub fn queue_step(cancelled: bool, started: Result<bool, String>, stopping: bool) -> (r: QueueStep)
    ensures
        if cancelled {
            r matches QueueStep::Fail(code, m) && code == REQUEST_CANCELLED && m@ == "请求已取消"@
        } else {
            match started {
                Ok(true) => r is Start,
                Ok(false) => if stopping {
                    r is Leave
                } else {
                    r is Wait
                },
                Err(e) => r matches QueueStep::Fail(code, m) && code == INTERNAL_ERROR && m@ == e@,
            }
        },
{
    if cancelled {
        return QueueStep::Fail(REQUEST_CANCELLED, "请求已取消".to_owned());
    }
    match started {
        Ok(true) => QueueStep::Start,
        Ok(false) => if stopping {
            QueueStep::Leave
        } else {
            QueueStep::Wait
        },
        Err(e) => QueueStep::Fail(INTERNAL_ERROR, e),
    }
}

/// How a turn ended.
#[derive(Debug)]
pub enum TurnOutcome {
    Answered(String),
    Cancelled,
    Failed(String),
}

/// The reply to a message whose turn ended so: a cancellation comes before what the turn gave.
pub open spec fn turn_reply(
    outcome: TurnOutcome,
    cancelled: bool,
    run: RunView,
    r: Result<Json, Failure>,
) -> bool {
    if cancelled || outcome is Cancelled {
        fails(r, REQUEST_CANCELLED, "请求已取消"@)
    } else {
        match outcome {
            TurnOutcome::Failed(e) => fails(r, INTERNAL_ERROR, e@),
            TurnOutcome::Answered(c) => r is Ok && r->Ok_0@ == done_json(Some(c@), run),
            TurnOutcome::Cancelled => true,
        }
    }
}

/// The reply to a message whose turn has ended: an event that could not be stored comes
/// first, then a cancellation, then what the turn gave.
pub fn turn_response(
    storage_error: Option<&str>,
    outcome: TurnOutcome,
    cancelled: bool,
    run: &RunRecord,
) -> (r: Result<Json, Failure>)
    ensures
        match storage_error {
            Some(e) => fails(r, INTERNAL_ERROR, "持久化事件失败: "@ + e@),
            None => turn_reply(outcome, cancelled, run@, r),
        },
{
    if let Some(e) = storage_error {
        let mut m = "持久化事件失败: ".to_owned();
        m.append(e);
        return Err((INTERNAL_ERROR, m));
    }
    if cancelled {
        return Err((REQUEST_CANCELLED, "请求已取消".to_owned()));
    }
    match outcome {
        TurnOutcome::Cancelled => Err((REQUEST_CANCELLED, "请求已取消".to_owned())),
        TurnOutcome::Failed(e) => Err((INTERNAL_ERROR, e)),
        TurnOutcome::Answered(c) => {
            Ok(done_reply(&Some(c), run))
        },
    }
}

/// The state in which a reply leaves its run.
pub open spec fn status_after(r: Result<Json, Failure>) -> RunStatus {
    match r {
        Ok(_) => RunStatus::Completed,
        Err((code, _)) => if code == REQUEST_CANCELLED {
            RunStatus::Cancelled
        } else {
            RunStatus::Failed
        },
    }
}

/// What is stored of a run that has ended.
#[derive(Debug)]
pub struct RunEnd {
    pub status: RunStatus,
    pub content: Option<String>,
    pub error: Option<(i64, String)>,
}

/// What is stored of a run for the reply that its message gets.
pub fn run_end(response: &Result<Json, Failure>) -> (r: RunEnd)
    ensures
        r.status == status_after(*response),
        match *response {
            Ok(j) => r.error is None && json::opt_text(r.content) == json::str_of(
                json::at_key(j@, "content"@),
            ),
            Err((code, message)) => r.content is None && r.error is Some && r.error->Some_0.0 == code
                && r.error->Some_0.1@ == message@,
        },
{
    match response {
        Ok(j) => {
            let content = match j.str_at("content") {
                Some(s) => Some(s.to_owned()),
                None => None,
            };
            RunEnd { status: RunStatus::Completed, content, error: None }
        },
        Err((code, message)) => {
            let status = if *code == REQUEST_CANCELLED {
                RunStatus::Cancelled
            } else {
                RunStatus::Failed
            };
            RunEnd { status, content: None, error: Some((*code, message.clone())) }
        },
    }
}

/// The failure of a run whose end could not be stored.
pub fn commit_failure(storage_error: &str) -> (r: Failure)
    ensures
        r.0 == INTERNAL_ERROR,
        r.1@ == "持久化终态失败: "@ + storage_error@,
{
    let mut m = "持久化终态失败: ".to_owned();
    m.append(storage_error);
    (INTERNAL_ERROR, m)
}

/// The reply once the end of the run is stored: a run whose tools may or may not have
/// worked is never answered with success.
pub fn committed_response(stored: RunStatus, response: Result<Json, Failure>) -> (r: Result<
    Json,
    Failure,
>)
    ensures
        if stored == RunStatus::UnknownAfterRestart {
            fails(r, UNKNOWN_OUTCOME, "工具执行结果未知，禁止自动重放"@)
        } else {
            r == response
        },
{
    if stored == RunStatus::UnknownAfterRestart {
        Err((UNKNOWN_OUTCOME, "工具执行结果未知，禁止自动重放".to_owned()))
    } else {
        response
    }
}

/// A run is stored as completed exactly when its message is answered with success, and as
/// cancelled exactly when the reply says so.
pub proof fn law_status_matches_reply(r: Result<Json, Failure>)
    ensures
        status_after(r) == RunStatus::Completed <==> r is Ok,
        status_after(r) == RunStatus::Cancelled <==> r is Err && r->Err_0.0 == REQUEST_CANCELLED,
        status_after(r) != RunStatus::Queued && status_after(r) != RunStatus::Running,
{
}

/// Reading back: the answer for a run that is done, field by field.
pub proof fn law_done_reads_back(content: Option<Seq<char>>, run: RunView)
    ensures
        json::at_key(done_json(content, run), "content"@)
            == crate::daemon::handlers::or_null(content),
        json::at_key(done_json(content, run), "run_id"@) == JsonView::Str(run.run_id),
        json::at_key(done_json(content, run), "turn_id"@) == JsonView::Str(run.turn_id),
{
    reveal_strlit("content");
    reveal_strlit("run_id");
    reveal_strlit("turn_id");
    assert("content"@.len() != "run_id"@.len());
    assert("content"@[0] != "turn_id"@[0]);
    assert("run_id"@.len() != "turn_id"@.len());
    json::lemma_field_at(done_json(content, run), "content"@, 0);
    json::lemma_field_at(done_json(content, run), "run_id"@, 1);
    json::lemma_field_at(done_json(content, run), "turn_id"@, 2);
}

/// Reading back: the answer for a message that was sent before and is not done, field by
/// field.
pub proof fn law_duplicate_reads_back(run: RunView)
    ensures
        json::at_key(duplicate_json(run), "run_id"@) == JsonView::Str(run.run_id),
        json::at_key(duplicate_json(run), "turn_id"@) == JsonView::Str(run.turn_id),
        json::at_key(duplicate_json(run), "status"@) == JsonView::Str(status_name(run.status)),
        json::at_key(duplicate_json(run), "duplicate"@) == JsonView::Bool(true),
        json::at_key(duplicate_json(run), "error_code"@) == int_or_null(run.error_code),
        json::at_key(duplicate_json(run), "error_message"@)
            == crate::daemon::handlers::or_null(run.error_message),
{
    reveal_strlit("duplicate");
    reveal_strlit("error_code");
    reveal_strlit("error_message");
    reveal_strlit("run_id");
    reveal_strlit("status");
    reveal_strlit("turn_id");
    assert("run_id"@.len() != "turn_id"@.len());
    assert("run_id"@[0] != "status"@[0]);
    assert("turn_id"@.len() != "status"@.len());
    assert("run_id"@.len() != "duplicate"@.len());
    assert("turn_id"@.len() != "duplicate"@.len());
    assert("status"@.len() != "duplicate"@.len());
    assert("run_id"@.len() != "error_code"@.len());
    assert("turn_id"@.len() != "error_code"@.len());
    assert("status"@.len() != "error_code"@.len());
    assert("duplicate"@.len() != "error_code"@.len());
    assert("run_id"@.len() != "error_message"@.len());
    assert("turn_id"@.len() != "error_message"@.len());
    assert("status"@.len() != "error_message"@.len());
    assert("duplicate"@.len() != "error_message"@.len());
    assert("error_code"@.len() != "error_message"@.len());
    json::lemma_field_at(duplicate_json(run), "run_id"@, 0);
    json::lemma_field_at(duplicate_json(run), "turn_id"@, 1);
    json::lemma_field_at(duplicate_json(run), "status"@, 2);
    json::lemma_field_at(duplicate_json(run), "duplicate"@, 3);
    json::lemma_field_at(duplicate_json(run), "error_code"@, 4);
    json::lemma_field_at(duplicate_json(run), "error_message"@, 5);
}

/// Reading back: the answer for a message that is being worked on, field by field.
pub proof fn law_busy_reads_back(run: RunView)
    ensures
        json::at_key(busy_json(run), "run_id"@) == JsonView::Str(run.run_id),
        json::at_key(busy_json(run), "turn_id"@) == JsonView::Str(run.turn_id),
        json::at_key(busy_json(run), "status"@) == JsonView::Str("queued_or_running"@),
        json::at_key(busy_json(run), "duplicate"@) == JsonView::Bool(true),
{
    reveal_strlit("duplicate");
    reveal_strlit("run_id");
    reveal_strlit("status");
    reveal_strlit("turn_id");
    assert("run_id"@.len() != "turn_id"@.len());
    assert("run_id"@[0] != "status"@[0]);
    assert("turn_id"@.len() != "status"@.len());
    assert("run_id"@.len() != "duplicate"@.len());
    assert("turn_id"@.len() != "duplicate"@.len());
    assert("status"@.len() != "duplicate"@.len());
    json::lemma_field_at(busy_json(run), "run_id"@, 0);
    json::lemma_field_at(busy_json(run), "turn_id"@, 1);
    json::lemma_field_at(busy_json(run), "status"@, 2);
    json::lemma_field_at(busy_json(run), "duplicate"@, 3);
}

/// A state is found again under its name, and no two states share one.
pub proof fn law_states_are_named(s: RunStatus, t: RunStatus)
    ensures
        status_named(status_name(s)) == Some(s),
        status_name(s) == status_name(t) ==> s == t,
{
    reveal_strlit("queued");
    reveal_strlit("running");
    reveal_strlit("waiting_interaction");
    reveal_strlit("completed");
    reveal_strlit("failed");
    reveal_strlit("cancelled");
    reveal_strlit("unknown_after_restart");
    assert("queued"@.len() == 6 && "running"@.len() == 7 && "waiting_interaction"@.len() == 19
        && "completed"@.len() == 9 && "failed"@.len() == 6 && "cancelled"@.len() == 9
        && "unknown_after_restart"@.len() == 21);
    assert("queued"@[0] != "failed"@[0]);
    assert("completed"@[1] != "cancelled"@[1]);
}

/// A name that stands for a state is the name of that state.
pub proof fn law_names_stand_for_their_state(name: Seq<char>)
    ensures
        status_named(name) is Some ==> status_name(status_named(name)->0) == name,
{
}

/// A code that is there is told as a number, and else nothing is.
pub proof fn law_codes_are_told(n: Option<i64>)
    ensures
        n is Some ==> int_or_null(n) == JsonView::Int(n->0 as int),
        n is None ==> int_or_null(n) is Null,
{
}

/// An update reaches the log of its own request alone: every other request, and all else of
/// this one, stays as it was, and the update is the last of the log unless it alone is too
/// large.
pub proof fn law_updates_reach_their_request(
    v: Seq<(KeyView, ActiveView)>,
    key: KeyView,
    update: UpdateView,
    i: int,
)
    requires
        0 <= i < v.len(),
    ensures
        told(v, key, update).len() == v.len(),
        told(v, key, update)[i].0 == v[i].0,
        v[i].0 != key ==> told(v, key, update)[i] == v[i],
        told(v, key, update)[i].1.cancelled == v[i].1.cancelled,
        told(v, key, update)[i].1.run_id == v[i].1.run_id,
        told(v, key, update)[i].1.storage_error == v[i].1.storage_error,
        v[i].0 == key && told(v, key, update)[i].1.kept.len() > 0 ==> told(
            v,
            key,
            update,
        )[i].1.kept.last() == update,
        v[i].0 == key ==> told(v, key, update)[i].1.kept.is_suffix_of(v[i].1.kept.push(update)),
        v[i].0 == key && crate::daemon::total_bytes(v[i].1.kept.push(update))
            <= crate::daemon::ACTIVE_REPLAY_BYTES ==> told(v, key, update)[i].1.kept
            == v[i].1.kept.push(update),
{
    let whole = v[i].1.kept.push(update);
    crate::daemon::law_replay_is_a_suffix(whole);
}

/// Stopping a request marks it and keeps the error it was given, or the one it had; its run
/// and its log stay, and so does every other request.
pub proof fn law_stopping_marks_one_request(
    v: Seq<(KeyView, ActiveView)>,
    key: KeyView,
    storage_error: Option<Seq<char>>,
    i: int,
)
    requires
        0 <= i < v.len(),
    ensures
        stopped(v, key, storage_error).len() == v.len(),
        stopped(v, key, storage_error)[i].0 == v[i].0,
        v[i].0 != key ==> stopped(v, key, storage_error)[i] == v[i],
        v[i].0 == key ==> stopped(v, key, storage_error)[i].1.cancelled,
        stopped(v, key, storage_error)[i].1.run_id == v[i].1.run_id,
        stopped(v, key, storage_error)[i].1.kept == v[i].1.kept,
        v[i].0 == key && storage_error is Some ==> stopped(
            v,
            key,
            storage_error,
        )[i].1.storage_error == storage_error,
        v[i].0 == key && storage_error is None ==> stopped(
            v,
            key,
            storage_error,
        )[i].1.storage_error == v[i].1.storage_error,
{
}

/// A request that is let go is gone; all others stay, unchanged and in their order.
pub proof fn law_letting_go_keeps_the_others(v: Seq<(KeyView, ActiveView)>, key: KeyView)
    ensures
        forall|i: int|
            0 <= i < let_go(v, key).len() ==> (#[trigger] let_go(v, key)[i]).0 != key && v.contains(
                let_go(v, key)[i],
            ),
        forall|i: int|
            0 <= i < v.len() && (#[trigger] v[i]).0 != key ==> let_go(v, key).contains(v[i]),
        (forall|i: int| 0 <= i < v.len() ==> (#[trigger] v[i]).0 != key) ==> let_go(v, key) == v,
        let_go(let_go(v, key), key) == let_go(v, key),
    decreases v.len(),
{
    lemma_let_go(v, key);
    lemma_let_go(let_go(v, key), key);
}

proof fn lemma_let_go(v: Seq<(KeyView, ActiveView)>, key: KeyView)
    ensures
        forall|i: int|
            0 <= i < let_go(v, key).len() ==> (#[trigger] let_go(v, key)[i]).0 != key && v.contains(
                let_go(v, key)[i],
            ),
        forall|i: int|
            0 <= i < v.len() && (#[trigger] v[i]).0 != key ==> let_go(v, key).contains(v[i]),
        (forall|i: int| 0 <= i < v.len() ==> (#[trigger] v[i]).0 != key) ==> let_go(v, key) == v,
    decreases v.len(),
{
    if v.len() > 0 {
        let w = v.drop_last();
        let a = let_go(v, key);
        let b = let_go(w, key);
        lemma_let_go(w, key);
        assert(v[v.len() - 1] == v.last());
        assert forall|i: int| 0 <= i < a.len() implies (#[trigger] a[i]).0 != key && v.contains(
            a[i],
        ) by {
            if i < b.len() {
                assert(a[i] == b[i]);
                let k = choose|k: int| 0 <= k < w.len() && w[k] == b[i];
                assert(v[k] == a[i]);
            }
        }
        assert forall|i: int| 0 <= i < v.len() && (#[trigger] v[i]).0 != key implies a.contains(
            v[i],
        ) by {
            if i < w.len() {
                assert(w[i] == v[i]);
                let k = choose|k: int| 0 <= k < b.len() && b[k] == w[i];
                assert(a[k] == v[i]);
            } else {
                assert(a[a.len() - 1] == v[i]);
            }
        }
        if forall|i: int| 0 <= i < v.len() ==> (#[trigger] v[i]).0 != key {
            assert forall|i: int| 0 <= i < w.len() implies (#[trigger] w[i]).0 != key by {
                assert(v[i] == w[i]);
            }
            assert(a =~= v);
        }
    }
}

/// A request that just began is not cancelled, works on its run, and has no error and no log.
pub proof fn law_a_request_begins_clean(run: RunView)
    ensures
        !begun(run).cancelled,
        begun(run).run_id == run.run_id,
        begun(run).storage_error is None,
        begun(run).kept.len() == 0,
{
}

/// A turn is answered as it went: with its content only where it was answered and not
/// cancelled, with the cancellation where it was cancelled, and else with its error. The run
/// is kept in the state that the answer says.
pub proof fn law_turns_are_answered_as_they_went(
    outcome: TurnOutcome,
    cancelled: bool,
    run: RunView,
    r: Result<Json, Failure>,
)
    requires
        turn_reply(outcome, cancelled, run, r),
    ensures
        cancelled ==> r is Err && r->Err_0.0 == REQUEST_CANCELLED && status_after(r) is Cancelled,
        outcome is Cancelled ==> r is Err && r->Err_0.0 == REQUEST_CANCELLED,
        !cancelled ==> (outcome matches TurnOutcome::Answered(c) ==> r is Ok && json::at_key(
            r->Ok_0@,
            "content"@,
        ) == JsonView::Str(c@) && json::at_key(r->Ok_0@, "run_id"@) == JsonView::Str(run.run_id)
            && status_after(r) is Completed),
        !cancelled ==> (outcome matches TurnOutcome::Failed(e) ==> r is Err && r->Err_0.1@ == e@
            && status_after(r) is Failed),
        r is Ok <==> !cancelled && outcome is Answered,
{
    match outcome {
        TurnOutcome::Answered(c) => law_done_reads_back(Some(c@), run),
        _ => {},
    }
}

/// A run ends completed exactly where its answer is a success, and cancelled exactly where
/// the answer says that it was.
pub proof fn law_runs_end_as_answered(r: Result<Json, Failure>)
    ensures
        status_after(r) is Completed <==> r is Ok,
        status_after(r) is Cancelled <==> r is Err && r->Err_0.0 == REQUEST_CANCELLED,
        status_after(r) is Failed <==> r is Err && r->Err_0.0 != REQUEST_CANCELLED,
{
}

} // verus!
