//! The turn loop: a model is asked, its tool calls are run, and the results go
//! back to it, until it answers in text or the loop is stopped.
use vstd::prelude::*;

use crate::json;
use crate::json::{Json, JsonView};
use crate::provider;
use crate::provider::{
    Message, MessageView, Response, Role, ToolCall, ToolCallView,
};
use crate::text;

verus! {

pub const DEFAULT_PROGRESS_CHECKPOINT_ROUNDS: usize = 50;

pub const MAX_CONSECUTIVE_TOOL_FAILURES: usize = 3;

pub const REPETITION_THRESHOLD: usize = 3;

pub const REPETITION_ABORT_THRESHOLD: usize = 10;

/// How many read-only calls of one wave run at a time.
pub const WAVE_WIDTH: usize = 8;

pub const REPETITION_REMINDER: &'static str =
    "检测到连续重复的工具调用、参数与结果。可以继续使用任何工具，但请先判断该重复是否必要；若没有新信息，考虑换个思路或直接给出结论。";

pub const PROGRESS_CHECKPOINT_REMINDER: &'static str =
    "这是一次长任务的进度检查点，不是终止信号。请核对当前计划和已完成工作：若任务已经完成，立即给出最终结论；若仍有必要工作，继续执行剩余步骤，避免重做已经完成的内容。";

/// What a turn tells those who watch it.
#[derive(Clone, Debug, PartialEq, Eq)]
pub enum AgentEvent {
    TurnStarted,
    ThinkingDelta(String),
    ThinkingFinished,
    TextDelta(String),
    ToolStarted { call_id: String, name: String, round: usize },
    ToolFinished {
        call_id: String,
        name: String,
        output: String,
        round: usize,
        duration_ms: u64,
        success: bool,
        error: Option<String>,
    },
    TurnCompleted { content: String },
}

/// Whether a turn was asked to stop.
#[derive(Debug, Default)]
pub struct CancellationToken {
    pub cancelled: bool,
}

impl CancellationToken {
    /// A token that nobody has used.
    pub fn new() -> (r: Self)
        ensures
            !r.cancelled,
    {
        CancellationToken { cancelled: false }
    }

    /// Asks the turn to stop. Tells whether those who wait must be woken, which
    /// is so the first time only.
    pub fn cancel(&mut self) -> (first: bool)
        ensures
            final(self).cancelled,
            first == !old(self).cancelled,
    {
        let first = !self.cancelled;
        self.cancelled = true;
        first
    }

    /// Tells whether the turn was asked to stop.
    pub fn is_cancelled(&self) -> (r: bool)
        ensures
            r == self.cancelled,
    {
        self.cancelled
    }
}

/// What `DefaultHasher` gives for a text.
pub uninterp spec fn text_hash_of(s: Seq<char>) -> u64;

/// Feeds a text to a new `std::hash::DefaultHasher` and finishes it. Every
/// hasher made by `new` works alike, so the number depends on the text alone.
#[verifier::external_body]
pub(crate) fn fingerprint_text(s: &str) -> (r: u64)
    ensures
        r == text_hash_of(s@),
{
    let mut hasher = std::hash::DefaultHasher::new();
    std::hash::Hash::hash(s, &mut hasher);
    std::hash::Hasher::finish(&hasher)
}

/// The fingerprint of a document: that of its text.
pub fn fingerprint_json(value: &Json) -> (r: u64)
    ensures
        r == text_hash_of(json::json_text_of(value@)),
{
    fingerprint_text(json::json_text(value).as_str())
}

/// What is compared of a tool call and its result.
#[derive(Debug)]
pub struct ToolFingerprint {
    pub tool_name: String,
    pub arguments: u64,
    pub result: u64,
}

/// What a fingerprint says.
pub struct FingerprintView {
    pub tool_name: Seq<char>,
    pub arguments: u64,
    pub result: u64,
}

impl View for ToolFingerprint {
    type V = FingerprintView;

    open spec fn view(&self) -> FingerprintView {
        FingerprintView {
            tool_name: self.tool_name@,
            arguments: self.arguments,
            result: self.result,
        }
    }
}

/// What a list of fingerprints says.
pub open spec fn fingerprint_views(v: Seq<ToolFingerprint>) -> Seq<FingerprintView> {
    Seq::new(v.len(), |i: int| v[i]@)
}

fn same_fingerprints(a: &Vec<ToolFingerprint>, b: &Vec<ToolFingerprint>) -> (r: bool)
    ensures
        r == (fingerprint_views(a@) == fingerprint_views(b@)),
{
    let ghost x = fingerprint_views(a@);
    let ghost y = fingerprint_views(b@);
    if a.len() != b.len() {
        assert(x.len() != y.len());
        return false;
    }
    let mut i: usize = 0;
    while i < a.len()
        invariant
            i <= a@.len(),
            a@.len() == b@.len(),
            x == fingerprint_views(a@),
            y == fingerprint_views(b@),
            forall|k: int| 0 <= k < i ==> #[trigger] x[k] == y[k],
        decreases a@.len() - i,
    {
        if !(text::same(a[i].tool_name.as_str(), b[i].tool_name.as_str()) && a[i].arguments
            == b[i].arguments && a[i].result == b[i].result) {
            assert(x[i as int] != y[i as int]);
            return false;
        }
        i = i + 1;
    }
    assert(x =~= y);
    true
}

/// Counts how often the same batch of calls and results came in a row.
#[derive(Debug)]
pub struct RepeatDetector {
    pub last: Option<Vec<ToolFingerprint>>,
    pub count: usize,
}

impl RepeatDetector {
    /// The batch seen last.
    pub open spec fn last_view(self) -> Option<Seq<FingerprintView>> {
        match self.last {
            Some(v) => Some(fingerprint_views(v@)),
            None => None,
        }
    }

    /// A detector that has seen nothing.
    pub fn new() -> (r: Self)
        ensures
            r.last_view() is None,
            r.count == 0,
    {
        RepeatDetector { last: None, count: 0 }
    }

    /// Takes the batch of a round and returns how often it has now come in a row.
    pub fn observe(&mut self, fingerprints: Vec<ToolFingerprint>) -> (n: usize)
        ensures
            n == final(self).count,
            final(self).last_view() == Some(fingerprint_views(fingerprints@)),
            n == (if old(self).last_view() == Some(fingerprint_views(fingerprints@)) {
                if old(self).count == usize::MAX {
                    usize::MAX as int
                } else {
                    old(self).count + 1
                }
            } else {
                1
            }),
    {
        let repeated = match &self.last {
            Some(v) => same_fingerprints(v, &fingerprints),
            None => false,
        };
        if repeated {
            self.count = self.count.saturating_add(1);
        } else {
            self.last = Some(fingerprints);
            self.count = 1;
        }
        self.count
    }
}

/// What running one tool call gave.
#[derive(Debug)]
pub struct ToolExecution {
    pub message: Message,
    pub transient_messages: Vec<Message>,
    pub fingerprint: ToolFingerprint,
    pub failed: bool,
    pub error: Option<String>,
}

/// What an execution says.
pub struct ExecutionView {
    pub message: MessageView,
    pub transient_messages: Seq<MessageView>,
    pub fingerprint: FingerprintView,
    pub failed: bool,
    pub error: Option<Seq<char>>,
}

impl View for ToolExecution {
    type V = ExecutionView;

    open spec fn view(&self) -> ExecutionView {
        ExecutionView {
            message: self.message@,
            transient_messages: provider::message_views(self.transient_messages@),
            fingerprint: self.fingerprint@,
            failed: self.failed,
            error: json::opt_text(self.error),
        }
    }
}

/// What a list of executions says.
pub open spec fn execution_views(v: Seq<ToolExecution>) -> Seq<ExecutionView> {
    Seq::new(v.len(), |i: int| v[i]@)
}

/// The result messages of a batch, in order.
pub open spec fn result_messages(v: Seq<ExecutionView>) -> Seq<MessageView> {
    Seq::new(v.len(), |i: int| v[i].message)
}

/// The fingerprints of a batch, in order.
pub open spec fn batch_fingerprints(v: Seq<ExecutionView>) -> Seq<FingerprintView> {
    Seq::new(v.len(), |i: int| v[i].fingerprint)
}

/// The messages that a batch adds to the next requests only, in order.
pub open spec fn batch_transient(v: Seq<ExecutionView>) -> Seq<MessageView>
    decreases v.len(),
{
    if v.len() == 0 {
        Seq::empty()
    } else {
        batch_transient(v.drop_last()) + v.last().transient_messages
    }
}

/// How many messages for the next rounds the first `k` executions bring.
pub open spec fn transient_before(v: Seq<ExecutionView>, k: int) -> int
    decreases k,
{
    if k <= 0 {
        0
    } else {
        transient_before(v, k - 1) + v[k - 1].transient_messages.len()
    }
}

/// What the results of a batch do to a turn.
pub open spec fn results_taken(
    before: TurnLoop,
    after: TurnLoop,
    batch: Seq<ExecutionView>,
) -> bool {
    &&& after.limit == before.limit
    &&& after.round == before.round
    &&& observes(before.detector, after.detector, batch_fingerprints(batch))
    &&& provider::message_views(after.transient@) == provider::message_views(before.transient@)
        + batch_transient(batch)
    &&& after.reminder == (before.reminder || after.detector.count == REPETITION_THRESHOLD)
    &&& after.failures == (if after.detector.count >= REPETITION_ABORT_THRESHOLD {
        before.failures
    } else if failed_count(batch) == 0 {
        0
    } else {
        bump(before.failures, failed_count(batch))
    })
}

/// How many calls of a batch failed.
pub open spec fn failed_count(v: Seq<ExecutionView>) -> nat
    decreases v.len(),
{
    if v.len() == 0 {
        0
    } else {
        failed_count(v.drop_last()) + if v.last().failed {
            1nat
        } else {
            0nat
        }
    }
}

/// The error of the last call of a batch that has one.
pub open spec fn last_error(v: Seq<ExecutionView>) -> Option<Seq<char>>
    decreases v.len(),
{
    if v.len() == 0 {
        None
    } else if v.last().error is Some {
        v.last().error
    } else {
        last_error(v.drop_last())
    }
}

/// The engine of a session: how many rounds a turn may take, and whether its
/// messages are kept in a session.
#[derive(Clone, Copy, Debug, PartialEq, Eq, Structural)]
pub struct LoopEngine {
    pub round_limit: Option<usize>,
    pub persistent: bool,
}

impl LoopEngine {
    /// The engine of a main task, which no number of rounds stops: only repetition
    /// and failures do.
    pub fn new() -> (r: Self)
        ensures
            r.round_limit is None,
            r.persistent,
    {
        LoopEngine { round_limit: None, persistent: true }
    }

    /// An engine without a session, for at most `max_rounds` rounds.
    pub fn ephemeral(max_rounds: usize) -> (r: Self)
        ensures
            r.round_limit == Some(max_rounds),
            !r.persistent,
    {
        LoopEngine { round_limit: Some(max_rounds), persistent: false }
    }

    /// The same engine for another session.
    pub fn for_session(&self) -> (r: Self)
        ensures
            r.round_limit == self.round_limit,
            r.persistent,
    {
        LoopEngine { round_limit: self.round_limit, persistent: true }
    }

    /// The loop of a new turn.
    pub fn start_turn(&self) -> (r: TurnLoop)
        ensures
            r.wf(),
            r.limit == self.round_limit,
            r.round == 0,
            r.failures == 0,
            !r.reminder,
            r.detector.last_view() is None,
            provider::message_views(r.transient@) == Seq::<MessageView>::empty(),
    {
        let r = TurnLoop {
            limit: self.round_limit,
            round: 0,
            failures: 0,
            reminder: false,
            detector: RepeatDetector::new(),
            transient: Vec::new(),
        };
        assert(provider::message_views(r.transient@) =~= Seq::<MessageView>::empty());
        r
    }
}

/// A turn between two rounds.
#[derive(Debug)]
pub struct TurnLoop {
    pub limit: Option<usize>,
    pub round: usize,
    pub failures: usize,
    pub reminder: bool,
    pub detector: RepeatDetector,
    pub transient: Vec<Message>,
}

/// What stands before a round: its number and the reminders that go with it.
#[derive(Clone, Copy, Debug, PartialEq, Eq, Structural)]
pub struct RoundPlan {
    pub round: usize,
    pub checkpoint: bool,
    pub reminder: bool,
}

/// What comes after the answer of a model, or after a batch of tool calls.
#[derive(Debug)]
pub enum TurnStep {
    /// The turn is over: record the message and answer with the content.
    Done { record: Message, content: String },
    /// Record the message and ask the model again.
    Retry { record: Message },
    /// Record the message, then run the calls.
    Execute { record: Message, calls: Vec<ToolCall> },
    /// Record the results and ask the model again.
    Continue { records: Vec<Message> },
    /// Record the messages and give the turn up with the error.
    Stop { records: Vec<Message>, error: String },
}

/// Why a batch of tool calls was not admitted.
#[derive(Debug)]
pub struct AdmissionError {
    pub code: String,
    pub message: String,
}

/// A machine number one higher, or the same where it is the highest.
pub open spec fn bump(n: usize, by: nat) -> usize {
    if n + by > usize::MAX {
        usize::MAX
    } else {
        (n + by) as usize
    }
}

/// `head`, then `n` in decimal, then `tail`.
pub open spec fn with_number(head: Seq<char>, n: nat, tail: Seq<char>) -> Seq<char> {
    head + text::decimal(n) + tail
}

fn number_text(head: &str, n: usize, tail: &str) -> (r: String)
    ensures
        r@ == with_number(head@, n as nat, tail@),
{
    let mut r = head.to_owned();
    r.append(text::decimal_text(n as u64).as_str());
    r.append(tail);
    r
}

/// `head`, a code in square brackets, the detail, and the advice that follows.
pub open spec fn notice(
    head: Seq<char>,
    code: Seq<char>,
    detail: Seq<char>,
    advice: Seq<char>,
) -> Seq<char> {
    head + code + "] "@ + detail + advice
}

fn notice_text(head: &str, code: &str, detail: &str, advice: &str) -> (r: String)
    ensures
        r@ == notice(head@, code@, detail@, advice@),
{
    let mut r = head.to_owned();
    r.append(code);
    r.append("] ");
    r.append(detail);
    r.append(advice);
    r
}

/// The error of a turn that ran out of rounds.
pub open spec fn limit_error(limit: usize) -> Seq<char> {
    with_number("ReAct 循环达到最大轮次 "@, limit as nat, "，已停止"@)
}

/// The error of a turn that got no valid tool calls.
pub open spec fn empty_error(n: usize) -> Seq<char> {
    with_number("连续 "@, n as nat, " 次收到空工具调用，已停止无效重试"@)
}

/// The error of a turn whose tool calls were not admitted.
pub open spec fn admission_error(n: usize, detail: Seq<char>) -> Seq<char> {
    with_number("连续 "@, n as nat, " 次工具调用无效，已停止自动重试。最近错误："@) + detail
}

/// The error of a turn whose tool calls could not be put together.
pub open spec fn assembly_error(n: usize, detail: Seq<char>) -> Seq<char> {
    with_number("连续 "@, n as nat, " 次工具调用装配失败，已停止自动重试。最近错误："@) + detail
}

/// The error of a turn whose tools failed.
pub open spec fn failure_error(n: usize, detail: Seq<char>) -> Seq<char> {
    with_number("连续 "@, n as nat, " 次工具执行失败，已停止自动重试。最近错误："@) + detail
}

/// The error of a turn that repeats itself.
pub open spec fn repetition_error(n: usize) -> Seq<char> {
    with_number(
        "检测到同一组工具调用及结果连续重复 "@,
        n as nat,
        " 轮，判定为无进展循环，已停止；这不是任务轮次上限"@,
    )
}

/// What the model is told when it asked for no tool.
pub open spec fn empty_notice() -> Seq<char> {
    "[empty_tool_calls] 模型返回了空工具调用列表；请直接回答或生成有效工具调用。"@
}

/// What the model is told when its calls were not admitted.
pub open spec fn admission_notice(code: Seq<char>, message: Seq<char>) -> Seq<char> {
    notice(
        "[tool_call_admission_error:"@,
        code,
        message,
        "。本轮没有执行任何工具；请修正全部调用后重试。"@,
    )
}

/// What the model is told when its calls could not be put together.
pub open spec fn assembly_notice(code: Seq<char>, message: Seq<char>) -> Seq<char> {
    notice(
        "[tool_call_assembly_error:"@,
        code,
        message,
        "。本轮没有执行任何工具；请重新生成完整且合法的工具调用。"@,
    )
}

/// One failure more, and what follows: another try, or the end of the turn with
/// the failure number `failures` in the error.
pub open spec fn rejected(
    before: TurnLoop,
    after: TurnLoop,
    step: TurnStep,
    note: Seq<char>,
    error: Seq<char>,
) -> bool {
    let record = provider::text_message(Role::System, note);
    &&& after.failures == bump(before.failures, 1)
    &&& after.same_but_failures(before)
    &&& if after.failures >= MAX_CONSECUTIVE_TOOL_FAILURES {
        step matches TurnStep::Stop { records, error: e } && provider::message_views(records@)
            == seq![record] && e@ == error
    } else {
        step matches TurnStep::Retry { record: r } && r@ == record
    }
}

fn one_message(m: Message) -> (r: Vec<Message>)
    ensures
        provider::message_views(r@) == seq![m@],
{
    let mut v: Vec<Message> = Vec::new();
    v.push(m);
    assert(provider::message_views(v@) =~= seq![m@]);
    v
}

impl TurnLoop {
    /// A turn that goes on has not reached a threshold.
    pub open spec fn wf(self) -> bool {
        &&& self.failures < MAX_CONSECUTIVE_TOOL_FAILURES
        &&& self.detector.count < REPETITION_ABORT_THRESHOLD
    }

    /// The two states differ in their failures at most.
    pub open spec fn same_but_failures(self, other: TurnLoop) -> bool {
        &&& self.limit == other.limit
        &&& self.round == other.round
        &&& self.reminder == other.reminder
        &&& self.detector == other.detector
        &&& self.transient == other.transient
    }

    /// Opens the next round, or ends the turn where its rounds are used up.
    pub fn begin_round(&mut self) -> (r: Result<RoundPlan, String>)
        ensures
            r is Ok <==> may_open(*old(self)),
            r is Ok ==> opened(*old(self), *final(self)),
            final(self).round == bump(old(self).round, 1),
            final(self).limit == old(self).limit,
            final(self).failures == old(self).failures,
            final(self).detector == old(self).detector,
            final(self).transient == old(self).transient,
            match r {
                Ok(plan) => {
                    &&& old(self).limit is Some ==> final(self).round <= old(self).limit->0
                    &&& plan.round == final(self).round
                    &&& plan.checkpoint == (old(self).limit is None && plan.round > 1 && (
                    plan.round - 1) % (DEFAULT_PROGRESS_CHECKPOINT_ROUNDS as int) == 0)
                    &&& plan.reminder == old(self).reminder
                    &&& !final(self).reminder
                },
                Err(e) => {
                    &&& old(self).limit is Some
                    &&& final(self).round > old(self).limit->0
                    &&& final(self).reminder == old(self).reminder
                    &&& e@ == limit_error(old(self).limit->0)
                },
            },
    {
        self.round = self.round.saturating_add(1);
        if let Some(limit) = self.limit {
            if self.round > limit {
                return Err(number_text("ReAct 循环达到最大轮次 ", limit, "，已停止"));
            }
        }
        let checkpoint = self.limit.is_none() && self.round > 1 && (self.round - 1)
            % DEFAULT_PROGRESS_CHECKPOINT_ROUNDS == 0;
        let reminder = self.reminder;
        self.reminder = false;
        Ok(RoundPlan { round: self.round, checkpoint, reminder })
    }

    /// The messages of a round: the prepared context, what earlier tools added
    /// for the model alone, and the reminders that are due.
    pub fn round_messages(&self, prepared: Vec<Message>, plan: RoundPlan) -> (r: Vec<Message>)
        ensures
            provider::message_views(r@) == provider::message_views(prepared@)
                + provider::message_views(self.transient@) + (if plan.checkpoint {
                seq![provider::text_message(Role::System, PROGRESS_CHECKPOINT_REMINDER@)]
            } else {
                Seq::empty()
            }) + (if plan.reminder {
                seq![provider::text_message(Role::System, REPETITION_REMINDER@)]
            } else {
                Seq::empty()
            }),
    {
        let extra = provider::clone_messages(&self.transient, 0, self.transient.len());
        let mut r = provider::concat_messages(prepared, extra);
        let ghost base = provider::message_views(prepared@) + provider::message_views(
            self.transient@,
        );
        assert(provider::message_views(r@) =~= base);
        if plan.checkpoint {
            provider::push_message(
                &mut r,
                Message::text(Role::System, PROGRESS_CHECKPOINT_REMINDER),
            );
        }
        if plan.reminder {
            provider::push_message(&mut r, Message::text(Role::System, REPETITION_REMINDER));
        }
        assert(provider::message_views(r@) =~= base + (if plan.checkpoint {
            seq![provider::text_message(Role::System, PROGRESS_CHECKPOINT_REMINDER@)]
        } else {
            Seq::empty()
        }) + (if plan.reminder {
            seq![provider::text_message(Role::System, REPETITION_REMINDER@)]
        } else {
            Seq::empty()
        }));
        r
    }

    fn reject(&mut self, note: &str, error_head: &str, error_tail: &str) -> (step: TurnStep)
        ensures
            rejected(
                *old(self),
                *final(self),
                step,
                note@,
                with_number("连续 "@, final(self).failures as nat, error_head@) + error_tail@,
            ),
    {
        self.failures = self.failures.saturating_add(1);
        let record = Message::text(Role::System, note);
        if self.failures >= MAX_CONSECUTIVE_TOOL_FAILURES {
            let mut error = number_text("连续 ", self.failures, error_head);
            error.append(error_tail);
            TurnStep::Stop { records: one_message(record), error }
        } else {
            TurnStep::Retry { record }
        }
    }

    /// Takes the answer of a model. `admission` is what the tool registry says
    /// against a batch of calls.
    pub fn on_response(
        &mut self,
        response: Response,
        thinking: Option<String>,
        admission: Option<AdmissionError>,
    ) -> (step: TurnStep)
        ensures
            match response {
                Response::Text(content) => {
                    &&& *final(self) == *old(self)
                    &&& step matches TurnStep::Done { record, content: c } && c@ == content@
                        && record@ == provider::assistant_text(
                        content@,
                        json::opt_text(thinking),
                    )
                },
                Response::ToolCalls(calls) => if calls@.len() == 0 {
                    rejected(
                        *old(self),
                        *final(self),
                        step,
                        empty_notice(),
                        empty_error(final(self).failures),
                    )
                } else {
                    match admission {
                        Some(e) => rejected(
                            *old(self),
                            *final(self),
                            step,
                            admission_notice(e.code@, e.message@),
                            admission_error(final(self).failures, e.message@),
                        ),
                        None => {
                            &&& *final(self) == *old(self)
                            &&& step matches TurnStep::Execute { record, calls: c }
                                && provider::call_views(c@) == provider::call_views(calls@)
                                && record@ == provider::assistant_calls(
                                provider::call_views(calls@),
                                json::opt_text(thinking),
                            )
                        },
                    }
                },
                Response::ToolAssemblyFailed(e) => rejected(
                    *old(self),
                    *final(self),
                    step,
                    assembly_notice(e.code@, e.message@),
                    assembly_error(final(self).failures, e.message@),
                ),
            },
    {
        match response {
            Response::Text(content) => {
                let record = Message::assistant_with_thinking(content.as_str(), thinking);
                TurnStep::Done { record, content }
            },
            Response::ToolCalls(calls) => {
                if calls.len() == 0 {
                    let step = self.reject(
                        "[empty_tool_calls] 模型返回了空工具调用列表；请直接回答或生成有效工具调用。",
                        " 次收到空工具调用，已停止无效重试",
                        "",
                    );
                    proof {
                        reveal_strlit("");
                        assert(empty_error(self.failures) + ""@ =~= empty_error(self.failures));
                    }
                    return step;
                }
                match admission {
                    Some(e) => {
                        let note = notice_text(
                            "[tool_call_admission_error:",
                            e.code.as_str(),
                            e.message.as_str(),
                            "。本轮没有执行任何工具；请修正全部调用后重试。",
                        );
                        self.reject(
                            note.as_str(),
                            " 次工具调用无效，已停止自动重试。最近错误：",
                            e.message.as_str(),
                        )
                    },
                    None => {
                        let record = Message::assistant_tool_calls_with_thinking(
                            provider::clone_calls(&calls),
                            thinking,
                        );
                        TurnStep::Execute { record, calls }
                    },
                }
            },
            Response::ToolAssemblyFailed(e) => {
                let note = notice_text(
                    "[tool_call_assembly_error:",
                    e.code.as_str(),
                    e.message.as_str(),
                    "。本轮没有执行任何工具；请重新生成完整且合法的工具调用。",
                );
                self.reject(
                    note.as_str(),
                    " 次工具调用装配失败，已停止自动重试。最近错误：",
                    e.message.as_str(),
                )
            },
        }
    }
}

/// The parts of a batch, taken out in order.
struct Batch {
    records: Vec<Message>,
    transient: Vec<Message>,
    fingerprints: Vec<ToolFingerprint>,
    failures: usize,
    last_error: Option<String>,
}

fn split_batch(results: Vec<ToolExecution>) -> (r: Batch)
    ensures
        provider::message_views(r.records@) == result_messages(execution_views(results@)),
        provider::message_views(r.transient@) == batch_transient(execution_views(results@)),
        fingerprint_views(r.fingerprints@) == batch_fingerprints(execution_views(results@)),
        r.failures == failed_count(execution_views(results@)),
        json::opt_text(r.last_error) == last_error(execution_views(results@)),
{
    let ghost all = execution_views(results@);
    let mut r = Batch {
        records: Vec::new(),
        transient: Vec::new(),
        fingerprints: Vec::new(),
        failures: 0,
        last_error: None,
    };
    let n: usize = results.len();
    assert(provider::message_views(r.records@) =~= result_messages(all.take(0)));
    assert(provider::message_views(r.transient@) =~= batch_transient(all.take(0)));
    assert(fingerprint_views(r.fingerprints@) =~= batch_fingerprints(all.take(0)));
    for item in it: results
        invariant
            n == it.seq().len(),
            all == execution_views(it.seq()),
            provider::message_views(r.records@) == result_messages(all.take(it.index() as int)),
            provider::message_views(r.transient@) == batch_transient(all.take(it.index() as int)),
            fingerprint_views(r.fingerprints@) == batch_fingerprints(all.take(it.index() as int)),
            r.failures == failed_count(all.take(it.index() as int)),
            r.failures <= it.index(),
            json::opt_text(r.last_error) == last_error(all.take(it.index() as int)),
    {
        let ghost i = it.index() as int;
        proof {
            assert(all.take(i + 1).drop_last() =~= all.take(i));
            assert(all.take(i + 1).last() == item@);
        }
        let ghost records0 = provider::message_views(r.records@);
        let ghost prints0 = fingerprint_views(r.fingerprints@);
        let ToolExecution { message, transient_messages, fingerprint, failed, error } = item;
        provider::push_message(&mut r.records, message);
        r.transient = provider::concat_messages(r.transient, transient_messages);
        r.fingerprints.push(fingerprint);
        if failed {
            r.failures = r.failures + 1;
        }
        if error.is_some() {
            r.last_error = error;
        }
        proof {
            assert(result_messages(all.take(i + 1)) =~= result_messages(all.take(i)).push(
                all[i].message,
            ));
            assert(fingerprint_views(r.fingerprints@) =~= prints0.push(fingerprint@));
            assert(batch_fingerprints(all.take(i + 1)) =~= batch_fingerprints(all.take(i)).push(
                all[i].fingerprint,
            ));
        }
    }
    assert(all.take(n as int) =~= all);
    r
}

/// How often a batch has come in a row once it was seen again.
pub open spec fn repeat_count(before: RepeatDetector, batch: Seq<FingerprintView>) -> usize {
    if before.last_view() == Some(batch) {
        bump(before.count, 1)
    } else {
        1
    }
}

impl TurnLoop {
    /// Takes the results of a batch of tool calls. A batch that repeats itself
    /// too often ends the turn; the first threshold only brings a reminder. A
    /// batch without failures clears the count of failures, others add to it.
    pub fn on_results(&mut self, results: Vec<ToolExecution>) -> (step: TurnStep)
        ensures
            ({
                let batch = execution_views(results@);
                let seen = repeat_count(old(self).detector, batch_fingerprints(batch));
                let failed = failed_count(batch);
                let records = result_messages(batch);
                &&& final(self).limit == old(self).limit
                &&& final(self).round == old(self).round
                &&& final(self).detector.count == seen
                &&& final(self).detector.last_view() == Some(batch_fingerprints(batch))
                &&& provider::message_views(final(self).transient@) == provider::message_views(
                    old(self).transient@,
                ) + batch_transient(batch)
                &&& final(self).reminder == (old(self).reminder || seen == REPETITION_THRESHOLD)
                &&& if seen >= REPETITION_ABORT_THRESHOLD {
                    &&& final(self).failures == old(self).failures
                    &&& step matches TurnStep::Stop { records: m, error }
                        && provider::message_views(m@) == records && error@ == repetition_error(
                        seen,
                    )
                } else if failed == 0 {
                    &&& final(self).failures == 0
                    &&& step matches TurnStep::Continue { records: m } && provider::message_views(
                        m@,
                    ) == records
                } else {
                    &&& final(self).failures == bump(old(self).failures, failed)
                    &&& if final(self).failures >= MAX_CONSECUTIVE_TOOL_FAILURES {
                        step matches TurnStep::Stop { records: m, error }
                            && provider::message_views(m@) == records && error@ == failure_error(
                            final(self).failures,
                            match last_error(batch) {
                                Some(e) => e,
                                None => "未提供错误详情"@,
                            },
                        )
                    } else {
                        step matches TurnStep::Continue { records: m } && provider::message_views(
                            m@,
                        ) == records
                    }
                }
            }),
            results_taken(*old(self), *final(self), execution_views(results@)),
            results@.len() == 1 ==> provider::message_views(final(self).transient@)
                == provider::message_views(old(self).transient@) + provider::message_views(
                results@[0].transient_messages@,
            ),
            forall|k: int, i: int|
                0 <= k < results@.len() && 0 <= i < results@[k].transient_messages@.len()
                    ==> provider::message_views(final(self).transient@).contains(
                    (#[trigger] results@[k].transient_messages@[i])@,
                ),
            step matches TurnStep::Continue { records: m } ==> m@.len() == results@.len() && forall|
                k: int,
            |
                0 <= k < m@.len() ==> (#[trigger] m@[k])@ == results@[k].message@,
            step matches TurnStep::Stop { records: m, .. } ==> m@.len() == results@.len() && forall|
                k: int,
            |
                0 <= k < m@.len() ==> (#[trigger] m@[k])@ == results@[k].message@,
            step is Continue || step is Stop,
            step is Continue ==> final(self).failures == 0 || exists|k: int|
                0 <= k < results@.len() && (#[trigger] results@[k]).failed,
    {
        let ghost given = results@;
        let ghost earlier = *self;
        let Batch { records, transient, fingerprints, failures, last_error: last } = split_batch(
            results,
        );
        let mut older: Vec<Message> = Vec::new();
        std::mem::swap(&mut older, &mut self.transient);
        self.transient = provider::concat_messages(older, transient);
        proof {
            let batch = execution_views(given);
            let now = provider::message_views(self.transient@);
            let then = provider::message_views(earlier.transient@);
            lemma_transient_places(batch);
            lemma_failures_have_a_cause(batch);
            assert(now == then + batch_transient(batch));
            if given.len() == 1 {
                reveal_with_fuel(batch_transient, 2);
                assert(batch.drop_last().len() == 0);
                assert(batch_transient(batch) =~= batch[0].transient_messages);
                assert(batch[0].transient_messages == provider::message_views(
                    given[0].transient_messages@,
                ));
            }
            assert forall|k: int, i: int|
                0 <= k < given.len() && 0 <= i < given[k].transient_messages@.len() implies now.contains(
                (#[trigger] given[k].transient_messages@[i])@,
            ) by {
                let at = then.len() + transient_before(batch, k) + i;
                assert(batch[k].transient_messages[i] == given[k].transient_messages@[i]@);
                assert(now[at] == batch_transient(batch)[transient_before(batch, k) + i]);
            }
        }
        let ghost said = result_messages(execution_views(given));
        assert(forall|k: int|
            0 <= k < records@.len() ==> (#[trigger] records@[k])@ == provider::message_views(
                records@,
            )[k]);
        assert(forall|k: int|
            0 <= k < given.len() ==> said[k] == (#[trigger] given[k]).message@);
        assert(provider::message_views(records@).len() == records@.len());
        let seen: usize = self.detector.observe(fingerprints);
        if seen == REPETITION_THRESHOLD {
            self.reminder = true;
        }
        if seen >= REPETITION_ABORT_THRESHOLD {
            let error = number_text(
                "检测到同一组工具调用及结果连续重复 ",
                seen,
                " 轮，判定为无进展循环，已停止；这不是任务轮次上限",
            );
            return TurnStep::Stop { records, error };
        }
        if failures == 0 {
            self.failures = 0;
        } else {
            self.failures = self.failures.saturating_add(failures);
            if self.failures >= MAX_CONSECUTIVE_TOOL_FAILURES {
                let mut error = number_text(
                    "连续 ",
                    self.failures,
                    " 次工具执行失败，已停止自动重试。最近错误：",
                );
                match last {
                    Some(e) => error.append(e.as_str()),
                    None => error.append("未提供错误详情"),
                }
                return TurnStep::Stop { records, error };
            }
        }
        TurnStep::Continue { records }
    }
}

/// The step lets the turn go on.
pub open spec fn goes_on(step: TurnStep) -> bool {
    step is Retry || step is Execute || step is Continue
}

/// A turn that goes on after a rejected answer has fewer failures than the
/// threshold; so at most two answers in a row can be rejected without an end.
pub proof fn law_rejections_are_bounded(
    before: TurnLoop,
    after: TurnLoop,
    step: TurnStep,
    note: Seq<char>,
    error: Seq<char>,
)
    requires
        before.wf(),
        rejected(before, after, step, note, error),
    ensures
        after.failures == before.failures + 1,
        goes_on(step) <==> after.wf(),
        step is Stop <==> after.failures == MAX_CONSECUTIVE_TOOL_FAILURES,
{
}

/// The detector takes one more batch.
pub open spec fn observes(
    before: RepeatDetector,
    after: RepeatDetector,
    batch: Seq<FingerprintView>,
) -> bool {
    &&& after.count == repeat_count(before, batch)
    &&& after.last_view() == Some(batch)
}

/// A batch that keeps coming, after something else, has been counted exactly as
/// often as it came: so it brings the reminder when it comes the third time and
/// ends the turn when it comes the tenth.
pub proof fn law_repetition_is_counted(
    run: Seq<RepeatDetector>,
    batch: Seq<FingerprintView>,
    n: int,
)
    requires
        1 <= n < run.len(),
        n <= usize::MAX,
        run[0].last_view() != Some(batch),
        forall|k: int| 0 <= k < run.len() - 1 ==> observes(#[trigger] run[k], run[k + 1], batch),
    ensures
        run[n].count == n,
        run[n].last_view() == Some(batch),
    decreases n,
{
    assert(observes(run[n - 1], run[n - 1 + 1], batch));
    if n > 1 {
        law_repetition_is_counted(run, batch, n - 1);
    }
}

/// The last `n` values of the history are alike, and no more than those.
pub open spec fn is_tail_run(history: Seq<Seq<FingerprintView>>, n: int) -> bool {
    &&& 1 <= n <= history.len()
    &&& forall|i: int|
        history.len() - n <= i < history.len() ==> #[trigger] history[i] == history.last()
    &&& n < history.len() ==> history[history.len() - n - 1] != history.last()
}

/// How long the run of equal values at the end of the history is.
pub open spec fn tail_run(history: Seq<Seq<FingerprintView>>) -> nat
    decreases history.len(),
{
    if history.len() == 0 {
        0
    } else if history.len() > 1 && history[history.len() - 2] == history.last() {
        tail_run(history.drop_last()) + 1
    } else {
        1
    }
}

/// The detector saw batch number `k` of the history.
pub open spec fn observed_at(
    run: Seq<RepeatDetector>,
    history: Seq<Seq<FingerprintView>>,
    k: int,
) -> bool {
    observes(run[k], run[k + 1], history[k])
}

/// After any history the detector holds the length of the run of equal batches at its end,
/// as far as a machine number goes.
pub proof fn law_detector_counts_the_last_run(
    run: Seq<RepeatDetector>,
    history: Seq<Seq<FingerprintView>>,
)
    requires
        run.len() == history.len() + 1,
        run[0].last_view() is None,
        run[0].count == 0,
        forall|k: int| 0 <= k < history.len() ==> #[trigger] observed_at(run, history, k),
    ensures
        history.len() > 0 ==> is_tail_run(history, tail_run(history) as int),
        history.len() > 0 ==> run.last().last_view() == Some(history.last()),
        run.last().count == if tail_run(history) > usize::MAX {
            usize::MAX as nat
        } else {
            tail_run(history)
        },
    decreases history.len(),
{
    if history.len() > 0 {
        let n = history.len() - 1;
        let earlier = history.drop_last();
        let before = run.drop_last();
        assert forall|k: int| 0 <= k < earlier.len() implies #[trigger] observed_at(
            before,
            earlier,
            k,
        ) by {
            assert(observed_at(run, history, k));
        }
        law_detector_counts_the_last_run(before, earlier);
        assert(observed_at(run, history, n));
        assert(before.last() == run[n]);
        if history.len() > 1 && history[history.len() - 2] == history.last() {
            let m = tail_run(earlier) as int;
            assert(is_tail_run(earlier, m));
            assert forall|i: int|
                history.len() - (m + 1) <= i < history.len() implies #[trigger] history[i]
                == history.last() by {
                if i < n {
                    assert(earlier[i] == earlier.last());
                }
            }
            if m + 1 < history.len() {
                assert(earlier[earlier.len() - m - 1] == history[history.len() - (m + 1) - 1]);
            }
            assert(is_tail_run(history, m + 1));
        } else {
            if history.len() > 1 {
                assert(earlier.last() == history[history.len() - 2]);
            }
            assert(is_tail_run(history, 1));
        }
    }
}

/// The turn may open another round.
pub open spec fn may_open(turn: TurnLoop) -> bool {
    turn.limit is None || bump(turn.round, 1) <= turn.limit->0
}

/// The turn is in the same round as before.
pub open spec fn same_round(before: TurnLoop, after: TurnLoop) -> bool {
    after.round == before.round && after.limit == before.limit
}

/// A turn opened a round.
pub open spec fn opened(before: TurnLoop, after: TurnLoop) -> bool {
    &&& may_open(before)
    &&& after.round == bump(before.round, 1)
    &&& after.limit == before.limit
}

/// The round number `k` was opened, in the state that the one before it left.
pub open spec fn opened_at(rounds: Seq<(TurnLoop, TurnLoop)>, k: int) -> bool {
    &&& opened(rounds[k].0, rounds[k].1)
    &&& k > 0 ==> same_round(rounds[k - 1].1, rounds[k].0)
}

/// Over a whole turn of a limited engine the model is asked as often as there are rounds
/// at most. `rounds` holds the state before and after each round was opened; between two
/// rounds the answers and results leave the round as it is. Where the rounds are used up no
/// other is opened, and the turn ends with the error that names the limit.
pub proof fn law_rounds_are_limited(
    rounds: Seq<(TurnLoop, TurnLoop)>,
    last: TurnLoop,
    limit: usize,
)
    requires
        limit < usize::MAX,
        rounds.len() > 0 ==> rounds[0].0.round == 0 && rounds[0].0.limit == Some(limit)
            && same_round(rounds.last().1, last),
        rounds.len() == 0 ==> last.round == 0 && last.limit == Some(limit),
        forall|k: int| 0 <= k < rounds.len() ==> #[trigger] opened_at(rounds, k),
    ensures
        rounds.len() <= limit,
        last.round == rounds.len(),
        last.limit == Some(limit),
        may_open(last) <==> rounds.len() < limit,
    decreases rounds.len(),
{
    if rounds.len() > 0 {
        let earlier = rounds.drop_last();
        let n = rounds.len() - 1;
        assert(opened_at(rounds, n));
        assert forall|k: int| 0 <= k < earlier.len() implies #[trigger] opened_at(earlier, k) by {
            assert(opened_at(rounds, k));
        }
        law_rounds_are_limited(earlier, rounds[n].0, limit);
    }
}

/// The ranges of calls that run together.
pub open spec fn is_wave_plan(read_only: Seq<bool>, waves: Seq<(usize, usize)>, from: int) -> bool
    decreases waves.len(),
{
    if waves.len() == 0 {
        from == read_only.len()
    } else {
        let (start, end) = waves[0];
        &&& start == from
        &&& start < end <= read_only.len()
        &&& if read_only[start as int] {
            &&& forall|i: int| start <= i < end ==> #[trigger] read_only[i]
            &&& end < read_only.len() ==> !read_only[end as int]
        } else {
            end == start + 1
        }
        &&& is_wave_plan(read_only, waves.drop_first(), end as int)
    }
}

/// Cuts a batch of calls into waves: each maximal run of read-only calls is one
/// wave, every other call a wave of its own.
pub fn plan_waves(read_only: &Vec<bool>) -> (waves: Vec<(usize, usize)>)
    ensures
        is_wave_plan(read_only@, waves@, 0),
{
    let mut waves: Vec<(usize, usize)> = Vec::new();
    let mut cursor: usize = 0;
    while cursor < read_only.len()
        invariant
            cursor <= read_only@.len(),
            waves_cover(read_only@, waves@, cursor as int),
        decreases read_only@.len() - cursor,
    {
        let start: usize = cursor;
        let mut end: usize = cursor + 1;
        if read_only[cursor] {
            while end < read_only.len() && read_only[end]
                invariant
                    start < end <= read_only@.len(),
                    forall|i: int| start <= i < end ==> #[trigger] read_only@[i],
                decreases read_only@.len() - end,
            {
                end = end + 1;
            }
        }
        proof {
            lemma_wave_added(read_only@, waves@, start, end, 0);
        }
        waves.push((start, end));
        cursor = end;
    }
    proof {
        lemma_cover_is_plan(read_only@, waves@, 0);
    }
    waves
}

/// The waves so far are right and end at `to`.
pub open spec fn waves_from(
    read_only: Seq<bool>,
    waves: Seq<(usize, usize)>,
    from: int,
    to: int,
) -> bool
    decreases waves.len(),
{
    if waves.len() == 0 {
        from == to
    } else {
        let (start, end) = waves[0];
        &&& start == from
        &&& start < end <= read_only.len()
        &&& if read_only[start as int] {
            &&& forall|i: int| start <= i < end ==> #[trigger] read_only[i]
            &&& end < read_only.len() ==> !read_only[end as int]
        } else {
            end == start + 1
        }
        &&& waves_from(read_only, waves.drop_first(), end as int, to)
    }
}

/// The waves so far cover the calls up to `to`.
pub open spec fn waves_cover(read_only: Seq<bool>, waves: Seq<(usize, usize)>, to: int) -> bool {
    waves_from(read_only, waves, 0, to)
}

proof fn lemma_wave_added(
    read_only: Seq<bool>,
    waves: Seq<(usize, usize)>,
    start: usize,
    end: usize,
    from: int,
)
    requires
        waves_from(read_only, waves, from, start as int),
        start < end <= read_only.len(),
        if read_only[start as int] {
            &&& forall|i: int| start <= i < end ==> #[trigger] read_only[i]
            &&& end < read_only.len() ==> !read_only[end as int]
        } else {
            end == start + 1
        },
    ensures
        waves_from(read_only, waves.push((start, end)), from, end as int),
    decreases waves.len(),
{
    let more = waves.push((start, end));
    if waves.len() == 0 {
        assert(more.drop_first() =~= Seq::<(usize, usize)>::empty());
        assert(waves_from(read_only, more.drop_first(), end as int, end as int));
    } else {
        assert(more[0] == waves[0]);
        assert(more.drop_first() =~= waves.drop_first().push((start, end)));
        lemma_wave_added(read_only, waves.drop_first(), start, end, waves[0].1 as int);
    }
}

proof fn lemma_cover_is_plan(read_only: Seq<bool>, waves: Seq<(usize, usize)>, from: int)
    requires
        waves_from(read_only, waves, from, read_only.len() as int),
    ensures
        is_wave_plan(read_only, waves, from),
    decreases waves.len(),
{
    if waves.len() > 0 {
        lemma_cover_is_plan(read_only, waves.drop_first(), waves[0].1 as int);
    }
}

/// There is only one way to cut a batch into waves.
pub proof fn law_wave_plan_is_unique(
    read_only: Seq<bool>,
    a: Seq<(usize, usize)>,
    b: Seq<(usize, usize)>,
    from: int,
)
    requires
        is_wave_plan(read_only, a, from),
        is_wave_plan(read_only, b, from),
    ensures
        a == b,
    decreases a.len(),
{
    if a.len() > 0 && b.len() > 0 {
        let ea = a[0].1;
        let eb = b[0].1;
        if ea < eb {
            assert(read_only[ea as int]);
        } else if eb < ea {
            assert(read_only[eb as int]);
        }
        law_wave_plan_is_unique(read_only, a.drop_first(), b.drop_first(), ea as int);
        assert(a =~= seq![a[0]] + a.drop_first());
        assert(b =~= seq![b[0]] + b.drop_first());
    } else {
        assert(a =~= b);
    }
}

/// The event that opens a tool call.
pub open spec fn started_event(event: AgentEvent, call: ToolCallView, round: usize) -> bool {
    event matches AgentEvent::ToolStarted { call_id, name, round: r } && call_id@ == call.id
        && name@ == call.name && r == round
}

/// Announces a tool call.
pub fn tool_started(call: &ToolCall, round: usize) -> (event: AgentEvent)
    ensures
        started_event(event, call@, round),
{
    AgentEvent::ToolStarted { call_id: call.id.clone(), name: call.name.clone(), round }
}

/// What a tool gave back: its output and messages for the model alone.
#[derive(Debug)]
pub struct ToolOutput {
    pub content: String,
    pub transient_messages: Vec<Message>,
}

/// What is handed to the model for a failed call.
pub open spec fn tool_error_text(error: Seq<char>) -> Seq<char> {
    "工具执行错误: "@ + error
}

/// Turns the outcome of a tool call into the event that closes it and into what
/// the loop keeps: a failure goes back to the model as the result of the call.
pub fn tool_finished(
    call: &ToolCall,
    outcome: Result<ToolOutput, String>,
    round: usize,
    duration_ms: u64,
) -> (r: (AgentEvent, ToolExecution))
    ensures
        ({
            let output = match outcome {
                Ok(o) => o.content@,
                Err(e) => tool_error_text(e@),
            };
            let error = match outcome {
                Ok(_) => None,
                Err(e) => Some(tool_error_text(e@)),
            };
            &&& r.0 matches AgentEvent::ToolFinished {
                call_id,
                name,
                output: o,
                round: n,
                duration_ms: d,
                success,
                error: e,
            } && call_id@ == call@.id && name@ == call@.name && o@ == output && n == round && d
                == duration_ms && success == (outcome is Ok) && json::opt_text(e) == error
            &&& r.1@ == (ExecutionView {
                message: provider::tool_result_message(call@, output),
                transient_messages: match outcome {
                    Ok(o) => provider::message_views(o.transient_messages@),
                    Err(_) => Seq::empty(),
                },
                fingerprint: FingerprintView {
                    tool_name: call@.name,
                    arguments: text_hash_of(json::json_text_of(call@.arguments)),
                    result: text_hash_of(output),
                },
                failed: outcome is Err,
                error,
            })
        }),
{
    let (content, transient_messages, failed, error) = match outcome {
        Ok(o) => (o.content, o.transient_messages, false, None),
        Err(e) => {
            let mut m = "工具执行错误: ".to_owned();
            m.append(e.as_str());
            let none: Vec<Message> = Vec::new();
            assert(provider::message_views(none@) =~= Seq::<MessageView>::empty());
            (m.clone(), none, true, Some(m))
        },
    };
    let event = AgentEvent::ToolFinished {
        call_id: call.id.clone(),
        name: call.name.clone(),
        output: content.clone(),
        round,
        duration_ms,
        success: !failed,
        error: provider::clone_opt(&error),
    };
    let fingerprint = ToolFingerprint {
        tool_name: call.name.clone(),
        arguments: fingerprint_json(&call.arguments),
        result: fingerprint_text(content.as_str()),
    };
    let execution = ToolExecution {
        message: Message::tool_result(call, content.as_str()),
        transient_messages,
        fingerprint,
        failed,
        error,
    };
    (event, execution)
}

/// What a message becomes for a model that takes no images.
pub open spec fn without_image(m: MessageView) -> MessageView {
    if m.image_urls.len() == 0 {
        m
    } else {
        let note = with_number(
            "[当前 provider 不支持图片，已省略 "@,
            m.image_urls.len(),
            " 个图片内容块]"@,
        );
        MessageView {
            content: Some(
                match m.content {
                    Some(c) => if c.len() > 0 {
                        c + "\n"@ + note
                    } else {
                        note
                    },
                    None => note,
                },
            ),
            image_urls: Seq::empty(),
            ..m
        }
    }
}

/// Replaces the images of a conversation by a note on how many were left out.
pub fn without_images(messages: &Vec<Message>) -> (r: Vec<Message>)
    ensures
        provider::message_views(r@) == Seq::new(
            messages@.len(),
            |i: int| without_image(messages@[i]@),
        ),
{
    let mut out: Vec<Message> = Vec::new();
    let mut i: usize = 0;
    while i < messages.len()
        invariant
            i <= messages@.len(),
            out@.len() == i,
            forall|k: int| 0 <= k < i ==> (#[trigger] out@[k])@ == without_image(messages@[k]@),
        decreases messages@.len() - i,
    {
        let mut m = messages[i].clone();
        let n: usize = m.image_urls.len();
        if n > 0 {
            let note = number_text(
                "[当前 provider 不支持图片，已省略 ",
                n,
                " 个图片内容块]",
            );
            let content = match &m.content {
                Some(c) => if c.as_str().is_empty() {
                    note
                } else {
                    let mut s = c.clone();
                    s.append("\n");
                    s.append(note.as_str());
                    assert(s@ =~= c@ + "\n"@ + note@);
                    s
                },
                None => note,
            };
            m.content = Some(content);
            m.image_urls = Vec::new();
            assert(text::views(m.image_urls@) =~= Seq::<Seq<char>>::empty());
        }
        out.push(m);
        i = i + 1;
    }
    assert(provider::message_views(out@) =~= Seq::new(
        messages@.len(),
        |i: int| without_image(messages@[i]@),
    ));
    out
}

/// What arrives while a model answers.
#[derive(Debug)]
pub enum StreamEvent {
    /// A piece of what the model thinks.
    Thinking(String),
    /// Anything else; with the piece of text that it brought, if any.
    Answer(Option<String>),
}

/// The answer of a model while it arrives.
#[derive(Debug)]
pub struct ModelStream {
    pub thinking: String,
    pub thinking_active: bool,
    pub first_delta_ms: Option<u64>,
}

/// A list of events that is empty, or announces that thinking is over.
pub open spec fn closes_thinking(events: Seq<AgentEvent>, active: bool) -> bool {
    if active {
        events.len() == 1 && events[0] is ThinkingFinished
    } else {
        events.len() == 0
    }
}

impl ModelStream {
    /// Before the first piece.
    pub fn new() -> (r: Self)
        ensures
            r.thinking@ == Seq::<char>::empty(),
            !r.thinking_active,
            r.first_delta_ms is None,
    {
        ModelStream { thinking: String::new(), thinking_active: false, first_delta_ms: None }
    }

    /// Takes one piece, `elapsed_ms` after the request, and returns what is to be
    /// announced. Thinking is collected; the first piece of text ends it.
    pub fn consume(&mut self, event: StreamEvent, elapsed_ms: u64) -> (events: Vec<AgentEvent>)
        ensures
            match event {
                StreamEvent::Thinking(delta) => {
                    &&& final(self).first_delta_ms == old(self).first_delta_ms
                    &&& final(self).thinking@ == old(self).thinking@ + delta@
                    &&& final(self).thinking_active == (old(self).thinking_active || delta@.len()
                        > 0)
                    &&& if delta@.len() > 0 {
                        events@.len() == 1 && (events@[0] matches AgentEvent::ThinkingDelta(d)
                            && d@ == delta@)
                    } else {
                        events@.len() == 0
                    }
                },
                StreamEvent::Answer(None) => {
                    &&& *final(self) == *old(self)
                    &&& events@.len() == 0
                },
                StreamEvent::Answer(Some(delta)) => {
                    &&& final(self).thinking@ == old(self).thinking@
                    &&& !final(self).thinking_active
                    &&& final(self).first_delta_ms == (match old(self).first_delta_ms {
                        Some(ms) => Some(ms),
                        None => Some(elapsed_ms),
                    })
                    &&& events@.len() > 0
                    &&& closes_thinking(events@.drop_last(), old(self).thinking_active)
                    &&& events@.last() matches AgentEvent::TextDelta(d) && d@ == delta@
                },
            },
    {
        let mut events: Vec<AgentEvent> = Vec::new();
        match event {
            StreamEvent::Thinking(delta) => {
                if !delta.as_str().is_empty() {
                    self.thinking.append(delta.as_str());
                    self.thinking_active = true;
                    events.push(AgentEvent::ThinkingDelta(delta));
                } else {
                    assert(old(self).thinking@ + delta@ =~= old(self).thinking@);
                }
            },
            StreamEvent::Answer(None) => {},
            StreamEvent::Answer(Some(delta)) => {
                let mut closing = self.finish_thinking();
                events.append(&mut closing);
                if self.first_delta_ms.is_none() {
                    self.first_delta_ms = Some(elapsed_ms);
                }
                let ghost before = events@;
                events.push(AgentEvent::TextDelta(delta));
                assert(events@.drop_last() =~= before);
            },
        }
        events
    }

    /// Ends the thinking that is still announced as going on.
    pub fn finish_thinking(&mut self) -> (events: Vec<AgentEvent>)
        ensures
            closes_thinking(events@, old(self).thinking_active),
            !final(self).thinking_active,
            final(self).thinking == old(self).thinking,
            final(self).first_delta_ms == old(self).first_delta_ms,
    {
        let mut events: Vec<AgentEvent> = Vec::new();
        if self.thinking_active {
            events.push(AgentEvent::ThinkingFinished);
            self.thinking_active = false;
        }
        events
    }

    /// What the model thought, where it thought anything.
    pub fn into_thinking(self) -> (r: Option<String>)
        ensures
            json::opt_text(r) == (if self.thinking@.len() == 0 {
                None
            } else {
                Some(self.thinking@)
            }),
    {
        if self.thinking.as_str().is_empty() {
            None
        } else {
            Some(self.thinking)
        }
    }
}

/// The document of an answer in the trace of a session.
pub open spec fn response_trace(response: Response, thinking: Option<Seq<char>>) -> JsonView {
    let base = match response {
        Response::Text(t) => seq![
            ("type"@, JsonView::Str("text"@)),
            ("content"@, JsonView::Str(t@)),
        ],
        Response::ToolCalls(calls) => seq![
            ("type"@, JsonView::Str("tool_calls"@)),
            ("tool_calls"@, provider::calls_json(provider::call_views(calls@))),
        ],
        Response::ToolAssemblyFailed(e) => seq![
            ("type"@, JsonView::Str("tool_assembly_failed"@)),
            ("code"@, JsonView::Str(e.code@)),
            ("message"@, JsonView::Str(e.message@)),
        ],
    };
    JsonView::Object(
        match thinking {
            Some(t) => if t.len() > 0 {
                base.push(("thinking"@, JsonView::Str(t)))
            } else {
                base
            },
            None => base,
        },
    )
}

/// Writes an answer for the trace of a session.
pub fn trace_response_value(response: &Response, thinking: Option<&str>) -> (r: Json)
    ensures
        r@ == response_trace(*response, json::opt_view(thinking)),
{
    let mut f = json::no_fields();
    match response {
        Response::Text(t) => {
            json::put(&mut f, "type", Json::of_str("text"));
            json::put(&mut f, "content", Json::Str(t.clone()));
        },
        Response::ToolCalls(calls) => {
            json::put(&mut f, "type", Json::of_str("tool_calls"));
            json::put(&mut f, "tool_calls", provider::calls_to_json(calls));
        },
        Response::ToolAssemblyFailed(e) => {
            json::put(&mut f, "type", Json::of_str("tool_assembly_failed"));
            json::put(&mut f, "code", Json::Str(e.code.clone()));
            json::put(&mut f, "message", Json::Str(e.message.clone()));
        },
    }
    if let Some(t) = thinking {
        if !t.is_empty() {
            json::put(&mut f, "thinking", Json::of_str(t));
        }
    }
    assert(json::fields_view(f@) =~= response_trace(
        *response,
        json::opt_view(thinking),
    )->Object_0);
    json::object(f)
}

/// What the trace of a session keeps of an answer.
#[derive(Debug)]
pub struct ModelTrace {
    pub success: bool,
    pub response: Option<Json>,
    pub error: Option<String>,
}

/// The trace of a model request: a failed request leaves its error; an answer is
/// kept whole, and counts as a failure where its tool calls could not be put
/// together.
pub fn model_trace(outcome: &Result<Response, String>, thinking: &str) -> (r: ModelTrace)
    ensures
        match *outcome {
            Err(e) => !r.success && r.response is None && json::opt_text(r.error) == Some(e@),
            Ok(response) => {
                &&& r.success == !(response is ToolAssemblyFailed)
                &&& r.response matches Some(j) && j@ == response_trace(response, Some(thinking@))
                &&& json::opt_text(r.error) == (match response {
                    Response::ToolAssemblyFailed(e) => Some(e.message@),
                    _ => None,
                })
            },
        },
{
    match outcome {
        Err(e) => ModelTrace { success: false, response: None, error: Some(e.clone()) },
        Ok(response) => {
            let value = trace_response_value(response, Some(thinking));
            match response {
                Response::ToolAssemblyFailed(e) => ModelTrace {
                    success: false,
                    response: Some(value),
                    error: Some(e.message.clone()),
                },
                _ => ModelTrace { success: true, response: Some(value), error: None },
            }
        },
    }
}

proof fn lemma_transient_prefix(v: Seq<ExecutionView>, w: Seq<ExecutionView>, k: int)
    requires
        0 <= k <= v.len(),
        k <= w.len(),
        forall|i: int| 0 <= i < k ==> #[trigger] v[i] == w[i],
    ensures
        transient_before(v, k) == transient_before(w, k),
    decreases k,
{
    if k > 0 {
        lemma_transient_prefix(v, w, k - 1);
    }
}

proof fn lemma_transient_grows(v: Seq<ExecutionView>, j: int, k: int)
    requires
        0 <= j <= k,
    ensures
        0 <= transient_before(v, j) <= transient_before(v, k),
    decreases k,
{
    if j < k {
        lemma_transient_grows(v, j, k - 1);
    } else if j > 0 {
        lemma_transient_grows(v, j - 1, j - 1);
    }
}

/// The messages of each execution stand together, after those of the ones before it.
proof fn lemma_transient_places(v: Seq<ExecutionView>)
    ensures
        batch_transient(v).len() == transient_before(v, v.len() as int),
        forall|k: int, i: int|
            0 <= k < v.len() && 0 <= i < v[k].transient_messages.len() ==> batch_transient(
                v,
            )[transient_before(v, k) + i] == #[trigger] v[k].transient_messages[i],
        forall|k: int|
            0 <= k < v.len() ==> 0 <= #[trigger] transient_before(v, k) && transient_before(v, k)
                + v[k].transient_messages.len() <= batch_transient(v).len(),
    decreases v.len(),
{
    if v.len() > 0 {
        let w = v.drop_last();
        lemma_transient_places(w);
        lemma_transient_prefix(v, w, w.len() as int);
        assert forall|k: int, i: int|
            0 <= k < v.len() && 0 <= i < v[k].transient_messages.len() implies batch_transient(
            v,
        )[transient_before(v, k) + i] == #[trigger] v[k].transient_messages[i] by {
            lemma_transient_grows(v, 0, k);
            if k < w.len() {
                lemma_transient_prefix(v, w, k);
                lemma_transient_grows(v, k + 1, w.len() as int);
                assert(w[k].transient_messages[i] == v[k].transient_messages[i]);
                assert(transient_before(v, k + 1) == transient_before(v, k)
                    + v[k].transient_messages.len());
            }
        }
        assert forall|k: int| 0 <= k < v.len() implies 0 <= #[trigger] transient_before(v, k)
            && transient_before(v, k) + v[k].transient_messages.len() <= batch_transient(
            v,
        ).len() by {
            lemma_transient_grows(v, 0, k);
            lemma_transient_grows(v, k + 1, v.len() as int);
            assert(transient_before(v, k + 1) == transient_before(v, k)
                + v[k].transient_messages.len());
        }
    }
}

proof fn lemma_failures_have_a_cause(v: Seq<ExecutionView>)
    ensures
        failed_count(v) <= v.len(),
        failed_count(v) > 0 ==> exists|k: int| 0 <= k < v.len() && (#[trigger] v[k]).failed,
        (exists|k: int| 0 <= k < v.len() && (#[trigger] v[k]).failed) ==> failed_count(v) > 0,
    decreases v.len(),
{
    if v.len() > 0 {
        let w = v.drop_last();
        lemma_failures_have_a_cause(w);
        if failed_count(w) > 0 {
            let k = choose|k: int| 0 <= k < w.len() && (#[trigger] w[k]).failed;
            assert(v[k].failed);
        } else if v.last().failed {
            assert(v[v.len() - 1].failed);
        }
        if exists|k: int| 0 <= k < v.len() && (#[trigger] v[k]).failed {
            let k = choose|k: int| 0 <= k < v.len() && (#[trigger] v[k]).failed;
            if k < w.len() {
                assert(w[k].failed);
            }
        }
    }
}

/// What the executions of a batch bring for the next rounds is kept whole: what waited
/// before stays in front, and the messages of each execution follow as one block, in the
/// order of the executions, with nothing between the blocks and nothing after the last.
pub proof fn law_transient_messages_are_kept(
    before: TurnLoop,
    after: TurnLoop,
    batch: Seq<ExecutionView>,
) -> (starts: Seq<int>)
    requires
        results_taken(before, after, batch),
    ensures
        starts.len() == batch.len() + 1,
        starts[0] == before.transient@.len(),
        starts.last() == after.transient@.len(),
        forall|i: int|
            0 <= i < before.transient@.len() ==> (#[trigger] after.transient@[i])@
                == before.transient@[i]@,
        forall|k: int|
            0 <= k < batch.len() ==> starts[k + 1] == #[trigger] starts[k]
                + batch[k].transient_messages.len(),
        forall|k: int, i: int|
            0 <= k < batch.len() && 0 <= i < batch[k].transient_messages.len() ==> 0 <= starts[k] + i
                < after.transient@.len() && after.transient@[starts[k] + i]@
                == #[trigger] batch[k].transient_messages[i],
{
    let then = provider::message_views(before.transient@);
    let now = provider::message_views(after.transient@);
    let starts = Seq::new(batch.len() + 1, |k: int| then.len() + transient_before(batch, k));
    lemma_transient_places(batch);
    assert(now.len() == after.transient@.len());
    assert forall|i: int| 0 <= i < before.transient@.len() implies (
    #[trigger] after.transient@[i])@ == before.transient@[i]@ by {
        assert(now[i] == then[i]);
    }
    assert forall|k: int, i: int|
        0 <= k < batch.len() && 0 <= i < batch[k].transient_messages.len() implies 0 <= starts[k]
        + i < after.transient@.len() && after.transient@[starts[k] + i]@
        == #[trigger] batch[k].transient_messages[i] by {
        let at = starts[k] + i;
        assert(now[at] == after.transient@[at]@);
        assert(now[at] == batch_transient(batch)[transient_before(batch, k) + i]);
    }
    starts
}

/// After one execution the messages that wait are those of before and then its own.
pub proof fn law_one_execution_brings_its_messages(
    before: TurnLoop,
    after: TurnLoop,
    e: ExecutionView,
)
    requires
        results_taken(before, after, seq![e]),
    ensures
        provider::message_views(after.transient@) == provider::message_views(before.transient@)
            + e.transient_messages,
{
    let one = seq![e];
    assert(one.drop_last() =~= Seq::<ExecutionView>::empty());
    reveal_with_fuel(batch_transient, 2);
    assert(batch_transient(one) =~= e.transient_messages);
}

/// Two batches in a row leave the same messages waiting as one batch with the executions of
/// the first and then those of the second.
pub proof fn law_batches_add_up(
    start: TurnLoop,
    middle: TurnLoop,
    end: TurnLoop,
    at_once: TurnLoop,
    a: Seq<ExecutionView>,
    b: Seq<ExecutionView>,
)
    requires
        results_taken(start, middle, a),
        results_taken(middle, end, b),
        results_taken(start, at_once, a + b),
    ensures
        provider::message_views(end.transient@) == provider::message_views(at_once.transient@),
        failed_count(a + b) == failed_count(a) + failed_count(b),
        result_messages(a + b) == result_messages(a) + result_messages(b),
        batch_fingerprints(a + b) == batch_fingerprints(a) + batch_fingerprints(b),
    decreases b.len(),
{
    lemma_batches_add_up(a, b);
    assert(result_messages(a + b) =~= result_messages(a) + result_messages(b));
    assert(batch_fingerprints(a + b) =~= batch_fingerprints(a) + batch_fingerprints(b));
    assert(provider::message_views(end.transient@) =~= provider::message_views(
        at_once.transient@,
    ));
}

proof fn lemma_batches_add_up(a: Seq<ExecutionView>, b: Seq<ExecutionView>)
    ensures
        batch_transient(a + b) == batch_transient(a) + batch_transient(b),
        failed_count(a + b) == failed_count(a) + failed_count(b),
    decreases b.len(),
{
    if b.len() == 0 {
        assert(a + b =~= a);
    } else {
        lemma_batches_add_up(a, b.drop_last());
        assert((a + b).drop_last() =~= a + b.drop_last());
        assert((a + b).last() == b.last());
    }
    assert(batch_transient(a + b) =~= batch_transient(a) + batch_transient(b));
}

/// A batch without a failed execution clears the count of failures, unless the turn stops
/// for repetition; one with a failed execution never lowers it. An execution counts as one
/// failure or none.
pub proof fn law_failures_are_counted(before: TurnLoop, after: TurnLoop, batch: Seq<ExecutionView>)
    requires
        results_taken(before, after, batch),
    ensures
        (forall|k: int| 0 <= k < batch.len() ==> !(#[trigger] batch[k]).failed)
            && after.detector.count < REPETITION_ABORT_THRESHOLD ==> after.failures == 0,
        (exists|k: int| 0 <= k < batch.len() && (#[trigger] batch[k]).failed) && after.failures
            < usize::MAX && after.detector.count < REPETITION_ABORT_THRESHOLD ==> before.failures
            < after.failures <= before.failures + batch.len(),
        (forall|k: int| 0 <= k < batch.len() ==> (#[trigger] batch[k]).failed) && batch.len() > 0
            && before.failures + batch.len() <= usize::MAX && after.detector.count
            < REPETITION_ABORT_THRESHOLD ==> after.failures == before.failures + batch.len(),
        after.detector.count >= REPETITION_ABORT_THRESHOLD ==> after.failures == before.failures,
{
    lemma_failures_have_a_cause(batch);
    if forall|k: int| 0 <= k < batch.len() ==> (#[trigger] batch[k]).failed {
        lemma_all_failed(batch);
    }
}

proof fn lemma_all_failed(v: Seq<ExecutionView>)
    requires
        forall|k: int| 0 <= k < v.len() ==> (#[trigger] v[k]).failed,
    ensures
        failed_count(v) == v.len(),
    decreases v.len(),
{
    if v.len() > 0 {
        assert(v.last() == v[v.len() - 1]);
        assert forall|k: int| 0 <= k < v.drop_last().len() implies (
        #[trigger] v.drop_last()[k]).failed by {
            assert(v[k].failed);
        }
        lemma_all_failed(v.drop_last());
    }
}

/// The error that a batch reports is that of the last execution with one; without any it
/// reports none.
pub proof fn law_last_error_is_the_last(v: Seq<ExecutionView>)
    ensures
        last_error(v) is None <==> forall|k: int|
            0 <= k < v.len() ==> (#[trigger] v[k]).error is None,
        last_error(v) is Some ==> exists|k: int|
            0 <= k < v.len() && (#[trigger] v[k]).error == last_error(v) && forall|j: int|
                k < j < v.len() ==> (#[trigger] v[j]).error is None,
    decreases v.len(),
{
    if v.len() > 0 {
        let w = v.drop_last();
        law_last_error_is_the_last(w);
        if v.last().error is Some {
            assert(v[v.len() - 1].error is Some);
        } else {
            if last_error(w) is Some {
                let k = choose|k: int|
                    0 <= k < w.len() && (#[trigger] w[k]).error == last_error(w) && forall|j: int|
                        k < j < w.len() ==> (#[trigger] w[j]).error is None;
                assert(v[k].error == last_error(v));
                assert forall|j: int| k < j < v.len() implies (#[trigger] v[j]).error is None by {
                    if j < w.len() {
                        assert(w[j].error is None);
                    }
                }
            } else {
                assert forall|k: int| 0 <= k < v.len() implies (#[trigger] v[k]).error is None by {
                    if k < w.len() {
                        assert(w[k].error is None);
                    }
                }
            }
        }
    }
}

/// A message without images is shown as it is. One with images loses them and tells how many
/// there were, after its own text.
pub proof fn law_left_out_images_are_told(m: MessageView)
    ensures
        without_image(m).image_urls.len() == 0,
        m.image_urls.len() == 0 ==> without_image(m) == m,
        without_image(m).role == m.role,
        without_image(m).thinking == m.thinking,
        without_image(m).tool_calls == m.tool_calls,
        without_image(m).tool_call_id == m.tool_call_id,
        m.content is Some ==> without_image(m).content is Some && m.content->0.is_prefix_of(
            without_image(m).content->0,
        ),
        m.image_urls.len() > 0 ==> without_image(m).content is Some
            && without_image(m).content->0.len() > 0,
        m.image_urls.len() > 0 && m.content is None ==> without_image(m).content == Some(
            "[当前 provider 不支持图片，已省略 "@ + text::decimal(m.image_urls.len())
                + " 个图片内容块]"@,
        ),
{
    text::law_decimals_read_back(m.image_urls.len(), m.image_urls.len());
    if m.content is Some {
        assert(m.content->0.is_prefix_of(without_image(m).content->0));
    }
}

/// The trace of an answer tells its kind and holds it whole, and the thinking where there was
/// any.
pub proof fn law_answers_are_traced_whole(response: Response, thinking: Option<Seq<char>>)
    ensures
        ({
            let j = response_trace(response, thinking);
            &&& match response {
                Response::Text(t) => json::at_key(j, "type"@) == JsonView::Str("text"@)
                    && json::at_key(j, "content"@) == JsonView::Str(t@),
                Response::ToolCalls(calls) => json::at_key(j, "type"@) == JsonView::Str(
                    "tool_calls"@,
                ) && json::at_key(j, "tool_calls"@) == provider::calls_json(
                    provider::call_views(calls@),
                ),
                Response::ToolAssemblyFailed(e) => json::at_key(j, "type"@) == JsonView::Str(
                    "tool_assembly_failed"@,
                ) && json::at_key(j, "code"@) == JsonView::Str(e.code@) && json::at_key(
                    j,
                    "message"@,
                ) == JsonView::Str(e.message@),
            }
            &&& thinking is Some && thinking->0.len() > 0 ==> json::at_key(j, "thinking"@)
                == JsonView::Str(thinking->0)
            &&& thinking is None || thinking->0.len() == 0 ==> json::field(j, "thinking"@) is None
        }),
{
    reveal_strlit("type");
    reveal_strlit("content");
    reveal_strlit("tool_calls");
    reveal_strlit("code");
    reveal_strlit("message");
    reveal_strlit("thinking");
    assert("type"@.len() == 4 && "content"@.len() == 7 && "tool_calls"@.len() == 10
        && "code"@.len() == 4 && "message"@.len() == 7 && "thinking"@.len() == 8);
    assert("type"@[0] != "code"@[0]);
    let j = response_trace(response, thinking);
    let n = match response {
        Response::ToolAssemblyFailed(_) => 3int,
        _ => 2int,
    };
    json::lemma_field_at(j, "type"@, 0);
    match response {
        Response::Text(_) => json::lemma_field_at(j, "content"@, 1),
        Response::ToolCalls(_) => json::lemma_field_at(j, "tool_calls"@, 1),
        Response::ToolAssemblyFailed(_) => {
            json::lemma_field_at(j, "code"@, 1);
            json::lemma_field_at(j, "message"@, 2);
        },
    }
    if thinking is Some && thinking->0.len() > 0 {
        json::lemma_field_at(j, "thinking"@, n);
    } else {
        json::lemma_no_field(j, "thinking"@);
    }
}

/// A rejected answer counts as one failure and runs no tool: the turn asks again with the
/// notice, or stops with the notice on record once there were as many failures as are
/// allowed.
pub proof fn law_rejected_answers_run_nothing(
    before: TurnLoop,
    after: TurnLoop,
    step: TurnStep,
    note: Seq<char>,
    error: Seq<char>,
)
    requires
        rejected(before, after, step, note, error),
    ensures
        step is Stop || step is Retry,
        before.failures < usize::MAX ==> after.failures == before.failures + 1,
        step is Stop <==> after.failures >= MAX_CONSECUTIVE_TOOL_FAILURES,
        step matches TurnStep::Retry { record } ==> record@.role is System && record@.content
            == Some(note),
        step matches TurnStep::Stop { records, error: e } ==> e@ == error && records@.len() == 1
            && records@[0]@.role is System && records@[0]@.content == Some(note),
        after.round == before.round && after.limit == before.limit && after.transient
            == before.transient && after.detector == before.detector && after.reminder
            == before.reminder,
{
    if let TurnStep::Stop { records, .. } = step {
        let said = provider::message_views(records@);
        assert(said.len() == records@.len());
        assert(said[0] == records@[0]@);
    }
}

/// What is told of a rejected answer names its code and its reason.
pub proof fn law_notices_name_the_reason(code: Seq<char>, message: Seq<char>, n: usize)
    ensures
        text::has_text(admission_notice(code, message), code),
        text::has_text(admission_notice(code, message), message),
        text::has_text(assembly_notice(code, message), code),
        text::has_text(assembly_notice(code, message), message),
        message.is_suffix_of(admission_error(n, message)),
        message.is_suffix_of(assembly_error(n, message)),
        message.is_suffix_of(failure_error(n, message)),
        text::has_text(limit_error(n), text::decimal(n as nat)),
        text::has_text(empty_error(n), text::decimal(n as nat)),
        text::has_text(repetition_error(n), text::decimal(n as nat)),
        text::has_text(failure_error(n, message), text::decimal(n as nat)),
        text::has_text(admission_error(n, message), text::decimal(n as nat)),
        text::has_text(assembly_error(n, message), text::decimal(n as nat)),
{
    let d = text::decimal(n as nat);
    lemma_notice_parts("[tool_call_admission_error:"@, code, message,
        "。本轮没有执行任何工具；请修正全部调用后重试。"@);
    lemma_notice_parts("[tool_call_assembly_error:"@, code, message,
        "。本轮没有执行任何工具；请重新生成完整且合法的工具调用。"@);
    lemma_in_the_middle("ReAct 循环达到最大轮次 "@, d, "，已停止"@);
    lemma_in_the_middle("连续 "@, d, " 次收到空工具调用，已停止无效重试"@);
    lemma_in_the_middle("检测到同一组工具调用及结果连续重复 "@, d,
        " 轮，判定为无进展循环，已停止；这不是任务轮次上限"@);
    lemma_ends_with("连续 "@, d, " 次工具执行失败，已停止自动重试。最近错误："@, message);
    lemma_ends_with("连续 "@, d, " 次工具调用无效，已停止自动重试。最近错误："@, message);
    lemma_ends_with("连续 "@, d, " 次工具调用装配失败，已停止自动重试。最近错误："@, message);
}

proof fn lemma_in_the_middle(a: Seq<char>, b: Seq<char>, c: Seq<char>)
    ensures
        text::has_text(a + b + c, b),
{
    let s = a + b + c;
    assert(s.subrange(a.len() as int, (a.len() + b.len()) as int) =~= b);
    assert(text::occurs_at(s, b, a.len() as int));
}

proof fn lemma_ends_with(a: Seq<char>, b: Seq<char>, c: Seq<char>, d: Seq<char>)
    ensures
        text::has_text(a + b + c + d, b),
        d.is_suffix_of(a + b + c + d),
{
    let s = a + b + c + d;
    assert(s.subrange(a.len() as int, (a.len() + b.len()) as int) =~= b);
    assert(text::occurs_at(s, b, a.len() as int));
    assert(s.subrange(s.len() - d.len(), s.len() as int) =~= d);
}

proof fn lemma_notice_parts(head: Seq<char>, code: Seq<char>, detail: Seq<char>, advice: Seq<char>)
    ensures
        text::has_text(notice(head, code, detail, advice), code),
        text::has_text(notice(head, code, detail, advice), detail),
{
    let s = notice(head, code, detail, advice);
    let at = (head + code + "] "@).len() as int;
    assert(s.subrange(head.len() as int, (head.len() + code.len()) as int) =~= code);
    assert(text::occurs_at(s, code, head.len() as int));
    assert(s.subrange(at, at + detail.len()) =~= detail);
    assert(text::occurs_at(s, detail, at));
}

/// Calls run together only where all of them just read; every call runs in one wave, in the
/// order of the calls, and a call that writes runs alone.
pub proof fn law_only_readers_run_together(
    read_only: Seq<bool>,
    waves: Seq<(usize, usize)>,
    from: int,
)
    requires
        is_wave_plan(read_only, waves, from),
        0 <= from,
    ensures
        from <= read_only.len(),
        waves.len() == 0 <==> from == read_only.len(),
        waves.len() > 0 ==> waves[0].0 == from && waves.last().1 == read_only.len(),
        forall|k: int|
            0 <= k < waves.len() ==> (#[trigger] waves[k]).0 < waves[k].1 <= read_only.len(),
        forall|k: int, l: int|
            0 <= k && l == k + 1 && l < waves.len() ==> (#[trigger] waves[l]).0 == (
            #[trigger] waves[k]).1,
        forall|k: int, i: int|
            0 <= k < waves.len() && (#[trigger] waves[k]).1 - waves[k].0 > 1 && waves[k].0 <= i
                < waves[k].1 ==> #[trigger] read_only[i],
        forall|k: int|
            0 <= k < waves.len() && !read_only[(#[trigger] waves[k]).0 as int] ==> waves[k].1
                == waves[k].0 + 1,
        forall|k: int|
            0 <= k < waves.len() && read_only[(#[trigger] waves[k]).0 as int] && waves[k].1
                < read_only.len() ==> !read_only[waves[k].1 as int],
    decreases waves.len(),
{
    if waves.len() > 0 {
        let rest = waves.drop_first();
        law_only_readers_run_together(read_only, rest, waves[0].1 as int);
        assert forall|k: int| 0 < k < waves.len() implies #[trigger] waves[k] == rest[k - 1] by {}
        if rest.len() > 0 {
            assert(waves.last() == rest.last());
        }
        assert forall|k: int, l: int| 0 <= k && l == k + 1 && l < waves.len() implies (
        #[trigger] waves[l]).0 == (#[trigger] waves[k]).1 by {
            assert(waves[l] == rest[l - 1]);
            if k > 0 {
                assert(waves[k] == rest[k - 1]);
                assert(rest[l - 1].0 == rest[k - 1].1);
            }
        }
        assert forall|k: int, i: int|
            0 <= k < waves.len() && (#[trigger] waves[k]).1 - waves[k].0 > 1 && waves[k].0 <= i
                < waves[k].1 implies #[trigger] read_only[i] by {
            if k > 0 {
                assert(waves[k] == rest[k - 1]);
            }
        }
    }
}

/// A batch that is the same as the last is counted once more; any other begins anew.
pub proof fn law_what_counts_as_repetition(before: RepeatDetector, batch: Seq<FingerprintView>)
    ensures
        before.last_view() != Some(batch) ==> repeat_count(before, batch) == 1,
        before.last_view() == Some(batch) && before.count < usize::MAX ==> repeat_count(
            before,
            batch,
        ) == before.count + 1,
        before.last_view() is None ==> repeat_count(before, batch) == 1,
{
}

} // verus!
