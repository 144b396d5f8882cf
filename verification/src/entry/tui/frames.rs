//! What the terminal does with what the daemon tells.
use vstd::prelude::*;

use crate::daemon::approval;
use crate::daemon::approval::{ApprovalView, PendingApprovalInfo};
use crate::daemon::protocol::{
    EventKind, EventView, FrameView, JsonRpcResponse, RequestId, RequestIdView, ResponseView,
    ServerFrame,
};
use crate::entry::tui::{ActiveTurn, ActivityPhase, TuiState, TuiView, TurnView};
use crate::json;
use crate::json::{Json, JsonView};
use crate::provider::Role;
use crate::text;

verus! {

/// How a request is named in the state line.
pub open spec fn request_label(id: RequestIdView) -> Seq<char> {
    match id {
        RequestIdView::Number(n) => "Number("@ + text::decimal(n as nat) + ")"@,
        RequestIdView::Text(s) => "String("@ + text::debug_text_of(s) + ")"@,
    }
}

/// How a request is named in the state line.
pub fn label_request(id: &RequestId) -> (r: String)
    ensures
        r@ == request_label(id@),
{
    match id {
        RequestId::Number(n) => {
            let mut r = "Number(".to_owned();
            r.append(text::decimal_text(*n).as_str());
            r.append(")");
            r
        },
        RequestId::String(s) => {
            let mut r = "String(".to_owned();
            r.append(text::debug_text(s.as_str()).as_str());
            r.append(")");
            r
        },
    }
}

/// A text of the data of an event, or another where it has none.
pub open spec fn str_or(data: JsonView, key: Seq<char>, other: Seq<char>) -> Seq<char> {
    match json::str_of(json::at_key(data, key)) {
        Some(s) => s,
        None => other,
    }
}

/// A number of the data of an event, or zero where it has none.
pub open spec fn number_or_zero(data: JsonView, key: Seq<char>) -> u64 {
    match json::u64_of(json::at_key(data, key)) {
        Some(n) => n,
        None => 0,
    }
}

fn read_str_or(data: &Json, key: &str, other: &str) -> (r: String)
    ensures
        r@ == str_or(data@, key@, other@),
{
    match data.str_at(key) {
        Some(s) => s.to_owned(),
        None => other.to_owned(),
    }
}

fn read_number_or_zero(data: &Json, key: &str) -> (r: u64)
    ensures
        r == number_or_zero(data@, key@),
{
    match data.u64_at(key) {
        Some(n) => n,
        None => 0,
    }
}

/// A tool call went well: as the event says, else by how its output begins.
pub open spec fn went_well(data: JsonView) -> bool {
    match json::bool_of(json::at_key(data, "success"@)) {
        Some(b) => b,
        None => !text::has_prefix(str_or(data, "output"@, ""@), "工具执行错误:"@),
    }
}

/// The terminal with what goes on in a turn.
pub open spec fn with_phase(t: TuiView, turn: RequestIdView, phase: ActivityPhase) -> TuiView {
    TuiView { turn_phases: t.turn_phases.insert(turn, phase), ..t }
}

/// The terminal with another state line.
pub open spec fn saying(t: TuiView, status: Seq<char>) -> TuiView {
    TuiView { status, ..t }
}

/// The terminal after an event of a turn.
pub open spec fn event_shown(t: TuiView, turn: RequestIdView, e: EventView, now: u64) -> (
    TuiView,
    bool,
) {
    let label = request_label(turn);
    match e.event {
        EventKind::ThinkingDelta => (
            saying(
                with_phase(t, turn, ActivityPhase::Streaming),
                "request="@ + label + " · 模型思考中"@,
            ),
            true,
        ),
        EventKind::ThinkingFinished => (
            saying(
                with_phase(t, turn, ActivityPhase::Streaming),
                "request="@ + label + " · 思考完成，开始输出回答"@,
            ),
            true,
        ),
        EventKind::TextDelta => match json::str_of(json::at_key(e.data, "delta"@)) {
            Some(delta) => (
                saying(
                    with_phase(
                        crate::entry::tui::with_answer(t, turn, delta, now),
                        turn,
                        ActivityPhase::Streaming,
                    ),
                    "模型流式输出 · request="@ + label,
                ),
                true,
            ),
            None => (t, true),
        },
        EventKind::ToolStarted => (
            saying(
                crate::entry::tui::with_tool(
                    with_phase(t, turn, ActivityPhase::RunningTool),
                    turn,
                    json::str_of(json::at_key(e.data, "tool_call_id"@)),
                    str_or(e.data, "name"@, "unknown"@),
                    number_or_zero(e.data, "round"@) as usize,
                    now,
                ),
                "request="@ + label + " · 第 "@ + text::decimal(
                    number_or_zero(e.data, "round"@) as nat,
                ) + " 轮 · 工具执行中："@ + str_or(e.data, "name"@, "unknown"@),
            ),
            true,
        ),
        EventKind::ToolFinished => (
            crate::entry::tui::with_tool_ended(
                saying(
                    with_phase(t, turn, ActivityPhase::WaitingModel),
                    "request="@ + label + " · 第 "@ + text::decimal(
                        number_or_zero(e.data, "round"@) as nat,
                    ) + " 轮 · 工具"@ + (if went_well(e.data) {
                        "完成"@
                    } else {
                        "失败"@
                    }) + "："@ + str_or(e.data, "name"@, "unknown"@) + " · "@ + text::decimal(
                        number_or_zero(e.data, "duration_ms"@) as nat,
                    ) + "ms"@,
                ),
                turn,
                json::str_of(json::at_key(e.data, "tool_call_id"@)),
                str_or(e.data, "name"@, "工具"@),
                str_or(e.data, "output"@, ""@),
                went_well(e.data),
                number_or_zero(e.data, "duration_ms"@),
                now,
            ),
            true,
        ),
        EventKind::ApprovalRequired => {
            let s = TuiView { approval_scroll: 0, ..t };
            match approval::json_info(json::at_key(e.data, "approval"@)) {
                Some(info) => {
                    let pending = t.pending_approvals.push(info);
                    (
                        TuiView {
                            pending_approvals: pending,
                            status: "等待审批：还有 "@ + text::decimal(pending.len()) + " 项"@,
                            ..s
                        },
                        true,
                    )
                },
                None => (s, false),
            }
        },
        EventKind::TurnStarted => (with_phase(t, turn, ActivityPhase::WaitingModel), true),
        EventKind::TurnCompleted => (t, true),
    }
}

/// The turns without the one that has ended.
pub open spec fn other_turns(v: Seq<TurnView>, turn: RequestIdView) -> Seq<TurnView>
    decreases v.len(),
{
    if v.len() == 0 {
        v
    } else if v.last().request_id == turn {
        other_turns(v.drop_last(), turn)
    } else {
        other_turns(v.drop_last(), turn).push(v.last())
    }
}

/// The questions without those of the turn that has ended.
pub open spec fn other_questions(v: Seq<ApprovalView>, turn: RequestIdView) -> Seq<ApprovalView>
    decreases v.len(),
{
    if v.len() == 0 {
        v
    } else if v.last().request_id == turn {
        other_questions(v.drop_last(), turn)
    } else {
        other_questions(v.drop_last(), turn).push(v.last())
    }
}

/// What is said of the end of a turn: in the transcript, and in the state line.
pub open spec fn end_said(turn: RequestIdView, r: ResponseView) -> (Seq<char>, Seq<char>) {
    let label = request_label(turn);
    match r.error {
        Some(e) => (
            "✗ 任务未完成 · request="@ + label + " · "@ + e.message,
            "请求失败（"@ + text::signed_decimal(e.code as int) + "）："@ + e.message,
        ),
        None => if r.result is Some && json::bool_of(json::at_key(r.result->0, "subscribed"@))
            == Some(false) {
            (
                "✗ 执行体不可用 · request="@ + label + " · 请查看 Session 记录"@,
                "执行体不可用 · request="@ + label,
            )
        } else {
            ("✓ 任务完成 · request="@ + label, "任务完成 · request="@ + label)
        },
    }
}

/// The terminal after the end of a turn.
pub open spec fn end_shown(t: TuiView, turn: RequestIdView, r: ResponseView, now: u64) -> TuiView {
    let s = TuiView {
        active_turns: other_turns(t.active_turns, turn),
        pending_approvals: other_questions(t.pending_approvals, turn),
        turn_phases: t.turn_phases.remove(turn),
        ..t
    };
    let said = end_said(turn, r);
    saying(
        crate::entry::tui::with_text(s, Role::System, said.0, Some(turn), now),
        said.1,
    )
}

/// The terminal after a frame, and whether the frame could be read.
pub open spec fn frame_shown(t: TuiView, turn: RequestIdView, f: FrameView, now: u64) -> (
    TuiView,
    bool,
) {
    match f {
        FrameView::Event(e) => event_shown(t, turn, e, now),
        FrameView::Response(r) => (end_shown(t, turn, r, now), true),
    }
}

fn keep_other_turns(v: &mut Vec<ActiveTurn>, turn: &RequestId)
    ensures
        crate::entry::tui::turn_views(final(v)@) == other_turns(
            crate::entry::tui::turn_views(old(v)@),
            turn@,
        ),
{
    let ghost all = crate::entry::tui::turn_views(v@);
    let mut out: Vec<ActiveTurn> = Vec::new();
    let mut i: usize = 0;
    assert(all.take(0) =~= Seq::<TurnView>::empty());
    assert(crate::entry::tui::turn_views(out@) =~= Seq::<TurnView>::empty());
    while i < v.len()
        invariant
            i <= v@.len(),
            all == crate::entry::tui::turn_views(v@),
            crate::entry::tui::turn_views(out@) == other_turns(all.take(i as int), turn@),
        decreases v@.len() - i,
    {
        proof {
            assert(all.take(i + 1).drop_last() =~= all.take(i as int));
            assert(all.take(i + 1).last() == v@[i as int]@);
        }
        if !v[i].request_id.same(turn) {
            let ghost before = crate::entry::tui::turn_views(out@);
            let kept = ActiveTurn {
                request_id: v[i].request_id.clone(),
                recovery_attempts: v[i].recovery_attempts,
            };
            out.push(kept);
            assert(crate::entry::tui::turn_views(out@) =~= before.push(kept@));
        }
        i = i + 1;
    }
    assert(all.take(i as int) =~= all);
    *v = out;
}

fn keep_other_questions(v: &mut Vec<PendingApprovalInfo>, turn: &RequestId)
    ensures
        approval::info_views(final(v)@) == other_questions(approval::info_views(old(v)@), turn@),
{
    let ghost all = approval::info_views(v@);
    let mut out: Vec<PendingApprovalInfo> = Vec::new();
    let mut i: usize = 0;
    assert(all.take(0) =~= Seq::<ApprovalView>::empty());
    assert(approval::info_views(out@) =~= Seq::<ApprovalView>::empty());
    while i < v.len()
        invariant
            i <= v@.len(),
            all == approval::info_views(v@),
            approval::info_views(out@) == other_questions(all.take(i as int), turn@),
        decreases v@.len() - i,
    {
        proof {
            assert(all.take(i + 1).drop_last() =~= all.take(i as int));
            assert(all.take(i + 1).last() == v@[i as int]@);
        }
        if !v[i].request_id.same(turn) {
            let ghost before = approval::info_views(out@);
            let kept = v[i].clone();
            out.push(kept);
            assert(approval::info_views(out@) =~= before.push(kept@));
        }
        i = i + 1;
    }
    assert(all.take(i as int) =~= all);
    *v = out;
}

/// The state line for a request.
fn request_status(label: &str, rest: &str) -> (r: String)
    ensures
        r@ == "request="@ + label@ + rest@,
{
    let mut r = "request=".to_owned();
    r.append(label);
    r.append(rest);
    r
}

impl TuiState {
    fn show_tool_started(&mut self, turn: &RequestId, data: &Json, now: u64)
        requires
            old(self).wf(),
        ensures
            final(self).wf(),
            forall|e: EventView|
                e.event == EventKind::ToolStarted && e.data == data@ ==> final(self)@
                    == #[trigger] event_shown(old(self)@, turn@, e, now).0,
    {
        let label = label_request(turn);
        self.set_turn_phase(turn, ActivityPhase::RunningTool);
        let call_id = match data.str_at("tool_call_id") {
            Some(s) => Some(s.to_owned()),
            None => None,
        };
        let name = read_str_or(data, "name", "unknown");
        let round: u64 = read_number_or_zero(data, "round");
        let mut status = request_status(label.as_str(), " · 第 ");
        status.append(text::decimal_text(round).as_str());
        status.append(" 轮 · 工具执行中：");
        status.append(name.as_str());
        self.start_tool(turn.clone(), call_id, name, round as usize, now);
        self.status = status;
    }

    fn show_tool_finished(&mut self, turn: &RequestId, data: &Json, now: u64)
        requires
            old(self).wf(),
        ensures
            final(self).wf(),
            forall|e: EventView|
                e.event == EventKind::ToolFinished && e.data == data@ ==> final(self)@
                    == #[trigger] event_shown(old(self)@, turn@, e, now).0,
    {
        let label = label_request(turn);
        self.set_turn_phase(turn, ActivityPhase::WaitingModel);
        let output = read_str_or(data, "output", "");
        let success = match data.bool_at("success") {
            Some(b) => b,
            None => !text::starts_with(output.as_str(), "工具执行错误:"),
        };
        let duration_ms: u64 = read_number_or_zero(data, "duration_ms");
        let round: u64 = read_number_or_zero(data, "round");
        let mut status = request_status(label.as_str(), " · 第 ");
        status.append(text::decimal_text(round).as_str());
        status.append(" 轮 · 工具");
        if success {
            status.append("完成");
        } else {
            status.append("失败");
        }
        status.append("：");
        status.append(read_str_or(data, "name", "unknown").as_str());
        status.append(" · ");
        status.append(text::decimal_text(duration_ms).as_str());
        status.append("ms");
        self.status = status;
        let name = read_str_or(data, "name", "工具");
        self.finish_tool(
            turn,
            data.str_at("tool_call_id"),
            name.as_str(),
            output.as_str(),
            success,
            duration_ms,
            now,
        );
    }

    fn show_event(&mut self, turn: &RequestId, kind: EventKind, data: &Json, now: u64) -> (r: bool)
        requires
            old(self).wf(),
        ensures
            final(self).wf(),
            forall|e: EventView|
                e.event == kind && e.data == data@ ==> (final(self)@, r) == #[trigger] event_shown(
                    old(self)@,
                    turn@,
                    e,
                    now,
                ),
    {
        match kind {
            EventKind::ThinkingDelta => {
                let label = label_request(turn);
                self.set_turn_phase(turn, ActivityPhase::Streaming);
                self.status = request_status(label.as_str(), " · 模型思考中");
                true
            },
            EventKind::ThinkingFinished => {
                let label = label_request(turn);
                self.set_turn_phase(turn, ActivityPhase::Streaming);
                self.status = request_status(label.as_str(), " · 思考完成，开始输出回答");
                true
            },
            EventKind::TextDelta => {
                if let Some(delta) = data.str_at("delta") {
                    let label = label_request(turn);
                    self.append_assistant(turn, delta, now);
                    self.set_turn_phase(turn, ActivityPhase::Streaming);
                    let mut status = "模型流式输出 · request=".to_owned();
                    status.append(label.as_str());
                    self.status = status;
                }
                true
            },
            EventKind::ToolStarted => {
                self.show_tool_started(turn, data, now);
                true
            },
            EventKind::ToolFinished => {
                self.show_tool_finished(turn, data, now);
                true
            },
            EventKind::ApprovalRequired => {
                self.approval_scroll = 0;
                let info = match data.get("approval") {
                    Some(j) => approval::info_from_json(j),
                    None => None,
                };
                match info {
                    Some(info) => {
                        let ghost before = self@.pending_approvals;
                        self.pending_approvals.push(info);
                        assert(self@.pending_approvals =~= before.push(info@));
                        let mut status = "等待审批：还有 ".to_owned();
                        status.append(
                            text::decimal_text(self.pending_approvals.len() as u64).as_str(),
                        );
                        status.append(" 项");
                        self.status = status;
                        true
                    },
                    None => false,
                }
            },
            EventKind::TurnStarted => {
                self.set_turn_phase(turn, ActivityPhase::WaitingModel);
                true
            },
            EventKind::TurnCompleted => true,
        }
    }

    fn show_end(&mut self, turn: &RequestId, response: &JsonRpcResponse, now: u64)
        requires
            old(self).wf(),
        ensures
            final(self).wf(),
            final(self)@ == end_shown(old(self)@, turn@, response@, now),
    {
        let label = label_request(turn);
        keep_other_turns(&mut self.active_turns, turn);
        keep_other_questions(&mut self.pending_approvals, turn);
        self.end_turn_phase(turn);
        let (said, status) = match &response.error {
            Some(e) => {
                let mut said = "✗ 任务未完成 · request=".to_owned();
                said.append(label.as_str());
                said.append(" · ");
                said.append(e.message.as_str());
                let mut status = "请求失败（".to_owned();
                status.append(text::signed_decimal_text(e.code).as_str());
                status.append("）：");
                status.append(e.message.as_str());
                (said, status)
            },
            None => {
                let gone = match &response.result {
                    Some(j) => match j.bool_at("subscribed") {
                        Some(b) => !b,
                        None => false,
                    },
                    None => false,
                };
                if gone {
                    let mut said = "✗ 执行体不可用 · request=".to_owned();
                    said.append(label.as_str());
                    said.append(" · 请查看 Session 记录");
                    let mut status = "执行体不可用 · request=".to_owned();
                    status.append(label.as_str());
                    (said, status)
                } else {
                    let mut said = "✓ 任务完成 · request=".to_owned();
                    said.append(label.as_str());
                    let mut status = "任务完成 · request=".to_owned();
                    status.append(label.as_str());
                    (said, status)
                }
            },
        };
        self.push_text_for_turn(Role::System, said, Some(turn.clone()), now);
        self.status = status;
    }

    /// Takes a frame of a turn. One that cannot be read is an error.
    pub fn handle_frame(&mut self, turn: &RequestId, frame: &ServerFrame, now: u64) -> (r: Result<
        (),
        String,
    >)
        requires
            old(self).wf(),
        ensures
            final(self).wf(),
            final(self)@ == frame_shown(old(self)@, turn@, frame@, now).0,
            match r {
                Ok(()) => frame_shown(old(self)@, turn@, frame@, now).1,
                Err(e) => !frame_shown(old(self)@, turn@, frame@, now).1 && e@
                    == "审批事件格式无效"@,
            },
    {
        match frame {
            ServerFrame::Event(event) => {
                let read = self.show_event(turn, event.event, &event.data, now);
                assert((self@, read) == event_shown(old(self)@, turn@, event@, now));
                if read {
                    Ok(())
                } else {
                    Err("审批事件格式无效".to_owned())
                }
            },
            ServerFrame::Response(response) => {
                self.show_end(turn, response, now);
                Ok(())
            },
        }
    }
}

/// The end of a turn is told once: afterwards the turn is not received any more, none of its
/// questions waits, and nothing goes on in it.
pub proof fn law_ended_turn_is_gone(t: TuiView, turn: RequestIdView, r: ResponseView, now: u64)
    ensures
        ({
            let after = end_shown(t, turn, r, now);
            &&& forall|i: int|
                0 <= i < after.active_turns.len() ==> (#[trigger] after.active_turns[i]).request_id
                    != turn
            &&& forall|i: int|
                0 <= i < after.pending_approvals.len() ==> (
                #[trigger] after.pending_approvals[i]).request_id != turn
            &&& !after.turn_phases.dom().contains(turn)
        }),
{
    lemma_other_turns(t.active_turns, turn);
    lemma_other_questions(t.pending_approvals, turn);
}

proof fn lemma_other_turns(v: Seq<TurnView>, turn: RequestIdView)
    ensures
        forall|i: int|
            0 <= i < other_turns(v, turn).len() ==> (#[trigger] other_turns(
                v,
                turn,
            )[i]).request_id != turn,
    decreases v.len(),
{
    if v.len() > 0 {
        lemma_other_turns(v.drop_last(), turn);
    }
}

proof fn lemma_other_questions(v: Seq<ApprovalView>, turn: RequestIdView)
    ensures
        forall|i: int|
            0 <= i < other_questions(v, turn).len() ==> (#[trigger] other_questions(
                v,
                turn,
            )[i]).request_id != turn,
    decreases v.len(),
{
    if v.len() > 0 {
        lemma_other_questions(v.drop_last(), turn);
    }
}

/// A turn whose watch is gone is never told as completed.
pub proof fn law_gone_is_not_completed(turn: RequestIdView, r: ResponseView)
    requires
        r.error is None,
        r.result is Some,
        json::bool_of(json::at_key(r.result->0, "subscribed"@)) == Some(false),
    ensures
        end_said(turn, r).1 == "执行体不可用 · request="@ + request_label(turn),
{
}

/// What is told of one turn changes that turn alone: the line that is typed, the session and
/// the other turns stay as they are, and a question is added only by a question.
pub proof fn law_events_touch_their_turn(
    t: TuiView,
    turn: RequestIdView,
    e: EventView,
    now: u64,
    other: RequestIdView,
)
    requires
        other != turn,
    ensures
        ({
            let after = event_shown(t, turn, e, now).0;
            &&& after.input == t.input
            &&& after.session_id == t.session_id
            &&& after.active_turns == t.active_turns
            &&& after.turn_phases.dom().contains(other) <==> t.turn_phases.dom().contains(other)
            &&& t.turn_phases.dom().contains(other) ==> after.turn_phases[other]
                == t.turn_phases[other]
            &&& e.event != EventKind::ApprovalRequired ==> after.pending_approvals
                == t.pending_approvals
            &&& t.pending_approvals.is_prefix_of(after.pending_approvals)
        }),
{
    let after = event_shown(t, turn, e, now).0;
    assert(after.pending_approvals.take(t.pending_approvals.len() as int)
        =~= t.pending_approvals);
}

/// A question that can be read is put behind those that wait; nothing is asked for one that
/// cannot.
pub proof fn law_questions_wait_in_order(
    t: TuiView,
    turn: RequestIdView,
    e: EventView,
    now: u64,
    info: ApprovalView,
)
    requires
        e.event == EventKind::ApprovalRequired,
    ensures
        json::at_key(e.data, "approval"@) == approval::info_json(info) ==> event_shown(
            t,
            turn,
            e,
            now,
        ).1 && event_shown(t, turn, e, now).0.pending_approvals == t.pending_approvals.push(info),
        !event_shown(t, turn, e, now).1 ==> event_shown(t, turn, e, now).0.pending_approvals
            == t.pending_approvals,
{
    approval::law_question_document(info);
}

/// Each event shows what its turn does: text and thinking that it streams, a tool that it
/// runs one, the end of a tool that it waits for the model again.
pub proof fn law_events_show_what_goes_on(t: TuiView, turn: RequestIdView, e: EventView, now: u64)
    ensures
        ({
            let after = event_shown(t, turn, e, now).0;
            &&& e.event == EventKind::ThinkingDelta ==> after.turn_phases[turn] is Streaming
            &&& e.event == EventKind::ToolStarted ==> after.turn_phases[turn] is RunningTool
            &&& e.event == EventKind::ToolFinished ==> after.turn_phases[turn] is WaitingModel
            &&& e.event == EventKind::TurnStarted ==> after.turn_phases[turn] is WaitingModel
            &&& e.event == EventKind::TextDelta ==> (json::at_key(
                e.data,
                "delta"@,
            ) matches JsonView::Str(d) ==> after.turn_phases[turn] is Streaming && after.messages
                == crate::entry::tui::with_answer(t, turn, d, now).messages)
            &&& e.event == EventKind::ToolStarted ==> after.messages.len() == t.messages.len() + 1
                && (after.messages.last().kind matches crate::entry::tui::KindView::Tool(tool)
                && tool.turn_id == turn && (json::at_key(
                e.data,
                "tool_call_id"@,
            ) matches JsonView::Str(s) ==> tool.call_id == Some(s)) && (json::at_key(
                e.data,
                "name"@,
            ) matches JsonView::Str(s) ==> tool.name == s))
        }),
{
}

/// A tool went well where it says so; where it says nothing, unless its output tells of an
/// error.
pub proof fn law_tools_that_went_well(data: JsonView)
    ensures
        json::at_key(data, "success"@) == JsonView::Bool(true) ==> went_well(data),
        json::at_key(data, "success"@) == JsonView::Bool(false) ==> !went_well(data),
        !(json::at_key(data, "success"@) is Bool) && !(json::at_key(data, "output"@) is Str)
            ==> went_well(data),
        !(json::at_key(data, "success"@) is Bool) ==> (json::at_key(
            data,
            "output"@,
        ) matches JsonView::Str(s) ==> (went_well(data) <==> !text::has_prefix(
            s,
            "工具执行错误:"@,
        ))),
{
    reveal_strlit("");
    reveal_strlit("工具执行错误:");
    assert(""@.len() == 0);
    assert("工具执行错误:"@.len() == 7);
}

/// When a turn ends, the others stay as they are, with their questions, in order.
pub proof fn law_other_turns_stay(t: TuiView, turn: RequestIdView, r: ResponseView, now: u64)
    ensures
        ({
            let after = end_shown(t, turn, r, now);
            &&& forall|i: int|
                0 <= i < t.active_turns.len() && (#[trigger] t.active_turns[i]).request_id != turn
                    ==> after.active_turns.contains(t.active_turns[i])
            &&& forall|i: int|
                0 <= i < t.pending_approvals.len() && (#[trigger] t.pending_approvals[i]).request_id
                    != turn ==> after.pending_approvals.contains(t.pending_approvals[i])
            &&& after.active_turns.len() <= t.active_turns.len()
            &&& after.input == t.input
            &&& after.messages.len() == t.messages.len() + 1
            &&& after.messages.last().role is System
            &&& r.error is Some ==> (after.messages.last().kind
                matches crate::entry::tui::KindView::Text(s) && r.error->0.message.is_suffix_of(s))
            &&& r.error is Some ==> r.error->0.message.is_suffix_of(after.status)
        }),
{
    lemma_turns_kept(t.active_turns, turn);
    lemma_questions_kept(t.pending_approvals, turn);
    if let Some(e) = r.error {
        let said = end_said(turn, r);
        assert(said.0.subrange(said.0.len() - e.message.len(), said.0.len() as int) =~= e.message);
        assert(said.1.subrange(said.1.len() - e.message.len(), said.1.len() as int) =~= e.message);
    }
}

proof fn lemma_turns_kept(v: Seq<TurnView>, turn: RequestIdView)
    ensures
        other_turns(v, turn).len() <= v.len(),
        forall|i: int|
            0 <= i < v.len() && (#[trigger] v[i]).request_id != turn ==> other_turns(
                v,
                turn,
            ).contains(v[i]),
    decreases v.len(),
{
    if v.len() > 0 {
        let w = v.drop_last();
        lemma_turns_kept(w, turn);
        let a = other_turns(v, turn);
        let b = other_turns(w, turn);
        assert forall|i: int| 0 <= i < v.len() && (#[trigger] v[i]).request_id != turn implies a.contains(
            v[i],
        ) by {
            if i < w.len() {
                assert(w[i] == v[i]);
                let k = choose|k: int| 0 <= k < b.len() && b[k] == w[i];
                assert(a[k] == v[i]);
            } else {
                assert(a[a.len() - 1] == v[i]);
            }
        }
    }
}

proof fn lemma_questions_kept(v: Seq<ApprovalView>, turn: RequestIdView)
    ensures
        other_questions(v, turn).len() <= v.len(),
        forall|i: int|
            0 <= i < v.len() && (#[trigger] v[i]).request_id != turn ==> other_questions(
                v,
                turn,
            ).contains(v[i]),
    decreases v.len(),
{
    if v.len() > 0 {
        let w = v.drop_last();
        lemma_questions_kept(w, turn);
        let a = other_questions(v, turn);
        let b = other_questions(w, turn);
        assert forall|i: int| 0 <= i < v.len() && (#[trigger] v[i]).request_id != turn implies a.contains(
            v[i],
        ) by {
            if i < w.len() {
                assert(w[i] == v[i]);
                let k = choose|k: int| 0 <= k < b.len() && b[k] == w[i];
                assert(a[k] == v[i]);
            } else {
                assert(a[a.len() - 1] == v[i]);
            }
        }
    }
}

} // verus!
