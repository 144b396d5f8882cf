//! The audit of a run: what is stored of it, held against what its turn left behind.
use vstd::prelude::*;

use crate::daemon::chat;
use crate::daemon::chat::{Failure, RunRecord, RunStatus, RunView};
use crate::daemon::handlers;
use crate::json;
use crate::json::{Json, JsonView};
use crate::provider::{Message, MessageView, Role};
use crate::text;

verus! {

/// The digest that SHA-256 gives for bytes.
pub uninterp spec fn sha256_of(content: Seq<u8>) -> Seq<u8>;

/// `sha2::Sha256::digest`: the digest depends on the bytes alone and has 32 bytes.
#[verifier::external_body]
fn sha256(content: &[u8]) -> (r: Vec<u8>)
    ensures
        r@ == sha256_of(content@),
        r@.len() == 32,
{
    <sha2::Sha256 as sha2::Digest>::digest(content).to_vec()
}

/// The hexadecimal digit of a number below sixteen, in lower case.
pub open spec fn hex_digit(n: u8) -> char {
    if n < 10 {
        (48 + n) as char
    } else {
        (87 + n) as char
    }
}

/// Bytes as hexadecimal digits, two for each.
pub open spec fn hex(bytes: Seq<u8>) -> Seq<char>
    decreases bytes.len(),
{
    if bytes.len() == 0 {
        Seq::empty()
    } else {
        hex(bytes.drop_last()).push(hex_digit(bytes.last() / 16)).push(
            hex_digit(bytes.last() % 16),
        )
    }
}

proof fn lemma_hex_len(bytes: Seq<u8>)
    ensures
        hex(bytes).len() == 2 * bytes.len(),
    decreases bytes.len(),
{
    if bytes.len() > 0 {
        lemma_hex_len(bytes.drop_last());
    }
}

fn hex_char(n: u8) -> (c: char)
    requires
        n < 16,
    ensures
        c == hex_digit(n),
{
    if n < 10 {
        (48 + n) as char
    } else {
        (87 + n) as char
    }
}

/// Writes bytes as hexadecimal digits.
pub fn hex_text(bytes: &Vec<u8>) -> (r: String)
    ensures
        r@ == hex(bytes@),
{
    let mut r = String::new();
    let mut i: usize = 0;
    assert(bytes@.take(0) =~= Seq::<u8>::empty());
    while i < bytes.len()
        invariant
            i <= bytes@.len(),
            r@ == hex(bytes@.take(i as int)),
        decreases bytes@.len() - i,
    {
        proof {
            assert(bytes@.take(i + 1).drop_last() =~= bytes@.take(i as int));
            assert(bytes@.take(i + 1).last() == bytes@[i as int]);
        }
        let b: u8 = bytes[i];
        r.push(hex_char(b / 16));
        r.push(hex_char(b % 16));
        i = i + 1;
    }
    assert(bytes@.take(i as int) =~= bytes@);
    r
}

/// The digest of a kept file, as hexadecimal digits.
pub fn artifact_sha256(content: &[u8]) -> (r: String)
    ensures
        r@ == hex(sha256_of(content@)),
        r@.len() == 64,
{
    let digest = sha256(content);
    proof {
        lemma_hex_len(digest@);
    }
    hex_text(&digest)
}

/// What is stored of a tool call, with the file that it kept, as far as it is there.
#[derive(Debug)]
pub struct ToolReceipt {
    pub round: u64,
    pub call_id: String,
    pub status: String,
    pub artifact_ref: Option<String>,
    pub receipt: Option<Json>,
    pub artifact: Option<Vec<u8>>,
}

/// The digest that the file of a tool call should have.
pub open spec fn expected_digest(t: ToolReceipt) -> Option<Seq<char>> {
    match t.receipt {
        Some(j) => json::str_of(json::at_key(j@, "output_sha256"@)),
        None => None,
    }
}

/// The file of a tool call is gone.
pub open spec fn is_missing(t: ToolReceipt) -> bool {
    t.artifact_ref is Some && t.artifact is None
}

/// The file of a tool call is not the one that was kept.
pub open spec fn has_other_digest(t: ToolReceipt) -> bool {
    t.artifact_ref is Some && t.artifact is Some && expected_digest(t) is Some
        && expected_digest(t)->0 != hex(sha256_of(t.artifact->0@))
}

/// How a tool call is named in an audit.
pub open spec fn receipt_json(t: ToolReceipt) -> JsonView {
    JsonView::Object(
        seq![
            ("round"@, JsonView::Int(t.round as int)),
            ("call_id"@, JsonView::Str(t.call_id@)),
        ],
    )
}

/// The tool calls whose files are gone.
pub open spec fn missing_files(v: Seq<ToolReceipt>) -> Seq<JsonView>
    decreases v.len(),
{
    if v.len() == 0 {
        Seq::empty()
    } else {
        let rest = missing_files(v.drop_last());
        if is_missing(v.last()) {
            rest.push(receipt_json(v.last()))
        } else {
            rest
        }
    }
}

/// The tool calls whose files are not those that were kept.
pub open spec fn corrupt_files(v: Seq<ToolReceipt>) -> Seq<JsonView>
    decreases v.len(),
{
    if v.len() == 0 {
        Seq::empty()
    } else {
        let rest = corrupt_files(v.drop_last());
        if has_other_digest(v.last()) {
            rest.push(receipt_json(v.last()))
        } else {
            rest
        }
    }
}

/// How many tool calls have no end.
pub open spec fn open_calls(v: Seq<ToolReceipt>) -> nat
    decreases v.len(),
{
    if v.len() == 0 {
        0
    } else {
        open_calls(v.drop_last()) + if v.last().status@ != "terminal"@ {
            1nat
        } else {
            0nat
        }
    }
}

/// A record of a trace, as far as an audit looks at it.
#[derive(Debug)]
pub enum TraceMark {
    TurnStarted { request_id: String },
    TurnCompleted { request_id: String },
    Other,
}

/// The record is the start of the turn.
pub open spec fn starts(m: TraceMark, label: Seq<char>) -> bool {
    m matches TraceMark::TurnStarted { request_id } && request_id@ == label
}

/// The record is the end of the turn.
pub open spec fn completes(m: TraceMark, label: Seq<char>) -> bool {
    m matches TraceMark::TurnCompleted { request_id } && request_id@ == label
}

/// How many records start, and how many end, the turn.
pub open spec fn turn_marks(v: Seq<TraceMark>, label: Seq<char>) -> (nat, nat)
    decreases v.len(),
{
    if v.len() == 0 {
        (0, 0)
    } else {
        let rest = turn_marks(v.drop_last(), label);
        if starts(v.last(), label) {
            (rest.0 + 1, rest.1)
        } else if completes(v.last(), label) {
            (rest.0, rest.1 + 1)
        } else {
            rest
        }
    }
}

/// Some message of the assistant is the answer of the run.
pub open spec fn answer_is_kept(run: RunView, messages: Seq<MessageView>) -> bool {
    run.content is Some && exists|i: int|
        0 <= i < messages.len() && (#[trigger] messages[i]).role == Role::Assistant
            && messages[i].content == run.content
}

/// What the audit finds.
pub open spec fn diagnosis(
    run: RunView,
    files_differ: bool,
    answer_kept: bool,
    unreadable: bool,
) -> Seq<char> {
    if files_differ {
        "artifact_missing_or_corrupt"@
    } else if run.status == RunStatus::Completed && (!answer_kept || unreadable) {
        "jsonl_missing_or_diverged"@
    } else if run.status == RunStatus::UnknownAfterRestart {
        "control_state_unknown"@
    } else {
        "no_detected_divergence"@
    }
}

/// The messages of a session, none where they cannot be read.
pub open spec fn read_messages(r: Result<Vec<Message>, String>) -> Seq<MessageView> {
    match r {
        Ok(v) => crate::provider::message_views(v@),
        Err(_) => Seq::empty(),
    }
}

/// The error of a reading.
pub open spec fn error_of<T>(r: Result<T, String>) -> JsonView {
    match r {
        Ok(_) => JsonView::Null,
        Err(e) => JsonView::Str(e@),
    }
}

/// The starts and ends of the turn in a trace, none where it cannot be read.
pub open spec fn read_marks(r: Result<Vec<TraceMark>, String>, label: Seq<char>) -> (nat, nat) {
    match r {
        Ok(v) => turn_marks(v@, label),
        Err(_) => (0, 0),
    }
}

/// What an audit says of the messages of a session.
pub open spec fn jsonl_json(count: nat, kept: bool, error: JsonView) -> JsonView {
    JsonView::Object(
        seq![
            ("message_count"@, JsonView::Int(count as int)),
            ("matching_assistant_anywhere"@, JsonView::Bool(kept)),
            ("error"@, error),
            ("authoritative"@, JsonView::Bool(false)),
        ],
    )
}

/// What an audit says of a trace.
pub open spec fn marks_json(marks: (nat, nat), error: JsonView) -> JsonView {
    JsonView::Object(
        seq![
            ("turn_started"@, JsonView::Int(marks.0 as int)),
            ("turn_completed"@, JsonView::Int(marks.1 as int)),
            ("error"@, error),
        ],
    )
}

/// What an audit says of the tool calls of a run.
pub open spec fn tools_json(
    count: nat,
    open: nat,
    missing: Seq<JsonView>,
    corrupt: Seq<JsonView>,
) -> JsonView {
    JsonView::Object(
        seq![
            ("receipt_count"@, JsonView::Int(count as int)),
            ("incomplete"@, JsonView::Int(open as int)),
            ("missing_artifacts"@, JsonView::Array(missing)),
            ("corrupt_artifacts"@, JsonView::Array(corrupt)),
        ],
    )
}

/// The audit of a run.
pub open spec fn audit_json(
    run: RunView,
    messages: Result<Vec<Message>, String>,
    trace: Result<Vec<TraceMark>, String>,
    receipts: Seq<ToolReceipt>,
) -> JsonView {
    let kept = answer_is_kept(run, read_messages(messages));
    let marks = read_marks(trace, handlers::id_label(run.request_id));
    let missing = missing_files(receipts);
    let corrupt = corrupt_files(receipts);
    let open = JsonView::Int(open_calls(receipts) as int);
    JsonView::Object(
        seq![
            ("run_id"@, JsonView::Str(run.run_id)),
            ("session_id"@, JsonView::Str(run.session_id)),
            ("control_status"@, JsonView::Str(chat::status_name(run.status))),
            ("last_seq"@, JsonView::Int(run.last_seq as int)),
            (
                "diagnostic"@,
                JsonView::Str(
                    diagnosis(run, missing.len() > 0 || corrupt.len() > 0, kept, messages is Err),
                ),
            ),
            ("jsonl_matching_assistant"@, JsonView::Bool(kept)),
            ("incomplete_tool_receipts"@, open),
            ("jsonl_is_authoritative"@, JsonView::Bool(false)),
            ("jsonl"@, jsonl_json(read_messages(messages).len(), kept, error_of(messages))),
            ("trace"@, marks_json(marks, error_of(trace))),
            ("tools"@, tools_json(receipts.len(), open_calls(receipts), missing, corrupt)),
            (
                "manual_resolution"@,
                JsonView::Str(
                    if run.status == RunStatus::UnknownAfterRestart {
                        "run.reconcile 需要人工证据和 expected_last_seq"@
                    } else {
                        "不适用"@
                    },
                ),
            ),
        ],
    )
}

fn receipt_to_json(t: &ToolReceipt) -> (r: Json)
    ensures
        r@ == receipt_json(*t),
{
    let mut f = json::no_fields();
    json::put(&mut f, "round", Json::Unsigned(t.round));
    json::put(&mut f, "call_id", Json::Str(t.call_id.clone()));
    assert(json::fields_view(f@) =~= receipt_json(*t)->Object_0);
    json::object(f)
}

fn differs_from_kept(t: &ToolReceipt) -> (r: bool)
    ensures
        r == has_other_digest(*t),
{
    if t.artifact_ref.is_none() {
        return false;
    }
    match (&t.artifact, &t.receipt) {
        (Some(content), Some(j)) => match j.str_at("output_sha256") {
            Some(expected) => {
                let actual = artifact_sha256(content);
                !text::same(expected, actual.as_str())
            },
            None => false,
        },
        _ => false,
    }
}

fn check_files(receipts: &Vec<ToolReceipt>) -> (r: (Vec<Json>, Vec<Json>, usize))
    ensures
        json::list_view(r.0@) == missing_files(receipts@),
        json::list_view(r.1@) == corrupt_files(receipts@),
        r.2 == open_calls(receipts@),
{
    let mut missing: Vec<Json> = Vec::new();
    let mut corrupt: Vec<Json> = Vec::new();
    let mut open: usize = 0;
    let mut i: usize = 0;
    assert(receipts@.take(0) =~= Seq::<ToolReceipt>::empty());
    assert(json::list_view(missing@) =~= Seq::<JsonView>::empty());
    while i < receipts.len()
        invariant
            i <= receipts@.len(),
            json::list_view(missing@) == missing_files(receipts@.take(i as int)),
            json::list_view(corrupt@) == corrupt_files(receipts@.take(i as int)),
            open == open_calls(receipts@.take(i as int)),
            open <= i,
        decreases receipts@.len() - i,
    {
        proof {
            assert(receipts@.take(i + 1).drop_last() =~= receipts@.take(i as int));
            assert(receipts@.take(i + 1).last() == receipts@[i as int]);
        }
        let t = &receipts[i];
        if t.artifact_ref.is_some() && t.artifact.is_none() {
            let ghost before = json::list_view(missing@);
            missing.push(receipt_to_json(t));
            assert(json::list_view(missing@) =~= before.push(receipt_json(*t)));
        }
        if differs_from_kept(t) {
            let ghost before = json::list_view(corrupt@);
            corrupt.push(receipt_to_json(t));
            assert(json::list_view(corrupt@) =~= before.push(receipt_json(*t)));
        }
        if !text::same(t.status.as_str(), "terminal") {
            open = open + 1;
        }
        i = i + 1;
    }
    assert(receipts@.take(i as int) =~= receipts@);
    (missing, corrupt, open)
}

fn count_marks(trace: &Vec<TraceMark>, label: &str) -> (r: (usize, usize))
    ensures
        (r.0 as nat, r.1 as nat) == turn_marks(trace@, label@),
{
    let mut started: usize = 0;
    let mut completed: usize = 0;
    let mut i: usize = 0;
    assert(trace@.take(0) =~= Seq::<TraceMark>::empty());
    while i < trace.len()
        invariant
            i <= trace@.len(),
            (started as nat, completed as nat) == turn_marks(trace@.take(i as int), label@),
            started + completed <= i,
        decreases trace@.len() - i,
    {
        proof {
            assert(trace@.take(i + 1).drop_last() =~= trace@.take(i as int));
            assert(trace@.take(i + 1).last() == trace@[i as int]);
        }
        match &trace[i] {
            TraceMark::TurnStarted { request_id } => {
                if text::same(request_id.as_str(), label) {
                    started = started + 1;
                }
            },
            TraceMark::TurnCompleted { request_id } => {
                if text::same(request_id.as_str(), label) {
                    completed = completed + 1;
                }
            },
            TraceMark::Other => {},
        }
        i = i + 1;
    }
    assert(trace@.take(i as int) =~= trace@);
    (started, completed)
}

fn find_answer(run: &RunRecord, messages: &Vec<Message>) -> (r: bool)
    ensures
        r == answer_is_kept(run@, crate::provider::message_views(messages@)),
{
    let ghost views = crate::provider::message_views(messages@);
    let wanted = match &run.content {
        Some(c) => c,
        None => return false,
    };
    let mut i: usize = 0;
    while i < messages.len()
        invariant
            i <= messages@.len(),
            views == crate::provider::message_views(messages@),
            run@.content == Some(wanted@),
            forall|k: int|
                0 <= k < i ==> !((#[trigger] views[k]).role == Role::Assistant && views[k].content
                    == run@.content),
        decreases messages@.len() - i,
    {
        assert(views[i as int] == messages@[i as int]@);
        if messages[i].role == Role::Assistant {
            if let Some(c) = &messages[i].content {
                if text::same(c.as_str(), wanted.as_str()) {
                    assert(views[i as int].content == run@.content);
                    return true;
                }
            }
        }
        i = i + 1;
    }
    false
}

fn make_jsonl(count: usize, kept: bool, error: Json) -> (r: Json)
    ensures
        r@ == jsonl_json(count as nat, kept, error@),
{
    let ghost said = error@;
    let mut f = json::no_fields();
    json::put(&mut f, "message_count", Json::Unsigned(count as u64));
    json::put(&mut f, "matching_assistant_anywhere", Json::Bool(kept));
    json::put(&mut f, "error", error);
    json::put(&mut f, "authoritative", Json::Bool(false));
    assert(json::fields_view(f@) =~= jsonl_json(count as nat, kept, said)->Object_0);
    json::object(f)
}

fn make_marks(started: usize, completed: usize, error: Json) -> (r: Json)
    ensures
        r@ == marks_json((started as nat, completed as nat), error@),
{
    let ghost said = error@;
    let mut f = json::no_fields();
    json::put(&mut f, "turn_started", Json::Unsigned(started as u64));
    json::put(&mut f, "turn_completed", Json::Unsigned(completed as u64));
    json::put(&mut f, "error", error);
    assert(json::fields_view(f@) =~= marks_json(
        (started as nat, completed as nat),
        said,
    )->Object_0);
    json::object(f)
}

fn make_tools(count: usize, open: usize, missing: Vec<Json>, corrupt: Vec<Json>) -> (r: Json)
    ensures
        r@ == tools_json(
            count as nat,
            open as nat,
            json::list_view(missing@),
            json::list_view(corrupt@),
        ),
{
    let ghost gone = json::list_view(missing@);
    let ghost changed = json::list_view(corrupt@);
    let mut f = json::no_fields();
    json::put(&mut f, "receipt_count", Json::Unsigned(count as u64));
    json::put(&mut f, "incomplete", Json::Unsigned(open as u64));
    json::put(&mut f, "missing_artifacts", json::array(missing));
    json::put(&mut f, "corrupt_artifacts", json::array(corrupt));
    assert(json::fields_view(f@) =~= tools_json(count as nat, open as nat, gone, changed)->Object_0);
    json::object(f)
}

fn error_json<T>(r: &Result<T, String>) -> (j: Json)
    ensures
        j@ == error_of(*r),
{
    match r {
        Ok(_) => Json::Null,
        Err(e) => Json::Str(e.clone()),
    }
}

/// The failure of an audit whose session cannot be opened.
pub fn session_unreadable(error: &str) -> (r: Failure)
    ensures
        r.0 == handlers::INTERNAL_ERROR,
        r.1@ == "JSONL 读取失败: "@ + error@,
{
    let mut t = "JSONL 读取失败: ".to_owned();
    t.append(error);
    (handlers::INTERNAL_ERROR, t)
}

/// Audits a run: holds what is stored of it against the messages of its session, its trace
/// and the files that its tools kept.
pub fn audit_run(
    run: &RunRecord,
    messages: &Result<Vec<Message>, String>,
    trace: &Result<Vec<TraceMark>, String>,
    receipts: &Vec<ToolReceipt>,
) -> (r: Json)
    ensures
        r@ == audit_json(run@, *messages, *trace, receipts@),
{
    let (missing, corrupt, open) = check_files(receipts);
    let label = handlers::request_id_label(&run.request_id);
    let (started, completed) = match trace {
        Ok(v) => count_marks(v, label.as_str()),
        Err(_) => (0usize, 0usize),
    };
    let (kept, count) = match messages {
        Ok(v) => (find_answer(run, v), v.len()),
        Err(_) => (false, 0usize),
    };
    let unreadable = messages.is_err();
    let diagnostic = if missing.len() > 0 || corrupt.len() > 0 {
        "artifact_missing_or_corrupt"
    } else if run.status == RunStatus::Completed && (!kept || unreadable) {
        "jsonl_missing_or_diverged"
    } else if run.status == RunStatus::UnknownAfterRestart {
        "control_state_unknown"
    } else {
        "no_detected_divergence"
    };
    let manual = if run.status == RunStatus::UnknownAfterRestart {
        "run.reconcile 需要人工证据和 expected_last_seq"
    } else {
        "不适用"
    };
    let jsonl = make_jsonl(count, kept, error_json(messages));
    let marks = make_marks(started, completed, error_json(trace));
    let tools = make_tools(receipts.len(), open, missing, corrupt);
    let mut f = json::no_fields();
    json::put(&mut f, "run_id", Json::Str(run.run_id.clone()));
    json::put(&mut f, "session_id", Json::Str(run.session_id.clone()));
    json::put(&mut f, "control_status", Json::of_str(run.status.name()));
    json::put(&mut f, "last_seq", Json::Unsigned(run.last_seq));
    json::put(&mut f, "diagnostic", Json::of_str(diagnostic));
    json::put(&mut f, "jsonl_matching_assistant", Json::Bool(kept));
    json::put(&mut f, "incomplete_tool_receipts", Json::Unsigned(open as u64));
    json::put(&mut f, "jsonl_is_authoritative", Json::Bool(false));
    json::put(&mut f, "jsonl", jsonl);
    json::put(&mut f, "trace", marks);
    json::put(&mut f, "tools", tools);
    json::put(&mut f, "manual_resolution", Json::of_str(manual));
    assert(json::fields_view(f@) =~= audit_json(
        run@,
        *messages,
        *trace,
        receipts@,
    )->Object_0);
    json::object(f)
}

/// Where the digests are those that were noted, no file counts as changed.
pub proof fn law_noted_digests_agree(v: Seq<ToolReceipt>)
    requires
        forall|i: int|
            0 <= i < v.len() && (#[trigger] v[i]).artifact is Some && expected_digest(v[i]) is Some
                ==> expected_digest(v[i])->0 == hex(sha256_of(v[i].artifact->0@)),
    ensures
        corrupt_files(v).len() == 0,
    decreases v.len(),
{
    if v.len() > 0 {
        assert(v.last() == v[v.len() - 1]);
        let front = v.drop_last();
        assert forall|i: int|
            0 <= i < front.len() && (#[trigger] front[i]).artifact is Some && expected_digest(
                front[i],
            ) is Some implies expected_digest(front[i])->0 == hex(
            sha256_of(front[i].artifact->0@),
        ) by {
            assert(front[i] == v[i]);
        }
        law_noted_digests_agree(front);
    }
}

/// Reading back: how a tool call is named in an audit, field by field.
pub proof fn law_receipt_reads_back(t: ToolReceipt)
    ensures
        json::at_key(receipt_json(t), "round"@) == JsonView::Int(t.round as int),
        json::at_key(receipt_json(t), "call_id"@) == JsonView::Str(t.call_id@),
{
    reveal_strlit("call_id");
    reveal_strlit("round");
    assert("round"@.len() != "call_id"@.len());
    json::lemma_field_at(receipt_json(t), "round"@, 0);
    json::lemma_field_at(receipt_json(t), "call_id"@, 1);
}

/// Reading back: what an audit says of the messages of a session, field by field.
pub proof fn law_jsonl_reads_back(count: nat, kept: bool, error: JsonView)
    ensures
        json::at_key(jsonl_json(count, kept, error), "message_count"@)
            == JsonView::Int(count as int),
        json::at_key(jsonl_json(count, kept, error), "matching_assistant_anywhere"@)
            == JsonView::Bool(kept),
        json::at_key(jsonl_json(count, kept, error), "error"@) == error,
        json::at_key(jsonl_json(count, kept, error), "authoritative"@) == JsonView::Bool(false),
{
    reveal_strlit("authoritative");
    reveal_strlit("error");
    reveal_strlit("matching_assistant_anywhere");
    reveal_strlit("message_count");
    assert("message_count"@.len() != "matching_assistant_anywhere"@.len());
    assert("message_count"@.len() != "error"@.len());
    assert("matching_assistant_anywhere"@.len() != "error"@.len());
    assert("message_count"@[0] != "authoritative"@[0]);
    assert("matching_assistant_anywhere"@.len() != "authoritative"@.len());
    assert("error"@.len() != "authoritative"@.len());
    json::lemma_field_at(jsonl_json(count, kept, error), "message_count"@, 0);
    json::lemma_field_at(jsonl_json(count, kept, error), "matching_assistant_anywhere"@, 1);
    json::lemma_field_at(jsonl_json(count, kept, error), "error"@, 2);
    json::lemma_field_at(jsonl_json(count, kept, error), "authoritative"@, 3);
}

/// Reading back: what an audit says of a trace, field by field.
pub proof fn law_marks_reads_back(marks: (nat, nat), error: JsonView)
    ensures
        json::at_key(marks_json(marks, error), "turn_started"@) == JsonView::Int(marks.0 as int),
        json::at_key(marks_json(marks, error), "turn_completed"@) == JsonView::Int(marks.1 as int),
        json::at_key(marks_json(marks, error), "error"@) == error,
{
    reveal_strlit("error");
    reveal_strlit("turn_completed");
    reveal_strlit("turn_started");
    assert("turn_started"@.len() != "turn_completed"@.len());
    assert("turn_started"@.len() != "error"@.len());
    assert("turn_completed"@.len() != "error"@.len());
    json::lemma_field_at(marks_json(marks, error), "turn_started"@, 0);
    json::lemma_field_at(marks_json(marks, error), "turn_completed"@, 1);
    json::lemma_field_at(marks_json(marks, error), "error"@, 2);
}

/// Reading back: what an audit says of the tool calls of a run, field by field.
pub proof fn law_tools_reads_back(count: nat, open: nat, missing: Seq<JsonView>, corrupt: Seq<JsonView>)
    ensures
        json::at_key(tools_json(count, open, missing, corrupt), "receipt_count"@)
            == JsonView::Int(count as int),
        json::at_key(tools_json(count, open, missing, corrupt), "incomplete"@)
            == JsonView::Int(open as int),
        json::at_key(tools_json(count, open, missing, corrupt), "missing_artifacts"@)
            == JsonView::Array(missing),
        json::at_key(tools_json(count, open, missing, corrupt), "corrupt_artifacts"@)
            == JsonView::Array(corrupt),
{
    reveal_strlit("corrupt_artifacts");
    reveal_strlit("incomplete");
    reveal_strlit("missing_artifacts");
    reveal_strlit("receipt_count");
    assert("receipt_count"@.len() != "incomplete"@.len());
    assert("receipt_count"@.len() != "missing_artifacts"@.len());
    assert("incomplete"@.len() != "missing_artifacts"@.len());
    assert("receipt_count"@.len() != "corrupt_artifacts"@.len());
    assert("incomplete"@.len() != "corrupt_artifacts"@.len());
    assert("missing_artifacts"@[0] != "corrupt_artifacts"@[0]);
    json::lemma_field_at(tools_json(count, open, missing, corrupt), "receipt_count"@, 0);
    json::lemma_field_at(tools_json(count, open, missing, corrupt), "incomplete"@, 1);
    json::lemma_field_at(tools_json(count, open, missing, corrupt), "missing_artifacts"@, 2);
    json::lemma_field_at(tools_json(count, open, missing, corrupt), "corrupt_artifacts"@, 3);
}

/// An audit tells of which run it is and in which state, what was found of its answer, its
/// trace and its tools, and that the control state and not the log decides.
pub proof fn law_audit_reads_back(
    run: RunView,
    messages: Result<Vec<Message>, String>,
    trace: Result<Vec<TraceMark>, String>,
    receipts: Seq<ToolReceipt>,
)
    ensures
        ({
            let j = audit_json(run, messages, trace, receipts);
            let kept = answer_is_kept(run, read_messages(messages));
            &&& json::at_key(j, "run_id"@) == JsonView::Str(run.run_id)
            &&& json::at_key(j, "session_id"@) == JsonView::Str(run.session_id)
            &&& json::at_key(j, "control_status"@) == JsonView::Str(chat::status_name(run.status))
            &&& json::at_key(j, "last_seq"@) == JsonView::Int(run.last_seq as int)
            &&& json::at_key(j, "diagnostic"@) == JsonView::Str(
                diagnosis(
                    run,
                    missing_files(receipts).len() > 0 || corrupt_files(receipts).len() > 0,
                    kept,
                    messages is Err,
                ),
            )
            &&& json::at_key(j, "jsonl_matching_assistant"@) == JsonView::Bool(kept)
            &&& json::at_key(j, "incomplete_tool_receipts"@) == JsonView::Int(
                open_calls(receipts) as int,
            )
            &&& json::at_key(j, "jsonl_is_authoritative"@) == JsonView::Bool(false)
            &&& json::at_key(json::at_key(j, "jsonl"@), "message_count"@) == JsonView::Int(
                read_messages(messages).len() as int,
            )
            &&& json::at_key(json::at_key(j, "trace"@), "turn_started"@) == JsonView::Int(
                read_marks(trace, handlers::id_label(run.request_id)).0 as int,
            )
            &&& json::at_key(json::at_key(j, "trace"@), "turn_completed"@) == JsonView::Int(
                read_marks(trace, handlers::id_label(run.request_id)).1 as int,
            )
            &&& json::at_key(json::at_key(j, "tools"@), "receipt_count"@) == JsonView::Int(
                receipts.len() as int,
            )
            &&& json::at_key(json::at_key(j, "tools"@), "missing_artifacts"@) == JsonView::Array(
                missing_files(receipts),
            )
            &&& json::at_key(json::at_key(j, "tools"@), "corrupt_artifacts"@) == JsonView::Array(
                corrupt_files(receipts),
            )
            &&& messages is Err ==> json::at_key(json::at_key(j, "jsonl"@), "error"@)
                == JsonView::Str(messages->Err_0@)
            &&& trace is Err ==> json::at_key(json::at_key(j, "trace"@), "error"@) == JsonView::Str(
                trace->Err_0@,
            )
        }),
{
    let j = audit_json(run, messages, trace, receipts);
    let kept = answer_is_kept(run, read_messages(messages));
    law_jsonl_reads_back(read_messages(messages).len(), kept, error_of(messages));
    law_marks_reads_back(
        read_marks(trace, handlers::id_label(run.request_id)),
        error_of(trace),
    );
    law_tools_reads_back(
        receipts.len(),
        open_calls(receipts),
        missing_files(receipts),
        corrupt_files(receipts),
    );
    reveal_strlit("control_status");
    reveal_strlit("diagnostic");
    reveal_strlit("incomplete_tool_receipts");
    reveal_strlit("jsonl");
    reveal_strlit("jsonl_is_authoritative");
    reveal_strlit("jsonl_matching_assistant");
    reveal_strlit("last_seq");
    reveal_strlit("manual_resolution");
    reveal_strlit("run_id");
    reveal_strlit("session_id");
    reveal_strlit("tools");
    reveal_strlit("trace");
    assert("run_id"@.len() != "session_id"@.len());
    assert("run_id"@.len() != "control_status"@.len());
    assert("session_id"@.len() != "control_status"@.len());
    assert("run_id"@.len() != "last_seq"@.len());
    assert("session_id"@.len() != "last_seq"@.len());
    assert("control_status"@.len() != "last_seq"@.len());
    assert("run_id"@.len() != "diagnostic"@.len());
    assert("session_id"@[0] != "diagnostic"@[0]);
    assert("control_status"@.len() != "diagnostic"@.len());
    assert("last_seq"@.len() != "diagnostic"@.len());
    assert("run_id"@.len() != "jsonl_matching_assistant"@.len());
    assert("session_id"@.len() != "jsonl_matching_assistant"@.len());
    assert("control_status"@.len() != "jsonl_matching_assistant"@.len());
    assert("last_seq"@.len() != "jsonl_matching_assistant"@.len());
    assert("diagnostic"@.len() != "jsonl_matching_assistant"@.len());
    assert("run_id"@.len() != "incomplete_tool_receipts"@.len());
    assert("session_id"@.len() != "incomplete_tool_receipts"@.len());
    assert("control_status"@.len() != "incomplete_tool_receipts"@.len());
    assert("last_seq"@.len() != "incomplete_tool_receipts"@.len());
    assert("diagnostic"@.len() != "incomplete_tool_receipts"@.len());
    assert("jsonl_matching_assistant"@[0] != "incomplete_tool_receipts"@[0]);
    assert("run_id"@.len() != "jsonl_is_authoritative"@.len());
    assert("session_id"@.len() != "jsonl_is_authoritative"@.len());
    assert("control_status"@.len() != "jsonl_is_authoritative"@.len());
    assert("last_seq"@.len() != "jsonl_is_authoritative"@.len());
    assert("diagnostic"@.len() != "jsonl_is_authoritative"@.len());
    assert("jsonl_matching_assistant"@.len() != "jsonl_is_authoritative"@.len());
    assert("incomplete_tool_receipts"@.len() != "jsonl_is_authoritative"@.len());
    assert("run_id"@.len() != "jsonl"@.len());
    assert("session_id"@.len() != "jsonl"@.len());
    assert("control_status"@.len() != "jsonl"@.len());
    assert("last_seq"@.len() != "jsonl"@.len());
    assert("diagnostic"@.len() != "jsonl"@.len());
    assert("jsonl_matching_assistant"@.len() != "jsonl"@.len());
    assert("incomplete_tool_receipts"@.len() != "jsonl"@.len());
    assert("jsonl_is_authoritative"@.len() != "jsonl"@.len());
    assert("run_id"@.len() != "trace"@.len());
    assert("session_id"@.len() != "trace"@.len());
    assert("control_status"@.len() != "trace"@.len());
    assert("last_seq"@.len() != "trace"@.len());
    assert("diagnostic"@.len() != "trace"@.len());
    assert("jsonl_matching_assistant"@.len() != "trace"@.len());
    assert("incomplete_tool_receipts"@.len() != "trace"@.len());
    assert("jsonl_is_authoritative"@.len() != "trace"@.len());
    assert("jsonl"@[0] != "trace"@[0]);
    assert("run_id"@.len() != "tools"@.len());
    assert("session_id"@.len() != "tools"@.len());
    assert("control_status"@.len() != "tools"@.len());
    assert("last_seq"@.len() != "tools"@.len());
    assert("diagnostic"@.len() != "tools"@.len());
    assert("jsonl_matching_assistant"@.len() != "tools"@.len());
    assert("incomplete_tool_receipts"@.len() != "tools"@.len());
    assert("jsonl_is_authoritative"@.len() != "tools"@.len());
    assert("jsonl"@[0] != "tools"@[0]);
    assert("trace"@[1] != "tools"@[1]);
    assert("run_id"@.len() != "manual_resolution"@.len());
    assert("session_id"@.len() != "manual_resolution"@.len());
    assert("control_status"@.len() != "manual_resolution"@.len());
    assert("last_seq"@.len() != "manual_resolution"@.len());
    assert("diagnostic"@.len() != "manual_resolution"@.len());
    assert("jsonl_matching_assistant"@.len() != "manual_resolution"@.len());
    assert("incomplete_tool_receipts"@.len() != "manual_resolution"@.len());
    assert("jsonl_is_authoritative"@.len() != "manual_resolution"@.len());
    assert("jsonl"@.len() != "manual_resolution"@.len());
    assert("trace"@.len() != "manual_resolution"@.len());
    assert("tools"@.len() != "manual_resolution"@.len());
    json::lemma_field_at(j, "run_id"@, 0);
    json::lemma_field_at(j, "session_id"@, 1);
    json::lemma_field_at(j, "control_status"@, 2);
    json::lemma_field_at(j, "last_seq"@, 3);
    json::lemma_field_at(j, "diagnostic"@, 4);
    json::lemma_field_at(j, "jsonl_matching_assistant"@, 5);
    json::lemma_field_at(j, "incomplete_tool_receipts"@, 6);
    json::lemma_field_at(j, "jsonl_is_authoritative"@, 7);
    json::lemma_field_at(j, "jsonl"@, 8);
    json::lemma_field_at(j, "trace"@, 9);
    json::lemma_field_at(j, "tools"@, 10);
    json::lemma_field_at(j, "manual_resolution"@, 11);
}

/// The answer of a run is kept exactly where some message of the assistant says it; what
/// others say does not count, and a run without an answer has none to keep.
pub proof fn law_kept_answers(run: RunView, messages: Seq<MessageView>)
    ensures
        run.content is None ==> !answer_is_kept(run, messages),
        (forall|i: int|
            0 <= i < messages.len() ==> !((#[trigger] messages[i]).role is Assistant)
                || messages[i].content != run.content) ==> !answer_is_kept(run, messages),
        forall|i: int|
            0 <= i < messages.len() && (#[trigger] messages[i]).role is Assistant
                && messages[i].content == run.content && run.content is Some ==> answer_is_kept(
                run,
                messages,
            ),
{
}

/// What an audit finds: files that are missing or differ come first; then a completed run
/// whose answer is not kept or cannot be read; then a run whose outcome is unknown; and else
/// nothing. Each is named differently from finding nothing.
pub proof fn law_audits_find_what_differs(
    run: RunView,
    files_differ: bool,
    answer_kept: bool,
    unreadable: bool,
)
    ensures
        diagnosis(run, files_differ, answer_kept, unreadable) == "no_detected_divergence"@
            <==> !files_differ && !(run.status is UnknownAfterRestart) && (run.status is Completed
            ==> answer_kept && !unreadable),
        diagnosis(run, files_differ, answer_kept, unreadable) == "artifact_missing_or_corrupt"@
            <==> files_differ,
        !files_differ && run.status is UnknownAfterRestart ==> diagnosis(
            run,
            files_differ,
            answer_kept,
            unreadable,
        ) == "control_state_unknown"@,
{
    reveal_strlit("artifact_missing_or_corrupt");
    reveal_strlit("jsonl_missing_or_diverged");
    reveal_strlit("control_state_unknown");
    reveal_strlit("no_detected_divergence");
    assert("artifact_missing_or_corrupt"@.len() == 27 && "jsonl_missing_or_diverged"@.len() == 25
        && "control_state_unknown"@.len() == 21 && "no_detected_divergence"@.len() == 22);
}

/// A file is missing exactly where it is named and not there, and differs exactly where it is
/// there and its digest is not the one that was noted. The calls with such files are listed,
/// each once and in order.
pub proof fn law_files_that_differ(v: Seq<ToolReceipt>, w: Seq<ToolReceipt>, t: ToolReceipt)
    ensures
        is_missing(t) <==> t.artifact_ref is Some && t.artifact is None,
        has_other_digest(t) ==> !is_missing(t),
        missing_files(seq![t]) == (if t.artifact_ref is Some && t.artifact is None {
            seq![receipt_json(t)]
        } else {
            Seq::empty()
        }),
        corrupt_files(seq![t]).len() == (if t.artifact_ref is Some && t.artifact is Some
            && expected_digest(t) is Some && expected_digest(t)->0 != hex(
            sha256_of(t.artifact->0@),
        ) {
            1int
        } else {
            0
        }),
        missing_files(v + w) == missing_files(v) + missing_files(w),
        corrupt_files(v + w) == corrupt_files(v) + corrupt_files(w),
        open_calls(v + w) == open_calls(v) + open_calls(w),
        open_calls(seq![t]) == (if t.status@ == "terminal"@ {
            0int
        } else {
            1
        }),
    decreases w.len(),
{
    assert(seq![t].drop_last() =~= Seq::<ToolReceipt>::empty());
    reveal_with_fuel(missing_files, 2);
    reveal_with_fuel(corrupt_files, 2);
    reveal_with_fuel(open_calls, 2);
    assert(missing_files(seq![t]) =~= (if t.artifact_ref is Some && t.artifact is None {
        seq![receipt_json(t)]
    } else {
        Seq::empty()
    }));
    if w.len() == 0 {
        assert(v + w =~= v);
    } else {
        law_files_that_differ(v, w.drop_last(), t);
        assert((v + w).drop_last() =~= v + w.drop_last());
        assert((v + w).last() == w.last());
    }
    assert(missing_files(v + w) =~= missing_files(v) + missing_files(w));
    assert(corrupt_files(v + w) =~= corrupt_files(v) + corrupt_files(w));
}

/// The marks of a trace are counted for one request: those that start its turns and those
/// that complete them, and no others.
pub proof fn law_marks_are_counted(v: Seq<TraceMark>, w: Seq<TraceMark>, m: TraceMark, label: Seq<char>)
    ensures
        turn_marks(v + w, label).0 == turn_marks(v, label).0 + turn_marks(w, label).0,
        turn_marks(v + w, label).1 == turn_marks(v, label).1 + turn_marks(w, label).1,
        m matches TraceMark::TurnStarted { request_id } ==> turn_marks(seq![m], label) == (if request_id@
            == label {
            (1nat, 0nat)
        } else {
            (0nat, 0nat)
        }),
        m matches TraceMark::TurnCompleted { request_id } ==> turn_marks(seq![m], label) == (
        if request_id@ == label {
            (0nat, 1nat)
        } else {
            (0nat, 0nat)
        }),
    decreases w.len(),
{
    assert(seq![m].drop_last() =~= Seq::<TraceMark>::empty());
    reveal_with_fuel(turn_marks, 2);
    if w.len() == 0 {
        assert(v + w =~= v);
    } else {
        law_marks_are_counted(v, w.drop_last(), m, label);
        assert((v + w).drop_last() =~= v + w.drop_last());
        assert((v + w).last() == w.last());
    }
}

/// Bytes are written as two digits each, in order, and different bytes differently.
pub proof fn law_hex_is_two_digits_a_byte(a: Seq<u8>, b: Seq<u8>)
    ensures
        hex(a).len() == 2 * a.len(),
        hex(a) == hex(b) ==> a == b,
    decreases a.len() + b.len(),
{
    lemma_hex_len(a);
    lemma_hex_len(b);
    if hex(a) == hex(b) && a.len() > 0 {
        let x = hex(a.drop_last());
        let y = hex(b.drop_last());
        let n: int = x.len() as int;
        lemma_hex_len(a.drop_last());
        lemma_hex_len(b.drop_last());
        assert(hex(a)[n] == hex_digit(a.last() / 16));
        assert(hex(a)[n + 1] == hex_digit(a.last() % 16));
        assert(hex(b)[n] == hex_digit(b.last() / 16));
        assert(hex(b)[n + 1] == hex_digit(b.last() % 16));
        lemma_hex_digits(a.last() / 16, b.last() / 16);
        lemma_hex_digits(a.last() % 16, b.last() % 16);
        assert(x =~= hex(a).take(n));
        assert(y =~= hex(b).take(n));
        law_hex_is_two_digits_a_byte(a.drop_last(), b.drop_last());
        assert(a =~= a.drop_last().push(a.last()));
        assert(b =~= b.drop_last().push(b.last()));
    } else if hex(a) == hex(b) {
        assert(a =~= b);
    }
}

proof fn lemma_hex_digits(a: u8, b: u8)
    requires
        a < 16,
        b < 16,
        hex_digit(a) == hex_digit(b),
    ensures
        a == b,
{
    assert(hex_digit(a) as u32 == if a < 10 {
        48 + a
    } else {
        87 + a
    });
    assert(hex_digit(b) as u32 == if b < 10 {
        48 + b
    } else {
        87 + b
    });
}

} // verus!
