//! The editor: what it is told for what the daemon tells, and what is asked of it.
use vstd::prelude::*;

use crate::daemon::approval;
use crate::daemon::approval::PendingApprovalInfo;
use crate::daemon::handlers::REQUEST_CANCELLED;
use crate::daemon::protocol::{
    EventFrame, EventKind, EventView, FrameView, JsonRpcResponse, ResponseView, ServerFrame,
};
use crate::daemon::sessions;
use crate::daemon::sessions::{SessionInfo, SessionInfoView};
use crate::daemon::slash::{SlashAction, SlashParse, SlashResponse};
use crate::entry::cli;
use crate::entry::cli::Question;
use crate::entry::tui::frames;
use crate::json;
use crate::json::{Json, JsonView};
use crate::provider;
use crate::provider::{Message, MessageView, Role};
use crate::text;

verus! {

fn two(a: &str, b: &str) -> (r: String)
    ensures
        r@ == a@ + b@,
{
    let mut r = a.to_owned();
    r.append(b);
    r
}

/// The code of an error of the editor's own making.
pub const ACP_INTERNAL_ERROR: i32 = -32603;

/// A part of what the user says.
#[derive(Debug)]
pub enum ContentBlock {
    Text(String),
    ResourceLink { name: String, uri: String },
    /// Anything else.
    Other,
}

/// What a part says.
pub enum BlockView {
    Text(Seq<char>),
    ResourceLink { name: Seq<char>, uri: Seq<char> },
    Other,
}

impl View for ContentBlock {
    type V = BlockView;

    open spec fn view(&self) -> BlockView {
        match *self {
            ContentBlock::Text(s) => BlockView::Text(s@),
            ContentBlock::ResourceLink { name, uri } => BlockView::ResourceLink {
                name: name@,
                uri: uri@,
            },
            ContentBlock::Other => BlockView::Other,
        }
    }
}

/// What parts say.
pub open spec fn block_views(v: Seq<ContentBlock>) -> Seq<BlockView> {
    Seq::new(v.len(), |i: int| v[i]@)
}

/// Why the editor is refused.
#[derive(Debug)]
pub enum AcpFailure {
    /// The parameters are not valid; what is wrong with them.
    InvalidParams(Json),
    /// Something went wrong; what.
    Internal(String),
    /// The daemon answered with an error.
    Rpc { code: i32, message: String },
}

/// Why the editor is refused.
pub enum AcpFailureView {
    InvalidParams(JsonView),
    Internal(Seq<char>),
    Rpc { code: i32, message: Seq<char> },
}

impl View for AcpFailure {
    type V = AcpFailureView;

    open spec fn view(&self) -> AcpFailureView {
        match *self {
            AcpFailure::InvalidParams(j) => AcpFailureView::InvalidParams(j@),
            AcpFailure::Internal(s) => AcpFailureView::Internal(s@),
            AcpFailure::Rpc { code, message } => AcpFailureView::Rpc { code, message: message@ },
        }
    }
}

/// A part as text.
pub open spec fn block_text(b: BlockView) -> Seq<char> {
    match b {
        BlockView::Text(s) => s,
        BlockView::ResourceLink { name, uri } => "[资源："@ + name + "]("@ + uri + ")"@,
        BlockView::Other => Seq::empty(),
    }
}

/// The texts of parts.
pub open spec fn block_texts(v: Seq<BlockView>) -> Seq<Seq<char>> {
    Seq::new(v.len(), |i: int| block_text(v[i]))
}

/// Some part is neither a text nor a link.
pub open spec fn has_other(v: Seq<BlockView>) -> bool {
    exists|i: int| 0 <= i < v.len() && (#[trigger] v[i]) is Other
}

/// What the user says: its parts, each on a line of its own.
pub open spec fn prompt_of(v: Seq<BlockView>) -> Result<Seq<char>, Seq<char>> {
    let message = text::join(block_texts(v), "\n"@);
    if has_other(v) {
        Err("当前 ACP 入口仅支持 text 与 resource_link 内容块"@)
    } else if text::blank(message) {
        Err("prompt 不能为空"@)
    } else {
        Ok(message)
    }
}

/// Puts together what the user says.
pub fn prompt_to_text(blocks: &Vec<ContentBlock>) -> (r: Result<String, AcpFailure>)
    ensures
        match r {
            Ok(s) => prompt_of(block_views(blocks@)) == Ok::<Seq<char>, Seq<char>>(s@),
            Err(e) => prompt_of(block_views(blocks@)) is Err && e@ == AcpFailureView::InvalidParams(
                JsonView::Str(prompt_of(block_views(blocks@))->Err_0),
            ),
        },
{
    let ghost all = block_views(blocks@);
    let ghost texts = block_texts(all);
    let mut parts: Vec<String> = Vec::new();
    let mut i: usize = 0;
    assert(text::views(parts@) =~= texts.take(0));
    while i < blocks.len()
        invariant
            i <= blocks@.len(),
            all == block_views(blocks@),
            texts == block_texts(all),
            text::views(parts@) == texts.take(i as int),
            forall|k: int| 0 <= k < i ==> (#[trigger] all[k]) !is Other,
        decreases blocks@.len() - i,
    {
        assert(all[i as int] == blocks@[i as int]@);
        let part = match &blocks[i] {
            ContentBlock::Text(s) => s.clone(),
            ContentBlock::ResourceLink { name, uri } => {
                let mut s = two("[资源：", name.as_str());
                s.append("](");
                s.append(uri.as_str());
                s.append(")");
                s
            },
            ContentBlock::Other => {
                assert(has_other(all));
                return Err(
                    AcpFailure::InvalidParams(
                        Json::of_str("当前 ACP 入口仅支持 text 与 resource_link 内容块"),
                    ),
                );
            },
        };
        let ghost before = text::views(parts@);
        let ghost said = part@;
        parts.push(part);
        assert(text::views(parts@) =~= before.push(said));
        assert(texts[i as int] == said);
        assert(texts.take(i + 1) =~= texts.take(i as int).push(texts[i as int]));
        i = i + 1;
    }
    assert(texts.take(i as int) =~= texts);
    assert(!has_other(all));
    let message = text::join_texts(&parts, "\n");
    if text::is_blank(message.as_str()) {
        return Err(AcpFailure::InvalidParams(Json::of_str("prompt 不能为空")));
    }
    Ok(message)
}

/// What the user says is a command.
pub fn is_command(message: &str) -> (r: bool)
    ensures
        r == (text::trim_start(message@).len() > 0 && text::trim_start(message@)[0] == '/'),
{
    let chars = text::chars_of(text::trim_start_text(message).as_str());
    chars.len() > 0 && chars[0] == '/'
}

/// A path goes from the root.
pub open spec fn is_rooted(path: Seq<char>) -> bool {
    path.len() > 0 && path[0] == '/'
}

/// Where the part of a path that begins at `from` ends.
pub open spec fn part_end(path: Seq<char>, from: int) -> int
    decreases path.len() - from,
{
    if from < 0 || from >= path.len() || path[from] == '/' {
        from
    } else {
        part_end(path, from + 1)
    }
}

/// A part says nothing of where a path leads: it is empty, or it is a dot that does not stand at
/// the beginning of the path.
pub open spec fn says_nothing(part: Seq<char>, from: int) -> bool {
    part.len() == 0 || (from > 0 && part.len() == 1 && part[0] == '.')
}

/// The parts of a path from `from` on: repeated and trailing slashes do not matter, nor do dots
/// that stand alone, save at the beginning.
pub open spec fn parts_from(path: Seq<char>, from: int) -> Seq<Seq<char>>
    decreases path.len() + 1 - from,
{
    if from < 0 || from > path.len() {
        Seq::empty()
    } else {
        let end = part_end(path, from);
        proof {
            lemma_part_end(path, from);
        }
        let part = path.subrange(from, end);
        let rest = parts_from(path, end + 1);
        if says_nothing(part, from) {
            rest
        } else {
            seq![part] + rest
        }
    }
}

/// A part ends within its path.
pub proof fn lemma_part_end(path: Seq<char>, from: int)
    requires
        0 <= from <= path.len(),
    ensures
        from <= part_end(path, from) <= path.len(),
    decreases path.len() - from,
{
    if from < path.len() && path[from] != '/' {
        lemma_part_end(path, from + 1);
    }
}

/// Two paths are the same.
pub open spec fn same_place(a: Seq<char>, b: Seq<char>) -> bool {
    is_rooted(a) == is_rooted(b) && parts_from(a, 0) == parts_from(b, 0)
}

fn path_parts(path: &str) -> (r: (bool, Vec<String>))
    ensures
        r.0 == is_rooted(path@),
        text::views(r.1@) == parts_from(path@, 0),
{
    let v = text::chars_of(path);
    let rooted = v.len() > 0 && v[0] == '/';
    let mut out: Vec<String> = Vec::new();
    let mut from: usize = 0;
    let mut more = true;
    assert(text::views(out@) =~= Seq::<Seq<char>>::empty());
    assert(text::views(out@) + parts_from(v@, 0) =~= parts_from(v@, 0));
    while more
        invariant
            v@ == path@,
            more ==> from <= v@.len(),
            parts_from(v@, 0) == text::views(out@) + (if more {
                parts_from(v@, from as int)
            } else {
                Seq::empty()
            }),
        decreases (if more { v@.len() + 1 - from } else { 0 }),
    {
        let mut end: usize = from;
        while end < v.len() && v[end] != '/'
            invariant
                from <= end <= v@.len(),
                part_end(v@, from as int) == part_end(v@, end as int),
            decreases v@.len() - end,
        {
            end = end + 1;
        }
        assert(part_end(v@, from as int) == end);
        let part = text::string_of_range(v.as_slice(), from, end);
        let nothing = end == from || (from > 0 && end - from == 1 && v[from] == '.');
        let ghost head = text::views(out@);
        let ghost own = part@;
        let ghost rest = parts_from(v@, end + 1);
        if !nothing {
            out.push(part);
            assert(text::views(out@) =~= head.push(own));
            assert(head + (seq![own] + rest) =~= head.push(own) + rest);
        }
        assert(parts_from(v@, 0) == text::views(out@) + rest);
        if end == v.len() {
            more = false;
            assert(rest =~= Seq::<Seq<char>>::empty());
        } else {
            from = end + 1;
        }
    }
    assert(text::views(out@) + Seq::<Seq<char>>::empty() =~= text::views(out@));
    (rooted, out)
}

fn same_parts(a: &Vec<String>, b: &Vec<String>) -> (r: bool)
    ensures
        r == (text::views(a@) == text::views(b@)),
{
    if a.len() != b.len() {
        assert(text::views(a@).len() != text::views(b@).len());
        return false;
    }
    let mut i: usize = 0;
    while i < a.len()
        invariant
            i <= a@.len(),
            a@.len() == b@.len(),
            forall|k: int| 0 <= k < i ==> (#[trigger] a@[k])@ == b@[k]@,
        decreases a@.len() - i,
    {
        if !text::same(a[i].as_str(), b[i].as_str()) {
            assert(text::views(a@)[i as int] != text::views(b@)[i as int]);
            return false;
        }
        i = i + 1;
    }
    assert(text::views(a@) =~= text::views(b@));
    true
}

/// Two paths are the same.
pub fn same_path(a: &str, b: &str) -> (r: bool)
    ensures
        r == same_place(a@, b@),
{
    let (a_rooted, a_parts) = path_parts(a);
    let (b_rooted, b_parts) = path_parts(b);
    a_rooted == b_rooted && same_parts(&a_parts, &b_parts)
}

/// What is told of a place that is not the workspace.
pub open spec fn wrong_place(requested: Seq<char>, workspace: Seq<char>) -> JsonView {
    JsonView::Object(
        seq![
            ("message"@, JsonView::Str("ACP cwd 必须与 daemon 工作区一致"@)),
            ("requested"@, JsonView::Str(requested)),
            ("workspace"@, JsonView::Str(workspace)),
        ],
    )
}

/// The editor works in the workspace of the daemon, and nowhere else.
pub fn require_workspace(requested: &str, workspace: &str) -> (r: Result<(), AcpFailure>)
    ensures
        match r {
            Ok(()) => same_place(requested@, workspace@),
            Err(e) => !same_place(requested@, workspace@) && e@ == AcpFailureView::InvalidParams(
                wrong_place(requested@, workspace@),
            ),
        },
{
    if same_path(requested, workspace) {
        return Ok(());
    }
    let mut f = json::no_fields();
    json::put(&mut f, "message", Json::of_str("ACP cwd 必须与 daemon 工作区一致"));
    json::put(&mut f, "requested", Json::of_str(requested));
    json::put(&mut f, "workspace", Json::of_str(workspace));
    assert(json::fields_view(f@) =~= wrong_place(requested@, workspace@)->Object_0);
    Err(AcpFailure::InvalidParams(json::object(f)))
}

/// The session that the daemon opened.
pub fn daemon_session_id(result: &Json) -> (r: Result<String, AcpFailure>)
    ensures
        match json::str_of(json::at_key(result@, "session_id"@)) {
            Some(id) => r is Ok && r->Ok_0@ == id,
            None => r is Err && r->Err_0@ == AcpFailureView::Internal(
                "daemon 响应缺少 session_id"@,
            ),
        },
{
    match result.str_at("session_id") {
        Some(id) => Ok(id.to_owned()),
        None => Err(AcpFailure::Internal("daemon 响应缺少 session_id".to_owned())),
    }
}

/// The command only tells something.
pub open spec fn only_tells(action: SlashAction, args: Seq<Seq<char>>) -> bool {
    match action {
        SlashAction::Help => true,
        SlashAction::Run => true,
        SlashAction::Status => true,
        SlashAction::Sessions => true,
        SlashAction::Ping => true,
        SlashAction::Mcp => args.len() == 1 && (args[0] == "list"@ || args[0] == "status"@),
        _ => false,
    }
}

/// The editor may send a line: one that only tells something, or one that cannot be read.
pub fn is_allowed(parsed: &SlashParse) -> (r: bool)
    ensures
        r == (match *parsed {
            SlashParse::NotCommand => false,
            SlashParse::Error(_) => true,
            SlashParse::Command(c) => only_tells(c.action, text::views(c.args@)),
        }),
{
    match parsed {
        SlashParse::NotCommand => false,
        SlashParse::Error(_) => true,
        SlashParse::Command(c) => match c.action {
            SlashAction::Help => true,
            SlashAction::Run => true,
            SlashAction::Status => true,
            SlashAction::Sessions => true,
            SlashAction::Ping => true,
            SlashAction::Mcp => c.args.len() == 1 && (text::same(c.args[0].as_str(), "list")
                || text::same(c.args[0].as_str(), "status")),
            _ => false,
        },
    }
}

/// What the editor is told where it may not send a command.
pub const READ_ONLY_COMMANDS: &'static str =
    "ACP 入口仅支持只读 slash 命令：/help、/run、/status、/sessions、/ping、/mcp list、/mcp status。会话切换请使用 ACP session/new 或 session/load。";

/// The line of a session.
pub open spec fn session_line(s: SessionInfoView, number: nat) -> Seq<char> {
    text::decimal(number) + ". "@ + s.id + " · "@ + text::decimal(s.message_count as nat)
        + " 条消息 · "@ + (match s.preview {
        Some(p) => p,
        None => "无摘要"@,
    })
}

/// The lines of sessions.
pub open spec fn session_lines(v: Seq<SessionInfoView>) -> Seq<Seq<char>> {
    Seq::new(v.len(), |i: int| session_line(v[i], (i + 1) as nat))
}

fn list_sessions(sessions: &Vec<SessionInfo>) -> (r: String)
    ensures
        r@ == text::join(session_lines(sessions::session_views(sessions@)), "\n"@),
{
    let ghost all = sessions::session_views(sessions@);
    let ghost wanted = session_lines(all);
    let mut out: Vec<String> = Vec::new();
    let mut i: usize = 0;
    assert(text::views(out@) =~= wanted.take(0));
    while i < sessions.len()
        invariant
            i <= sessions@.len(),
            all == sessions::session_views(sessions@),
            wanted == session_lines(all),
            text::views(out@) == wanted.take(i as int),
        decreases sessions@.len() - i,
    {
        let mut line = two(text::decimal_text((i + 1) as u64).as_str(), ". ");
        line.append(sessions[i].id.as_str());
        line.append(" · ");
        line.append(text::decimal_text(sessions[i].message_count as u64).as_str());
        line.append(" 条消息 · ");
        match &sessions[i].preview {
            Some(p) => line.append(p.as_str()),
            None => line.append("无摘要"),
        }
        let ghost before = text::views(out@);
        let ghost said = line@;
        out.push(line);
        assert(text::views(out@) =~= before.push(said));
        assert(said =~= wanted[i as int]);
        assert(wanted.take(i + 1) =~= wanted.take(i as int).push(wanted[i as int]));
        i = i + 1;
    }
    assert(wanted.take(i as int) =~= wanted);
    text::join_texts(&out, "\n")
}

/// What the editor is told for the answer to a command.
pub fn render_acp_slash_response(response: SlashResponse) -> (r: String)
    ensures
        r@ == (match response {
            SlashResponse::Text { content } => content@,
            SlashResponse::Sessions { sessions, .. } => if sessions@.len() == 0 {
                "暂无会话记录。"@
            } else {
                text::join(session_lines(sessions::session_views(sessions@)), "\n"@)
            },
            SlashResponse::Exit => "ACP 入口不支持 /exit。"@,
            SlashResponse::SessionChanged { message, .. } => message@,
        }),
{
    match response {
        SlashResponse::Text { content } => content,
        SlashResponse::Sessions { sessions, .. } => {
            if sessions.len() == 0 {
                "暂无会话记录。".to_owned()
            } else {
                list_sessions(&sessions)
            }
        },
        SlashResponse::Exit => "ACP 入口不支持 /exit。".to_owned(),
        SlashResponse::SessionChanged { message, .. } => message,
    }
}

/// What the editor is told of a session.
#[derive(Debug)]
pub enum SessionUpdate {
    UserMessageChunk(String),
    AgentMessageChunk(String),
    /// A tool call is in progress.
    ToolCall { id: String, title: String },
    /// A tool call has ended.
    ToolCallUpdate { id: String, completed: bool, output: String, raw_output: Json },
}

/// What the editor is told of a session.
pub enum UpdateView {
    UserMessageChunk(Seq<char>),
    AgentMessageChunk(Seq<char>),
    ToolCall { id: Seq<char>, title: Seq<char> },
    ToolCallUpdate { id: Seq<char>, completed: bool, output: Seq<char>, raw_output: JsonView },
}

impl View for SessionUpdate {
    type V = UpdateView;

    open spec fn view(&self) -> UpdateView {
        match *self {
            SessionUpdate::UserMessageChunk(s) => UpdateView::UserMessageChunk(s@),
            SessionUpdate::AgentMessageChunk(s) => UpdateView::AgentMessageChunk(s@),
            SessionUpdate::ToolCall { id, title } => UpdateView::ToolCall {
                id: id@,
                title: title@,
            },
            SessionUpdate::ToolCallUpdate { id, completed, output, raw_output } => {
                UpdateView::ToolCallUpdate {
                    id: id@,
                    completed,
                    output: output@,
                    raw_output: raw_output@,
                }
            },
        }
    }
}

/// What is kept of a tool call that has ended.
pub open spec fn raw_output_of(data: JsonView) -> JsonView {
    JsonView::Object(
        seq![
            ("output"@, JsonView::Str(frames::str_or(data, "output"@, ""@))),
            ("round"@, json::at_key(data, "round"@)),
            ("duration_ms"@, json::at_key(data, "duration_ms"@)),
            ("success"@, JsonView::Bool(cli::succeeded(data))),
            ("error"@, json::at_key(data, "error"@)),
        ],
    )
}

/// What the editor is told of an event, if anything.
pub open spec fn update_of(e: EventView) -> Option<UpdateView> {
    match e.event {
        EventKind::TextDelta => Some(
            UpdateView::AgentMessageChunk(frames::str_or(e.data, "delta"@, ""@)),
        ),
        EventKind::ToolStarted => Some(
            UpdateView::ToolCall {
                id: frames::str_or(e.data, "tool_call_id"@, "unknown"@),
                title: frames::str_or(e.data, "name"@, "unknown"@),
            },
        ),
        EventKind::ToolFinished => Some(
            UpdateView::ToolCallUpdate {
                id: frames::str_or(e.data, "tool_call_id"@, "unknown"@),
                completed: cli::succeeded(e.data),
                output: frames::str_or(e.data, "output"@, ""@),
                raw_output: raw_output_of(e.data),
            },
        ),
        _ => None,
    }
}

fn str_or(data: &Json, key: &str, other: &str) -> (r: String)
    ensures
        r@ == frames::str_or(data@, key@, other@),
{
    match data.str_at(key) {
        Some(s) => s.to_owned(),
        None => other.to_owned(),
    }
}

fn copy_at(data: &Json, key: &str) -> (r: Json)
    ensures
        r@ == json::at_key(data@, key@),
{
    match data.get(key) {
        Some(v) => v.clone(),
        None => Json::Null,
    }
}

/// The view of an optional update.
pub open spec fn opt_update(u: Option<SessionUpdate>) -> Option<UpdateView> {
    match u {
        Some(v) => Some(v@),
        None => None,
    }
}

/// What the editor is told of an event, if anything.
pub fn forward_event(event: &EventFrame) -> (r: Option<SessionUpdate>)
    ensures
        opt_update(r) == update_of(event@),
{
    let data = &event.data;
    match event.event {
        EventKind::TextDelta => Some(
            SessionUpdate::AgentMessageChunk(str_or(data, "delta", "")),
        ),
        EventKind::ToolStarted => Some(
            SessionUpdate::ToolCall {
                id: str_or(data, "tool_call_id", "unknown"),
                title: str_or(data, "name", "unknown"),
            },
        ),
        EventKind::ToolFinished => {
            let success = match data.bool_at("success") {
                Some(b) => b,
                None => true,
            };
            let output = str_or(data, "output", "");
            let mut f = json::no_fields();
            json::put(&mut f, "output", Json::Str(output.clone()));
            json::put(&mut f, "round", copy_at(data, "round"));
            json::put(&mut f, "duration_ms", copy_at(data, "duration_ms"));
            json::put(&mut f, "success", Json::Bool(success));
            json::put(&mut f, "error", copy_at(data, "error"));
            assert(json::fields_view(f@) =~= raw_output_of(data@)->Object_0);
            Some(
                SessionUpdate::ToolCallUpdate {
                    id: str_or(data, "tool_call_id", "unknown"),
                    completed: success,
                    output,
                    raw_output: json::object(f),
                },
            )
        },
        _ => None,
    }
}

/// How a turn of the editor ends.
#[derive(Clone, Copy, Debug, PartialEq, Eq, Structural)]
pub enum StopReason {
    EndTurn,
    Cancelled,
}

/// What is to be done for a frame.
#[derive(Debug)]
pub enum PromptStep {
    Nothing,
    /// Tell the editor.
    Tell(SessionUpdate),
    /// Ask the editor, and send its answer.
    Ask(Question),
    /// The turn has ended.
    Done(StopReason),
    /// The turn has failed.
    Fail(AcpFailure),
}

/// What is to be done for a frame.
pub enum PromptView {
    Nothing,
    Tell(UpdateView),
    Ask { approval_id: Seq<char>, prompt: Seq<char> },
    Done(StopReason),
    Fail(AcpFailureView),
}

impl View for PromptStep {
    type V = PromptView;

    open spec fn view(&self) -> PromptView {
        match *self {
            PromptStep::Nothing => PromptView::Nothing,
            PromptStep::Tell(u) => PromptView::Tell(u@),
            PromptStep::Ask(q) => PromptView::Ask {
                approval_id: q.approval_id@,
                prompt: q.prompt@,
            },
            PromptStep::Done(s) => PromptView::Done(s),
            PromptStep::Fail(e) => PromptView::Fail(e@),
        }
    }
}

/// How a turn ends.
pub open spec fn prompt_end(r: ResponseView) -> PromptView {
    match r.error {
        Some(e) => if e.code == REQUEST_CANCELLED {
            PromptView::Done(StopReason::Cancelled)
        } else {
            PromptView::Fail(
                AcpFailureView::Rpc {
                    code: if i32::MIN <= e.code <= i32::MAX {
                        e.code as i32
                    } else {
                        ACP_INTERNAL_ERROR
                    },
                    message: e.message,
                },
            )
        },
        None => PromptView::Done(StopReason::EndTurn),
    }
}

/// What is to be done for a frame. A question that is asked elsewhere is left alone.
pub open spec fn prompt_frame(f: FrameView, ignored: Seq<Seq<char>>) -> PromptView {
    match f {
        FrameView::Event(e) => if e.event == EventKind::ApprovalRequired {
            let id = json::str_of(json::at_key(json::at_key(e.data, "approval"@), "id"@));
            if id is Some && ignored.contains(id->0) {
                PromptView::Nothing
            } else {
                match cli::question_in(e.data) {
                    Ok(q) => PromptView::Ask { approval_id: q.0, prompt: q.1 },
                    Err(m) => PromptView::Fail(AcpFailureView::Internal(m)),
                }
            }
        } else {
            match update_of(e) {
                Some(u) => PromptView::Tell(u),
                None => PromptView::Nothing,
            }
        },
        FrameView::Response(r) => prompt_end(r),
    }
}

fn end_prompt(response: JsonRpcResponse) -> (r: PromptStep)
    ensures
        r@ == prompt_end(response@),
{
    match response.error {
        Some(e) => {
            if e.code == REQUEST_CANCELLED {
                return PromptStep::Done(StopReason::Cancelled);
            }
            let code: i32 = if -2147483648 <= e.code && e.code <= 2147483647 {
                e.code as i32
            } else {
                ACP_INTERNAL_ERROR
            };
            PromptStep::Fail(AcpFailure::Rpc { code, message: e.message })
        },
        None => PromptStep::Done(StopReason::EndTurn),
    }
}

/// The text of the failure when the daemon goes away.
pub const PROMPT_CLOSED: &'static str = "daemon 在终态响应前断开";

/// What is to be done for a frame.
pub fn forward_prompt_frame(frame: ServerFrame, ignored: &Vec<String>) -> (r: PromptStep)
    ensures
        r@ == prompt_frame(frame@, text::views(ignored@)),
{
    match frame {
        ServerFrame::Event(event) => {
            if event.event == EventKind::ApprovalRequired {
                let id = match event.data.get("approval") {
                    Some(a) => a.str_at("id"),
                    None => None,
                };
                if let Some(id) = id {
                    if text::contains_text(ignored, id) {
                        return PromptStep::Nothing;
                    }
                }
                match cli::read_question(&event.data) {
                    Ok(q) => PromptStep::Ask(q),
                    Err(m) => PromptStep::Fail(AcpFailure::Internal(m)),
                }
            } else {
                match forward_event(&event) {
                    Some(u) => PromptStep::Tell(u),
                    None => PromptStep::Nothing,
                }
            }
        },
        ServerFrame::Response(response) => end_prompt(response),
    }
}

/// A question that is left alone is neither asked nor told.
pub proof fn law_ignored_questions_are_left_alone(e: EventView, ignored: Seq<Seq<char>>)
    requires
        e.event == EventKind::ApprovalRequired,
    ensures
        prompt_frame(FrameView::Event(e), ignored) matches PromptView::Ask { approval_id, .. }
            ==> !ignored.contains(approval_id),
        !(prompt_frame(FrameView::Event(e), ignored) is Tell),
{
}

/// A choice that the editor offers for a question.
#[derive(Debug)]
pub struct PermissionChoice {
    pub id: &'static str,
    pub name: &'static str,
    pub allows: bool,
}

/// The choices that the editor offers for a question: to allow it once, and to reject it once.
pub fn permission_choices() -> (r: Vec<PermissionChoice>)
    ensures
        r@.len() == 2,
        r@[0].id@ == "allow_once"@ && r@[0].name@ == "允许一次"@ && r@[0].allows,
        r@[1].id@ == "reject_once"@ && r@[1].name@ == "拒绝一次"@ && !r@[1].allows,
{
    let mut r: Vec<PermissionChoice> = Vec::new();
    r.push(PermissionChoice { id: "allow_once", name: "允许一次", allows: true });
    r.push(PermissionChoice { id: "reject_once", name: "拒绝一次", allows: false });
    r
}

/// The choice of the editor allows what was asked.
pub fn permission_granted(selected: Option<&str>) -> (r: bool)
    ensures
        r == (json::opt_view(selected) == Some("allow_once"@)),
{
    match selected {
        Some(id) => text::same(id, "allow_once"),
        None => false,
    }
}

/// What the editor is told of a message of the history, if anything.
pub open spec fn replayed(m: MessageView) -> Option<UpdateView> {
    match m.content {
        Some(c) => if c.len() == 0 {
            None
        } else {
            match m.role {
                Role::User => Some(UpdateView::UserMessageChunk(c)),
                Role::Assistant => Some(UpdateView::AgentMessageChunk(c)),
                Role::Tool => Some(UpdateView::AgentMessageChunk(c)),
                Role::System => None,
            }
        },
        None => None,
    }
}

/// What the editor is told of the history.
pub open spec fn replay_of(v: Seq<MessageView>) -> Seq<UpdateView>
    decreases v.len(),
{
    if v.len() == 0 {
        Seq::empty()
    } else {
        match replayed(v.last()) {
            Some(u) => replay_of(v.drop_last()).push(u),
            None => replay_of(v.drop_last()),
        }
    }
}

/// What updates say.
pub open spec fn update_views(v: Seq<SessionUpdate>) -> Seq<UpdateView> {
    Seq::new(v.len(), |i: int| v[i]@)
}

fn replay_message(message: &Message) -> (r: Option<SessionUpdate>)
    ensures
        opt_update(r) == replayed(message@),
{
    match &message.content {
        Some(c) => {
            let chars = text::chars_of(c.as_str());
            if chars.len() == 0 {
                return None;
            }
            match message.role {
                Role::User => Some(SessionUpdate::UserMessageChunk(c.clone())),
                Role::Assistant => Some(SessionUpdate::AgentMessageChunk(c.clone())),
                Role::Tool => Some(SessionUpdate::AgentMessageChunk(c.clone())),
                Role::System => None,
            }
        },
        None => None,
    }
}

/// What the editor is told of the history.
pub fn replay_history(messages: &Vec<Message>) -> (r: Vec<SessionUpdate>)
    ensures
        update_views(r@) == replay_of(provider::message_views(messages@)),
{
    let ghost all = provider::message_views(messages@);
    let mut out: Vec<SessionUpdate> = Vec::new();
    let mut i: usize = 0;
    assert(all.take(0) =~= Seq::<MessageView>::empty());
    assert(update_views(out@) =~= Seq::<UpdateView>::empty());
    while i < messages.len()
        invariant
            i <= messages@.len(),
            all == provider::message_views(messages@),
            update_views(out@) == replay_of(all.take(i as int)),
        decreases messages@.len() - i,
    {
        proof {
            assert(all.take(i + 1).drop_last() =~= all.take(i as int));
            assert(all.take(i + 1).last() == messages@[i as int]@);
        }
        if let Some(u) = replay_message(&messages[i]) {
            let ghost before = update_views(out@);
            let ghost said = u@;
            out.push(u);
            assert(update_views(out@) =~= before.push(said));
        }
        i = i + 1;
    }
    assert(all.take(i as int) =~= all);
    out
}

/// The questions that are open when a session is loaded: each is asked of the editor.
pub open spec fn pending_questions(v: Seq<approval::ApprovalView>) -> Seq<(Seq<char>, Seq<char>)> {
    Seq::new(v.len(), |i: int| (v[i].id, v[i].prompt))
}

/// What questions ask.
pub open spec fn question_views(v: Seq<Question>) -> Seq<(Seq<char>, Seq<char>)> {
    Seq::new(v.len(), |i: int| (v[i].approval_id@, v[i].prompt@))
}

/// The questions that are open when a session is loaded.
pub fn recover_pending_approvals(approvals: &Vec<PendingApprovalInfo>) -> (r: Vec<Question>)
    ensures
        question_views(r@) == pending_questions(approval::info_views(approvals@)),
{
    let ghost all = approval::info_views(approvals@);
    let ghost wanted = pending_questions(all);
    let mut out: Vec<Question> = Vec::new();
    let mut i: usize = 0;
    assert(question_views(out@) =~= wanted.take(0));
    while i < approvals.len()
        invariant
            i <= approvals@.len(),
            all == approval::info_views(approvals@),
            wanted == pending_questions(all),
            question_views(out@) == wanted.take(i as int),
        decreases approvals@.len() - i,
    {
        let q = Question {
            approval_id: approvals[i].id.clone(),
            prompt: approvals[i].prompt.clone(),
        };
        let ghost before = question_views(out@);
        let ghost said = (q.approval_id@, q.prompt@);
        out.push(q);
        assert(question_views(out@) =~= before.push(said));
        assert(wanted[i as int] == said);
        assert(wanted.take(i + 1) =~= wanted.take(i as int).push(wanted[i as int]));
        i = i + 1;
    }
    assert(wanted.take(i as int) =~= wanted);
    out
}

/// Reading back: what is told of a place that is not the workspace, field by field.
pub proof fn law_wrong_place_reads_back(requested: Seq<char>, workspace: Seq<char>)
    ensures
        json::at_key(wrong_place(requested, workspace), "message"@)
            == JsonView::Str("ACP cwd 必须与 daemon 工作区一致"@),
        json::at_key(wrong_place(requested, workspace), "requested"@) == JsonView::Str(requested),
        json::at_key(wrong_place(requested, workspace), "workspace"@) == JsonView::Str(workspace),
{
    reveal_strlit("message");
    reveal_strlit("requested");
    reveal_strlit("workspace");
    assert("message"@.len() != "requested"@.len());
    assert("message"@.len() != "workspace"@.len());
    assert("requested"@[0] != "workspace"@[0]);
    json::lemma_field_at(wrong_place(requested, workspace), "message"@, 0);
    json::lemma_field_at(wrong_place(requested, workspace), "requested"@, 1);
    json::lemma_field_at(wrong_place(requested, workspace), "workspace"@, 2);
}

/// Reading back: what is kept of a tool call that has ended, field by field.
pub proof fn law_raw_output_of_reads_back(data: JsonView)
    ensures
        json::at_key(raw_output_of(data), "output"@)
            == JsonView::Str(frames::str_or(data, "output"@, ""@)),
        json::at_key(raw_output_of(data), "round"@) == json::at_key(data, "round"@),
        json::at_key(raw_output_of(data), "duration_ms"@) == json::at_key(data, "duration_ms"@),
        json::at_key(raw_output_of(data), "success"@) == JsonView::Bool(cli::succeeded(data)),
        json::at_key(raw_output_of(data), "error"@) == json::at_key(data, "error"@),
{
    reveal_strlit("duration_ms");
    reveal_strlit("error");
    reveal_strlit("output");
    reveal_strlit("round");
    reveal_strlit("success");
    assert("output"@.len() != "round"@.len());
    assert("output"@.len() != "duration_ms"@.len());
    assert("round"@.len() != "duration_ms"@.len());
    assert("output"@.len() != "success"@.len());
    assert("round"@.len() != "success"@.len());
    assert("duration_ms"@.len() != "success"@.len());
    assert("output"@.len() != "error"@.len());
    assert("round"@[0] != "error"@[0]);
    assert("duration_ms"@.len() != "error"@.len());
    assert("success"@.len() != "error"@.len());
    json::lemma_field_at(raw_output_of(data), "output"@, 0);
    json::lemma_field_at(raw_output_of(data), "round"@, 1);
    json::lemma_field_at(raw_output_of(data), "duration_ms"@, 2);
    json::lemma_field_at(raw_output_of(data), "success"@, 3);
    json::lemma_field_at(raw_output_of(data), "error"@, 4);
}

/// A prompt is the text of its blocks, one to a line and in order; a block that cannot be
/// shown, or a prompt that says nothing, is refused.
pub proof fn law_prompts_of_blocks(v: Seq<BlockView>, s: Seq<char>)
    ensures
        prompt_of(v) is Ok <==> (forall|i: int| 0 <= i < v.len() ==> !((#[trigger] v[i]) is Other))
            && !text::blank(text::join(block_texts(v), "\n"@)),
        prompt_of(v) matches Ok(p) ==> p == text::join(block_texts(v), "\n"@),
        block_texts(v).len() == v.len(),
        block_text(BlockView::Text(s)) == s,
        !text::blank(s) ==> prompt_of(seq![BlockView::Text(s)]) == Ok::<Seq<char>, Seq<char>>(s),
{
    let one = seq![BlockView::Text(s)];
    assert(block_texts(one) =~= seq![s]);
    assert(!has_other(one));
}

/// A link is shown with its name and its address.
pub proof fn law_links_are_shown(name: Seq<char>, uri: Seq<char>)
    ensures
        text::has_text(block_text(BlockView::ResourceLink { name, uri }), name),
        text::has_text(block_text(BlockView::ResourceLink { name, uri }), uri),
{
    let t = block_text(BlockView::ResourceLink { name, uri });
    let a = "[资源："@.len() as int;
    assert(t.subrange(a, a + name.len()) =~= name);
    assert(text::occurs_at(t, name, a));
    let b = a + name.len() + "]("@.len();
    assert(t.subrange(b, b + uri.len()) =~= uri);
    assert(text::occurs_at(t, uri, b));
}

/// Two paths name one place in either order, a path names its own place, and a path from the
/// root never names the place of one that is not.
pub proof fn law_places(a: Seq<char>, b: Seq<char>, c: Seq<char>)
    ensures
        same_place(a, a),
        same_place(a, b) ==> same_place(b, a),
        same_place(a, b) && same_place(b, c) ==> same_place(a, c),
        is_rooted(a) && !is_rooted(b) ==> !same_place(a, b),
{
}

/// Commands that only tell something may be run in an editor; those that change anything may
/// not.
pub proof fn law_editors_only_ask(action: SlashAction, args: Seq<Seq<char>>)
    ensures
        only_tells(action, args) ==> action is Help || action is Run || action is Status || action
            is Sessions || action is Ping || action is Mcp,
        action is Permissions || action is Models || action is Cron || action is Skill || action is New
            || action is Exit ==> !only_tells(action, args),
        action is Mcp && only_tells(action, args) ==> args.len() == 1,
        action is Help || action is Run || action is Status || action is Sessions || action is Ping
            ==> only_tells(action, args),
        action is Mcp ==> (only_tells(action, args) <==> args.len() == 1 && (args[0] == "list"@
            || args[0] == "status"@)),
{
}

/// What happens in a turn is told to the editor as it is: text as a piece of the answer, a
/// tool as a call under its own identifier, and its end with how it went and what it gave.
pub proof fn law_editors_are_told(e: EventView)
    ensures
        e.event == EventKind::TextDelta ==> (json::at_key(e.data, "delta"@) matches JsonView::Str(d)
            ==> update_of(e) == Some(UpdateView::AgentMessageChunk(d))),
        e.event == EventKind::ToolStarted ==> (update_of(e) matches Some(UpdateView::ToolCall {
            id,
            title,
        }) && (json::at_key(e.data, "tool_call_id"@) matches JsonView::Str(s) ==> id == s) && (
        json::at_key(e.data, "name"@) matches JsonView::Str(s) ==> title == s)),
        e.event == EventKind::ToolFinished ==> (update_of(e) matches Some(
            UpdateView::ToolCallUpdate { id, completed, output, raw_output },
        ) && (json::at_key(e.data, "tool_call_id"@) matches JsonView::Str(s) ==> id == s) && (
        completed <==> json::at_key(e.data, "success"@) != JsonView::Bool(false)) && (json::at_key(
            e.data,
            "output"@,
        ) matches JsonView::Str(s) ==> output == s)),
        update_of(e) is Some <==> e.event == EventKind::TextDelta || e.event
            == EventKind::ToolStarted || e.event == EventKind::ToolFinished,
{
}

/// A prompt ends as its reply says: well, cancelled where it was cancelled, or with the error.
pub proof fn law_prompts_end(r: ResponseView)
    ensures
        r.error is None <==> prompt_end(r) == PromptView::Done(StopReason::EndTurn),
        r.error is Some && r.error->0.code == REQUEST_CANCELLED ==> prompt_end(r)
            == PromptView::Done(StopReason::Cancelled),
        r.error is Some && r.error->0.code != REQUEST_CANCELLED ==> (prompt_end(
            r,
        ) matches PromptView::Fail(AcpFailureView::Rpc { code, message }) && message
            == r.error->0.message && (i32::MIN <= r.error->0.code <= i32::MAX ==> code
            == r.error->0.code)),
{
}

/// A conversation is replayed message by message and in order: what the user said as theirs,
/// what the assistant and the tools said as the agent's; what says nothing, and the system,
/// is left out.
pub proof fn law_conversations_are_replayed(a: Seq<MessageView>, b: Seq<MessageView>, m: MessageView)
    ensures
        replay_of(a + b) == replay_of(a) + replay_of(b),
        m.content is Some && m.content->0.len() > 0 && m.role is User ==> replay_of(seq![m])
            == seq![UpdateView::UserMessageChunk(m.content->0)],
        m.content is Some && m.content->0.len() > 0 && (m.role is Assistant || m.role is Tool)
            ==> replay_of(seq![m]) == seq![UpdateView::AgentMessageChunk(m.content->0)],
        m.content is None || m.content->0.len() == 0 || m.role is System ==> replay_of(
            seq![m],
        ).len() == 0,
    decreases b.len(),
{
    assert(seq![m].drop_last() =~= Seq::<MessageView>::empty());
    reveal_with_fuel(replay_of, 2);
    if replayed(m) is Some {
        assert(replay_of(seq![m]) =~= seq![replayed(m)->0]);
    }
    if b.len() == 0 {
        assert(a + b =~= a);
    } else {
        law_conversations_are_replayed(a, b.drop_last(), m);
        assert((a + b).drop_last() =~= a + b.drop_last());
        assert((a + b).last() == b.last());
    }
    assert(replay_of(a + b) =~= replay_of(a) + replay_of(b));
}

/// The questions that wait are asked again under their own identifiers, in order.
pub proof fn law_waiting_questions_are_asked(v: Seq<approval::ApprovalView>, i: int)
    requires
        0 <= i < v.len(),
    ensures
        pending_questions(v).len() == v.len(),
        pending_questions(v)[i].0 == v[i].id,
        pending_questions(v)[i].1 == v[i].prompt,
{
}

/// The line of a session tells its number, its identifier and its preview; there is one for
/// each.
pub proof fn law_editor_session_lines(v: Seq<SessionInfoView>, s: SessionInfoView, number: nat)
    ensures
        (text::decimal(number) + ". "@ + s.id).is_prefix_of(session_line(s, number)),
        s.preview is Some ==> s.preview->0.is_suffix_of(session_line(s, number)),
        session_lines(v).len() == v.len(),
        forall|i: int|
            0 <= i < v.len() ==> (text::decimal((i + 1) as nat) + ". "@ + v[i].id).is_prefix_of(
                #[trigger] session_lines(v)[i],
            ),
{
    lemma_session_line(s, number);
    assert forall|i: int| 0 <= i < v.len() implies (text::decimal((i + 1) as nat) + ". "@
        + v[i].id).is_prefix_of(#[trigger] session_lines(v)[i]) by {
        lemma_session_line(v[i], (i + 1) as nat);
    }
}

proof fn lemma_session_line(s: SessionInfoView, number: nat)
    ensures
        (text::decimal(number) + ". "@ + s.id).is_prefix_of(session_line(s, number)),
        s.preview is Some ==> s.preview->0.is_suffix_of(session_line(s, number)),
{
    let l = session_line(s, number);
    let h = text::decimal(number) + ". "@ + s.id;
    assert(l.subrange(0, h.len() as int) =~= h);
    if s.preview is Some {
        let p = s.preview->0;
        assert(l.subrange(l.len() - p.len(), l.len() as int) =~= p);
    }
}

/// A slash at the end of a path does not change the place it names.
pub proof fn law_a_last_slash_names_the_same_place(path: Seq<char>)
    requires
        path.len() > 0,
    ensures
        same_place(path, path.push('/')),
{
    lemma_parts_with_slash(path, 0);
    assert(path.push('/')[0] == path[0]);
}

proof fn lemma_parts_with_slash(path: Seq<char>, from: int)
    requires
        0 <= from <= path.len(),
    ensures
        parts_from(path.push('/'), from) == parts_from(path, from),
    decreases path.len() - from,
{
    let s = path.push('/');
    lemma_part_end(path, from);
    lemma_part_end(s, from);
    lemma_end_with_slash(path, from);
    let end = part_end(path, from);
    assert(s.subrange(from, end) =~= path.subrange(from, end));
    if end < path.len() {
        lemma_parts_with_slash(path, end + 1);
    } else {
        assert(parts_from(path, end + 1) =~= Seq::empty());
        lemma_part_end(s, end + 1);
        assert(s.subrange(end + 1, end + 1) =~= Seq::<char>::empty());
        assert(parts_from(s, s.len() as int + 1) =~= Seq::empty());
        assert(part_end(s, end + 1) == end + 1);
        assert(parts_from(s, end + 1) =~= Seq::empty());
    }
}

proof fn lemma_end_with_slash(path: Seq<char>, from: int)
    requires
        0 <= from <= path.len(),
    ensures
        part_end(path.push('/'), from) == part_end(path, from),
    decreases path.len() - from,
{
    if from < path.len() && path[from] != '/' {
        lemma_end_with_slash(path, from + 1);
    }
}

/// A question is asked unless it was asked before; one that cannot be read fails. Every other
/// event is told as its update says, where it has one.
pub proof fn law_events_of_a_prompt(e: EventView, ignored: Seq<Seq<char>>)
    ensures
        e.event == EventKind::ApprovalRequired ==> ({
            let id = json::at_key(json::at_key(e.data, "approval"@), "id"@);
            &&& (id matches JsonView::Str(s) && ignored.contains(s)) ==> prompt_frame(
                FrameView::Event(e),
                ignored,
            ) is Nothing
            &&& !(id matches JsonView::Str(s) && ignored.contains(s)) ==> (prompt_frame(
                FrameView::Event(e),
                ignored,
            ) is Ask <==> cli::question_in(e.data) is Ok) && (prompt_frame(
                FrameView::Event(e),
                ignored,
            ) is Fail <==> cli::question_in(e.data) is Err)
        }),
        e.event != EventKind::ApprovalRequired ==> (prompt_frame(FrameView::Event(e), ignored)
            is Nothing <==> update_of(e) is None),
        e.event != EventKind::ApprovalRequired && update_of(e) is Some ==> prompt_frame(
            FrameView::Event(e),
            ignored,
        ) == PromptView::Tell(update_of(e)->0),
{
}

} // verus!
