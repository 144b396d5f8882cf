//! The messages that pass between the agent and a model.
use vstd::prelude::*;

use crate::json;
use crate::json::{Json, JsonView};
use crate::text;

verus! {

/// Who speaks in a message.
#[derive(Clone, Copy, Debug, PartialEq, Eq, Structural)]
pub enum Role {
    System,
    User,
    Assistant,
    Tool,
}

/// A tool call that a model asks for.
#[derive(Debug)]
pub struct ToolCall {
    pub id: String,
    pub name: String,
    pub arguments: Json,
}

/// What a tool call says.
pub struct ToolCallView {
    pub id: Seq<char>,
    pub name: Seq<char>,
    pub arguments: JsonView,
}

impl View for ToolCall {
    type V = ToolCallView;

    open spec fn view(&self) -> ToolCallView {
        ToolCallView { id: self.id@, name: self.name@, arguments: self.arguments@ }
    }
}

impl Clone for ToolCall {
    fn clone(&self) -> (r: Self)
        ensures
            r@ == self@,
    {
        ToolCall {
            id: self.id.clone(),
            name: self.name.clone(),
            arguments: self.arguments.clone(),
        }
    }
}

/// What a list of tool calls says.
pub open spec fn call_views(calls: Seq<ToolCall>) -> Seq<ToolCallView> {
    Seq::new(calls.len(), |i: int| calls[i]@)
}

/// A copy of a list of tool calls.
pub fn clone_calls(calls: &Vec<ToolCall>) -> (r: Vec<ToolCall>)
    ensures
        call_views(r@) == call_views(calls@),
{
    let mut out: Vec<ToolCall> = Vec::new();
    let mut i: usize = 0;
    while i < calls.len()
        invariant
            i <= calls@.len(),
            call_views(out@) == call_views(calls@).take(i as int),
        decreases calls@.len() - i,
    {
        let ghost before = call_views(out@);
        let c = calls[i].clone();
        out.push(c);
        assert(call_views(out@) =~= before.push(c@));
        assert(call_views(calls@).take(i + 1) =~= call_views(calls@).take(i as int).push(c@));
        i = i + 1;
    }
    assert(call_views(calls@).take(i as int) =~= call_views(calls@));
    out
}

/// A copy of a list of texts.
pub fn clone_texts(texts: &Vec<String>) -> (r: Vec<String>)
    ensures
        text::views(r@) == text::views(texts@),
{
    let mut out: Vec<String> = Vec::new();
    let mut i: usize = 0;
    while i < texts.len()
        invariant
            i <= texts@.len(),
            text::views(out@) == text::views(texts@).take(i as int),
        decreases texts@.len() - i,
    {
        let ghost before = text::views(out@);
        let c = texts[i].clone();
        out.push(c);
        assert(text::views(out@) =~= before.push(c@));
        assert(text::views(texts@).take(i + 1) =~= text::views(texts@).take(i as int).push(c@));
        i = i + 1;
    }
    assert(text::views(texts@).take(i as int) =~= text::views(texts@));
    out
}

/// A copy of an optional text.
pub fn clone_opt(s: &Option<String>) -> (r: Option<String>)
    ensures
        json::opt_text(r) == json::opt_text(*s),
{
    match s {
        Some(t) => Some(t.clone()),
        None => None,
    }
}

/// One message of a conversation.
#[derive(Debug)]
pub struct Message {
    pub role: Role,
    pub content: Option<String>,
    pub thinking: Option<String>,
    pub tool_calls: Vec<ToolCall>,
    pub tool_call_id: Option<String>,
    pub image_urls: Vec<String>,
}

/// What a message says.
pub struct MessageView {
    pub role: Role,
    pub content: Option<Seq<char>>,
    pub thinking: Option<Seq<char>>,
    pub tool_calls: Seq<ToolCallView>,
    pub tool_call_id: Option<Seq<char>>,
    pub image_urls: Seq<Seq<char>>,
}

impl View for Message {
    type V = MessageView;

    open spec fn view(&self) -> MessageView {
        MessageView {
            role: self.role,
            content: json::opt_text(self.content),
            thinking: json::opt_text(self.thinking),
            tool_calls: call_views(self.tool_calls@),
            tool_call_id: json::opt_text(self.tool_call_id),
            image_urls: text::views(self.image_urls@),
        }
    }
}

impl Clone for Message {
    fn clone(&self) -> (r: Self)
        ensures
            r@ == self@,
    {
        Message {
            role: self.role,
            content: clone_opt(&self.content),
            thinking: clone_opt(&self.thinking),
            tool_calls: clone_calls(&self.tool_calls),
            tool_call_id: clone_opt(&self.tool_call_id),
            image_urls: clone_texts(&self.image_urls),
        }
    }
}

/// A message that only holds text.
pub open spec fn text_message(role: Role, content: Seq<char>) -> MessageView {
    MessageView {
        role,
        content: Some(content),
        thinking: None,
        tool_calls: Seq::empty(),
        tool_call_id: None,
        image_urls: Seq::empty(),
    }
}

/// The reply of a model in text.
pub open spec fn assistant_text(content: Seq<char>, thinking: Option<Seq<char>>) -> MessageView {
    MessageView { thinking, ..text_message(Role::Assistant, content) }
}

/// The reply of a model that asks for tool calls.
pub open spec fn assistant_calls(
    calls: Seq<ToolCallView>,
    thinking: Option<Seq<char>>,
) -> MessageView {
    MessageView {
        role: Role::Assistant,
        content: None,
        thinking,
        tool_calls: calls,
        tool_call_id: None,
        image_urls: Seq::empty(),
    }
}

/// The result of a tool call, paired with the call by its identifier.
pub open spec fn tool_result_message(call: ToolCallView, content: Seq<char>) -> MessageView {
    MessageView { tool_call_id: Some(call.id), ..text_message(Role::Tool, content) }
}

impl Message {
    /// A message that only holds text.
    pub fn text(role: Role, content: &str) -> (r: Self)
        ensures
            r@ == text_message(role, content@),
    {
        let r = Message {
            role,
            content: Some(content.to_owned()),
            thinking: None,
            tool_calls: Vec::new(),
            tool_call_id: None,
            image_urls: Vec::new(),
        };
        assert(r@.tool_calls =~= Seq::<ToolCallView>::empty());
        assert(r@.image_urls =~= Seq::<Seq<char>>::empty());
        r
    }

    /// The reply of a model in text.
    pub fn assistant_with_thinking(content: &str, thinking: Option<String>) -> (r: Self)
        ensures
            r@ == assistant_text(content@, json::opt_text(thinking)),
    {
        let mut r = Message::text(Role::Assistant, content);
        r.thinking = thinking;
        r
    }

    /// The reply of a model that asks for tool calls.
    pub fn assistant_tool_calls_with_thinking(
        calls: Vec<ToolCall>,
        thinking: Option<String>,
    ) -> (r: Self)
        ensures
            r@ == assistant_calls(call_views(calls@), json::opt_text(thinking)),
    {
        let r = Message {
            role: Role::Assistant,
            content: None,
            thinking,
            tool_calls: calls,
            tool_call_id: None,
            image_urls: Vec::new(),
        };
        assert(r@.image_urls =~= Seq::<Seq<char>>::empty());
        r
    }

    /// The result of a tool call.
    pub fn tool_result(call: &ToolCall, content: &str) -> (r: Self)
        ensures
            r@ == tool_result_message(call@, content@),
    {
        let mut r = Message::text(Role::Tool, content);
        r.tool_call_id = Some(call.id.clone());
        r
    }
}

/// What a conversation says.
pub open spec fn message_views(messages: Seq<Message>) -> Seq<MessageView> {
    Seq::new(messages.len(), |i: int| messages[i]@)
}

/// Adds a message at the end of a conversation.
pub fn push_message(messages: &mut Vec<Message>, message: Message)
    ensures
        message_views(final(messages)@) == message_views(old(messages)@).push(message@),
{
    let ghost before = messages@;
    messages.push(message);
    assert(message_views(messages@) =~= message_views(before).push(message@));
}

/// A copy of the messages from `from` up to, not including, `to`.
pub fn clone_messages(messages: &Vec<Message>, from: usize, to: usize) -> (r: Vec<Message>)
    requires
        from <= to <= messages@.len(),
    ensures
        message_views(r@) == message_views(messages@).subrange(from as int, to as int),
{
    let mut out: Vec<Message> = Vec::new();
    let ghost all = message_views(messages@);
    let mut i: usize = from;
    assert(message_views(out@) =~= all.subrange(from as int, from as int));
    while i < to
        invariant
            from <= i <= to <= messages@.len(),
            all == message_views(messages@),
            message_views(out@) == all.subrange(from as int, i as int),
        decreases to - i,
    {
        let m = messages[i].clone();
        push_message(&mut out, m);
        assert(all.subrange(from as int, i + 1) =~= all.subrange(from as int, i as int).push(m@));
        i = i + 1;
    }
    out
}

/// Puts two conversations together.
pub fn concat_messages(mut a: Vec<Message>, mut b: Vec<Message>) -> (r: Vec<Message>)
    ensures
        message_views(r@) == message_views(a@) + message_views(b@),
{
    let ghost x = a@;
    let ghost y = b@;
    a.append(&mut b);
    assert(message_views(a@) =~= message_views(x) + message_views(y));
    a
}

/// A batch of tool calls that could not be put together.
#[derive(Debug)]
pub struct AssemblyError {
    pub code: String,
    pub message: String,
}

/// What a model answered.
#[derive(Debug)]
pub enum Response {
    Text(String),
    ToolCalls(Vec<ToolCall>),
    ToolAssemblyFailed(AssemblyError),
}

/// A tool call as a document.
pub open spec fn call_json(call: ToolCallView) -> JsonView {
    JsonView::Object(
        seq![
            ("id"@, JsonView::Str(call.id)),
            ("name"@, JsonView::Str(call.name)),
            ("arguments"@, call.arguments),
        ],
    )
}

/// A list of tool calls as a document.
pub open spec fn calls_json(calls: Seq<ToolCallView>) -> JsonView {
    JsonView::Array(Seq::new(calls.len(), |i: int| call_json(calls[i])))
}

/// Writes a list of tool calls as a document.
pub fn calls_to_json(calls: &Vec<ToolCall>) -> (r: Json)
    ensures
        r@ == calls_json(call_views(calls@)),
{
    let mut items: Vec<Json> = Vec::new();
    let mut i: usize = 0;
    while i < calls.len()
        invariant
            i <= calls@.len(),
            items@.len() == i,
            forall|k: int| 0 <= k < i ==> (#[trigger] items@[k])@ == call_json(calls@[k]@),
        decreases calls@.len() - i,
    {
        let mut f = json::no_fields();
        json::put(&mut f, "id", Json::Str(calls[i].id.clone()));
        json::put(&mut f, "name", Json::Str(calls[i].name.clone()));
        json::put(&mut f, "arguments", calls[i].arguments.clone());
        assert(json::fields_view(f@) =~= call_json(calls@[i as int]@)->Object_0);
        items.push(json::object(f));
        i = i + 1;
    }
    assert(json::list_view(items@) =~= calls_json(call_views(calls@))->Array_0);
    json::array(items)
}

/// The name of a role.
pub open spec fn role_text(role: Role) -> Seq<char> {
    match role {
        Role::System => "system"@,
        Role::User => "user"@,
        Role::Assistant => "assistant"@,
        Role::Tool => "tool"@,
    }
}

/// The name of a role.
pub fn role_name(role: Role) -> (r: &'static str)
    ensures
        r@ == role_text(role),
{
    match role {
        Role::System => "system",
        Role::User => "user",
        Role::Assistant => "assistant",
        Role::Tool => "tool",
    }
}

/// A list of texts as a document.
pub open spec fn texts_json(v: Seq<Seq<char>>) -> JsonView {
    JsonView::Array(Seq::new(v.len(), |i: int| JsonView::Str(v[i])))
}

fn texts_to_json(v: &Vec<String>) -> (r: Json)
    ensures
        r@ == texts_json(text::views(v@)),
{
    let mut items: Vec<Json> = Vec::new();
    let mut i: usize = 0;
    while i < v.len()
        invariant
            i <= v@.len(),
            items@.len() == i,
            forall|k: int| 0 <= k < i ==> (#[trigger] items@[k])@ == JsonView::Str(v@[k]@),
        decreases v@.len() - i,
    {
        items.push(Json::Str(v[i].clone()));
        i = i + 1;
    }
    assert(json::list_view(items@) =~= texts_json(text::views(v@))->Array_0);
    json::array(items)
}

/// A message as a document: its role and its text, and what else it has.
pub open spec fn message_json(m: MessageView) -> JsonView {
    JsonView::Object(
        seq![
            ("role"@, JsonView::Str(role_text(m.role))),
            (
                "content"@,
                match m.content {
                    Some(s) => JsonView::Str(s),
                    None => JsonView::Null,
                },
            ),
        ] + (match m.thinking {
            Some(s) => seq![("thinking"@, JsonView::Str(s))],
            None => Seq::empty(),
        }) + (if m.tool_calls.len() > 0 {
            seq![("tool_calls"@, calls_json(m.tool_calls))]
        } else {
            Seq::empty()
        }) + (match m.tool_call_id {
            Some(s) => seq![("tool_call_id"@, JsonView::Str(s))],
            None => Seq::empty(),
        }) + (if m.image_urls.len() > 0 {
            seq![("image_urls"@, texts_json(m.image_urls))]
        } else {
            Seq::empty()
        }),
    )
}

/// Writes a message as a document.
pub fn message_to_json(m: &Message) -> (r: Json)
    ensures
        r@ == message_json(m@),
{
    let mut f = json::no_fields();
    json::put(&mut f, "role", Json::of_str(role_name(m.role)));
    let content = match &m.content {
        Some(s) => Json::Str(s.clone()),
        None => Json::Null,
    };
    json::put(&mut f, "content", content);
    if let Some(s) = &m.thinking {
        json::put(&mut f, "thinking", Json::Str(s.clone()));
    }
    if m.tool_calls.len() > 0 {
        json::put(&mut f, "tool_calls", calls_to_json(&m.tool_calls));
    }
    if let Some(s) = &m.tool_call_id {
        json::put(&mut f, "tool_call_id", Json::Str(s.clone()));
    }
    if m.image_urls.len() > 0 {
        json::put(&mut f, "image_urls", texts_to_json(&m.image_urls));
    }
    assert(json::fields_view(f@) =~= message_json(m@)->Object_0);
    json::object(f)
}

/// A conversation as a document.
pub open spec fn messages_json(messages: Seq<MessageView>) -> JsonView {
    JsonView::Array(Seq::new(messages.len(), |i: int| message_json(messages[i])))
}

/// The protocol that a model speaks.
#[derive(Clone, Copy, Debug, PartialEq, Eq, Structural)]
pub enum ApiType {
    OpenaiChat,
    AnthropicMessages,
    Ollama,
}

/// The name of a protocol in the configuration.
pub open spec fn api_name(t: ApiType) -> Seq<char> {
    match t {
        ApiType::OpenaiChat => "openai-chat"@,
        ApiType::AnthropicMessages => "anthropic-messages"@,
        ApiType::Ollama => "ollama"@,
    }
}

impl ApiType {
    /// The name of a protocol in the configuration.
    pub fn as_str(self) -> (r: &'static str)
        ensures
            r@ == api_name(self),
    {
        match self {
            ApiType::OpenaiChat => "openai-chat",
            ApiType::AnthropicMessages => "anthropic-messages",
            ApiType::Ollama => "ollama",
        }
    }
}

/// A model and how it is reached.
#[derive(Debug, PartialEq, Eq)]
pub struct ProviderProfile {
    pub id: String,
    pub name: String,
    pub api_type: ApiType,
    pub api_key: Option<String>,
    pub base_url: String,
    pub model: String,
}

/// What a profile says.
pub struct ProfileView {
    pub id: Seq<char>,
    pub name: Seq<char>,
    pub api_type: ApiType,
    pub api_key: Option<Seq<char>>,
    pub base_url: Seq<char>,
    pub model: Seq<char>,
}

impl View for ProviderProfile {
    type V = ProfileView;

    open spec fn view(&self) -> ProfileView {
        ProfileView {
            id: self.id@,
            name: self.name@,
            api_type: self.api_type,
            api_key: json::opt_text(self.api_key),
            base_url: self.base_url@,
            model: self.model@,
        }
    }
}

impl Clone for ProviderProfile {
    fn clone(&self) -> (r: Self)
        ensures
            r@ == self@,
    {
        ProviderProfile {
            id: self.id.clone(),
            name: self.name.clone(),
            api_type: self.api_type,
            api_key: clone_opt(&self.api_key),
            base_url: self.base_url.clone(),
            model: self.model.clone(),
        }
    }
}

/// There is a key that is more than white space.
pub open spec fn has_key(key: Option<Seq<char>>) -> bool {
    key is Some && !text::blank(key->0)
}

/// A profile can be used: a model on another machine needs a key.
pub open spec fn profile_ok(p: ProfileView) -> bool {
    p.api_type == ApiType::Ollama || has_key(p.api_key)
}

/// The message for a profile without the key it needs.
pub open spec fn key_error(id: Seq<char>) -> Seq<char> {
    "模型配置 "@ + id + " 缺少 API key"@
}

/// Tests for a key that is more than white space.
pub fn key_is_set(key: &Option<String>) -> (r: bool)
    ensures
        r == has_key(json::opt_text(*key)),
{
    match key {
        Some(k) => !text::is_blank(k.as_str()),
        None => false,
    }
}

impl ProviderProfile {
    /// Tests whether the profile can be used.
    pub fn validate(&self) -> (r: Result<(), String>)
        ensures
            match r {
                Ok(()) => profile_ok(self@),
                Err(e) => !profile_ok(self@) && e@ == key_error(self@.id),
            },
    {
        if self.api_type == ApiType::Ollama || key_is_set(&self.api_key) {
            Ok(())
        } else {
            let mut e = "模型配置 ".to_owned();
            e.append(self.id.as_str());
            e.append(" 缺少 API key");
            Err(e)
        }
    }
}

/// Reading back: a tool call as a document, field by field.
pub proof fn law_call_reads_back(call: ToolCallView)
    ensures
        json::at_key(call_json(call), "id"@) == JsonView::Str(call.id),
        json::at_key(call_json(call), "name"@) == JsonView::Str(call.name),
        json::at_key(call_json(call), "arguments"@) == call.arguments,
{
    reveal_strlit("arguments");
    reveal_strlit("id");
    reveal_strlit("name");
    assert("id"@.len() != "name"@.len());
    assert("id"@.len() != "arguments"@.len());
    assert("name"@.len() != "arguments"@.len());
    json::lemma_field_at(call_json(call), "id"@, 0);
    json::lemma_field_at(call_json(call), "name"@, 1);
    json::lemma_field_at(call_json(call), "arguments"@, 2);
}

/// What a message says stands where it is read: a plain message has its role and its text
/// and nothing else; an answer may have thinking besides; a message with calls has no text;
/// a result names the call it answers.
pub proof fn law_messages_hold_what_was_given(
    role: Role,
    content: Seq<char>,
    thinking: Option<Seq<char>>,
    calls: Seq<ToolCallView>,
    call: ToolCallView,
)
    ensures
        text_message(role, content).role == role,
        text_message(role, content).content == Some(content),
        text_message(role, content).thinking is None,
        text_message(role, content).tool_calls.len() == 0,
        text_message(role, content).tool_call_id is None,
        text_message(role, content).image_urls.len() == 0,
        assistant_text(content, thinking).role is Assistant,
        assistant_text(content, thinking).content == Some(content),
        assistant_text(content, thinking).thinking == thinking,
        assistant_text(content, thinking).tool_calls.len() == 0,
        assistant_calls(calls, thinking).role is Assistant,
        assistant_calls(calls, thinking).content is None,
        assistant_calls(calls, thinking).thinking == thinking,
        assistant_calls(calls, thinking).tool_calls == calls,
        tool_result_message(call, content).role is Tool,
        tool_result_message(call, content).content == Some(content),
        tool_result_message(call, content).tool_call_id == Some(call.id),
        tool_result_message(call, content).tool_calls.len() == 0,
{
}

/// No two roles are named alike.
pub proof fn law_roles_are_told_apart(a: Role, b: Role)
    requires
        a != b,
    ensures
        role_text(a) != role_text(b),
{
    reveal_strlit("system");
    reveal_strlit("user");
    reveal_strlit("assistant");
    reveal_strlit("tool");
    assert("system"@.len() == 6 && "user"@.len() == 4 && "assistant"@.len() == 9 && "tool"@.len()
        == 4);
    assert("user"@[0] != "tool"@[0]);
}

/// No two kinds of service are named alike.
pub proof fn law_services_are_told_apart(a: ApiType, b: ApiType)
    requires
        a != b,
    ensures
        api_name(a) != api_name(b),
{
    reveal_strlit("openai-chat");
    reveal_strlit("anthropic-messages");
    reveal_strlit("ollama");
    assert("openai-chat"@.len() == 11 && "anthropic-messages"@.len() == 18 && "ollama"@.len()
        == 6);
}

/// The document of a message gives back its role and its text, and whatever else it has;
/// what it has not is not in the document.
pub proof fn law_message_reads_back(m: MessageView)
    ensures
        json::at_key(message_json(m), "role"@) == JsonView::Str(role_text(m.role)),
        json::at_key(message_json(m), "content"@) == (match m.content {
            Some(s) => JsonView::Str(s),
            None => JsonView::Null,
        }),
        json::at_key(message_json(m), "thinking"@) == (match m.thinking {
            Some(s) => JsonView::Str(s),
            None => JsonView::Null,
        }),
        m.tool_calls.len() > 0 ==> json::at_key(message_json(m), "tool_calls"@) == calls_json(
            m.tool_calls,
        ),
        m.tool_calls.len() == 0 ==> json::field(message_json(m), "tool_calls"@) is None,
        json::at_key(message_json(m), "tool_call_id"@) == (match m.tool_call_id {
            Some(s) => JsonView::Str(s),
            None => JsonView::Null,
        }),
        m.image_urls.len() > 0 ==> json::at_key(message_json(m), "image_urls"@) == texts_json(
            m.image_urls,
        ),
        m.image_urls.len() == 0 ==> json::field(message_json(m), "image_urls"@) is None,
{
    reveal_strlit("role");
    reveal_strlit("content");
    reveal_strlit("thinking");
    reveal_strlit("tool_calls");
    reveal_strlit("tool_call_id");
    reveal_strlit("image_urls");
    assert("role"@.len() == 4 && "content"@.len() == 7 && "thinking"@.len() == 8 && "tool_calls"@.len()
        == 10 && "tool_call_id"@.len() == 12 && "image_urls"@.len() == 10);
    assert("tool_calls"@[0] != "image_urls"@[0]);
    let j = message_json(m);
    let thinking: int = 2;
    let calls: int = thinking + if m.thinking is Some {
        1int
    } else {
        0
    };
    let answered: int = calls + if m.tool_calls.len() > 0 {
        1int
    } else {
        0
    };
    let images: int = answered + if m.tool_call_id is Some {
        1int
    } else {
        0
    };
    json::lemma_field_at(j, "role"@, 0);
    json::lemma_field_at(j, "content"@, 1);
    if m.thinking is Some {
        json::lemma_field_at(j, "thinking"@, thinking);
    } else {
        json::lemma_no_field(j, "thinking"@);
    }
    if m.tool_calls.len() > 0 {
        json::lemma_field_at(j, "tool_calls"@, calls);
    } else {
        json::lemma_no_field(j, "tool_calls"@);
    }
    if m.tool_call_id is Some {
        json::lemma_field_at(j, "tool_call_id"@, answered);
    } else {
        json::lemma_no_field(j, "tool_call_id"@);
    }
    if m.image_urls.len() > 0 {
        json::lemma_field_at(j, "image_urls"@, images);
    } else {
        json::lemma_no_field(j, "image_urls"@);
    }
}

/// A list of messages, calls or texts is written item by item, in order.
pub proof fn law_lists_are_written_in_order(
    messages: Seq<MessageView>,
    calls: Seq<ToolCallView>,
    texts: Seq<Seq<char>>,
    i: int,
)
    ensures
        messages_json(messages) is Array,
        messages_json(messages)->Array_0.len() == messages.len(),
        0 <= i < messages.len() ==> json::at_key(
            messages_json(messages)->Array_0[i],
            "role"@,
        ) == JsonView::Str(role_text(messages[i].role)),
        calls_json(calls) is Array,
        calls_json(calls)->Array_0.len() == calls.len(),
        0 <= i < calls.len() ==> json::at_key(calls_json(calls)->Array_0[i], "id"@)
            == JsonView::Str(calls[i].id),
        0 <= i < calls.len() ==> json::at_key(calls_json(calls)->Array_0[i], "name"@)
            == JsonView::Str(calls[i].name),
        texts_json(texts) is Array,
        texts_json(texts)->Array_0.len() == texts.len(),
        0 <= i < texts.len() ==> texts_json(texts)->Array_0[i] == JsonView::Str(texts[i]),
{
    if 0 <= i < messages.len() {
        law_message_reads_back(messages[i]);
    }
    if 0 <= i < calls.len() {
        law_call_reads_back(calls[i]);
    }
}

/// A profile can be used with a key that says something, and without one only for a service
/// on this machine.
pub proof fn law_profiles_need_a_key(p: ProfileView)
    ensures
        p.api_type is Ollama ==> profile_ok(p),
        !(p.api_type is Ollama) ==> (profile_ok(p) <==> p.api_key is Some && text::trim(
            p.api_key->0,
        ).len() > 0),
        p.api_key is None ==> !has_key(p.api_key),
{
    if p.api_key is Some {
        text::lemma_blank_trim(p.api_key->0);
    }
}

} // verus!
