//! The trace of a session: what was asked of the model and of the tools in a turn, and what
//! came back.
use vstd::prelude::*;

use crate::json;
use crate::json::{Json, JsonView};
use crate::loop_engine;
use crate::loop_engine::LoopEngine;
use crate::provider;
use crate::provider::{Message, MessageView, Response, ToolCall};

verus! {

/// One record of a trace. Times are in milliseconds.
#[derive(Debug)]
pub enum SessionTraceRecord {
    TurnStarted { timestamp_ms: u64, request_id: String, input: String },
    ModelRequest {
        timestamp_ms: u64,
        request_id: String,
        round: usize,
        provider: String,
        messages: Vec<Message>,
        tools: Vec<Json>,
    },
    ModelResponse {
        timestamp_ms: u64,
        request_id: String,
        round: usize,
        duration_ms: u64,
        first_delta_ms: Option<u64>,
        success: bool,
        response: Option<Json>,
        error: Option<String>,
    },
    ToolStarted {
        timestamp_ms: u64,
        request_id: String,
        round: usize,
        tool_call_id: String,
        name: String,
        arguments: Json,
    },
    ToolFinished {
        timestamp_ms: u64,
        request_id: String,
        round: usize,
        tool_call_id: String,
        name: String,
        duration_ms: u64,
        success: bool,
        output: String,
        error: Option<String>,
    },
    TurnCompleted {
        timestamp_ms: u64,
        request_id: String,
        duration_ms: u64,
        success: bool,
        error: Option<String>,
    },
}

/// What a record says.
pub enum TraceView {
    TurnStarted { timestamp_ms: u64, request_id: Seq<char>, input: Seq<char> },
    ModelRequest {
        timestamp_ms: u64,
        request_id: Seq<char>,
        round: usize,
        provider: Seq<char>,
        messages: Seq<MessageView>,
        tools: Seq<JsonView>,
    },
    ModelResponse {
        timestamp_ms: u64,
        request_id: Seq<char>,
        round: usize,
        duration_ms: u64,
        first_delta_ms: Option<u64>,
        success: bool,
        response: Option<JsonView>,
        error: Option<Seq<char>>,
    },
    ToolStarted {
        timestamp_ms: u64,
        request_id: Seq<char>,
        round: usize,
        tool_call_id: Seq<char>,
        name: Seq<char>,
        arguments: JsonView,
    },
    ToolFinished {
        timestamp_ms: u64,
        request_id: Seq<char>,
        round: usize,
        tool_call_id: Seq<char>,
        name: Seq<char>,
        duration_ms: u64,
        success: bool,
        output: Seq<char>,
        error: Option<Seq<char>>,
    },
    TurnCompleted {
        timestamp_ms: u64,
        request_id: Seq<char>,
        duration_ms: u64,
        success: bool,
        error: Option<Seq<char>>,
    },
}

/// What an optional document says.
pub open spec fn opt_document(j: Option<Json>) -> Option<JsonView> {
    match j {
        Some(v) => Some(v@),
        None => None,
    }
}

impl View for SessionTraceRecord {
    type V = TraceView;

    open spec fn view(&self) -> TraceView {
        match *self {
            SessionTraceRecord::TurnStarted {
                timestamp_ms,
                request_id,
                input,
            } => TraceView::TurnStarted { timestamp_ms, request_id: request_id@, input: input@ },
            SessionTraceRecord::ModelRequest {
                timestamp_ms,
                request_id,
                round,
                provider,
                messages,
                tools,
            } => TraceView::ModelRequest {
                timestamp_ms,
                request_id: request_id@,
                round,
                provider: provider@,
                messages: provider::message_views(messages@),
                tools: json::list_view(tools@),
            },
            SessionTraceRecord::ModelResponse {
                timestamp_ms,
                request_id,
                round,
                duration_ms,
                first_delta_ms,
                success,
                response,
                error,
            } => TraceView::ModelResponse {
                timestamp_ms,
                request_id: request_id@,
                round,
                duration_ms,
                first_delta_ms,
                success,
                response: opt_document(response),
                error: json::opt_text(error),
            },
            SessionTraceRecord::ToolStarted {
                timestamp_ms,
                request_id,
                round,
                tool_call_id,
                name,
                arguments,
            } => TraceView::ToolStarted {
                timestamp_ms,
                request_id: request_id@,
                round,
                tool_call_id: tool_call_id@,
                name: name@,
                arguments: arguments@,
            },
            SessionTraceRecord::ToolFinished {
                timestamp_ms,
                request_id,
                round,
                tool_call_id,
                name,
                duration_ms,
                success,
                output,
                error,
            } => TraceView::ToolFinished {
                timestamp_ms,
                request_id: request_id@,
                round,
                tool_call_id: tool_call_id@,
                name: name@,
                duration_ms,
                success,
                output: output@,
                error: json::opt_text(error),
            },
            SessionTraceRecord::TurnCompleted {
                timestamp_ms,
                request_id,
                duration_ms,
                success,
                error,
            } => TraceView::TurnCompleted {
                timestamp_ms,
                request_id: request_id@,
                duration_ms,
                success,
                error: json::opt_text(error),
            },
        }
    }
}

/// What an optional record says.
pub open spec fn opt_record(r: Option<SessionTraceRecord>) -> Option<TraceView> {
    match r {
        Some(t) => Some(t@),
        None => None,
    }
}

/// The request under whose name a turn is traced: none where the engine keeps no session,
/// or where the turn answers no request.
pub open spec fn traced(engine: LoopEngine, request_id: Option<Seq<char>>) -> Option<Seq<char>> {
    if engine.persistent {
        request_id
    } else {
        None
    }
}

/// The messages that a model is shown: without their images where it takes none.
pub open spec fn shown_messages(messages: Seq<MessageView>, images: bool) -> Seq<MessageView> {
    if images {
        messages
    } else {
        Seq::new(messages.len(), |i: int| loop_engine::without_image(messages[i]))
    }
}

/// The messages that a model is shown.
pub fn messages_for_model(messages: &Vec<Message>, images: bool) -> (r: Vec<Message>)
    ensures
        provider::message_views(r@) == shown_messages(
            provider::message_views(messages@),
            images,
        ),
{
    let ghost all = provider::message_views(messages@);
    if images {
        let r = provider::clone_messages(messages, 0, messages.len());
        assert(provider::message_views(r@) =~= all);
        r
    } else {
        let r = loop_engine::without_images(messages);
        assert(provider::message_views(r@) =~= shown_messages(all, images));
        r
    }
}

/// What the trace keeps of an answer: whether it was one, the answer, and the error.
pub open spec fn answered(
    outcome: Result<Response, String>,
    thinking: Seq<char>,
) -> (bool, Option<JsonView>, Option<Seq<char>>) {
    match outcome {
        Err(e) => (false, None, Some(e@)),
        Ok(response) => (
            !(response is ToolAssemblyFailed),
            Some(loop_engine::response_trace(response, Some(thinking))),
            match response {
                Response::ToolAssemblyFailed(e) => Some(e.message@),
                _ => None,
            },
        ),
    }
}

impl LoopEngine {
    fn traced_as(&self, request_id: Option<&str>) -> (r: Option<String>)
        ensures
            json::opt_text(r) == traced(*self, json::opt_view(request_id)),
    {
        match request_id {
            Some(id) => if self.persistent {
                Some(id.to_owned())
            } else {
                None
            },
            None => None,
        }
    }

    /// The record that opens a turn.
    pub fn trace_turn_started(&self, request_id: Option<&str>, now: u64, input: &str) -> (r: Option<
        SessionTraceRecord,
    >)
        ensures
            opt_record(r) == (match traced(*self, json::opt_view(request_id)) {
                Some(id) => Some(
                    TraceView::TurnStarted { timestamp_ms: now, request_id: id, input: input@ },
                ),
                None => None,
            }),
    {
        match self.traced_as(request_id) {
            Some(request_id) => Some(
                SessionTraceRecord::TurnStarted {
                    timestamp_ms: now,
                    request_id,
                    input: input.to_owned(),
                },
            ),
            None => None,
        }
    }

    /// The record of what a model is asked: the messages as it is shown them, and the tools.
    pub fn trace_model_request(
        &self,
        request_id: Option<&str>,
        now: u64,
        round: usize,
        provider: &str,
        messages: Vec<Message>,
        tools: Vec<Json>,
    ) -> (r: Option<SessionTraceRecord>)
        ensures
            opt_record(r) == (match traced(*self, json::opt_view(request_id)) {
                Some(id) => Some(
                    TraceView::ModelRequest {
                        timestamp_ms: now,
                        request_id: id,
                        round,
                        provider: provider@,
                        messages: provider::message_views(messages@),
                        tools: json::list_view(tools@),
                    },
                ),
                None => None,
            }),
    {
        match self.traced_as(request_id) {
            Some(request_id) => Some(
                SessionTraceRecord::ModelRequest {
                    timestamp_ms: now,
                    request_id,
                    round,
                    provider: provider.to_owned(),
                    messages,
                    tools,
                },
            ),
            None => None,
        }
    }

    /// The record of what a model answered, or of why it did not.
    pub fn trace_model_response(
        &self,
        request_id: Option<&str>,
        now: u64,
        round: usize,
        duration_ms: u64,
        first_delta_ms: Option<u64>,
        outcome: &Result<Response, String>,
        thinking: &str,
    ) -> (r: Option<SessionTraceRecord>)
        ensures
            opt_record(r) == (match traced(*self, json::opt_view(request_id)) {
                Some(id) => Some(
                    TraceView::ModelResponse {
                        timestamp_ms: now,
                        request_id: id,
                        round,
                        duration_ms,
                        first_delta_ms,
                        success: answered(*outcome, thinking@).0,
                        response: answered(*outcome, thinking@).1,
                        error: answered(*outcome, thinking@).2,
                    },
                ),
                None => None,
            }),
    {
        match self.traced_as(request_id) {
            Some(request_id) => {
                let kept = loop_engine::model_trace(outcome, thinking);
                Some(
                    SessionTraceRecord::ModelResponse {
                        timestamp_ms: now,
                        request_id,
                        round,
                        duration_ms,
                        first_delta_ms,
                        success: kept.success,
                        response: kept.response,
                        error: kept.error,
                    },
                )
            },
            None => None,
        }
    }

    /// The record that a tool call begins.
    pub fn trace_tool_started(
        &self,
        request_id: Option<&str>,
        now: u64,
        round: usize,
        call: &ToolCall,
    ) -> (r: Option<SessionTraceRecord>)
        ensures
            opt_record(r) == (match traced(*self, json::opt_view(request_id)) {
                Some(id) => Some(
                    TraceView::ToolStarted {
                        timestamp_ms: now,
                        request_id: id,
                        round,
                        tool_call_id: call@.id,
                        name: call@.name,
                        arguments: call@.arguments,
                    },
                ),
                None => None,
            }),
    {
        match self.traced_as(request_id) {
            Some(request_id) => Some(
                SessionTraceRecord::ToolStarted {
                    timestamp_ms: now,
                    request_id,
                    round,
                    tool_call_id: call.id.clone(),
                    name: call.name.clone(),
                    arguments: call.arguments.clone(),
                },
            ),
            None => None,
        }
    }

    /// The record that a tool call is over: its output, which for a failed call is what the
    /// model is told of the failure.
    pub fn trace_tool_finished(
        &self,
        request_id: Option<&str>,
        now: u64,
        round: usize,
        call: &ToolCall,
        duration_ms: u64,
        outcome: &Result<String, String>,
    ) -> (r: Option<SessionTraceRecord>)
        ensures
            opt_record(r) == (match traced(*self, json::opt_view(request_id)) {
                Some(id) => Some(
                    TraceView::ToolFinished {
                        timestamp_ms: now,
                        request_id: id,
                        round,
                        tool_call_id: call@.id,
                        name: call@.name,
                        duration_ms,
                        success: outcome is Ok,
                        output: match *outcome {
                            Ok(o) => o@,
                            Err(e) => loop_engine::tool_error_text(e@),
                        },
                        error: match *outcome {
                            Ok(_) => None,
                            Err(e) => Some(loop_engine::tool_error_text(e@)),
                        },
                    },
                ),
                None => None,
            }),
    {
        match self.traced_as(request_id) {
            Some(request_id) => {
                let (success, output, error) = match outcome {
                    Ok(o) => (true, o.clone(), None),
                    Err(e) => {
                        let mut m = "工具执行错误: ".to_owned();
                        m.append(e.as_str());
                        (false, m.clone(), Some(m))
                    },
                };
                Some(
                    SessionTraceRecord::ToolFinished {
                        timestamp_ms: now,
                        request_id,
                        round,
                        tool_call_id: call.id.clone(),
                        name: call.name.clone(),
                        duration_ms,
                        success,
                        output,
                        error,
                    },
                )
            },
            None => None,
        }
    }

    /// The record that closes a turn, with its error where it failed.
    pub fn trace_turn_completed(
        &self,
        request_id: Option<&str>,
        now: u64,
        duration_ms: u64,
        outcome: &Result<String, String>,
    ) -> (r: Option<SessionTraceRecord>)
        ensures
            opt_record(r) == (match traced(*self, json::opt_view(request_id)) {
                Some(id) => Some(
                    TraceView::TurnCompleted {
                        timestamp_ms: now,
                        request_id: id,
                        duration_ms,
                        success: outcome is Ok,
                        error: match *outcome {
                            Ok(_) => None,
                            Err(e) => Some(e@),
                        },
                    },
                ),
                None => None,
            }),
    {
        match self.traced_as(request_id) {
            Some(request_id) => {
                let error = match outcome {
                    Ok(_) => None,
                    Err(e) => Some(e.clone()),
                };
                Some(
                    SessionTraceRecord::TurnCompleted {
                        timestamp_ms: now,
                        request_id,
                        duration_ms,
                        success: error.is_none(),
                        error,
                    },
                )
            },
            None => None,
        }
    }
}

/// Only an engine that keeps its session leaves a trace, and it leaves it for the request it
/// was asked by.
pub proof fn law_only_kept_sessions_are_traced(engine: LoopEngine, request_id: Option<Seq<char>>)
    ensures
        traced(engine, request_id) is Some <==> engine.persistent && request_id is Some,
        traced(engine, request_id) is Some ==> traced(engine, request_id) == request_id,
{
}

/// What is shown to a model that takes no images holds none; the messages stay as many and in
/// order, with their roles and calls. A model that takes images is shown all.
pub proof fn law_images_are_shown_where_they_can_be(messages: Seq<MessageView>, images: bool)
    ensures
        shown_messages(messages, images).len() == messages.len(),
        images ==> shown_messages(messages, images) == messages,
        !images ==> forall|i: int|
            0 <= i < messages.len() ==> (#[trigger] shown_messages(
                messages,
                images,
            )[i]).image_urls.len() == 0,
        forall|i: int|
            0 <= i < messages.len() ==> (#[trigger] shown_messages(messages, images)[i]).role
                == messages[i].role && shown_messages(messages, images)[i].tool_calls
                == messages[i].tool_calls && shown_messages(messages, images)[i].tool_call_id
                == messages[i].tool_call_id && shown_messages(messages, images)[i].thinking
                == messages[i].thinking,
        forall|i: int|
            0 <= i < messages.len() && (#[trigger] messages[i]).image_urls.len() == 0
                ==> shown_messages(messages, images)[i] == messages[i],
{
}

/// A request that failed leaves its error and no answer. An answer is kept; it counts as a
/// success unless its calls could not be put together, and only then has an error.
pub proof fn law_traces_tell_success_from_failure(
    outcome: Result<Response, String>,
    thinking: Seq<char>,
)
    ensures
        outcome is Err ==> !answered(outcome, thinking).0 && answered(outcome, thinking).1 is None
            && answered(outcome, thinking).2 == Some(outcome->Err_0@),
        outcome is Ok ==> answered(outcome, thinking).1 is Some,
        answered(outcome, thinking).0 <==> outcome is Ok && !(outcome->Ok_0 is ToolAssemblyFailed),
        answered(outcome, thinking).0 <==> answered(outcome, thinking).2 is None,
{
}

} // verus!
