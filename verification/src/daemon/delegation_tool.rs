//! What a model may ask of its sub-agents.
use vstd::prelude::*;

use crate::json;
use crate::json::{Json, JsonView};
use crate::text;

verus! {

/// The most tasks of one call.
pub const MAX_TASKS: usize = 4;

/// How long a call waits for its sub-agents unless it says so.
pub const DEFAULT_WAIT_MS: u64 = 30_000;

pub const TASK_ERROR: &'static str = "需要非空 task；兼容 sub_agent 可传 1 到 4 个 tasks";

/// What a call asks for.
#[derive(Debug)]
pub enum DelegationPlan {
    /// List the sub-agents.
    List,
    /// Wait for the given ones.
    Wait { child_run_ids: Vec<String>, timeout_ms: u64, after_seq: Option<u64> },
    /// Cancel one.
    Cancel { child_run_id: String },
    /// Send out one for each task, and wait for them where the call is answered with
    /// their results.
    Spawn { tasks: Vec<String>, tools: Option<Vec<String>>, wait: bool },
}

/// What a plan says.
pub enum PlanView {
    List,
    Wait { child_run_ids: Seq<Seq<char>>, timeout_ms: u64, after_seq: Option<u64> },
    Cancel { child_run_id: Seq<char> },
    Spawn { tasks: Seq<Seq<char>>, tools: Option<Seq<Seq<char>>>, wait: bool },
}

/// The view of an optional list of texts.
pub open spec fn opt_texts(v: Option<Vec<String>>) -> Option<Seq<Seq<char>>> {
    match v {
        Some(t) => Some(text::views(t@)),
        None => None,
    }
}

impl View for DelegationPlan {
    type V = PlanView;

    open spec fn view(&self) -> PlanView {
        match *self {
            DelegationPlan::List => PlanView::List,
            DelegationPlan::Wait { child_run_ids, timeout_ms, after_seq } => PlanView::Wait {
                child_run_ids: text::views(child_run_ids@),
                timeout_ms,
                after_seq,
            },
            DelegationPlan::Cancel { child_run_id } => PlanView::Cancel {
                child_run_id: child_run_id@,
            },
            DelegationPlan::Spawn { tasks, tools, wait } => PlanView::Spawn {
                tasks: text::views(tasks@),
                tools: opt_texts(tools),
                wait,
            },
        }
    }
}

/// All elements are strings.
pub open spec fn all_strings(v: Seq<JsonView>) -> bool {
    forall|i: int| 0 <= i < v.len() ==> (#[trigger] v[i]) is Str
}

/// The texts of a list of strings.
pub open spec fn strings_of(v: Seq<JsonView>) -> Seq<Seq<char>> {
    Seq::new(v.len(), |i: int| v[i]->Str_0)
}

/// Reads a list of strings.
pub fn read_strings(items: &Vec<Json>) -> (r: Option<Vec<String>>)
    ensures
        match r {
            Some(t) => all_strings(json::list_view(items@)) && text::views(t@) == strings_of(
                json::list_view(items@),
            ),
            None => !all_strings(json::list_view(items@)),
        },
{
    let ghost views = json::list_view(items@);
    let mut out: Vec<String> = Vec::new();
    let mut i: usize = 0;
    while i < items.len()
        invariant
            i <= items@.len(),
            views == json::list_view(items@),
            out@.len() == i,
            forall|k: int|
                0 <= k < i ==> (#[trigger] views[k]) is Str && out@[k]@ == views[k]->Str_0,
        decreases items@.len() - i,
    {
        match items[i].as_str() {
            Some(s) => out.push(s.to_owned()),
            None => {
                assert(!(views[i as int] is Str));
                return None;
            },
        }
        i = i + 1;
    }
    assert(text::views(out@) =~= strings_of(views));
    Some(out)
}

/// The elements of an array.
pub open spec fn array_of(j: JsonView) -> Option<Seq<JsonView>> {
    match j {
        JsonView::Array(v) => Some(v),
        _ => None,
    }
}

fn array_at<'a>(j: &'a Json, key: &str) -> (r: Option<&'a Vec<Json>>)
    ensures
        match r {
            Some(v) => array_of(json::at_key(j@, key@)) == Some(json::list_view(v@)),
            None => array_of(json::at_key(j@, key@)) is None,
        },
{
    match j.get(key) {
        Some(Json::Array(v)) => {
            proof {
                json::lemma_array_view(*v);
            }
            Some(v)
        },
        _ => None,
    }
}

/// Some text is blank.
pub open spec fn some_blank(v: Seq<Seq<char>>) -> bool {
    exists|i: int| 0 <= i < v.len() && text::blank(#[trigger] v[i])
}

/// The tasks of a call: one text, or for the synchronous tool a list of one to four.
pub open spec fn tasks_of(name: Seq<char>, args: JsonView) -> Result<Seq<Seq<char>>, Seq<char>> {
    let task = json::str_of(json::at_key(args, "task"@));
    let tasks = array_of(json::at_key(args, "tasks"@));
    match (task, tasks) {
        (Some(t), None) => if text::blank(t) {
            Err(TASK_ERROR@)
        } else {
            Ok(seq![t])
        },
        (None, Some(v)) => if name == "sub_agent"@ && 0 < v.len() <= MAX_TASKS {
            if !all_strings(v) {
                Err("tasks 中只能包含字符串"@)
            } else if some_blank(strings_of(v)) {
                Err("子任务不能为空"@)
            } else {
                Ok(strings_of(v))
            }
        } else {
            Err(TASK_ERROR@)
        },
        _ => Err(TASK_ERROR@),
    }
}

/// The tools that a call allows its sub-agents.
pub open spec fn tools_of(args: JsonView) -> Result<Option<Seq<Seq<char>>>, Seq<char>> {
    match json::field(args, "tools"@) {
        None => Ok(None),
        Some(JsonView::Array(v)) => if all_strings(v) {
            Ok(Some(strings_of(v)))
        } else {
            Err("tools 必须是字符串数组"@)
        },
        Some(_) => Err("tools 必须是字符串数组"@),
    }
}

/// What a call of the tool `name` asks for, or why it is refused.
pub open spec fn plan_of(name: Seq<char>, args: JsonView) -> Result<PlanView, Seq<char>> {
    if name == "list_subagents"@ {
        Ok(PlanView::List)
    } else if name == "wait_subagents"@ {
        match array_of(json::at_key(args, "child_run_ids"@)) {
            None => Err("需要 child_run_ids 数组"@),
            Some(v) => if all_strings(v) {
                Ok(
                    PlanView::Wait {
                        child_run_ids: strings_of(v),
                        timeout_ms: match json::u64_of(json::at_key(args, "timeout_ms"@)) {
                            Some(n) => n,
                            None => DEFAULT_WAIT_MS,
                        },
                        after_seq: json::u64_of(json::at_key(args, "after_seq"@)),
                    },
                )
            } else {
                Err("child_run_ids 中只能包含字符串"@)
            },
        }
    } else if name == "cancel_subagent"@ {
        match json::str_of(json::at_key(args, "child_run_id"@)) {
            Some(id) => Ok(PlanView::Cancel { child_run_id: id }),
            None => Err("需要 child_run_id"@),
        }
    } else {
        match tasks_of(name, args) {
            Err(e) => Err(e),
            Ok(tasks) => match tools_of(args) {
                Err(e) => Err(e),
                Ok(tools) => Ok(
                    PlanView::Spawn { tasks, tools, wait: name != "spawn_subagent"@ },
                ),
            },
        }
    }
}

fn read_tasks(name: &str, args: &Json) -> (r: Result<Vec<String>, String>)
    ensures
        match r {
            Ok(t) => tasks_of(name@, args@) == Ok::<Seq<Seq<char>>, Seq<char>>(text::views(t@)),
            Err(e) => tasks_of(name@, args@) == Err::<Seq<Seq<char>>, Seq<char>>(e@),
        },
{
    match (args.str_at("task"), array_at(args, "tasks")) {
        (Some(t), None) => {
            if text::is_blank(t) {
                return Err(TASK_ERROR.to_owned());
            }
            let mut tasks: Vec<String> = Vec::new();
            tasks.push(t.to_owned());
            assert(text::views(tasks@) =~= seq![t@]);
            Ok(tasks)
        },
        (None, Some(v)) => {
            if !(text::same(name, "sub_agent") && v.len() > 0 && v.len() <= MAX_TASKS) {
                return Err(TASK_ERROR.to_owned());
            }
            let ghost views = json::list_view(v@);
            match read_strings(v) {
                None => Err("tasks 中只能包含字符串".to_owned()),
                Some(tasks) => {
                    let ghost all = text::views(tasks@);
                    let mut i: usize = 0;
                    while i < tasks.len()
                        invariant
                            i <= tasks@.len(),
                            all == text::views(tasks@),
                            all == strings_of(views),
                            all_strings(views),
                            json::str_of(json::at_key(args@, "task"@)) is None,
                            array_of(json::at_key(args@, "tasks"@)) == Some(views),
                            name@ == "sub_agent"@,
                            0 < views.len() <= MAX_TASKS,
                            forall|k: int| 0 <= k < i ==> !text::blank(#[trigger] all[k]),
                        decreases tasks@.len() - i,
                    {
                        if text::is_blank(tasks[i].as_str()) {
                            assert(text::blank(all[i as int]));
                            assert(some_blank(all));
                            return Err("子任务不能为空".to_owned());
                        }
                        i = i + 1;
                    }
                    assert(!some_blank(all));
                    Ok(tasks)
                },
            }
        },
        _ => Err(TASK_ERROR.to_owned()),
    }
}

fn read_tools(args: &Json) -> (r: Result<Option<Vec<String>>, String>)
    ensures
        match r {
            Ok(t) => tools_of(args@) == Ok::<Option<Seq<Seq<char>>>, Seq<char>>(opt_texts(t)),
            Err(e) => tools_of(args@) == Err::<Option<Seq<Seq<char>>>, Seq<char>>(e@),
        },
{
    match args.get("tools") {
        None => Ok(None),
        Some(Json::Array(v)) => {
            proof {
                json::lemma_array_view(*v);
            }
            match read_strings(v) {
                Some(t) => Ok(Some(t)),
                None => Err("tools 必须是字符串数组".to_owned()),
            }
        },
        Some(_) => Err("tools 必须是字符串数组".to_owned()),
    }
}

/// A tool with which a model steers its sub-agents.
#[derive(Clone, Copy, Debug)]
pub struct DelegationTool {
    pub name: &'static str,
}

impl DelegationTool {
    /// The tool of the given name.
    pub fn new(name: &'static str) -> (r: Self)
        ensures
            r.name@ == name@,
    {
        DelegationTool { name }
    }

    /// Reads what a call asks for.
    pub fn plan(&self, args: &Json) -> (r: Result<DelegationPlan, String>)
        ensures
            match r {
                Ok(p) => plan_of(self.name@, args@) == Ok::<PlanView, Seq<char>>(p@),
                Err(e) => plan_of(self.name@, args@) == Err::<PlanView, Seq<char>>(e@),
            },
    {
        if text::same(self.name, "list_subagents") {
            return Ok(DelegationPlan::List);
        }
        if text::same(self.name, "wait_subagents") {
            return match array_at(args, "child_run_ids") {
                None => Err("需要 child_run_ids 数组".to_owned()),
                Some(v) => match read_strings(v) {
                    None => Err("child_run_ids 中只能包含字符串".to_owned()),
                    Some(child_run_ids) => {
                        let timeout_ms: u64 = match args.u64_at("timeout_ms") {
                            Some(n) => n,
                            None => DEFAULT_WAIT_MS,
                        };
                        Ok(
                            DelegationPlan::Wait {
                                child_run_ids,
                                timeout_ms,
                                after_seq: args.u64_at("after_seq"),
                            },
                        )
                    },
                },
            };
        }
        if text::same(self.name, "cancel_subagent") {
            return match args.str_at("child_run_id") {
                Some(id) => Ok(DelegationPlan::Cancel { child_run_id: id.to_owned() }),
                None => Err("需要 child_run_id".to_owned()),
            };
        }
        let tasks = match read_tasks(self.name, args) {
            Ok(t) => t,
            Err(e) => return Err(e),
        };
        let tools = match read_tools(args) {
            Ok(t) => t,
            Err(e) => return Err(e),
        };
        Ok(DelegationPlan::Spawn { tasks, tools, wait: !text::same(self.name, "spawn_subagent") })
    }

    /// What a model is told of the tool.
    pub fn description(&self) -> (r: &'static str)
        ensures
            r@ == (if self.name@ == "spawn_subagent"@ {
                "异步派出持久子 Agent，立即返回稳定 child run/session ID"@
            } else if self.name@ == "wait_subagents"@ {
                "按稳定 child run ID 等待子 Agent；等待超时不改变运行状态"@
            } else if self.name@ == "cancel_subagent"@ {
                "取消当前委派作用域中的指定 child run"@
            } else if self.name@ == "list_subagents"@ {
                "列出当前 root run 下的子 Agent"@
            } else {
                "兼容工具：派出持久子 Agent 并等待结果；新任务优先使用 spawn_subagent"@
            }),
    {
        if text::same(self.name, "spawn_subagent") {
            "异步派出持久子 Agent，立即返回稳定 child run/session ID"
        } else if text::same(self.name, "wait_subagents") {
            "按稳定 child run ID 等待子 Agent；等待超时不改变运行状态"
        } else if text::same(self.name, "cancel_subagent") {
            "取消当前委派作用域中的指定 child run"
        } else if text::same(self.name, "list_subagents") {
            "列出当前 root run 下的子 Agent"
        } else {
            "兼容工具：派出持久子 Agent 并等待结果；新任务优先使用 spawn_subagent"
        }
    }

    /// The schema of the arguments.
    pub fn parameters(&self) -> (r: Json)
        ensures
            r@ == schema(
                if self.name@ == "wait_subagents"@ {
                    seq![
                        ("child_run_ids"@, list_type()),
                        ("timeout_ms"@, plain_type("integer"@)),
                        ("after_seq"@, plain_type("integer"@)),
                    ]
                } else if self.name@ == "cancel_subagent"@ {
                    seq![("child_run_id"@, plain_type("string"@))]
                } else if self.name@ == "list_subagents"@ {
                    Seq::empty()
                } else {
                    seq![
                        ("task"@, plain_type("string"@)),
                        ("tasks"@, list_type()),
                        ("tools"@, list_type()),
                    ]
                },
                if self.name@ == "wait_subagents"@ {
                    Some("child_run_ids"@)
                } else if self.name@ == "cancel_subagent"@ {
                    Some("child_run_id"@)
                } else {
                    None
                },
            ),
    {
        proof {
            reveal_strlit("wait_subagents");
            reveal_strlit("cancel_subagent");
            reveal_strlit("list_subagents");
        }
        let mut p = json::no_fields();
        if text::same(self.name, "wait_subagents") {
            json::put(&mut p, "child_run_ids", list_type_json());
            json::put(&mut p, "timeout_ms", plain_type_json("integer"));
            json::put(&mut p, "after_seq", plain_type_json("integer"));
            assert(json::fields_view(p@) =~= seq![
                ("child_run_ids"@, list_type()),
                ("timeout_ms"@, plain_type("integer"@)),
                ("after_seq"@, plain_type("integer"@)),
            ]);
            return schema_json(p, Some("child_run_ids"));
        }
        if text::same(self.name, "cancel_subagent") {
            json::put(&mut p, "child_run_id", plain_type_json("string"));
            assert(json::fields_view(p@) =~= seq![("child_run_id"@, plain_type("string"@))]);
            return schema_json(p, Some("child_run_id"));
        }
        if text::same(self.name, "list_subagents") {
            return schema_json(p, None);
        }
        json::put(&mut p, "task", plain_type_json("string"));
        json::put(&mut p, "tasks", list_type_json());
        json::put(&mut p, "tools", list_type_json());
        assert(json::fields_view(p@) =~= seq![
            ("task"@, plain_type("string"@)),
            ("tasks"@, list_type()),
            ("tools"@, list_type()),
        ]);
        schema_json(p, None)
    }
}

/// The schema of a plain value.
pub open spec fn plain_type(name: Seq<char>) -> JsonView {
    JsonView::Object(seq![("type"@, JsonView::Str(name))])
}

/// The schema of a list of strings.
pub open spec fn list_type() -> JsonView {
    JsonView::Object(
        seq![("type"@, JsonView::Str("array"@)), ("items"@, plain_type("string"@))],
    )
}

/// The schema of an object that holds these properties and no others, one of them
/// required at most.
pub open spec fn schema(
    properties: Seq<(Seq<char>, JsonView)>,
    required: Option<Seq<char>>,
) -> JsonView {
    let head = seq![
        ("type"@, JsonView::Str("object"@)),
        ("properties"@, JsonView::Object(properties)),
    ];
    let middle = match required {
        Some(key) => head.push(("required"@, JsonView::Array(seq![JsonView::Str(key)]))),
        None => head,
    };
    JsonView::Object(middle.push(("additionalProperties"@, JsonView::Bool(false))))
}

fn plain_type_json(name: &str) -> (r: Json)
    ensures
        r@ == plain_type(name@),
{
    let mut f = json::no_fields();
    json::put(&mut f, "type", Json::of_str(name));
    assert(json::fields_view(f@) =~= plain_type(name@)->Object_0);
    json::object(f)
}

fn list_type_json() -> (r: Json)
    ensures
        r@ == list_type(),
{
    let mut f = json::no_fields();
    json::put(&mut f, "type", Json::of_str("array"));
    json::put(&mut f, "items", plain_type_json("string"));
    assert(json::fields_view(f@) =~= list_type()->Object_0);
    json::object(f)
}

fn schema_json(properties: Vec<(String, Json)>, required: Option<&str>) -> (r: Json)
    ensures
        r@ == schema(json::fields_view(properties@), json::opt_view(required)),
{
    let mut f = json::no_fields();
    json::put(&mut f, "type", Json::of_str("object"));
    let ghost p = json::fields_view(properties@);
    json::put(&mut f, "properties", json::object(properties));
    if let Some(key) = required {
        let mut items: Vec<Json> = Vec::new();
        items.push(Json::of_str(key));
        assert(json::list_view(items@) =~= seq![JsonView::Str(key@)]);
        json::put(&mut f, "required", json::array(items));
    }
    json::put(&mut f, "additionalProperties", Json::Bool(false));
    assert(json::fields_view(f@) =~= schema(p, json::opt_view(required))->Object_0);
    json::object(f)
}

/// The identifier of the call behind the task number `index`.
pub fn child_call_id(call_id: &str, index: usize) -> (r: String)
    ensures
        r@ == call_id@ + ":"@ + text::decimal(index as nat),
{
    let mut r = call_id.to_owned();
    r.append(":");
    r.append(text::decimal_text(index as u64).as_str());
    r
}

/// What is known of a sub-agent.
#[derive(Debug)]
pub struct ChildRecord {
    pub terminal: bool,
    pub completed: bool,
    pub status: String,
    pub content: Option<String>,
    pub error_message: Option<String>,
}

/// What follows a look at a sub-agent.
#[derive(Debug)]
pub enum WaitStep {
    /// Look again after a pause.
    Pause,
    /// This is its result.
    Finished(Json),
    /// The call ends with the error.
    Abort(String),
}

/// An optional text as a document: null where there is none.
pub open spec fn text_or_null(s: Option<Seq<char>>) -> JsonView {
    match s {
        Some(t) => JsonView::Str(t),
        None => JsonView::Null,
    }
}

/// Writes an optional text as a document.
pub fn text_or_null_json(s: &Option<String>) -> (r: Json)
    ensures
        r@ == text_or_null(json::opt_text(*s)),
{
    match s {
        Some(t) => Json::Str(t.clone()),
        None => Json::Null,
    }
}

/// The result of a sub-agent in the answer of the call.
pub open spec fn result_json(task: Seq<char>, child: Seq<char>, r: ChildRecord) -> JsonView {
    JsonView::Object(
        seq![
            ("task"@, JsonView::Str(task)),
            ("child_run_id"@, JsonView::Str(child)),
            ("success"@, JsonView::Bool(r.completed)),
            ("result"@, text_or_null(json::opt_text(r.content))),
            ("status"@, JsonView::Str(r.status@)),
            ("error"@, text_or_null(json::opt_text(r.error_message))),
        ],
    )
}

/// Decides what follows a look at a sub-agent: a cancelled call ends, a record that is
/// gone ends it too, and a sub-agent that is not done is looked at again.
pub fn wait_step(
    task: &str,
    child_run_id: &str,
    cancelled: bool,
    record: Option<&ChildRecord>,
) -> (r: WaitStep)
    ensures
        if cancelled {
            r matches WaitStep::Abort(e) && e@ == "父 run 已取消；委派子树由 daemon 收敛"@
        } else {
            match record {
                None => r matches WaitStep::Abort(e) && e@ == "子 Agent 记录消失"@,
                Some(c) => if c.terminal {
                    r matches WaitStep::Finished(j) && j@ == result_json(
                        task@,
                        child_run_id@,
                        *c,
                    )
                } else {
                    r is Pause
                },
            }
        },
{
    if cancelled {
        return WaitStep::Abort("父 run 已取消；委派子树由 daemon 收敛".to_owned());
    }
    match record {
        None => WaitStep::Abort("子 Agent 记录消失".to_owned()),
        Some(c) => {
            if !c.terminal {
                return WaitStep::Pause;
            }
            let mut f = json::no_fields();
            json::put(&mut f, "task", Json::of_str(task));
            json::put(&mut f, "child_run_id", Json::of_str(child_run_id));
            json::put(&mut f, "success", Json::Bool(c.completed));
            json::put(&mut f, "result", text_or_null_json(&c.content));
            json::put(&mut f, "status", Json::Str(c.status.clone()));
            json::put(&mut f, "error", text_or_null_json(&c.error_message));
            assert(json::fields_view(f@) =~= result_json(
                task@,
                child_run_id@,
                *c,
            )->Object_0);
            WaitStep::Finished(json::object(f))
        },
    }
}

/// The run and the call on whose behalf work is handed out. Outside of a stored run, or
/// before the daemon is up, none is.
pub fn delegation_owner(daemon_ready: bool, owner: Option<(String, String)>) -> (r: Result<
    (String, String),
    String,
>)
    ensures
        if !daemon_ready {
            r is Err && r->Err_0@ == "委派 daemon 尚未就绪"@
        } else {
            match owner {
                None => r is Err && r->Err_0@ == "委派工具只能在持久 run 中调用"@,
                Some(o) => r == Ok::<(String, String), String>(o),
            }
        },
{
    if !daemon_ready {
        return Err("委派 daemon 尚未就绪".to_owned());
    }
    match owner {
        None => Err("委派工具只能在持久 run 中调用".to_owned()),
        Some(o) => Ok(o),
    }
}

/// The run whose sub-agents are listed: the root of the run that asks, where it was itself
/// sent out, else the run that asks.
pub fn list_root(root_run_id: Option<&str>, parent_run_id: &str) -> (r: String)
    ensures
        r@ == (match root_run_id {
            Some(root) => root@,
            None => parent_run_id@,
        }),
{
    match root_run_id {
        Some(root) => root.to_owned(),
        None => parent_run_id.to_owned(),
    }
}

/// The run of a sub-agent that was sent out.
pub fn spawned_run(child: &Json) -> (r: Result<String, String>)
    ensures
        match json::str_of(json::at_key(child@, "child_run_id"@)) {
            Some(id) => r is Ok && r->Ok_0@ == id,
            None => r is Err && r->Err_0@ == "缺少 child_run_id"@,
        },
{
    match child.str_at("child_run_id") {
        Some(id) => Ok(id.to_owned()),
        None => Err("缺少 child_run_id".to_owned()),
    }
}

/// The answer of a call: a list under the key `children` or `results`.
pub fn answer(key: &str, items: Vec<Json>) -> (r: String)
    ensures
        r@ == answer_text(key@, json::list_view(items@)),
{
    let mut f = json::no_fields();
    let ghost list = JsonView::Array(json::list_view(items@));
    json::put(&mut f, key, json::array(items));
    assert(json::fields_view(f@) =~= seq![(key@, list)]);
    json::json_text(&json::object(f))
}

/// A call that is accepted sends out at least one task and at most four, none of them
/// blank; only the synchronous tool sends out more than one.
pub proof fn law_accepted_tasks(name: Seq<char>, args: JsonView)
    requires
        tasks_of(name, args) is Ok,
    ensures
        1 <= tasks_of(name, args)->Ok_0.len() <= MAX_TASKS,
        tasks_of(name, args)->Ok_0.len() > 1 ==> name == "sub_agent"@,
        forall|i: int|
            0 <= i < tasks_of(name, args)->Ok_0.len() ==> !text::blank(
                #[trigger] tasks_of(name, args)->Ok_0[i],
            ),
{
}

/// How long to pause, in milliseconds, before a sub-agent is looked at again.
pub const POLL_MS: u64 = 50;

/// A call that sends out sub-agents, on its way: which tasks went out, and whose
/// results are there.
#[derive(Debug)]
pub struct Delegation {
    pub call_id: String,
    pub tasks: Vec<String>,
    pub tools: Option<Vec<String>>,
    pub wait: bool,
    pub children: Vec<Json>,
    pub results: Vec<Json>,
}

/// What a call on its way says.
pub struct DelegationView {
    pub call_id: Seq<char>,
    pub tasks: Seq<Seq<char>>,
    pub tools: Option<Seq<Seq<char>>>,
    pub wait: bool,
    pub children: Seq<JsonView>,
    pub results: Seq<JsonView>,
}

impl View for Delegation {
    type V = DelegationView;

    open spec fn view(&self) -> DelegationView {
        DelegationView {
            call_id: self.call_id@,
            tasks: text::views(self.tasks@),
            tools: opt_texts(self.tools),
            wait: self.wait,
            children: json::list_view(self.children@),
            results: json::list_view(self.results@),
        }
    }
}

/// What is to be done next for a call.
#[derive(Debug)]
pub enum DelegationStep {
    /// Send out a sub-agent for the task, under the identifier.
    Spawn { call_id: String, task: String, tools: Option<Vec<String>> },
    /// Look at the sub-agent.
    Look { child_run_id: String },
    /// The call is answered.
    Answer(String),
    /// The call ends with the error.
    Fail(String),
}

/// What a step says.
pub enum DelegationStepView {
    Spawn { call_id: Seq<char>, task: Seq<char>, tools: Option<Seq<Seq<char>>> },
    Look { child_run_id: Seq<char> },
    Answer(Seq<char>),
    Fail(Seq<char>),
}

impl View for DelegationStep {
    type V = DelegationStepView;

    open spec fn view(&self) -> DelegationStepView {
        match *self {
            DelegationStep::Spawn { call_id, task, tools } => DelegationStepView::Spawn {
                call_id: call_id@,
                task: task@,
                tools: opt_texts(tools),
            },
            DelegationStep::Look { child_run_id } => DelegationStepView::Look {
                child_run_id: child_run_id@,
            },
            DelegationStep::Answer(s) => DelegationStepView::Answer(s@),
            DelegationStep::Fail(e) => DelegationStepView::Fail(e@),
        }
    }
}

/// What follows what was heard of a sub-agent.
#[derive(Debug)]
pub enum Heard {
    /// Go on with the next step.
    Next,
    /// Go on after a pause.
    Pause,
    /// The call ends with the error.
    Fail(String),
}

/// The run that the answer to a spawned task names.
pub open spec fn run_of(child: JsonView) -> Option<Seq<char>> {
    json::str_of(json::at_key(child, "child_run_id"@))
}

/// A result that tells of a sub-agent that is done.
pub open spec fn tells_of_end(result: JsonView, task: Seq<char>, child: JsonView) -> bool {
    exists|c: ChildRecord|
        c.terminal && run_of(child) is Some && result == #[trigger] result_json(
            task,
            run_of(child)->0,
            c,
        )
}

/// The answer of a call, as a text.
pub open spec fn answer_text(key: Seq<char>, items: Seq<JsonView>) -> Seq<char> {
    json::json_text_of(JsonView::Object(seq![(key, JsonView::Array(items))]))
}

/// What is to be done next: the tasks go out one by one in order; then, where the call
/// waits, each sub-agent is looked at in order until it is done; then the call is answered.
pub open spec fn next_of(d: DelegationView) -> DelegationStepView {
    if d.children.len() < d.tasks.len() {
        DelegationStepView::Spawn {
            call_id: d.call_id + ":"@ + text::decimal(d.children.len()),
            task: d.tasks[d.children.len() as int],
            tools: d.tools,
        }
    } else if !d.wait {
        DelegationStepView::Answer(answer_text("children"@, d.children))
    } else if d.results.len() < d.tasks.len() {
        match run_of(d.children[d.results.len() as int]) {
            Some(id) => DelegationStepView::Look { child_run_id: id },
            None => DelegationStepView::Fail("缺少 child_run_id"@),
        }
    } else {
        DelegationStepView::Answer(answer_text("results"@, d.results))
    }
}

fn clone_texts(v: &Vec<String>) -> (r: Vec<String>)
    ensures
        text::views(r@) == text::views(v@),
{
    let mut out: Vec<String> = Vec::new();
    let mut i: usize = 0;
    while i < v.len()
        invariant
            i <= v@.len(),
            out@.len() == i,
            forall|k: int| 0 <= k < i ==> (#[trigger] out@[k])@ == v@[k]@,
        decreases v@.len() - i,
    {
        out.push(v[i].clone());
        i = i + 1;
    }
    assert(text::views(out@) =~= text::views(v@));
    out
}

fn clone_documents(v: &Vec<Json>) -> (r: Vec<Json>)
    ensures
        json::list_view(r@) == json::list_view(v@),
{
    let mut out: Vec<Json> = Vec::new();
    let mut i: usize = 0;
    while i < v.len()
        invariant
            i <= v@.len(),
            out@.len() == i,
            forall|k: int| 0 <= k < i ==> (#[trigger] out@[k])@ == v@[k]@,
        decreases v@.len() - i,
    {
        out.push(v[i].clone());
        i = i + 1;
    }
    assert(json::list_view(out@) =~= json::list_view(v@));
    out
}

impl Delegation {
    /// The tasks go out in order, before any result is there, and the result number `i`
    /// tells of the end of the sub-agent number `i`.
    pub open spec fn wf(self) -> bool {
        &&& self@.children.len() <= self@.tasks.len()
        &&& self@.results.len() <= self@.tasks.len()
        &&& self@.results.len() > 0 ==> self.wait && self@.children.len() == self@.tasks.len()
        &&& forall|i: int|
            0 <= i < self@.results.len() ==> tells_of_end(
                #[trigger] self@.results[i],
                self@.tasks[i],
                self@.children[i],
            )
    }

    /// A call whose tasks have not gone out.
    pub fn new(
        call_id: String,
        tasks: Vec<String>,
        tools: Option<Vec<String>>,
        wait: bool,
    ) -> (r: Self)
        ensures
            r.wf(),
            r@ == (DelegationView {
                call_id: call_id@,
                tasks: text::views(tasks@),
                tools: opt_texts(tools),
                wait,
                children: Seq::empty(),
                results: Seq::empty(),
            }),
    {
        let r = Delegation {
            call_id,
            tasks,
            tools,
            wait,
            children: Vec::new(),
            results: Vec::new(),
        };
        assert(r@.children =~= Seq::<JsonView>::empty());
        assert(r@.results =~= Seq::<JsonView>::empty());
        r
    }

    /// What is to be done next.
    pub fn next(&self) -> (r: DelegationStep)
        requires
            self.wf(),
        ensures
            r@ == next_of(self@),
    {
        let sent: usize = self.children.len();
        if sent < self.tasks.len() {
            let tools = match &self.tools {
                Some(t) => Some(clone_texts(t)),
                None => None,
            };
            return DelegationStep::Spawn {
                call_id: child_call_id(self.call_id.as_str(), sent),
                task: self.tasks[sent].clone(),
                tools,
            };
        }
        if !self.wait {
            return DelegationStep::Answer(answer("children", clone_documents(&self.children)));
        }
        let done: usize = self.results.len();
        if done < self.tasks.len() {
            assert(self@.children[done as int] == self.children@[done as int]@);
            return match spawned_run(&self.children[done]) {
                Ok(child_run_id) => DelegationStep::Look { child_run_id },
                Err(e) => DelegationStep::Fail(e),
            };
        }
        DelegationStep::Answer(answer("results", clone_documents(&self.results)))
    }

    /// Takes what came of sending out the next task: the sub-agent, or why there is none.
    pub fn on_spawned(&mut self, outcome: Result<Json, String>) -> (r: Heard)
        requires
            old(self).wf(),
            next_of(old(self)@) is Spawn,
        ensures
            final(self).wf(),
            match outcome {
                Ok(child) => r is Next && final(self)@ == (DelegationView {
                    children: old(self)@.children.push(child@),
                    ..old(self)@
                }),
                Err(e) => r matches Heard::Fail(m) && m@ == e@ && final(self)@ == old(self)@,
            },
    {
        match outcome {
            Ok(child) => {
                let ghost before = self@;
                self.children.push(child);
                assert(self@.children =~= before.children.push(child@));
                assert(self@ == (DelegationView {
                    children: before.children.push(child@),
                    ..before
                }));
                Heard::Next
            },
            Err(e) => Heard::Fail(e),
        }
    }

    /// Takes what a look at the sub-agent showed: whether the call was cancelled, and the
    /// record of the sub-agent, or why it could not be read.
    pub fn on_look(
        &mut self,
        cancelled: bool,
        record: &Result<Option<ChildRecord>, String>,
    ) -> (r: Heard)
        requires
            old(self).wf(),
            next_of(old(self)@) is Look,
        ensures
            final(self).wf(),
            ({
                let i = old(self)@.results.len() as int;
                if cancelled {
                    &&& r matches Heard::Fail(e) && e@
                        == "父 run 已取消；委派子树由 daemon 收敛"@
                    &&& final(self)@ == old(self)@
                } else {
                    match *record {
                        Err(e) => r matches Heard::Fail(m) && m@ == e@ && final(self)@ == old(
                            self,
                        )@,
                        Ok(None) => r matches Heard::Fail(m) && m@ == "子 Agent 记录消失"@
                            && final(self)@ == old(self)@,
                        Ok(Some(c)) => if c.terminal {
                            &&& r is Next
                            &&& final(self)@ == (DelegationView {
                                results: old(self)@.results.push(
                                    result_json(
                                        old(self)@.tasks[i],
                                        run_of(old(self)@.children[i])->0,
                                        c,
                                    ),
                                ),
                                ..old(self)@
                            })
                        } else {
                            r is Pause && final(self)@ == old(self)@
                        },
                    }
                }
            }),
    {
        let i: usize = self.results.len();
        let ghost before = self@;
        assert(before.children[i as int] == self.children@[i as int]@);
        assert(before.tasks[i as int] == self.tasks@[i as int]@);
        let child = match spawned_run(&self.children[i]) {
            Ok(id) => id,
            Err(e) => return Heard::Fail(e),
        };
        let seen: Option<&ChildRecord> = match record {
            Ok(Some(c)) => Some(c),
            Ok(None) => None,
            Err(e) => {
                if !cancelled {
                    return Heard::Fail(e.clone());
                }
                None
            },
        };
        match wait_step(self.tasks[i].as_str(), child.as_str(), cancelled, seen) {
            WaitStep::Pause => Heard::Pause,
            WaitStep::Abort(e) => Heard::Fail(e),
            WaitStep::Finished(result) => {
                let ghost c = record->Ok_0->0;
                self.results.push(result);
                proof {
                    assert(self@.results =~= before.results.push(result@));
                    assert(result@ == result_json(
                        before.tasks[i as int],
                        run_of(before.children[i as int])->0,
                        c,
                    ));
                    assert(tells_of_end(
                        result@,
                        before.tasks[i as int],
                        before.children[i as int],
                    ));
                    assert forall|k: int| 0 <= k < self@.results.len() implies tells_of_end(
                        #[trigger] self@.results[k],
                        self@.tasks[k],
                        self@.children[k],
                    ) by {
                        if k < i {
                            assert(self@.results[k] == before.results[k]);
                        }
                    }
                    assert(self@ == (DelegationView {
                        results: before.results.push(result@),
                        ..before
                    }));
                }
                Heard::Next
            },
        }
    }
}

/// A call that waits is answered with one result for each task, in the order of the
/// tasks: the result number `i` tells of the end of the sub-agent that was sent out for the
/// task number `i`. One that does not wait is answered with the sub-agents, in that order.
pub proof fn law_answers_keep_the_order(d: Delegation)
    requires
        d.wf(),
        next_of(d@) is Answer,
    ensures
        d@.children.len() == d@.tasks.len(),
        !d.wait ==> next_of(d@)->Answer_0 == answer_text("children"@, d@.children),
        d.wait ==> {
            &&& next_of(d@)->Answer_0 == answer_text("results"@, d@.results)
            &&& d@.results.len() == d@.tasks.len()
            &&& forall|i: int|
                0 <= i < d@.results.len() ==> tells_of_end(
                    #[trigger] d@.results[i],
                    d@.tasks[i],
                    d@.children[i],
                )
        },
{
}

/// Reading back: the schema of a plain value, field by field.
pub proof fn law_plain_type_reads_back(name: Seq<char>)
    ensures
        json::at_key(plain_type(name), "type"@) == JsonView::Str(name),
{
    reveal_strlit("type");
    json::lemma_field_at(plain_type(name), "type"@, 0);
}

/// Reading back: the result of a sub-agent in the answer of the call, field by field.
pub proof fn law_result_reads_back(task: Seq<char>, child: Seq<char>, r: ChildRecord)
    ensures
        json::at_key(result_json(task, child, r), "task"@) == JsonView::Str(task),
        json::at_key(result_json(task, child, r), "child_run_id"@) == JsonView::Str(child),
        json::at_key(result_json(task, child, r), "success"@) == JsonView::Bool(r.completed),
        json::at_key(result_json(task, child, r), "result"@)
            == text_or_null(json::opt_text(r.content)),
        json::at_key(result_json(task, child, r), "status"@) == JsonView::Str(r.status@),
        json::at_key(result_json(task, child, r), "error"@)
            == text_or_null(json::opt_text(r.error_message)),
{
    reveal_strlit("child_run_id");
    reveal_strlit("error");
    reveal_strlit("result");
    reveal_strlit("status");
    reveal_strlit("success");
    reveal_strlit("task");
    assert("task"@.len() != "child_run_id"@.len());
    assert("task"@.len() != "success"@.len());
    assert("child_run_id"@.len() != "success"@.len());
    assert("task"@.len() != "result"@.len());
    assert("child_run_id"@.len() != "result"@.len());
    assert("success"@.len() != "result"@.len());
    assert("task"@.len() != "status"@.len());
    assert("child_run_id"@.len() != "status"@.len());
    assert("success"@.len() != "status"@.len());
    assert("result"@[0] != "status"@[0]);
    assert("task"@.len() != "error"@.len());
    assert("child_run_id"@.len() != "error"@.len());
    assert("success"@.len() != "error"@.len());
    assert("result"@.len() != "error"@.len());
    assert("status"@.len() != "error"@.len());
    json::lemma_field_at(result_json(task, child, r), "task"@, 0);
    json::lemma_field_at(result_json(task, child, r), "child_run_id"@, 1);
    json::lemma_field_at(result_json(task, child, r), "success"@, 2);
    json::lemma_field_at(result_json(task, child, r), "result"@, 3);
    json::lemma_field_at(result_json(task, child, r), "status"@, 4);
    json::lemma_field_at(result_json(task, child, r), "error"@, 5);
}

/// A text that is there is told as itself, and else nothing is.
pub proof fn law_texts_or_nothing(s: Option<Seq<char>>)
    ensures
        s is Some ==> text_or_null(s) == JsonView::Str(s->0),
        s is None ==> text_or_null(s) is Null,
{
}

/// What a call asks for follows from its name and its arguments: the runs to wait for and the
/// run to cancel are those named, and tasks go out with the tools that are named. Only the
/// call that says so does not wait.
pub proof fn law_calls_ask_for_what_they_name(name: Seq<char>, args: JsonView)
    ensures
        plan_of(name, args) matches Ok(plan) ==> match plan {
            PlanView::List => name == "list_subagents"@,
            PlanView::Wait { child_run_ids, timeout_ms, after_seq } => name == "wait_subagents"@
                && (json::at_key(args, "child_run_ids"@) matches JsonView::Array(v) && v.len()
                == child_run_ids.len() && forall|i: int|
                0 <= i < v.len() ==> #[trigger] v[i] == JsonView::Str(child_run_ids[i])) && (
            json::u64_of(json::at_key(args, "timeout_ms"@)) is Some ==> timeout_ms == json::u64_of(
                json::at_key(args, "timeout_ms"@),
            )->0) && after_seq == json::u64_of(json::at_key(args, "after_seq"@)),
            PlanView::Cancel { child_run_id } => name == "cancel_subagent"@ && json::at_key(
                args,
                "child_run_id"@,
            ) == JsonView::Str(child_run_id),
            PlanView::Spawn { tasks, tools, wait } => (wait <==> name != "spawn_subagent"@) && (
            tools is None ==> json::field(args, "tools"@) is None) && (tools is Some ==> (
            json::at_key(args, "tools"@) matches JsonView::Array(v) && v.len() == tools->0.len()
                && forall|i: int|
                0 <= i < v.len() ==> #[trigger] v[i] == JsonView::Str(tools->0[i]))) && (
            json::at_key(args, "task"@) matches JsonView::Str(t) ==> tasks.len() == 1 && tasks[0]
                == t) && (!(json::at_key(args, "task"@) is Str) ==> (json::at_key(
                args,
                "tasks"@,
            ) matches JsonView::Array(v) && v.len() == tasks.len() && forall|i: int|
                0 <= i < v.len() ==> #[trigger] v[i] == JsonView::Str(tasks[i]))),
        },
{
}

/// The schema of a call has its properties and allows no others; it requires what it says it
/// does.
pub proof fn law_schema_reads_back(
    properties: Seq<(Seq<char>, JsonView)>,
    required: Option<Seq<char>>,
)
    ensures
        json::at_key(schema(properties, required), "type"@) == JsonView::Str("object"@),
        json::at_key(schema(properties, required), "properties"@) == JsonView::Object(properties),
        json::at_key(schema(properties, required), "additionalProperties"@) == JsonView::Bool(
            false,
        ),
        required is Some ==> json::at_key(schema(properties, required), "required"@)
            == JsonView::Array(seq![JsonView::Str(required->0)]),
        required is None ==> json::field(schema(properties, required), "required"@) is None,
{
    reveal_strlit("type");
    reveal_strlit("properties");
    reveal_strlit("required");
    reveal_strlit("additionalProperties");
    assert("type"@.len() == 4 && "properties"@.len() == 10 && "required"@.len() == 8
        && "additionalProperties"@.len() == 20);
    let j = schema(properties, required);
    json::lemma_field_at(j, "type"@, 0);
    json::lemma_field_at(j, "properties"@, 1);
    if required is Some {
        json::lemma_field_at(j, "required"@, 2);
        json::lemma_field_at(j, "additionalProperties"@, 3);
    } else {
        json::lemma_no_field(j, "required"@);
        json::lemma_field_at(j, "additionalProperties"@, 2);
    }
}

/// Tasks go out one by one and in order, each with the tools of the call; only when all are
/// out is a sub-agent looked at, and then the first whose result is missing.
pub proof fn law_tasks_go_out_in_order(d: DelegationView)
    ensures
        d.children.len() < d.tasks.len() ==> (next_of(d) matches DelegationStepView::Spawn {
            task,
            tools,
            ..
        } && task == d.tasks[d.children.len() as int] && tools == d.tools),
        next_of(d) is Spawn <==> d.children.len() < d.tasks.len(),
        next_of(d) is Answer ==> d.children.len() >= d.tasks.len() && (d.wait ==> d.results.len()
            >= d.tasks.len()),
        next_of(d) matches DelegationStepView::Look { child_run_id } ==> d.wait && d.results.len()
            < d.tasks.len() && json::at_key(d.children[d.results.len() as int], "child_run_id"@)
            == JsonView::Str(child_run_id),
{
}

/// A call is accepted where its arguments have their types: the list always, a wait with a
/// list of texts, a cancellation with a text, and the others with tasks and tools that fit. A
/// wait without a time has the default.
pub proof fn law_fitting_calls_are_accepted(name: Seq<char>, args: JsonView)
    ensures
        name == "list_subagents"@ ==> plan_of(name, args) == Ok::<PlanView, Seq<char>>(
            PlanView::List,
        ),
        name != "list_subagents"@ && name == "wait_subagents"@ ==> (plan_of(name, args) is Ok <==> (
        json::at_key(args, "child_run_ids"@) matches JsonView::Array(v) && forall|i: int|
            0 <= i < v.len() ==> (#[trigger] v[i]) is Str)),
        plan_of(name, args) matches Ok(PlanView::Wait { timeout_ms, .. }) ==> json::u64_of(
            json::at_key(args, "timeout_ms"@),
        ) is None ==> timeout_ms == DEFAULT_WAIT_MS,
        name != "list_subagents"@ && name != "wait_subagents"@ && name == "cancel_subagent"@ ==> (
        plan_of(name, args) is Ok <==> json::at_key(args, "child_run_id"@) is Str),
        name != "list_subagents"@ && name != "wait_subagents"@ && name != "cancel_subagent"@ ==> (
        plan_of(name, args) is Ok <==> tasks_of(name, args) is Ok && tools_of(args) is Ok),
        tools_of(args) is Ok <==> json::field(args, "tools"@) is None || (json::at_key(
            args,
            "tools"@,
        ) matches JsonView::Array(v) && forall|i: int|
            0 <= i < v.len() ==> (#[trigger] v[i]) is Str),
{
}

/// One task is accepted exactly where it is not blank and no list stands beside it; a list is
/// accepted by the synchronous tool alone, where it holds one to four texts, none blank.
pub proof fn law_which_tasks_are_accepted(name: Seq<char>, args: JsonView)
    ensures
        json::at_key(args, "task"@) matches JsonView::Str(t) ==> (tasks_of(name, args) is Ok <==> !(
        json::at_key(args, "tasks"@) is Array) && !text::blank(t)),
        !(json::at_key(args, "task"@) is Str) ==> (tasks_of(name, args) is Ok <==> name
            == "sub_agent"@ && (json::at_key(args, "tasks"@) matches JsonView::Array(v) && 1
            <= v.len() <= 4 && forall|i: int|
            0 <= i < v.len() ==> ((#[trigger] v[i]) matches JsonView::Str(t) && !text::blank(t)))),
{
    if !(json::at_key(args, "task"@) is Str) {
        if let JsonView::Array(v) = json::at_key(args, "tasks"@) {
            let s = strings_of(v);
            if all_strings(v) {
                if some_blank(s) {
                    let i = choose|i: int| 0 <= i < s.len() && text::blank(#[trigger] s[i]);
                    assert(v[i] is Str && text::blank(v[i]->Str_0));
                } else {
                    assert forall|i: int| 0 <= i < v.len() implies ((
                    #[trigger] v[i]) matches JsonView::Str(t) && !text::blank(t)) by {
                        assert(!text::blank(s[i]));
                    }
                }
            }
        }
    }
}

} // verus!
