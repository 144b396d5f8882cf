//! Sessions: which one a request means, what is told of one, and the list of all.
use vstd::prelude::*;

use crate::daemon::approval;
use crate::daemon::approval::{ApprovalBroker, ApprovalView, PendingApprovalInfo};
use crate::daemon::chat::{ActiveRequests, Failure};
use crate::daemon::handlers::{INTERNAL_ERROR, INVALID_PARAMS};
use crate::daemon::pages;
use crate::daemon::protocol;
use crate::daemon::protocol::{RequestId, RequestIdView};
use crate::daemon::KeyView;
use crate::json;
use crate::json::{Json, JsonView};
use crate::provider;
use crate::text;

verus! {

/// Where a session comes from.
#[derive(Clone, Copy, Debug, PartialEq, Eq, Structural)]
pub enum SessionSource {
    /// It is the one that the daemon was started with.
    Default,
    /// It is loaded already.
    Loaded,
    /// It has to be opened.
    Store,
}

/// The session that a request means: the one it names, else the current one.
pub fn requested_session(requested_id: Option<&str>, current_id: &str) -> (r: String)
    ensures
        r@ == (match requested_id {
            Some(id) => id@,
            None => current_id@,
        }),
{
    match requested_id {
        Some(id) => id.to_owned(),
        None => current_id.to_owned(),
    }
}

/// Where the session comes from.
pub fn session_source(session_id: &str, default_id: &str, loaded_ids: &Vec<String>) -> (r:
    SessionSource)
    ensures
        r == (if session_id@ == default_id@ {
            SessionSource::Default
        } else if text::views(loaded_ids@).contains(session_id@) {
            SessionSource::Loaded
        } else {
            SessionSource::Store
        }),
{
    if text::same(session_id, default_id) {
        return SessionSource::Default;
    }
    if text::contains_text(loaded_ids, session_id) {
        SessionSource::Loaded
    } else {
        SessionSource::Store
    }
}

/// What follows a session that did not open: one that a run is known of is opened again
/// without its file, any other is an error of the request.
pub fn open_failed(open_error: String, known: Result<bool, String>) -> (r: Result<(), Failure>)
    ensures
        match known {
            Ok(true) => r is Ok,
            Ok(false) => r is Err && r->Err_0.0 == INVALID_PARAMS && r->Err_0.1@ == open_error@,
            Err(e) => r is Err && r->Err_0.0 == INTERNAL_ERROR && r->Err_0.1@ == e@,
        },
{
    match known {
        Ok(true) => Ok(()),
        Ok(false) => Err((INVALID_PARAMS, open_error)),
        Err(e) => Err((INTERNAL_ERROR, e)),
    }
}

/// The requests of a session among those that are being worked on.
pub open spec fn requests_in(keys: Seq<KeyView>, session: Seq<char>) -> Seq<RequestIdView>
    decreases keys.len(),
{
    if keys.len() == 0 {
        Seq::empty()
    } else {
        let rest = requests_in(keys.drop_last(), session);
        if keys.last().session_id == session {
            rest.push(keys.last().request_id)
        } else {
            rest
        }
    }
}

/// What a list of request identifiers says.
pub open spec fn id_views(v: Seq<RequestId>) -> Seq<RequestIdView> {
    Seq::new(v.len(), |i: int| v[i]@)
}

/// The questions among `all` that belong to one of the requests.
pub open spec fn asked_by(all: Seq<ApprovalView>, ids: Seq<RequestIdView>) -> Seq<ApprovalView>
    decreases all.len(),
{
    if all.len() == 0 {
        Seq::empty()
    } else {
        let rest = asked_by(all.drop_last(), ids);
        if ids.contains(all.last().request_id) {
            rest.push(all.last())
        } else {
            rest
        }
    }
}

/// How busy a session is.
#[derive(Clone, Copy, Debug, PartialEq, Eq, Structural)]
pub enum SessionStatus {
    Idle,
    Running,
    Waiting,
}

/// The name of a state of a session.
pub open spec fn session_status_name(s: SessionStatus) -> Seq<char> {
    match s {
        SessionStatus::Idle => "idle"@,
        SessionStatus::Running => "running"@,
        SessionStatus::Waiting => "waiting"@,
    }
}

impl SessionStatus {
    /// The name of the state.
    pub fn name(self) -> (r: &'static str)
        ensures
            r@ == session_status_name(self),
    {
        match self {
            SessionStatus::Idle => "idle",
            SessionStatus::Running => "running",
            SessionStatus::Waiting => "waiting",
        }
    }
}

/// A session waits while it has asked something, else it runs while it has a request.
pub open spec fn busy_status(asked: bool, requests: nat) -> SessionStatus {
    if asked {
        SessionStatus::Waiting
    } else if requests > 0 {
        SessionStatus::Running
    } else {
        SessionStatus::Idle
    }
}

/// What goes on in a session.
#[derive(Debug)]
pub struct SessionActivity {
    pub active_requests: Vec<RequestId>,
    pub approvals: Vec<PendingApprovalInfo>,
    pub status: SessionStatus,
}

fn contains_id(ids: &Vec<RequestId>, id: &RequestId) -> (r: bool)
    ensures
        r == id_views(ids@).contains(id@),
{
    let ghost views = id_views(ids@);
    let mut i: usize = 0;
    while i < ids.len()
        invariant
            i <= ids@.len(),
            views == id_views(ids@),
            forall|k: int| 0 <= k < i ==> #[trigger] views[k] != id@,
        decreases ids@.len() - i,
    {
        assert(views[i as int] == ids@[i as int]@);
        if ids[i].same(id) {
            return true;
        }
        i = i + 1;
    }
    false
}

/// The requests of a session that are being worked on.
pub fn active_requests_of(active: &ActiveRequests, session_id: &str) -> (r: Vec<RequestId>)
    ensures
        id_views(r@) == requests_in(active.keys(), session_id@),
{
    let ghost keys = active.keys();
    let mut out: Vec<RequestId> = Vec::new();
    let mut i: usize = 0;
    assert(keys.take(0) =~= Seq::<KeyView>::empty());
    assert(id_views(out@) =~= Seq::<RequestIdView>::empty());
    while i < active.entries.len()
        invariant
            i <= active.entries@.len(),
            keys == active.keys(),
            id_views(out@) == requests_in(keys.take(i as int), session_id@),
        decreases active.entries@.len() - i,
    {
        proof {
            assert(keys.take(i + 1).drop_last() =~= keys.take(i as int));
            assert(keys.take(i + 1).last() == active.entries@[i as int].0@);
        }
        let key = &active.entries[i].0;
        if text::same(key.session_id.as_str(), session_id) {
            let ghost before = id_views(out@);
            out.push(key.request_id.clone());
            assert(id_views(out@) =~= before.push(key@.request_id));
        }
        i = i + 1;
    }
    assert(keys.take(i as int) =~= keys);
    out
}

fn keep_asked_by(all: Vec<PendingApprovalInfo>, ids: &Vec<RequestId>) -> (r: Vec<
    PendingApprovalInfo,
>)
    ensures
        approval::info_views(r@) == asked_by(approval::info_views(all@), id_views(ids@)),
{
    let ghost views = approval::info_views(all@);
    let mut out: Vec<PendingApprovalInfo> = Vec::new();
    let mut i: usize = 0;
    assert(views.take(0) =~= Seq::<ApprovalView>::empty());
    assert(approval::info_views(out@) =~= Seq::<ApprovalView>::empty());
    while i < all.len()
        invariant
            i <= all@.len(),
            views == approval::info_views(all@),
            approval::info_views(out@) == asked_by(views.take(i as int), id_views(ids@)),
        decreases all@.len() - i,
    {
        proof {
            assert(views.take(i + 1).drop_last() =~= views.take(i as int));
            assert(views.take(i + 1).last() == all@[i as int]@);
        }
        if contains_id(ids, &all[i].request_id) {
            let ghost before = approval::info_views(out@);
            out.push(all[i].clone());
            assert(approval::info_views(out@) =~= before.push(all@[i as int]@));
        }
        i = i + 1;
    }
    assert(views.take(i as int) =~= views);
    out
}

/// What goes on in a session: its requests, and the questions that they have asked, in the
/// order of their identifiers.
pub fn session_activity(active: &ActiveRequests, broker: &ApprovalBroker, session_id: &str) -> (r:
    SessionActivity)
    ensures
        id_views(r.active_requests@) == requests_in(active.keys(), session_id@),
        exists|all: Seq<ApprovalView>|
            {
                &&& approval::ordered(all)
                &&& all.to_multiset() == approval::of_session(broker@, Some(session_id@))
                &&& approval::info_views(r.approvals@) == #[trigger] asked_by(
                    all,
                    id_views(r.active_requests@),
                )
            },
        r.status == busy_status(r.approvals@.len() > 0, r.active_requests@.len()),
{
    let active_requests = active_requests_of(active, session_id);
    let all = broker.pending_for_session(Some(session_id));
    let ghost views = approval::info_views(all@);
    let approvals = keep_asked_by(all, &active_requests);
    assert(approval::info_views(approvals@) == asked_by(views, id_views(active_requests@)));
    let status = if approvals.len() > 0 {
        SessionStatus::Waiting
    } else if active_requests.len() > 0 {
        SessionStatus::Running
    } else {
        SessionStatus::Idle
    };
    SessionActivity { active_requests, approvals, status }
}

/// The document of a list of request identifiers.
pub open spec fn ids_json(ids: Seq<RequestIdView>) -> JsonView {
    JsonView::Array(Seq::new(ids.len(), |i: int| protocol::id_json(ids[i])))
}

/// The document of a list of questions.
pub open spec fn infos_json(infos: Seq<ApprovalView>) -> JsonView {
    JsonView::Array(Seq::new(infos.len(), |i: int| approval::info_json(infos[i])))
}

fn ids_to_json(ids: &Vec<RequestId>) -> (r: Json)
    ensures
        r@ == ids_json(id_views(ids@)),
{
    let mut items: Vec<Json> = Vec::new();
    let mut i: usize = 0;
    while i < ids.len()
        invariant
            i <= ids@.len(),
            items@.len() == i,
            forall|k: int| 0 <= k < i ==> (#[trigger] items@[k])@ == protocol::id_json(ids@[k]@),
        decreases ids@.len() - i,
    {
        items.push(protocol::id_to_json(&ids[i]));
        i = i + 1;
    }
    assert(json::list_view(items@) =~= ids_json(id_views(ids@))->Array_0);
    json::array(items)
}

fn infos_to_json(infos: &Vec<PendingApprovalInfo>) -> (r: Json)
    ensures
        r@ == infos_json(approval::info_views(infos@)),
{
    let mut items: Vec<Json> = Vec::new();
    let mut i: usize = 0;
    while i < infos.len()
        invariant
            i <= infos@.len(),
            items@.len() == i,
            forall|k: int|
                0 <= k < i ==> (#[trigger] items@[k])@ == approval::info_json(infos@[k]@),
        decreases infos@.len() - i,
    {
        items.push(approval::info_to_json(&infos[i]));
        i = i + 1;
    }
    assert(json::list_view(items@) =~= infos_json(approval::info_views(infos@))->Array_0);
    json::array(items)
}

/// The answer for a session that was opened anew.
pub open spec fn new_session_json(session_id: Seq<char>) -> JsonView {
    JsonView::Object(
        seq![
            ("created"@, JsonView::Bool(true)),
            ("session_id"@, JsonView::Str(session_id)),
            ("messages"@, JsonView::Array(Seq::empty())),
            ("pending_approvals"@, JsonView::Array(Seq::empty())),
            ("active_requests"@, JsonView::Array(Seq::empty())),
        ],
    )
}

/// The answer for a session that was opened anew.
pub fn session_new(session_id: &str) -> (r: Json)
    ensures
        r@ == new_session_json(session_id@),
{
    let mut f = json::no_fields();
    json::put(&mut f, "created", Json::Bool(true));
    json::put(&mut f, "session_id", Json::of_str(session_id));
    json::put(&mut f, "messages", json::empty_array());
    json::put(&mut f, "pending_approvals", json::empty_array());
    json::put(&mut f, "active_requests", json::empty_array());
    assert(json::fields_view(f@) =~= new_session_json(session_id@)->Object_0);
    json::object(f)
}

/// What is told of a session: its messages and what goes on in it.
pub open spec fn snapshot_json(
    session_id: Seq<char>,
    messages: Seq<JsonView>,
    approvals: Seq<ApprovalView>,
    requests: Seq<RequestIdView>,
    status: SessionStatus,
) -> Seq<(Seq<char>, JsonView)> {
    seq![
        ("session_id"@, JsonView::Str(session_id)),
        ("messages"@, JsonView::Array(messages)),
        ("pending_approvals"@, infos_json(approvals)),
        ("active_requests"@, ids_json(requests)),
        ("status"@, JsonView::Str(session_status_name(status))),
    ]
}

fn snapshot_fields(session_id: &str, messages: Vec<Json>, activity: &SessionActivity) -> (r: Vec<
    (String, Json),
>)
    ensures
        json::fields_view(r@) == snapshot_json(
            session_id@,
            json::list_view(messages@),
            approval::info_views(activity.approvals@),
            id_views(activity.active_requests@),
            activity.status,
        ),
{
    let ghost given = json::list_view(messages@);
    let mut f = json::no_fields();
    json::put(&mut f, "session_id", Json::of_str(session_id));
    json::put(&mut f, "messages", json::array(messages));
    json::put(&mut f, "pending_approvals", infos_to_json(&activity.approvals));
    json::put(&mut f, "active_requests", ids_to_json(&activity.active_requests));
    json::put(&mut f, "status", Json::of_str(activity.status.name()));
    assert(json::fields_view(f@) =~= snapshot_json(
        session_id@,
        given,
        approval::info_views(activity.approvals@),
        id_views(activity.active_requests@),
        activity.status,
    ));
    f
}

/// Tells of a session.
pub fn session_snapshot(session_id: &str, messages: Vec<Json>, activity: &SessionActivity) -> (r:
    Json)
    ensures
        r@ == JsonView::Object(
            snapshot_json(
                session_id@,
                json::list_view(messages@),
                approval::info_views(activity.approvals@),
                id_views(activity.active_requests@),
                activity.status,
            ),
        ),
{
    json::object(snapshot_fields(session_id, messages, activity))
}

/// Tells of a session that is taken up again.
pub fn session_resume(session_id: &str, messages: Vec<Json>, activity: &SessionActivity) -> (r:
    Json)
    ensures
        r@ == JsonView::Object(
            snapshot_json(
                session_id@,
                json::list_view(messages@),
                approval::info_views(activity.approvals@),
                id_views(activity.active_requests@),
                activity.status,
            ).push(("resumed"@, JsonView::Bool(true))),
        ),
{
    let mut f = snapshot_fields(session_id, messages, activity);
    json::put(&mut f, "resumed", Json::Bool(true));
    json::object(f)
}

/// What stands for a message that is too large for a page.
pub const MESSAGE_TOO_LARGE: &'static str =
    "消息过大，已截断；可缩小加载范围查看其余 Session 内容";

/// What stands for a record that is too large for a page.
pub const RECORD_TOO_LARGE: &'static str =
    "链路记录过大，已截断；可继续加载其余记录";

/// The records from `offset` on.
pub open spec fn from_offset(items: Seq<JsonView>, offset: usize) -> Seq<JsonView> {
    if offset <= items.len() {
        items.skip(offset as int)
    } else {
        Seq::empty()
    }
}

/// The records of a page.
pub open spec fn page_items(
    items: Seq<JsonView>,
    offset: usize,
    limit: usize,
    message: Seq<char>,
    page: Seq<JsonView>,
) -> bool {
    let rest = from_offset(items, offset);
    &&& pages::is_page_end(rest, pages::page_limit(limit) as nat, page.len(), message)
    &&& forall|i: int|
        0 <= i < page.len() ==> #[trigger] page[i] == pages::compacted(
            rest[i],
            pages::WEB_PAGE_MAX_ITEM_BYTES as nat,
            message,
        )
}

/// One page of the messages of a session, with what goes on in it.
pub fn session_load_page(
    session_id: &str,
    history: &Vec<Json>,
    offset: usize,
    limit: usize,
    activity: &SessionActivity,
) -> (r: Json)
    ensures
        exists|page: Seq<JsonView>|
            {
                &&& #[trigger] page_items(
                    json::list_view(history@),
                    offset,
                    limit,
                    MESSAGE_TOO_LARGE@,
                    page,
                )
                &&& r@ == JsonView::Object(
                    seq![
                        ("session_id"@, JsonView::Str(session_id@)),
                        ("messages"@, JsonView::Array(page)),
                        ("offset"@, JsonView::Int(offset as int)),
                        ("limit"@, JsonView::Int(pages::page_limit(limit) as int)),
                        ("total_messages"@, JsonView::Int(history@.len() as int)),
                        (
                            "has_more"@,
                            JsonView::Bool(offset + page.len() < history@.len()),
                        ),
                        (
                            "pending_approvals"@,
                            infos_json(approval::info_views(activity.approvals@)),
                        ),
                        ("active_requests"@, ids_json(id_views(activity.active_requests@))),
                        ("status"@, JsonView::Str(session_status_name(activity.status))),
                    ],
                )
            },
{
    let at_most: usize = pages::clamp_limit(limit);
    let (messages, has_more) = pages::bounded_json_page(
        history,
        offset,
        at_most,
        MESSAGE_TOO_LARGE,
    );
    let ghost page = json::list_view(messages@);
    let mut f = json::no_fields();
    json::put(&mut f, "session_id", Json::of_str(session_id));
    json::put(&mut f, "messages", json::array(messages));
    json::put(&mut f, "offset", Json::Unsigned(offset as u64));
    json::put(&mut f, "limit", Json::Unsigned(at_most as u64));
    json::put(&mut f, "total_messages", Json::Unsigned(history.len() as u64));
    json::put(&mut f, "has_more", Json::Bool(has_more));
    json::put(&mut f, "pending_approvals", infos_to_json(&activity.approvals));
    json::put(&mut f, "active_requests", ids_to_json(&activity.active_requests));
    json::put(&mut f, "status", Json::of_str(activity.status.name()));
    proof {
        assert(from_offset(json::list_view(history@), offset) =~= if offset <= history@.len() {
            json::list_view(history@).skip(offset as int)
        } else {
            Seq::empty()
        });
        assert(page_items(json::list_view(history@), offset, limit, MESSAGE_TOO_LARGE@, page));
        assert(json::fields_view(f@) =~= seq![
            ("session_id"@, JsonView::Str(session_id@)),
            ("messages"@, JsonView::Array(page)),
            ("offset"@, JsonView::Int(offset as int)),
            ("limit"@, JsonView::Int(pages::page_limit(limit) as int)),
            ("total_messages"@, JsonView::Int(history@.len() as int)),
            ("has_more"@, JsonView::Bool(offset + page.len() < history@.len())),
            ("pending_approvals"@, infos_json(approval::info_views(activity.approvals@))),
            ("active_requests"@, ids_json(id_views(activity.active_requests@))),
            ("status"@, JsonView::Str(session_status_name(activity.status))),
        ]);
    }
    json::object(f)
}

/// The trace of a session.
pub fn session_trace(session_id: &str, records: Vec<Json>) -> (r: Json)
    ensures
        r@ == JsonView::Object(
            seq![
                ("session_id"@, JsonView::Str(session_id@)),
                ("records"@, JsonView::Array(json::list_view(records@))),
            ],
        ),
{
    let ghost given = json::list_view(records@);
    let mut f = json::no_fields();
    json::put(&mut f, "session_id", Json::of_str(session_id));
    json::put(&mut f, "records", json::array(records));
    assert(json::fields_view(f@) =~= seq![
        ("session_id"@, JsonView::Str(session_id@)),
        ("records"@, JsonView::Array(given)),
    ]);
    json::object(f)
}

/// One page of the trace of a session.
pub fn session_trace_page(
    session_id: &str,
    records: &Vec<Json>,
    offset: usize,
    limit: usize,
) -> (r: Json)
    ensures
        exists|page: Seq<JsonView>|
            {
                &&& #[trigger] page_items(
                    json::list_view(records@),
                    offset,
                    limit,
                    RECORD_TOO_LARGE@,
                    page,
                )
                &&& r@ == JsonView::Object(
                    seq![
                        ("session_id"@, JsonView::Str(session_id@)),
                        ("records"@, JsonView::Array(page)),
                        ("offset"@, JsonView::Int(offset as int)),
                        ("limit"@, JsonView::Int(pages::page_limit(limit) as int)),
                        ("total_records"@, JsonView::Int(records@.len() as int)),
                        (
                            "has_more"@,
                            JsonView::Bool(offset + page.len() < records@.len()),
                        ),
                    ],
                )
            },
{
    let at_most: usize = pages::clamp_limit(limit);
    let (items, has_more) = pages::bounded_json_page(records, offset, at_most, RECORD_TOO_LARGE);
    let ghost page = json::list_view(items@);
    let mut f = json::no_fields();
    json::put(&mut f, "session_id", Json::of_str(session_id));
    json::put(&mut f, "records", json::array(items));
    json::put(&mut f, "offset", Json::Unsigned(offset as u64));
    json::put(&mut f, "limit", Json::Unsigned(at_most as u64));
    json::put(&mut f, "total_records", Json::Unsigned(records.len() as u64));
    json::put(&mut f, "has_more", Json::Bool(has_more));
    proof {
        assert(from_offset(json::list_view(records@), offset) =~= if offset <= records@.len() {
            json::list_view(records@).skip(offset as int)
        } else {
            Seq::empty()
        });
        assert(page_items(json::list_view(records@), offset, limit, RECORD_TOO_LARGE@, page));
        assert(json::fields_view(f@) =~= seq![
            ("session_id"@, JsonView::Str(session_id@)),
            ("records"@, JsonView::Array(page)),
            ("offset"@, JsonView::Int(offset as int)),
            ("limit"@, JsonView::Int(pages::page_limit(limit) as int)),
            ("total_records"@, JsonView::Int(records@.len() as int)),
            ("has_more"@, JsonView::Bool(offset + page.len() < records@.len())),
        ]);
    }
    json::object(f)
}

/// A session as the list of sessions shows it.
#[derive(Debug)]
pub struct SessionInfo {
    pub id: String,
    pub path: String,
    pub active: bool,
    pub message_count: usize,
    pub modified_at: Option<u64>,
    pub preview: Option<String>,
    pub status: SessionStatus,
    pub active_requests: usize,
    pub updated_at: Option<u64>,
}

/// What the list shows of a session.
pub struct SessionInfoView {
    pub id: Seq<char>,
    pub path: Seq<char>,
    pub active: bool,
    pub message_count: usize,
    pub modified_at: Option<u64>,
    pub preview: Option<Seq<char>>,
    pub status: SessionStatus,
    pub active_requests: nat,
    pub updated_at: Option<u64>,
}

impl View for SessionInfo {
    type V = SessionInfoView;

    open spec fn view(&self) -> SessionInfoView {
        SessionInfoView {
            id: self.id@,
            path: self.path@,
            active: self.active,
            message_count: self.message_count,
            modified_at: self.modified_at,
            preview: json::opt_text(self.preview),
            status: self.status,
            active_requests: self.active_requests as nat,
            updated_at: self.updated_at,
        }
    }
}

impl Clone for SessionInfo {
    fn clone(&self) -> (r: Self)
        ensures
            r@ == self@,
    {
        SessionInfo {
            id: self.id.clone(),
            path: self.path.clone(),
            active: self.active,
            message_count: self.message_count,
            modified_at: self.modified_at,
            preview: provider::clone_opt(&self.preview),
            status: self.status,
            active_requests: self.active_requests,
            updated_at: self.updated_at,
        }
    }
}

/// What a list of sessions shows.
pub open spec fn session_views(v: Seq<SessionInfo>) -> Seq<SessionInfoView> {
    Seq::new(v.len(), |i: int| v[i]@)
}

/// A session that is loaded: its identifier and its file.
#[derive(Debug)]
pub struct LoadedSession {
    pub id: String,
    pub path: String,
}

/// What the daemon knows when it lists sessions.
pub struct Overview {
    pub current: Seq<char>,
    pub keys: Seq<KeyView>,
    pub asking: Seq<Seq<char>>,
}

impl Overview {
    /// How busy a session is.
    pub open spec fn status(self, id: Seq<char>) -> SessionStatus {
        busy_status(self.asking.contains(id), requests_in(self.keys, id).len())
    }

    /// A stored session as it is shown.
    pub open spec fn shown(self, s: SessionInfoView) -> SessionInfoView {
        SessionInfoView {
            active: s.id == self.current,
            active_requests: requests_in(self.keys, s.id).len(),
            status: self.status(s.id),
            updated_at: s.modified_at,
            ..s
        }
    }

    /// A session without stored messages as it is shown.
    pub open spec fn fresh(self, id: Seq<char>, path: Seq<char>) -> SessionInfoView {
        SessionInfoView {
            id,
            path,
            active: id == self.current,
            message_count: 0,
            modified_at: None,
            preview: None,
            status: self.status(id),
            active_requests: requests_in(self.keys, id).len(),
            updated_at: None,
        }
    }
}

/// A session with the identifier is in the list.
pub open spec fn listed(v: Seq<SessionInfoView>, id: Seq<char>) -> bool {
    exists|i: int| 0 <= i < v.len() && (#[trigger] v[i]).id == id
}

/// The list with those of the loaded sessions that it lacks.
pub open spec fn with_loaded(
    o: Overview,
    v: Seq<SessionInfoView>,
    loaded: Seq<LoadedSession>,
) -> Seq<SessionInfoView>
    decreases loaded.len(),
{
    if loaded.len() == 0 {
        v
    } else {
        let rest = with_loaded(o, v, loaded.drop_last());
        let s = loaded.last();
        if listed(rest, s.id@) {
            rest
        } else {
            rest.push(o.fresh(s.id@, s.path@))
        }
    }
}

/// All sessions: those that are stored, those that are loaded, and the current one.
pub open spec fn all_sessions(
    o: Overview,
    stored: Seq<SessionInfoView>,
    loaded: Seq<LoadedSession>,
    current_path: Seq<char>,
) -> Seq<SessionInfoView> {
    let shown = Seq::new(stored.len(), |i: int| o.shown(stored[i]));
    let known = with_loaded(o, shown, loaded);
    if listed(known, o.current) {
        known
    } else {
        known.push(o.fresh(o.current, current_path))
    }
}

/// One time is later than another; no time at all is the earliest.
pub open spec fn later(a: Option<u64>, b: Option<u64>) -> bool {
    match (a, b) {
        (Some(x), Some(y)) => x > y,
        (Some(_), None) => true,
        _ => false,
    }
}

/// A session stands before another in the list: the current one first, then the one that
/// changed last, then by identifier.
pub open spec fn stands_before(a: SessionInfoView, b: SessionInfoView) -> bool {
    if a.active != b.active {
        a.active
    } else if a.modified_at != b.modified_at {
        later(a.modified_at, b.modified_at)
    } else {
        text::before(a.id, b.id)
    }
}

/// No session of the list stands before one that comes earlier.
pub open spec fn in_list_order(v: Seq<SessionInfoView>) -> bool {
    forall|i: int, k: int|
        0 <= i < k < v.len() ==> !stands_before(#[trigger] v[k], #[trigger] v[i])
}

fn is_listed(v: &Vec<SessionInfo>, id: &str) -> (r: bool)
    ensures
        r == listed(session_views(v@), id@),
{
    let ghost views = session_views(v@);
    let mut i: usize = 0;
    while i < v.len()
        invariant
            i <= v@.len(),
            views == session_views(v@),
            forall|k: int| 0 <= k < i ==> (#[trigger] views[k]).id != id@,
        decreases v@.len() - i,
    {
        assert(views[i as int] == v@[i as int]@);
        if text::same(v[i].id.as_str(), id) {
            return true;
        }
        i = i + 1;
    }
    false
}

fn is_later(a: Option<u64>, b: Option<u64>) -> (r: bool)
    ensures
        r == later(a, b),
{
    match (a, b) {
        (Some(x), Some(y)) => x > y,
        (Some(_), None) => true,
        _ => false,
    }
}

fn is_earlier_in_list(a: &SessionInfo, b: &SessionInfo) -> (r: bool)
    ensures
        r == stands_before(a@, b@),
{
    if a.active != b.active {
        a.active
    } else if is_later(a.modified_at, b.modified_at) {
        true
    } else if is_later(b.modified_at, a.modified_at) {
        false
    } else {
        text::is_before(a.id.as_str(), b.id.as_str())
    }
}

proof fn lemma_stands_before(a: SessionInfoView, b: SessionInfoView, c: SessionInfoView)
    ensures
        stands_before(a, b) ==> !stands_before(b, a),
        stands_before(a, b) && !stands_before(c, b) ==> stands_before(a, c),
{
    text::lemma_before_total(a.id, b.id);
    text::lemma_before_total(b.id, c.id);
    if text::before(a.id, b.id) && text::before(b.id, c.id) {
        text::lemma_before_transitive(a.id, b.id, c.id);
    }
}

fn insert_session(v: &mut Vec<SessionInfo>, info: SessionInfo)
    requires
        in_list_order(session_views(old(v)@)),
    ensures
        in_list_order(session_views(final(v)@)),
        session_views(final(v)@).to_multiset() == session_views(old(v)@).to_multiset().insert(
            info@,
        ),
{
    let ghost views = session_views(v@);
    let mut at: usize = v.len();
    while at > 0 && is_earlier_in_list(&info, &v[at - 1])
        invariant
            at <= v@.len(),
            views == session_views(v@),
            forall|k: int| at <= k < v@.len() ==> stands_before(info@, #[trigger] views[k]),
        decreases at,
    {
        assert(views[at - 1] == v@[at - 1]@);
        at = at - 1;
    }
    v.insert(at, info);
    proof {
        let after = session_views(v@);
        assert(after =~= views.insert(at as int, info@));
        views.insert_ensures(at as int, info@);
        vstd::seq_lib::to_multiset_insert(views, at as int, info@);
        assert forall|i: int, k: int| 0 <= i < k < after.len() implies !stands_before(
            #[trigger] after[k],
            #[trigger] after[i],
        ) by {
            let x = if i < at {
                i
            } else {
                i - 1
            };
            let y = if k < at {
                k
            } else {
                k - 1
            };
            if i == at {
                assert(after[k] == views[y]);
                lemma_stands_before(info@, views[y], views[y]);
            } else if k == at {
                assert(after[i] == views[x]);
                if stands_before(info@, views[x]) {
                    if x < at - 1 {
                        assert(!stands_before(views[at - 1], views[x]));
                        lemma_stands_before(info@, views[x], views[at - 1]);
                    }
                }
            } else {
                assert(after[i] == views[x] && after[k] == views[y]);
            }
        }
    }
}

fn describe(
    info: SessionInfo,
    current_id: &str,
    active: &ActiveRequests,
    asking: &Vec<String>,
) -> (r: SessionInfo)
    ensures
        ({
            let o = Overview {
                current: current_id@,
                keys: active.keys(),
                asking: text::views(asking@),
            };
            r@ == (SessionInfoView {
                active: info@.id == o.current,
                active_requests: requests_in(o.keys, info@.id).len(),
                status: o.status(info@.id),
                ..info@
            })
        }),
{
    let count: usize = active_requests_of(active, info.id.as_str()).len();
    let status = if text::contains_text(asking, info.id.as_str()) {
        SessionStatus::Waiting
    } else if count > 0 {
        SessionStatus::Running
    } else {
        SessionStatus::Idle
    };
    let mut out = info;
    out.active = text::same(out.id.as_str(), current_id);
    out.active_requests = count;
    out.status = status;
    out
}

fn fresh_session(
    id: &str,
    path: &str,
    current_id: &str,
    active: &ActiveRequests,
    asking: &Vec<String>,
) -> (r: SessionInfo)
    ensures
        r@ == (Overview {
            current: current_id@,
            keys: active.keys(),
            asking: text::views(asking@),
        }).fresh(id@, path@),
{
    let info = SessionInfo {
        id: id.to_owned(),
        path: path.to_owned(),
        active: false,
        message_count: 0,
        modified_at: None,
        preview: None,
        status: SessionStatus::Idle,
        active_requests: 0,
        updated_at: None,
    };
    describe(info, current_id, active, asking)
}

/// Lists all sessions: those that are stored, those that are loaded, and the current one,
/// which comes first.
pub fn session_infos(
    stored: Vec<SessionInfo>,
    loaded: &Vec<LoadedSession>,
    current_id: &str,
    current_path: &str,
    active: &ActiveRequests,
    asking: &Vec<String>,
) -> (r: Vec<SessionInfo>)
    ensures
        ({
            let o = Overview {
                current: current_id@,
                keys: active.keys(),
                asking: text::views(asking@),
            };
            session_views(r@).to_multiset() == all_sessions(
                o,
                session_views(stored@),
                loaded@,
                current_path@,
            ).to_multiset()
        }),
        in_list_order(session_views(r@)),
        r@.len() > 0 && r@[0]@.id == current_id@,
{
    let ghost o = Overview {
        current: current_id@,
        keys: active.keys(),
        asking: text::views(asking@),
    };
    let ghost given = session_views(stored@);
    let ghost shown = Seq::new(given.len(), |i: int| o.shown(given[i]));
    let mut all: Vec<SessionInfo> = Vec::new();
    assert(session_views(all@) =~= shown.take(0));
    let mut i: usize = 0;
    while i < stored.len()
        invariant
            i <= stored@.len(),
            given == session_views(stored@),
            shown == Seq::new(given.len(), |i: int| o.shown(given[i])),
            o == (Overview {
                current: current_id@,
                keys: active.keys(),
                asking: text::views(asking@),
            }),
            session_views(all@) == shown.take(i as int),
        decreases stored@.len() - i,
    {
        let mut s = describe(stored[i].clone(), current_id, active, asking);
        s.updated_at = s.modified_at;
        assert(given[i as int] == stored@[i as int]@);
        assert(s@ == shown[i as int]);
        let ghost before = session_views(all@);
        all.push(s);
        assert(session_views(all@) =~= before.push(s@));
        assert(shown.take(i + 1) =~= shown.take(i as int).push(shown[i as int]));
        i = i + 1;
    }
    assert(shown.take(i as int) =~= shown);
    let mut j: usize = 0;
    assert(loaded@.take(0) =~= Seq::<LoadedSession>::empty());
    while j < loaded.len()
        invariant
            j <= loaded@.len(),
            o == (Overview {
                current: current_id@,
                keys: active.keys(),
                asking: text::views(asking@),
            }),
            session_views(all@) == with_loaded(o, shown, loaded@.take(j as int)),
        decreases loaded@.len() - j,
    {
        proof {
            assert(loaded@.take(j + 1).drop_last() =~= loaded@.take(j as int));
            assert(loaded@.take(j + 1).last() == loaded@[j as int]);
        }
        let id = loaded[j].id.as_str();
        if !is_listed(&all, id) {
            let s = fresh_session(id, loaded[j].path.as_str(), current_id, active, asking);
            let ghost before = session_views(all@);
            all.push(s);
            assert(session_views(all@) =~= before.push(s@));
        }
        j = j + 1;
    }
    assert(loaded@.take(j as int) =~= loaded@);
    if !is_listed(&all, current_id) {
        let s = fresh_session(current_id, current_path, current_id, active, asking);
        let ghost before = session_views(all@);
        all.push(s);
        assert(session_views(all@) =~= before.push(s@));
    }
    let ghost unsorted = session_views(all@);
    assert(unsorted == all_sessions(o, given, loaded@, current_path@));
    let mut out: Vec<SessionInfo> = Vec::new();
    let mut k: usize = 0;
    assert(session_views(out@) =~= unsorted.take(0));
    while k < all.len()
        invariant
            k <= all@.len(),
            unsorted == session_views(all@),
            in_list_order(session_views(out@)),
            session_views(out@).to_multiset() == unsorted.take(k as int).to_multiset(),
        decreases all@.len() - k,
    {
        insert_session(&mut out, all[k].clone());
        proof {
            assert(unsorted.take(k + 1) =~= unsorted.take(k as int).push(unsorted[k as int]));
            unsorted.take(k as int).to_multiset_ensures();
        }
        k = k + 1;
    }
    assert(unsorted.take(k as int) =~= unsorted);
    proof {
        lemma_current_is_listed(o, given, loaded@, current_path@);
        let views = session_views(out@);
        let w = choose|w: int| 0 <= w < unsorted.len() && (#[trigger] unsorted[w]).id == o.current;
        unsorted.to_multiset_ensures();
        views.to_multiset_ensures();
        assert(unsorted.contains(unsorted[w]));
        assert(views.to_multiset().contains(unsorted[w]));
        assert(views.contains(unsorted[w]));
        let at = choose|at: int| 0 <= at < views.len() && views[at] == unsorted[w];
        if !views[0].active {
            assert(views[at].active) by {
                lemma_active_is_current(o, given, loaded@, current_path@, w);
            }
            assert(stands_before(views[at], views[0]));
        }
        assert(unsorted.to_multiset().contains(views[0])) by {
            assert(views.contains(views[0]));
        }
        assert(unsorted.contains(views[0]));
        let z = choose|z: int| 0 <= z < unsorted.len() && unsorted[z] == views[0];
        lemma_active_is_current(o, given, loaded@, current_path@, z);
        assert(views[0] == out@[0]@);
    }
    out
}

proof fn lemma_loaded_active(o: Overview, v: Seq<SessionInfoView>, loaded: Seq<LoadedSession>, i: int)
    requires
        forall|k: int| 0 <= k < v.len() ==> (#[trigger] v[k]).active == (v[k].id == o.current),
        0 <= i < with_loaded(o, v, loaded).len(),
    ensures
        with_loaded(o, v, loaded)[i].active == (with_loaded(o, v, loaded)[i].id == o.current),
    decreases loaded.len(),
{
    if loaded.len() > 0 {
        let rest = with_loaded(o, v, loaded.drop_last());
        if i < rest.len() {
            lemma_loaded_active(o, v, loaded.drop_last(), i);
        }
    }
}

proof fn lemma_active_is_current(
    o: Overview,
    stored: Seq<SessionInfoView>,
    loaded: Seq<LoadedSession>,
    current_path: Seq<char>,
    i: int,
)
    requires
        0 <= i < all_sessions(o, stored, loaded, current_path).len(),
    ensures
        ({
            let s = all_sessions(o, stored, loaded, current_path)[i];
            s.active == (s.id == o.current)
        }),
{
    let shown = Seq::new(stored.len(), |i: int| o.shown(stored[i]));
    let known = with_loaded(o, shown, loaded);
    if i < known.len() {
        lemma_loaded_active(o, shown, loaded, i);
    }
}

proof fn lemma_current_is_listed(
    o: Overview,
    stored: Seq<SessionInfoView>,
    loaded: Seq<LoadedSession>,
    current_path: Seq<char>,
)
    ensures
        listed(all_sessions(o, stored, loaded, current_path), o.current),
{
    let shown = Seq::new(stored.len(), |i: int| o.shown(stored[i]));
    let known = with_loaded(o, shown, loaded);
    if !listed(known, o.current) {
        let all = all_sessions(o, stored, loaded, current_path);
        assert(all[known.len() as int].id == o.current);
    }
}

proof fn lemma_loaded_listed(o: Overview, v: Seq<SessionInfoView>, loaded: Seq<LoadedSession>)
    ensures
        with_loaded(o, v, loaded).len() >= v.len(),
        with_loaded(o, v, loaded).take(v.len() as int) == v,
        forall|k: int| 0 <= k < loaded.len() ==> listed(with_loaded(o, v, loaded), #[trigger] loaded[k].id@),
        (forall|a: int, b: int| 0 <= a < b < v.len() ==> (#[trigger] v[a]).id != (#[trigger] v[b]).id)
            ==> (forall|a: int, b: int|
            0 <= a < b < with_loaded(o, v, loaded).len() ==> (#[trigger] with_loaded(o, v, loaded)[a]).id
                != (#[trigger] with_loaded(o, v, loaded)[b]).id),
    decreases loaded.len(),
{
    let all = with_loaded(o, v, loaded);
    if loaded.len() == 0 {
        assert(v.take(v.len() as int) =~= v);
    } else {
        lemma_loaded_listed(o, v, loaded.drop_last());
        let rest = with_loaded(o, v, loaded.drop_last());
        assert(all.take(v.len() as int) =~= rest.take(v.len() as int));
        assert forall|k: int| 0 <= k < loaded.len() implies listed(all, #[trigger] loaded[k].id@) by {
            if k < loaded.len() - 1 {
                assert(loaded.drop_last()[k] == loaded[k]);
                let w = choose|w: int| 0 <= w < rest.len() && (#[trigger] rest[w]).id == loaded[k].id@;
                assert(all[w].id == loaded[k].id@);
            } else if !listed(rest, loaded.last().id@) {
                assert(all[rest.len() as int].id == loaded[k].id@);
            }
        }
    }
}

/// Every session is listed, and where the stored ones differ in their identifiers, no
/// session is listed twice.
pub proof fn law_sessions_are_listed_once(
    o: Overview,
    stored: Seq<SessionInfoView>,
    loaded: Seq<LoadedSession>,
    current_path: Seq<char>,
)
    requires
        forall|a: int, b: int|
            0 <= a < b < stored.len() ==> (#[trigger] stored[a]).id != (#[trigger] stored[b]).id,
    ensures
        ({
            let all = all_sessions(o, stored, loaded, current_path);
            &&& forall|k: int| 0 <= k < stored.len() ==> listed(all, #[trigger] stored[k].id)
            &&& forall|k: int| 0 <= k < loaded.len() ==> listed(all, #[trigger] loaded[k].id@)
            &&& listed(all, o.current)
            &&& forall|a: int, b: int|
                0 <= a < b < all.len() ==> (#[trigger] all[a]).id != (#[trigger] all[b]).id
        }),
{
    let shown = Seq::new(stored.len(), |i: int| o.shown(stored[i]));
    let known = with_loaded(o, shown, loaded);
    let all = all_sessions(o, stored, loaded, current_path);
    lemma_loaded_listed(o, shown, loaded);
    lemma_current_is_listed(o, stored, loaded, current_path);
    assert forall|k: int| 0 <= k < stored.len() implies listed(all, #[trigger] stored[k].id) by {
        assert(known.take(shown.len() as int)[k] == shown[k]);
        assert(all[k].id == stored[k].id);
    }
    assert forall|k: int| 0 <= k < loaded.len() implies listed(all, #[trigger] loaded[k].id@) by {
        let w = choose|w: int| 0 <= w < known.len() && (#[trigger] known[w]).id == loaded[k].id@;
        assert(all[w].id == loaded[k].id@);
    }
}

/// Reading back: the answer for a session that was opened anew, field by field.
pub proof fn law_new_session_reads_back(session_id: Seq<char>)
    ensures
        json::at_key(new_session_json(session_id), "created"@) == JsonView::Bool(true),
        json::at_key(new_session_json(session_id), "session_id"@) == JsonView::Str(session_id),
        json::at_key(new_session_json(session_id), "messages"@) == JsonView::Array(Seq::empty()),
        json::at_key(new_session_json(session_id), "pending_approvals"@)
            == JsonView::Array(Seq::empty()),
        json::at_key(new_session_json(session_id), "active_requests"@)
            == JsonView::Array(Seq::empty()),
{
    reveal_strlit("active_requests");
    reveal_strlit("created");
    reveal_strlit("messages");
    reveal_strlit("pending_approvals");
    reveal_strlit("session_id");
    assert("created"@.len() != "session_id"@.len());
    assert("created"@.len() != "messages"@.len());
    assert("session_id"@.len() != "messages"@.len());
    assert("created"@.len() != "pending_approvals"@.len());
    assert("session_id"@.len() != "pending_approvals"@.len());
    assert("messages"@.len() != "pending_approvals"@.len());
    assert("created"@.len() != "active_requests"@.len());
    assert("session_id"@.len() != "active_requests"@.len());
    assert("messages"@.len() != "active_requests"@.len());
    assert("pending_approvals"@.len() != "active_requests"@.len());
    json::lemma_field_at(new_session_json(session_id), "created"@, 0);
    json::lemma_field_at(new_session_json(session_id), "session_id"@, 1);
    json::lemma_field_at(new_session_json(session_id), "messages"@, 2);
    json::lemma_field_at(new_session_json(session_id), "pending_approvals"@, 3);
    json::lemma_field_at(new_session_json(session_id), "active_requests"@, 4);
}

/// The requests of a session are those that work in it, each once and in order.
pub proof fn law_requests_of_a_session(keys: Seq<KeyView>, session: Seq<char>, more: Seq<KeyView>)
    ensures
        requests_in(keys, session).len() <= keys.len(),
        forall|i: int|
            0 <= i < keys.len() && (#[trigger] keys[i]).session_id == session ==> requests_in(
                keys,
                session,
            ).contains(keys[i].request_id),
        requests_in(keys, session).len() == 0 <==> forall|i: int|
            0 <= i < keys.len() ==> (#[trigger] keys[i]).session_id != session,
        forall|k: int|
            0 <= k < requests_in(keys, session).len() ==> keys.contains(
                KeyView {
                    session_id: session,
                    request_id: #[trigger] requests_in(keys, session)[k],
                },
            ),
        requests_in(keys + more, session) == requests_in(keys, session) + requests_in(
            more,
            session,
        ),
    decreases keys.len(), more.len(),
{
    if keys.len() > 0 {
        let w = keys.drop_last();
        let none = Seq::<KeyView>::empty();
        law_requests_of_a_session(w, session, none);
        let a = requests_in(keys, session);
        let b = requests_in(w, session);
        assert(keys[keys.len() - 1] == keys.last());
        assert forall|i: int|
            0 <= i < keys.len() && (#[trigger] keys[i]).session_id == session implies a.contains(
            keys[i].request_id,
        ) by {
            if i < w.len() {
                assert(w[i] == keys[i]);
                let k = choose|k: int| 0 <= k < b.len() && b[k] == w[i].request_id;
                assert(a[k] == keys[i].request_id);
            } else {
                assert(a[a.len() - 1] == keys[i].request_id);
            }
        }
        assert forall|k: int| 0 <= k < a.len() implies keys.contains(
            KeyView { session_id: session, request_id: #[trigger] a[k] },
        ) by {
            if k < b.len() {
                assert(a[k] == b[k]);
                let key = KeyView { session_id: session, request_id: b[k] };
                assert(w.contains(key));
                let i = choose|i: int| 0 <= i < w.len() && w[i] == key;
                assert(keys[i] == key);
            } else {
                assert(keys.last() == KeyView { session_id: session, request_id: a[k] });
            }
        }
        if a.len() == 0 {
            assert forall|i: int| 0 <= i < keys.len() implies (#[trigger] keys[i]).session_id
                != session by {
                if keys[i].session_id == session {
                    assert(a.contains(keys[i].request_id));
                }
            }
        } else {
            let key = KeyView { session_id: session, request_id: a[0] };
            assert(keys.contains(key));
        }
    }
    lemma_requests_add_up(keys, more, session);
}

proof fn lemma_requests_add_up(a: Seq<KeyView>, b: Seq<KeyView>, session: Seq<char>)
    ensures
        requests_in(a + b, session) == requests_in(a, session) + requests_in(b, session),
    decreases b.len(),
{
    if b.len() == 0 {
        assert(a + b =~= a);
    } else {
        lemma_requests_add_up(a, b.drop_last(), session);
        assert((a + b).drop_last() =~= a + b.drop_last());
        assert((a + b).last() == b.last());
    }
    assert(requests_in(a + b, session) =~= requests_in(a, session) + requests_in(b, session));
}

/// The questions shown are those that the requests asked, each once and in order.
pub proof fn law_questions_of_requests(all: Seq<ApprovalView>, ids: Seq<RequestIdView>)
    ensures
        asked_by(all, ids).len() <= all.len(),
        forall|i: int|
            0 <= i < all.len() && ids.contains((#[trigger] all[i]).request_id) ==> asked_by(
                all,
                ids,
            ).contains(all[i]),
        forall|k: int|
            0 <= k < asked_by(all, ids).len() ==> all.contains(#[trigger] asked_by(all, ids)[k])
                && ids.contains(asked_by(all, ids)[k].request_id),
    decreases all.len(),
{
    if all.len() > 0 {
        let w = all.drop_last();
        law_questions_of_requests(w, ids);
        let a = asked_by(all, ids);
        let b = asked_by(w, ids);
        assert(all[all.len() - 1] == all.last());
        assert forall|i: int|
            0 <= i < all.len() && ids.contains(
                (#[trigger] all[i]).request_id,
            ) implies a.contains(all[i]) by {
            if i < w.len() {
                assert(w[i] == all[i]);
                let k = choose|k: int| 0 <= k < b.len() && b[k] == w[i];
                assert(a[k] == all[i]);
            } else {
                assert(a[a.len() - 1] == all[i]);
            }
        }
        assert forall|k: int| 0 <= k < a.len() implies all.contains(#[trigger] a[k])
            && ids.contains(a[k].request_id) by {
            if k < b.len() {
                assert(a[k] == b[k]);
                let i = choose|i: int| 0 <= i < w.len() && w[i] == b[k];
                assert(all[i] == a[k]);
            }
        }
    }
}

/// A session with an open question waits; without one it runs while it has a request, and is
/// idle else. The three are named differently.
pub proof fn law_session_states(asked: bool, requests: nat, a: SessionStatus, b: SessionStatus)
    ensures
        busy_status(asked, requests) is Waiting <==> asked,
        busy_status(asked, requests) is Running <==> !asked && requests > 0,
        busy_status(asked, requests) is Idle <==> !asked && requests == 0,
        session_status_name(a) == session_status_name(b) ==> a == b,
{
    reveal_strlit("idle");
    reveal_strlit("running");
    reveal_strlit("waiting");
    assert("idle"@.len() == 4 && "running"@.len() == 7 && "waiting"@.len() == 7);
    assert("running"@[0] != "waiting"@[0]);
}

/// A snapshot of a session has its messages, its open questions, its requests and its state,
/// each under its name and in order.
pub proof fn law_snapshot_reads_back(
    session_id: Seq<char>,
    messages: Seq<JsonView>,
    approvals: Seq<ApprovalView>,
    requests: Seq<RequestIdView>,
    status: SessionStatus,
)
    ensures
        ({
            let j = JsonView::Object(
                snapshot_json(session_id, messages, approvals, requests, status),
            );
            &&& json::at_key(j, "session_id"@) == JsonView::Str(session_id)
            &&& json::at_key(j, "messages"@) == JsonView::Array(messages)
            &&& json::at_key(j, "pending_approvals"@) is Array
            &&& json::at_key(j, "pending_approvals"@)->Array_0.len() == approvals.len()
            &&& forall|i: int|
                0 <= i < approvals.len() ==> json::at_key(j, "pending_approvals"@)->Array_0[i]
                    == approval::info_json(#[trigger] approvals[i])
            &&& json::at_key(j, "active_requests"@) is Array
            &&& json::at_key(j, "active_requests"@)->Array_0.len() == requests.len()
            &&& forall|i: int|
                0 <= i < requests.len() ==> json::at_key(j, "active_requests"@)->Array_0[i]
                    == protocol::id_json(#[trigger] requests[i])
            &&& json::at_key(j, "status"@) == JsonView::Str(session_status_name(status))
        }),
{
    reveal_strlit("session_id");
    reveal_strlit("messages");
    reveal_strlit("pending_approvals");
    reveal_strlit("active_requests");
    reveal_strlit("status");
    assert("session_id"@.len() == 10 && "messages"@.len() == 8 && "pending_approvals"@.len() == 17
        && "active_requests"@.len() == 15 && "status"@.len() == 6);
    let j = JsonView::Object(snapshot_json(session_id, messages, approvals, requests, status));
    json::lemma_field_at(j, "session_id"@, 0);
    json::lemma_field_at(j, "messages"@, 1);
    json::lemma_field_at(j, "pending_approvals"@, 2);
    json::lemma_field_at(j, "active_requests"@, 3);
    json::lemma_field_at(j, "status"@, 4);
}

/// A page starts at its offset: its items are those of the list from there on, in order, each
/// whole where it is small enough.
pub proof fn law_a_page_starts_at_its_offset(
    items: Seq<JsonView>,
    offset: usize,
    limit: usize,
    message: Seq<char>,
    page: Seq<JsonView>,
)
    requires
        page_items(items, offset, limit, message, page),
    ensures
        page.len() > 0 ==> offset + page.len() <= items.len(),
        page.len() <= crate::daemon::handlers::WEB_PAGE_MAX_LIMIT,
        forall|i: int|
            0 <= i < page.len() && pages::json_bytes(items[offset + i])
                <= pages::WEB_PAGE_MAX_ITEM_BYTES ==> #[trigger] page[i] == items[offset + i],
        offset < items.len() ==> page.len() >= 1,
        offset >= items.len() ==> page.len() == 0,
{
    let rest = from_offset(items, offset);
    assert forall|i: int|
        0 <= i < page.len() && pages::json_bytes(items[offset + i])
            <= pages::WEB_PAGE_MAX_ITEM_BYTES implies #[trigger] page[i] == items[offset + i] by {
        assert(rest[i] == items[offset + i]);
    }
}

/// A session is shown as stored, with what is known of it now: whether it is the current one,
/// how many requests it has and its state.
pub proof fn law_sessions_are_shown_as_they_stand(o: Overview, s: SessionInfoView, path: Seq<char>)
    ensures
        o.shown(s).id == s.id,
        o.shown(s).path == s.path,
        o.shown(s).message_count == s.message_count,
        o.shown(s).preview == s.preview,
        o.shown(s).modified_at == s.modified_at,
        o.shown(s).updated_at == s.modified_at,
        o.shown(s).active <==> s.id == o.current,
        o.shown(s).active_requests == requests_in(o.keys, s.id).len(),
        o.shown(s).status is Waiting <==> o.asking.contains(s.id),
        o.shown(s).status is Idle <==> !o.asking.contains(s.id) && o.shown(s).active_requests == 0,
        o.fresh(s.id, path).id == s.id,
        o.fresh(s.id, path).path == path,
        o.fresh(s.id, path).message_count == 0,
        o.fresh(s.id, path).preview is None,
        o.fresh(s.id, path).active <==> s.id == o.current,
        o.fresh(s.id, path).active_requests == requests_in(o.keys, s.id).len(),
        o.fresh(s.id, path).status is Waiting <==> o.asking.contains(s.id),
{
}

/// Every stored session is listed first, as it stands; what was loaded and not stored follows.
pub proof fn law_stored_sessions_come_as_they_are(
    o: Overview,
    stored: Seq<SessionInfoView>,
    loaded: Seq<LoadedSession>,
    current_path: Seq<char>,
)
    ensures
        all_sessions(o, stored, loaded, current_path).len() >= stored.len(),
        all_sessions(o, stored, loaded, current_path).len() <= stored.len() + loaded.len() + 1,
        forall|i: int|
            0 <= i < stored.len() ==> #[trigger] all_sessions(
                o,
                stored,
                loaded,
                current_path,
            )[i] == o.shown(stored[i]),
{
    let shown = Seq::new(stored.len(), |i: int| o.shown(stored[i]));
    lemma_loaded_follow(o, shown, loaded);
}

proof fn lemma_loaded_follow(o: Overview, v: Seq<SessionInfoView>, loaded: Seq<LoadedSession>)
    ensures
        v.len() <= with_loaded(o, v, loaded).len() <= v.len() + loaded.len(),
        forall|i: int| 0 <= i < v.len() ==> #[trigger] with_loaded(o, v, loaded)[i] == v[i],
    decreases loaded.len(),
{
    if loaded.len() > 0 {
        lemma_loaded_follow(o, v, loaded.drop_last());
    }
}

/// The current session stands first; then the one that changed later; a session that never
/// changed stands last. No two stand before each other.
pub proof fn law_the_order_of_sessions(a: SessionInfoView, b: SessionInfoView)
    ensures
        a.active && !b.active ==> stands_before(a, b) && !stands_before(b, a),
        a.active == b.active && a.modified_at is Some && b.modified_at is Some && a.modified_at->0
            > b.modified_at->0 ==> stands_before(a, b) && !stands_before(b, a),
        a.active == b.active && a.modified_at is Some && b.modified_at is None ==> stands_before(
            a,
            b,
        ) && !stands_before(b, a),
        a.active == b.active && a.modified_at == b.modified_at ==> (stands_before(a, b)
            <==> text::before(a.id, b.id)),
        !(stands_before(a, b) && stands_before(b, a)),
{
    text::lemma_before_total(a.id, b.id);
}

/// The questions of requests are those that such a request asked, each in its place.
pub proof fn law_questions_keep_their_order(
    a: Seq<ApprovalView>,
    b: Seq<ApprovalView>,
    q: ApprovalView,
    ids: Seq<RequestIdView>,
)
    ensures
        asked_by(a + b, ids) == asked_by(a, ids) + asked_by(b, ids),
        ids.contains(q.request_id) ==> asked_by(seq![q], ids) == seq![q],
        !ids.contains(q.request_id) ==> asked_by(seq![q], ids).len() == 0,
    decreases b.len(),
{
    if b.len() == 0 {
        assert(a + b =~= a);
        assert(asked_by(a, ids) + asked_by(b, ids) =~= asked_by(a, ids));
    } else {
        law_questions_keep_their_order(a, b.drop_last(), q, ids);
        assert((a + b).drop_last() =~= a + b.drop_last());
        assert((a + b).last() == b.last());
        assert(asked_by(a + b, ids) =~= asked_by(a, ids) + asked_by(b, ids));
    }
    assert(seq![q].drop_last() =~= Seq::<ApprovalView>::empty());
    reveal_with_fuel(asked_by, 2);
    if ids.contains(q.request_id) {
        assert(asked_by(seq![q], ids) =~= seq![q]);
    }
}

} // verus!
