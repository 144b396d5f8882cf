//! Approvals that a running turn waits for.
use vstd::multiset::Multiset;
use vstd::prelude::*;

use crate::daemon::params;
use crate::daemon::protocol;
use crate::daemon::protocol::{EventFrame, EventKind, RequestId, RequestIdView, ServerFrame};
use crate::json;
use crate::json::{Json, JsonView};
use crate::text;

verus! {

/// A question that waits for an answer.
#[derive(Debug, PartialEq, Eq)]
pub struct PendingApprovalInfo {
    pub id: String,
    pub request_id: RequestId,
    pub prompt: String,
}

/// What a question says.
pub struct ApprovalView {
    pub id: Seq<char>,
    pub request_id: RequestIdView,
    pub prompt: Seq<char>,
}

impl View for PendingApprovalInfo {
    type V = ApprovalView;

    open spec fn view(&self) -> ApprovalView {
        ApprovalView { id: self.id@, request_id: self.request_id@, prompt: self.prompt@ }
    }
}

impl Clone for PendingApprovalInfo {
    fn clone(&self) -> (r: Self)
        ensures
            r@ == self@,
    {
        PendingApprovalInfo {
            id: self.id.clone(),
            request_id: self.request_id.clone(),
            prompt: self.prompt.clone(),
        }
    }
}

/// A question and the session it was asked in, if any.
#[derive(Debug)]
pub struct PendingApproval {
    pub info: PendingApprovalInfo,
    pub session_id: Option<String>,
}

/// What a question in its session says.
pub struct PendingView {
    pub info: ApprovalView,
    pub session_id: Option<Seq<char>>,
}

impl View for PendingApproval {
    type V = PendingView;

    open spec fn view(&self) -> PendingView {
        PendingView { info: self.info@, session_id: json::opt_text(self.session_id) }
    }
}

/// What a list of questions in their sessions says.
pub open spec fn pending_views(v: Seq<PendingApproval>) -> Seq<PendingView> {
    Seq::new(v.len(), |i: int| v[i]@)
}

/// What a list of questions says.
pub open spec fn info_views(v: Seq<PendingApprovalInfo>) -> Seq<ApprovalView> {
    Seq::new(v.len(), |i: int| v[i]@)
}

/// A question belongs to the session, or no session was named.
pub open spec fn in_session(p: PendingView, session: Option<Seq<char>>) -> bool {
    session is None || p.session_id == session
}

/// A question that ends with the request: it belongs to it, and to the session where one
/// was named.
pub open spec fn cancelled_with(
    p: PendingView,
    session: Option<Seq<char>>,
    request_id: RequestIdView,
) -> bool {
    p.info.request_id == request_id && in_session(p, session)
}

/// Position of the first question with the identifier, from `from` on, if there is one.
pub open spec fn pending_index(v: Seq<PendingView>, id: Seq<char>, from: int) -> Option<int>
    decreases v.len() - from,
{
    if from < 0 || from >= v.len() {
        None
    } else if v[from].info.id == id {
        Some(from)
    } else {
        pending_index(v, id, from + 1)
    }
}

/// The questions that stay when those of a request end.
pub open spec fn staying(
    v: Seq<PendingView>,
    session: Option<Seq<char>>,
    request_id: RequestIdView,
) -> Seq<PendingView>
    decreases v.len(),
{
    if v.len() == 0 {
        Seq::empty()
    } else {
        let rest = staying(v.drop_last(), session, request_id);
        if cancelled_with(v.last(), session, request_id) {
            rest
        } else {
            rest.push(v.last())
        }
    }
}

/// The identifiers of the questions that end with a request.
pub open spec fn ending(
    v: Seq<PendingView>,
    session: Option<Seq<char>>,
    request_id: RequestIdView,
) -> Seq<Seq<char>>
    decreases v.len(),
{
    if v.len() == 0 {
        Seq::empty()
    } else {
        let rest = ending(v.drop_last(), session, request_id);
        if cancelled_with(v.last(), session, request_id) {
            rest.push(v.last().info.id)
        } else {
            rest
        }
    }
}

/// The questions of a session.
pub open spec fn of_session(v: Seq<PendingView>, session: Option<Seq<char>>) -> Multiset<
    ApprovalView,
>
    decreases v.len(),
{
    if v.len() == 0 {
        Multiset::empty()
    } else {
        let rest = of_session(v.drop_last(), session);
        if in_session(v.last(), session) {
            rest.insert(v.last().info)
        } else {
            rest
        }
    }
}

/// The questions stand in the order of their identifiers.
pub open spec fn ordered(v: Seq<ApprovalView>) -> bool {
    forall|i: int, k: int|
        0 <= i < k < v.len() ==> !text::before((#[trigger] v[k]).id, (#[trigger] v[i]).id)
}

fn insert_info(v: &mut Vec<PendingApprovalInfo>, info: PendingApprovalInfo)
    requires
        ordered(info_views(old(v)@)),
    ensures
        ordered(info_views(final(v)@)),
        info_views(final(v)@).to_multiset() == info_views(old(v)@).to_multiset().insert(info@),
{
    let ghost views = info_views(v@);
    let mut at: usize = v.len();
    while at > 0 && text::is_before(info.id.as_str(), v[at - 1].id.as_str())
        invariant
            at <= v@.len(),
            views == info_views(v@),
            forall|k: int|
                at <= k < v@.len() ==> text::before(info@.id, (#[trigger] views[k]).id),
        decreases at,
    {
        assert(views[at - 1].id == v@[at - 1].id@);
        at = at - 1;
    }
    v.insert(at, info);
    proof {
        let after = info_views(v@);
        assert(after =~= views.insert(at as int, info@));
        views.insert_ensures(at as int, info@);
        broadcast use vstd::seq_lib::group_to_multiset_ensures;

        assert(after.to_multiset() =~= views.to_multiset().insert(info@)) by {
            vstd::seq_lib::to_multiset_insert(views, at as int, info@);
        }
        assert forall|i: int, k: int| 0 <= i < k < after.len() implies !text::before(
            (#[trigger] after[k]).id,
            (#[trigger] after[i]).id,
        ) by {
            let x = if i < at {
                i
            } else {
                i - 1
            };
            let y = if k < at {
                k
            } else {
                k - 1
            };
            if i == at {
                assert(after[k] == views[y]);
                text::lemma_before_total(info@.id, views[y].id);
            } else if k == at {
                assert(after[i] == views[x]);
                if text::before(info@.id, views[x].id) {
                    assert(at > 0);
                    text::lemma_before_total(views[at - 1].id, views[x].id);
                    if x < at - 1 {
                        assert(!text::before(views[at - 1].id, views[x].id));
                        if views[at - 1].id != views[x].id {
                            text::lemma_before_transitive(
                                info@.id,
                                views[x].id,
                                views[at - 1].id,
                            );
                        }
                    }
                }
            } else {
                assert(after[i] == views[x] && after[k] == views[y]);
            }
        }
    }
}

/// The document of a question.
pub open spec fn info_json(a: ApprovalView) -> JsonView {
    JsonView::Object(
        seq![
            ("id"@, JsonView::Str(a.id)),
            ("request_id"@, protocol::id_json(a.request_id)),
            ("prompt"@, JsonView::Str(a.prompt)),
        ],
    )
}

/// Writes a question as a document.
pub fn info_to_json(info: &PendingApprovalInfo) -> (r: Json)
    ensures
        r@ == info_json(info@),
{
    let mut f = json::no_fields();
    json::put(&mut f, "id", Json::Str(info.id.clone()));
    json::put(&mut f, "request_id", protocol::id_to_json(&info.request_id));
    json::put(&mut f, "prompt", Json::Str(info.prompt.clone()));
    assert(json::fields_view(f@) =~= info_json(info@)->Object_0);
    json::object(f)
}

/// The question that a document gives: an object with these fields, or an array of the three
/// values in this order.
pub open spec fn json_info(j: JsonView) -> Option<ApprovalView> {
    info_of(params::named(j, seq!["id"@, "request_id"@, "prompt"@], 3))
}

/// The question that an object gives.
pub open spec fn info_of(j: JsonView) -> Option<ApprovalView> {
    match (
        json::at_key(j, "id"@),
        protocol::json_id(json::at_key(j, "request_id"@)),
        json::at_key(j, "prompt"@),
    ) {
        (JsonView::Str(id), Some(request_id), JsonView::Str(prompt)) => Some(
            ApprovalView { id, request_id, prompt },
        ),
        _ => None,
    }
}

/// Reads a question from a document.
pub fn info_from_json(j: &Json) -> (r: Option<PendingApprovalInfo>)
    ensures
        match r {
            Some(info) => json_info(j@) == Some(info@),
            None => json_info(j@) is None,
        },
{
    let names: [&'static str; 3] = ["id", "request_id", "prompt"];
    let arranged = params::arrange(j, &names, 3);
    assert(params::name_views(names@) =~= seq!["id"@, "request_id"@, "prompt"@]);
    let j = &arranged;
    let request_id = match j.get("request_id") {
        Some(v) => match protocol::id_from_json(v) {
            Some(id) => id,
            None => return None,
        },
        None => return None,
    };
    match (j.str_at("id"), j.str_at("prompt")) {
        (Some(id), Some(prompt)) => Some(
            PendingApprovalInfo { id: id.to_owned(), request_id, prompt: prompt.to_owned() },
        ),
        _ => None,
    }
}

/// The identifier of a question: unique by process, time and serial number.
pub fn approval_id(pid: u32, nonce: &str, sequence: u64) -> (r: String)
    ensures
        r@ == "approval-"@ + text::decimal(pid as nat) + "-"@ + nonce@ + "-"@ + text::decimal(
            sequence as nat,
        ),
{
    let mut r = "approval-".to_owned();
    r.append(text::decimal_text(pid as u64).as_str());
    r.append("-");
    r.append(nonce);
    r.append("-");
    r.append(text::decimal_text(sequence).as_str());
    r
}

/// The questions that wait for an answer.
#[derive(Debug)]
pub struct ApprovalBroker {
    pub pending: Vec<PendingApproval>,
}

impl View for ApprovalBroker {
    type V = Seq<PendingView>;

    open spec fn view(&self) -> Seq<PendingView> {
        pending_views(self.pending@)
    }
}

/// No two questions have the same identifier.
pub open spec fn distinct_ids(v: Seq<PendingView>) -> bool {
    forall|i: int, k: int|
        0 <= i < k < v.len() ==> (#[trigger] v[i]).info.id != (#[trigger] v[k]).info.id
}

/// The event that announces a question.
pub open spec fn question_frame(info: ApprovalView) -> protocol::FrameView {
    protocol::FrameView::Event(
        protocol::EventView {
            jsonrpc: protocol::JSONRPC_VERSION@,
            request_id: info.request_id,
            event: EventKind::ApprovalRequired,
            data: JsonView::Object(seq![("approval"@, info_json(info))]),
            run_id: None,
            seq: None,
        },
    )
}

/// The questions without the one of the identifier.
pub open spec fn forgotten(v: Seq<PendingView>, id: Seq<char>) -> Seq<PendingView> {
    match pending_index(v, id, 0) {
        Some(at) => v.remove(at),
        None => v,
    }
}

/// The request on whose behalf questions are asked.
#[derive(Debug)]
pub struct ApprovalContext {
    pub request_id: RequestId,
    pub session_id: Option<String>,
}

/// Says whether an answer reached the one who asked.
pub fn answer_delivered(approval_id: &str, delivered: bool) -> (r: Result<(), String>)
    ensures
        if delivered {
            r is Ok
        } else {
            r is Err && r->Err_0@ == "审批请求已结束: "@ + approval_id@
        },
{
    if delivered {
        Ok(())
    } else {
        let mut e = "审批请求已结束: ".to_owned();
        e.append(approval_id);
        Err(e)
    }
}

impl ApprovalBroker {
    /// No question waits.
    pub fn new() -> (r: Self)
        ensures
            r@ == Seq::<PendingView>::empty(),
            distinct_ids(r@),
    {
        let r = ApprovalBroker { pending: Vec::new() };
        assert(r@ =~= Seq::<PendingView>::empty());
        r
    }

    fn position(&self, id: &str) -> (r: Option<usize>)
        ensures
            match r {
                Some(i) => pending_index(self@, id@, 0) == Some(i as int) && i
                    < self.pending@.len() && self@[i as int].info.id == id@,
                None => pending_index(self@, id@, 0) is None && forall|k: int|
                    0 <= k < self@.len() ==> (#[trigger] self@[k]).info.id != id@,
            },
    {
        let mut i: usize = 0;
        while i < self.pending.len()
            invariant
                i <= self.pending@.len(),
                pending_index(self@, id@, 0) == pending_index(self@, id@, i as int),
                forall|k: int| 0 <= k < i ==> (#[trigger] self@[k]).info.id != id@,
            decreases self.pending@.len() - i,
        {
            if text::same(self.pending[i].info.id.as_str(), id) {
                return Some(i);
            }
            i = i + 1;
        }
        None
    }

    /// Asks a question in a session and gives the event that announces it. A question of
    /// the same identifier gives way.
    pub fn register(
        &mut self,
        id: &str,
        request_id: &RequestId,
        session_id: Option<String>,
        prompt: &str,
    ) -> (event: ServerFrame)
        requires
            distinct_ids(old(self)@),
        ensures
            ({
                let info = ApprovalView { id: id@, request_id: request_id@, prompt: prompt@ };
                let asked = PendingView { info, session_id: json::opt_text(session_id) };
                &&& distinct_ids(final(self)@)
                &&& final(self)@ == (match pending_index(old(self)@, id@, 0) {
                    Some(at) => old(self)@.update(at, asked),
                    None => old(self)@.push(asked),
                })
                &&& event@ == question_frame(info)
            }),
    {
        let info = PendingApprovalInfo {
            id: id.to_owned(),
            request_id: request_id.clone(),
            prompt: prompt.to_owned(),
        };
        let mut f = json::no_fields();
        json::put(&mut f, "approval", info_to_json(&info));
        assert(json::fields_view(f@) =~= seq![("approval"@, info_json(info@))]);
        let event = ServerFrame::Event(
            EventFrame::new(request_id.clone(), EventKind::ApprovalRequired, json::object(f)),
        );
        let asked = PendingApproval { info, session_id };
        let ghost before = self@;
        match self.position(id) {
            Some(i) => {
                self.pending.set(i, asked);
                assert(self@ =~= before.update(i as int, asked@));
            },
            None => {
                self.pending.push(asked);
                assert(self@ =~= before.push(asked@));
            },
        }
        event
    }

    /// Asks a question on behalf of the request that is being worked on. Without such a
    /// request nobody could be told, and nothing is asked.
    pub fn request(&mut self, context: Option<&ApprovalContext>, id: &str, prompt: &str) -> (r:
        Result<ServerFrame, String>)
        requires
            distinct_ids(old(self)@),
        ensures
            distinct_ids(final(self)@),
            match context {
                None => r is Err && r->Err_0@ == "当前没有可接收审批事件的 daemon 请求"@
                    && final(self)@ == old(self)@,
                Some(c) => {
                    let info = ApprovalView { id: id@, request_id: c.request_id@, prompt: prompt@ };
                    let asked = PendingView { info, session_id: json::opt_text(c.session_id) };
                    &&& r is Ok && r->Ok_0@ == question_frame(info)
                    &&& final(self)@ == (match pending_index(old(self)@, id@, 0) {
                        Some(at) => old(self)@.update(at, asked),
                        None => old(self)@.push(asked),
                    })
                },
            },
    {
        match context {
            None => Err("当前没有可接收审批事件的 daemon 请求".to_owned()),
            Some(c) => Ok(
                self.register(id, &c.request_id, crate::provider::clone_opt(&c.session_id), prompt),
            ),
        }
    }

    fn forget(&mut self, id: &str)
        requires
            distinct_ids(old(self)@),
        ensures
            distinct_ids(final(self)@),
            final(self)@ == forgotten(old(self)@, id@),
    {
        let ghost before = self@;
        if let Some(i) = self.position(id) {
            self.pending.remove(i);
            assert(self@ =~= before.remove(i as int));
        }
    }

    /// Takes back a question that could not be announced, and says so.
    pub fn not_announced(&mut self, id: &str) -> (error: String)
        requires
            distinct_ids(old(self)@),
        ensures
            distinct_ids(final(self)@),
            final(self)@ == forgotten(old(self)@, id@),
            error@ == "审批事件接收端已断开"@,
    {
        self.forget(id);
        "审批事件接收端已断开".to_owned()
    }

    /// Ends the wait for an answer: with the answer, or, where none can come any more, with
    /// an error, and the question is taken back.
    pub fn on_answer(&mut self, id: &str, answer: Option<bool>) -> (r: Result<bool, String>)
        requires
            distinct_ids(old(self)@),
        ensures
            distinct_ids(final(self)@),
            match answer {
                Some(approved) => r == Ok::<bool, String>(approved) && final(self)@ == old(self)@,
                None => r is Err && r->Err_0@ == "审批请求被取消: "@ + id@ && final(self)@
                    == forgotten(old(self)@, id@),
            },
    {
        match answer {
            Some(approved) => Ok(approved),
            None => {
                self.forget(id);
                let mut e = "审批请求被取消: ".to_owned();
                e.append(id);
                Err(e)
            },
        }
    }

    /// Takes the answer to a question, which then no longer waits.
    pub fn respond(&mut self, approval_id: &str) -> (r: Result<PendingApproval, String>)
        requires
            distinct_ids(old(self)@),
        ensures
            distinct_ids(final(self)@),
            match pending_index(old(self)@, approval_id@, 0) {
                Some(at) => r is Ok && r->Ok_0@ == old(self)@[at] && final(self)@ == old(
                    self,
                )@.remove(at),
                None => r is Err && r->Err_0@ == "找不到待审批项: "@ + approval_id@ && final(self)@
                    == old(self)@,
            },
    {
        let ghost before = self@;
        match self.position(approval_id) {
            Some(i) => {
                let p = self.pending.remove(i);
                assert(self@ =~= before.remove(i as int));
                Ok(p)
            },
            None => {
                let mut e = "找不到待审批项: ".to_owned();
                e.append(approval_id);
                Err(e)
            },
        }
    }

    /// Ends the questions of a request, in whatever session, and gives their
    /// identifiers: each counts as refused.
    pub fn cancel_request(&mut self, request_id: &RequestId) -> (refused: Vec<String>)
        requires
            distinct_ids(old(self)@),
        ensures
            distinct_ids(final(self)@),
            final(self)@ == staying(old(self)@, None, request_id@),
            text::views(refused@) == ending(old(self)@, None, request_id@),
    {
        self.cancel_matching(None, request_id)
    }

    /// Ends the questions of a request in one session.
    pub fn cancel_request_in_session(&mut self, session_id: &str, request_id: &RequestId) -> (
        refused: Vec<String>)
        requires
            distinct_ids(old(self)@),
        ensures
            distinct_ids(final(self)@),
            final(self)@ == staying(old(self)@, Some(session_id@), request_id@),
            text::views(refused@) == ending(old(self)@, Some(session_id@), request_id@),
    {
        self.cancel_matching(Some(session_id), request_id)
    }

    fn cancel_matching(&mut self, session_id: Option<&str>, request_id: &RequestId) -> (refused:
        Vec<String>)
        requires
            distinct_ids(old(self)@),
        ensures
            distinct_ids(final(self)@),
            final(self)@ == staying(old(self)@, json::opt_view(session_id), request_id@),
            text::views(refused@) == ending(old(self)@, json::opt_view(session_id), request_id@),
    {
        let ghost all = self@;
        let ghost session = json::opt_view(session_id);
        let mut refused: Vec<String> = Vec::new();
        let mut kept: Vec<PendingApproval> = Vec::new();
        let mut pending: Vec<PendingApproval> = Vec::new();
        std::mem::swap(&mut pending, &mut self.pending);
        let n: usize = pending.len();
        assert(all.take(0) =~= Seq::<PendingView>::empty());
        assert(pending_views(kept@) =~= Seq::<PendingView>::empty());
        assert(text::views(refused@) =~= Seq::<Seq<char>>::empty());
        for p in it: pending
            invariant
                n == it.seq().len(),
                all == pending_views(it.seq()),
                session == json::opt_view(session_id),
                pending_views(kept@) == staying(
                    all.take(it.index() as int),
                    session,
                    request_id@,
                ),
                text::views(refused@) == ending(
                    all.take(it.index() as int),
                    session,
                    request_id@,
                ),
        {
            let ghost at = it.index() as int;
            proof {
                assert(all.take(at + 1).drop_last() =~= all.take(at));
                assert(all.take(at + 1).last() == p@);
            }
            let here = match session_id {
                None => true,
                Some(s) => match &p.session_id {
                    Some(own) => text::same(own.as_str(), s),
                    None => false,
                },
            };
            if here && p.info.request_id.same(request_id) {
                let ghost before = text::views(refused@);
                let id = p.info.id.clone();
                refused.push(id);
                assert(text::views(refused@) =~= before.push(p@.info.id));
            } else {
                let ghost before = pending_views(kept@);
                kept.push(p);
                assert(pending_views(kept@) =~= before.push(p@));
            }
        }
        assert(all.take(n as int) =~= all);
        self.pending = kept;
        proof {
            lemma_staying_distinct(all, session, request_id@);
        }
        refused
    }

    /// All questions, in the order of their identifiers.
    pub fn pending(&self) -> (r: Vec<PendingApprovalInfo>)
        ensures
            ordered(info_views(r@)),
            info_views(r@).to_multiset() == of_session(self@, None),
    {
        self.pending_for_session(None)
    }

    /// The questions of a session, in the order of their identifiers; all of them where
    /// no session is named.
    pub fn pending_for_session(&self, session_id: Option<&str>) -> (r: Vec<PendingApprovalInfo>)
        ensures
            ordered(info_views(r@)),
            info_views(r@).to_multiset() == of_session(self@, json::opt_view(session_id)),
    {
        let ghost all = self@;
        let ghost session = json::opt_view(session_id);
        let mut out: Vec<PendingApprovalInfo> = Vec::new();
        let mut i: usize = 0;
        assert(all.take(0) =~= Seq::<PendingView>::empty());
        proof {
            assert(info_views(out@) =~= Seq::<ApprovalView>::empty());
            info_views(out@).to_multiset_ensures();
            assert(info_views(out@).to_multiset() =~= Multiset::<ApprovalView>::empty());
        }
        while i < self.pending.len()
            invariant
                i <= self.pending@.len(),
                all == self@,
                session == json::opt_view(session_id),
                ordered(info_views(out@)),
                info_views(out@).to_multiset() == of_session(all.take(i as int), session),
            decreases self.pending@.len() - i,
        {
            proof {
                assert(all.take(i + 1).drop_last() =~= all.take(i as int));
                assert(all.take(i + 1).last() == all[i as int]);
            }
            let here = match session_id {
                None => true,
                Some(s) => match &self.pending[i].session_id {
                    Some(own) => text::same(own.as_str(), s),
                    None => false,
                },
            };
            if here {
                insert_info(&mut out, self.pending[i].info.clone());
            }
            i = i + 1;
        }
        assert(all.take(i as int) =~= all);
        out
    }

    /// The sessions in which a question waits, each once.
    pub fn pending_sessions(&self) -> (r: Vec<String>)
        ensures
            forall|s: Seq<char>|
                text::views(r@).contains(s) <==> exists|i: int|
                    0 <= i < self@.len() && (#[trigger] self@[i]).session_id == Some(s),
            text::views(r@).no_duplicates(),
    {
        let ghost all = self@;
        let mut out: Vec<String> = Vec::new();
        let mut i: usize = 0;
        while i < self.pending.len()
            invariant
                i <= self.pending@.len(),
                all == self@,
                text::views(out@).no_duplicates(),
                forall|s: Seq<char>|
                    text::views(out@).contains(s) <==> exists|k: int|
                        0 <= k < i && (#[trigger] all[k]).session_id == Some(s),
            decreases self.pending@.len() - i,
        {
            let ghost before = text::views(out@);
            assert(all[i as int] == self.pending@[i as int]@);
            if let Some(own) = &self.pending[i].session_id {
                let mut known = false;
                let mut j: usize = 0;
                while j < out.len()
                    invariant
                        j <= out@.len(),
                        before == text::views(out@),
                        known == exists|k: int| 0 <= k < j && #[trigger] before[k] == own@,
                    decreases out@.len() - j,
                {
                    if text::same(out[j].as_str(), own.as_str()) {
                        assert(before[j as int] == own@);
                        known = true;
                    }
                    j = j + 1;
                }
                if !known {
                    out.push(own.clone());
                    proof {
                        let after = text::views(out@);
                        assert(after =~= before.push(own@));
                        assert forall|s: Seq<char>| after.contains(s) <==> exists|k: int|
                            0 <= k < i + 1 && (#[trigger] all[k]).session_id == Some(s) by {
                            if after.contains(s) {
                                let k = choose|k: int| 0 <= k < after.len() && after[k] == s;
                                if k < before.len() {
                                    assert(before[k] == s);
                                    assert(before.contains(s));
                                } else {
                                    assert(all[i as int].session_id == Some(s));
                                }
                            }
                            if exists|k: int|
                                0 <= k < i + 1 && (#[trigger] all[k]).session_id == Some(s) {
                                let k = choose|k: int|
                                    0 <= k < i + 1 && (#[trigger] all[k]).session_id == Some(s);
                                if k < i {
                                    assert(before.contains(s));
                                    let m = choose|m: int| 0 <= m < before.len() && before[m] == s;
                                    assert(after[m] == s);
                                } else {
                                    assert(after[before.len() as int] == s);
                                }
                            }
                        }
                    }
                } else {
                    proof {
                        let m = choose|k: int|
                            0 <= k < before.len() && #[trigger] before[k] == own@;
                        assert(before.contains(own@));
                    }
                }
            }
            i = i + 1;
        }
        out
    }
}

/// What stays was there, and does not end; all that does not end stays.
pub proof fn lemma_staying_from(
    v: Seq<PendingView>,
    session: Option<Seq<char>>,
    request_id: RequestIdView,
)
    ensures
        forall|k: int|
            0 <= k < staying(v, session, request_id).len() ==> exists|i: int|
                0 <= i < v.len() && v[i] == #[trigger] staying(v, session, request_id)[k]
                    && !cancelled_with(v[i], session, request_id),
        forall|i: int|
            0 <= i < v.len() && !cancelled_with(#[trigger] v[i], session, request_id)
                ==> staying(v, session, request_id).contains(v[i]),
    decreases v.len(),
{
    if v.len() > 0 {
        let shorter = v.drop_last();
        let rest = staying(shorter, session, request_id);
        let all = staying(v, session, request_id);
        lemma_staying_from(shorter, session, request_id);
        assert forall|k: int| 0 <= k < all.len() implies exists|i: int|
            0 <= i < v.len() && v[i] == #[trigger] all[k] && !cancelled_with(
                v[i],
                session,
                request_id,
            ) by {
            if k < rest.len() {
                assert(all[k] == rest[k]);
                let i = choose|i: int|
                    0 <= i < shorter.len() && shorter[i] == rest[k] && !cancelled_with(
                        shorter[i],
                        session,
                        request_id,
                    );
                assert(v[i] == all[k]);
            } else {
                assert(v[v.len() - 1] == all[k]);
            }
        }
        assert forall|i: int|
            0 <= i < v.len() && !cancelled_with(#[trigger] v[i], session, request_id) implies all.contains(
        v[i]) by {
            if i < v.len() - 1 {
                assert(shorter[i] == v[i]);
                assert(rest.contains(v[i]));
                let k = choose|k: int| 0 <= k < rest.len() && rest[k] == v[i];
                assert(all[k] == v[i]);
            } else {
                assert(all[all.len() - 1] == v[i]);
            }
        }
    }
}

proof fn lemma_staying_distinct(
    v: Seq<PendingView>,
    session: Option<Seq<char>>,
    request_id: RequestIdView,
)
    requires
        distinct_ids(v),
    ensures
        distinct_ids(staying(v, session, request_id)),
    decreases v.len(),
{
    if v.len() > 0 {
        let shorter = v.drop_last();
        assert(distinct_ids(shorter)) by {
            assert forall|i: int, k: int| 0 <= i < k < shorter.len() implies (
            #[trigger] shorter[i]).info.id != (#[trigger] shorter[k]).info.id by {
                assert(shorter[i] == v[i] && shorter[k] == v[k]);
            }
        }
        lemma_staying_distinct(shorter, session, request_id);
        lemma_staying_from(shorter, session, request_id);
        let rest = staying(shorter, session, request_id);
        let all = staying(v, session, request_id);
        assert forall|i: int, k: int| 0 <= i < k < all.len() implies (#[trigger] all[i]).info.id
            != (#[trigger] all[k]).info.id by {
            assert(all[i] == rest[i]);
            let a = choose|a: int|
                0 <= a < shorter.len() && shorter[a] == rest[i] && !cancelled_with(
                    shorter[a],
                    session,
                    request_id,
                );
            if k < rest.len() {
                assert(all[k] == rest[k]);
            } else {
                assert(all[k] == v[v.len() - 1]);
                assert(v[a] == rest[i]);
            }
        }
    }
}

/// Cancelling a request in one session leaves the questions of every other session, and of
/// every other request, where they are; the cancelled ones are gone.
pub proof fn law_cancellation_is_scoped(
    v: Seq<PendingView>,
    session: Seq<char>,
    request_id: RequestIdView,
    p: PendingView,
)
    requires
        v.contains(p),
    ensures
        staying(v, Some(session), request_id).contains(p) <==> !(p.info.request_id == request_id
            && p.session_id == Some(session)),
{
    lemma_staying_from(v, Some(session), request_id);
    let i = choose|i: int| 0 <= i < v.len() && v[i] == p;
    assert(v[i] == p);
    let after = staying(v, Some(session), request_id);
    if after.contains(p) {
        let k = choose|k: int| 0 <= k < after.len() && after[k] == p;
        assert(after[k] == p);
    }
}

/// An answered question is gone, and so cannot be answered twice.
pub proof fn law_answers_count_once(v: Seq<PendingView>, id: Seq<char>)
    requires
        distinct_ids(v),
        pending_index(v, id, 0) is Some,
    ensures
        pending_index(v.remove(pending_index(v, id, 0)->0), id, 0) is None,
{
    lemma_pending_index(v, id, 0);
    let at = pending_index(v, id, 0)->0;
    let rest = v.remove(at);
    lemma_pending_index(rest, id, 0);
    if pending_index(rest, id, 0) is Some {
        let k = pending_index(rest, id, 0)->0;
        let i = if k < at {
            k
        } else {
            k + 1
        };
        assert(rest[k] == v[i]);
        assert(v[i].info.id == v[at].info.id);
    }
}

proof fn lemma_pending_index(v: Seq<PendingView>, id: Seq<char>, from: int)
    requires
        0 <= from,
    ensures
        match pending_index(v, id, from) {
            Some(i) => from <= i < v.len() && v[i].info.id == id,
            None => true,
        },
    decreases v.len() - from,
{
    if from < v.len() && v[from].info.id != id {
        lemma_pending_index(v, id, from + 1);
    }
}

/// Reading back: the document of a question, field by field.
pub proof fn law_info_reads_back(a: ApprovalView)
    ensures
        json::at_key(info_json(a), "id"@) == JsonView::Str(a.id),
        json::at_key(info_json(a), "request_id"@) == protocol::id_json(a.request_id),
        json::at_key(info_json(a), "prompt"@) == JsonView::Str(a.prompt),
{
    reveal_strlit("id");
    reveal_strlit("prompt");
    reveal_strlit("request_id");
    assert("id"@.len() != "request_id"@.len());
    assert("id"@.len() != "prompt"@.len());
    assert("request_id"@.len() != "prompt"@.len());
    json::lemma_field_at(info_json(a), "id"@, 0);
    json::lemma_field_at(info_json(a), "request_id"@, 1);
    json::lemma_field_at(info_json(a), "prompt"@, 2);
}

/// A question is found under its identifier, the first that has it, and not at all where
/// none has.
pub proof fn law_questions_are_found_by_id(v: Seq<PendingView>, id: Seq<char>)
    ensures
        pending_index(v, id, 0) is None <==> forall|i: int|
            0 <= i < v.len() ==> (#[trigger] v[i]).info.id != id,
        pending_index(v, id, 0) matches Some(at) ==> 0 <= at < v.len() && v[at].info.id == id
            && forall|i: int| 0 <= i < at ==> (#[trigger] v[i]).info.id != id,
{
    lemma_found_from(v, id, 0);
}

proof fn lemma_found_from(v: Seq<PendingView>, id: Seq<char>, from: int)
    requires
        0 <= from,
    ensures
        pending_index(v, id, from) is None <==> forall|i: int|
            from <= i < v.len() ==> (#[trigger] v[i]).info.id != id,
        pending_index(v, id, from) matches Some(at) ==> from <= at < v.len() && v[at].info.id == id
            && forall|i: int| from <= i < at ==> (#[trigger] v[i]).info.id != id,
    decreases v.len() - from,
{
    if from < v.len() && v[from].info.id != id {
        lemma_found_from(v, id, from + 1);
    }
}

/// Some question with the identifier was asked by the request, in the session where one is
/// named.
pub open spec fn asked_by(
    v: Seq<PendingView>,
    session: Option<Seq<char>>,
    request_id: RequestIdView,
    id: Seq<char>,
) -> bool {
    exists|i: int|
        0 <= i < v.len() && (#[trigger] v[i]).info.id == id && v[i].info.request_id == request_id
            && (session is None || v[i].session_id == session)
}

/// When a request ends, each question either stays or is refused: those of the request, in
/// the session where one is named, are refused, each once, and all others stay in order.
pub proof fn law_questions_stay_or_are_refused(
    v: Seq<PendingView>,
    session: Option<Seq<char>>,
    request_id: RequestIdView,
)
    ensures
        staying(v, session, request_id).len() + ending(v, session, request_id).len() == v.len(),
        forall|i: int|
            0 <= i < v.len() && ((#[trigger] v[i]).info.request_id != request_id || (
            session is Some && v[i].session_id != session)) ==> staying(
                v,
                session,
                request_id,
            ).contains(v[i]),
        forall|i: int|
            0 <= i < v.len() && (#[trigger] v[i]).info.request_id == request_id && (session is None
                || v[i].session_id == session) ==> ending(v, session, request_id).contains(
                v[i].info.id,
            ),
        forall|k: int|
            0 <= k < staying(v, session, request_id).len() ==> v.contains(
                #[trigger] staying(v, session, request_id)[k],
            ) && (staying(v, session, request_id)[k].info.request_id != request_id || (
            session is Some && staying(v, session, request_id)[k].session_id != session)),
        forall|k: int|
            0 <= k < ending(v, session, request_id).len() ==> asked_by(
                v,
                session,
                request_id,
                #[trigger] ending(v, session, request_id)[k],
            ),
    decreases v.len(),
{
    if v.len() > 0 {
        let w = v.drop_last();
        law_questions_stay_or_are_refused(w, session, request_id);
        let a = staying(v, session, request_id);
        let b = staying(w, session, request_id);
        let c = ending(v, session, request_id);
        let d = ending(w, session, request_id);
        assert(v[v.len() - 1] == v.last());
        assert forall|i: int|
            0 <= i < v.len() && ((#[trigger] v[i]).info.request_id != request_id || (
            session is Some && v[i].session_id != session)) implies a.contains(v[i]) by {
            if i < w.len() {
                assert(w[i] == v[i]);
                let k = choose|k: int| 0 <= k < b.len() && b[k] == w[i];
                assert(a[k] == v[i]);
            } else {
                assert(a[a.len() - 1] == v[i]);
            }
        }
        assert forall|i: int|
            0 <= i < v.len() && (#[trigger] v[i]).info.request_id == request_id && (session is None
                || v[i].session_id == session) implies c.contains(v[i].info.id) by {
            if i < w.len() {
                assert(w[i] == v[i]);
                let k = choose|k: int| 0 <= k < d.len() && d[k] == w[i].info.id;
                assert(c[k] == v[i].info.id);
            } else {
                assert(c[c.len() - 1] == v[i].info.id);
            }
        }
        assert forall|k: int| 0 <= k < a.len() implies v.contains(#[trigger] a[k]) && (
        a[k].info.request_id != request_id || (session is Some && a[k].session_id != session)) by {
            if k < b.len() {
                assert(a[k] == b[k]);
                let i = choose|i: int| 0 <= i < w.len() && w[i] == b[k];
                assert(v[i] == a[k]);
            }
        }
        assert forall|k: int| 0 <= k < c.len() implies asked_by(
            v,
            session,
            request_id,
            #[trigger] c[k],
        ) by {
            if k < d.len() {
                assert(c[k] == d[k]);
                let i = choose|i: int|
                    0 <= i < w.len() && (#[trigger] w[i]).info.id == d[k] && w[i].info.request_id
                        == request_id && (session is None || w[i].session_id == session);
                assert(v[i] == w[i]);
            } else {
                assert(v[v.len() - 1].info.id == c[k]);
            }
        }
    }
}

/// A question is announced to the request it is asked for, with its identifier and its
/// prompt.
pub proof fn law_questions_are_announced(info: ApprovalView)
    ensures
        question_frame(info) matches protocol::FrameView::Event(e) && e.request_id
            == info.request_id && e.event == EventKind::ApprovalRequired && json::at_key(
            json::at_key(e.data, "approval"@),
            "id"@,
        ) == JsonView::Str(info.id) && json::at_key(json::at_key(e.data, "approval"@), "prompt"@)
            == JsonView::Str(info.prompt),
{
    law_info_reads_back(info);
    if let protocol::FrameView::Event(e) = question_frame(info) {
        json::lemma_field_at(e.data, "approval"@, 0);
    }
}

/// The document of a question reads back as the question.
pub proof fn law_question_document(a: ApprovalView)
    ensures
        json_info(info_json(a)) == Some(a),
{
    law_info_reads_back(a);
}

/// The questions of a session are those asked in it; without a session, all.
pub proof fn law_questions_of_a_session(
    v: Seq<PendingView>,
    session: Option<Seq<char>>,
    info: ApprovalView,
)
    ensures
        of_session(v, session).count(info) > 0 <==> exists|i: int|
            0 <= i < v.len() && (#[trigger] v[i]).info == info && (session is None
                || v[i].session_id == session),
        of_session(v, session).len() <= v.len(),
        session is None ==> of_session(v, session).len() == v.len(),
    decreases v.len(),
{
    if v.len() > 0 {
        let w = v.drop_last();
        law_questions_of_a_session(w, session, info);
        assert(v[v.len() - 1] == v.last());
        if exists|i: int|
            0 <= i < w.len() && (#[trigger] w[i]).info == info && (session is None
                || w[i].session_id == session) {
            let i = choose|i: int|
                0 <= i < w.len() && (#[trigger] w[i]).info == info && (session is None
                    || w[i].session_id == session);
            assert(v[i] == w[i]);
        }
        if exists|i: int|
            0 <= i < v.len() && (#[trigger] v[i]).info == info && (session is None
                || v[i].session_id == session) {
            let i = choose|i: int|
                0 <= i < v.len() && (#[trigger] v[i]).info == info && (session is None
                    || v[i].session_id == session);
            if i < w.len() {
                assert(w[i] == v[i]);
            }
        }
    }
}

/// A question that is forgotten is gone, and no other is.
pub proof fn law_forgetting_one_question(v: Seq<PendingView>, id: Seq<char>)
    requires
        distinct_ids(v),
    ensures
        forall|i: int|
            0 <= i < forgotten(v, id).len() ==> (#[trigger] forgotten(v, id)[i]).info.id != id,
        forall|i: int|
            0 <= i < v.len() && (#[trigger] v[i]).info.id != id ==> forgotten(v, id).contains(v[i]),
        forgotten(v, id).len() >= v.len() - 1,
{
    law_questions_are_found_by_id(v, id);
    if let Some(at) = pending_index(v, id, 0) {
        let w = v.remove(at);
        assert forall|i: int| 0 <= i < w.len() implies (#[trigger] w[i]).info.id != id by {
            let k = if i < at {
                i
            } else {
                i + 1
            };
            assert(w[i] == v[k]);
            assert(v[k].info.id != v[at].info.id);
        }
        assert forall|i: int| 0 <= i < v.len() && (#[trigger] v[i]).info.id != id implies w.contains(
            v[i],
        ) by {
            let k = if i < at {
                i
            } else {
                i - 1
            };
            assert(w[k] == v[i]);
        }
    } else {
        assert forall|i: int| 0 <= i < v.len() implies v.contains(#[trigger] v[i]) by {}
    }
}

/// The questions that stay after a cancellation keep their order: those of two lists are those
/// of each, and a question stays alone exactly where it is not cancelled.
pub proof fn law_the_others_stay_in_order(
    a: Seq<PendingView>,
    b: Seq<PendingView>,
    p: PendingView,
    session: Option<Seq<char>>,
    request_id: RequestIdView,
)
    ensures
        staying(a + b, session, request_id) == staying(a, session, request_id) + staying(
            b,
            session,
            request_id,
        ),
        cancelled_with(p, session, request_id) ==> staying(seq![p], session, request_id).len()
            == 0,
        !cancelled_with(p, session, request_id) ==> staying(seq![p], session, request_id) == seq![p],
    decreases b.len(),
{
    let x = staying(a, session, request_id);
    let y = staying(b, session, request_id);
    if b.len() == 0 {
        assert(a + b =~= a);
        assert(x + y =~= x);
    } else {
        law_the_others_stay_in_order(a, b.drop_last(), p, session, request_id);
        assert((a + b).drop_last() =~= a + b.drop_last());
        assert((a + b).last() == b.last());
        assert(staying(a + b, session, request_id) =~= x + y);
    }
    assert(seq![p].drop_last() =~= Seq::<PendingView>::empty());
    reveal_with_fuel(staying, 2);
    if !cancelled_with(p, session, request_id) {
        assert(staying(seq![p], session, request_id) =~= seq![p]);
    }
}

} // verus!
