//! Scheduled jobs: when they run, how they are kept, and how often they are tried.
use vstd::prelude::*;

use crate::json;
use crate::text;

verus! {

pub const MAX_HISTORY: usize = 20;

pub const CRON_SYSTEM_PROMPT: &'static str =
    "你正在执行个人 Agent 的无人值守定时任务。使用全新独立历史，只完成给定 prompt。所有工具仍受安全策略约束；任何需要人工审批的动作都会被拒绝，必须改用安全方案或清晰报告失败。";

/// The last second, counted from 1970, that a cron schedule can start from.
pub const MAX_CRON_BASE: u64 = 8_210_266_876_798;

/// The message with which the `cron` crate refuses a schedule, if it does.
pub uninterp spec fn cron_error_of(source: Seq<char>) -> Option<Seq<char>>;

/// The first second after `after` at which a schedule of the `cron` crate fires.
pub uninterp spec fn cron_next_of(source: Seq<char>, after: int) -> Option<int>;

/// `cron::Schedule::from_str`: the message of its error, or none where the text
/// is a schedule. Depends on the text alone.
#[verifier::external_body]
fn cron_error(source: &str) -> (r: Option<String>)
    ensures
        json::opt_text(r) == cron_error_of(source@),
{
    source.parse::<::cron::Schedule>().err().map(|e| e.to_string())
}

/// `cron::Schedule::after` in UTC, first item, in seconds. Depends on the text
/// and the start alone; the search begins one second after the start, so the
/// answer is later than it. The start is bounded because the crate adds that
/// second to it.
#[verifier::external_body]
fn cron_next(source: &str, after: i64) -> (r: Option<i64>)
    requires
        0 <= after <= MAX_CRON_BASE,
    ensures
        r is Some ==> cron_next_of(source@, after as int) == Some(r->0 as int),
        r is None ==> cron_next_of(source@, after as int) is None,
        r is Some ==> r->0 > after,
{
    let schedule = source.parse::<::cron::Schedule>().ok()?;
    let start = chrono::DateTime::<chrono::Utc>::from_timestamp(after, 0)?;
    schedule.after(&start).next().map(|t| t.timestamp())
}

/// When a job runs: at fixed distances, or by a cron expression of five fields.
#[derive(Debug, PartialEq, Eq)]
pub enum ScheduleSpec {
    Interval { seconds: u64 },
    Cron { expression: String },
}

/// What a schedule says.
pub enum ScheduleView {
    Interval(u64),
    Cron(Seq<char>),
}

impl View for ScheduleSpec {
    type V = ScheduleView;

    open spec fn view(&self) -> ScheduleView {
        match *self {
            ScheduleSpec::Interval { seconds } => ScheduleView::Interval(seconds),
            ScheduleSpec::Cron { expression } => ScheduleView::Cron(expression@),
        }
    }
}

impl Clone for ScheduleSpec {
    fn clone(&self) -> (r: Self)
        ensures
            r@ == self@,
    {
        match self {
            ScheduleSpec::Interval { seconds } => ScheduleSpec::Interval { seconds: *seconds },
            ScheduleSpec::Cron { expression } => ScheduleSpec::Cron {
                expression: expression.clone(),
            },
        }
    }
}

/// Why an operation on jobs was refused.
#[derive(Debug)]
pub enum CronError {
    ZeroInterval,
    FieldCount,
    Invalid { expression: String, reason: String },
    TimeOverflow,
    NoNext,
    Blank,
    NameExists(String),
    NotFound(String),
    AlreadyRunning(String),
}

/// What a refusal says.
pub enum CronErrorView {
    ZeroInterval,
    FieldCount,
    Invalid(Seq<char>, Seq<char>),
    TimeOverflow,
    NoNext,
    Blank,
    NameExists(Seq<char>),
    NotFound(Seq<char>),
    AlreadyRunning(Seq<char>),
}

impl View for CronError {
    type V = CronErrorView;

    open spec fn view(&self) -> CronErrorView {
        match *self {
            CronError::ZeroInterval => CronErrorView::ZeroInterval,
            CronError::FieldCount => CronErrorView::FieldCount,
            CronError::Invalid { expression, reason } => CronErrorView::Invalid(
                expression@,
                reason@,
            ),
            CronError::TimeOverflow => CronErrorView::TimeOverflow,
            CronError::NoNext => CronErrorView::NoNext,
            CronError::Blank => CronErrorView::Blank,
            CronError::NameExists(n) => CronErrorView::NameExists(n@),
            CronError::NotFound(n) => CronErrorView::NotFound(n@),
            CronError::AlreadyRunning(n) => CronErrorView::AlreadyRunning(n@),
        }
    }
}

/// The message of a refusal.
pub open spec fn error_message(e: CronErrorView) -> Seq<char> {
    match e {
        CronErrorView::ZeroInterval => "interval 秒数必须大于 0"@,
        CronErrorView::FieldCount => "cron 表达式必须正好是 5 段：分 时 日 月 周"@,
        CronErrorView::Invalid(x, reason) => "非法 cron 表达式："@ + x + ": "@ + reason,
        CronErrorView::TimeOverflow => "cron 基准时间溢出"@,
        CronErrorView::NoNext => "cron 表达式没有下一次触发时间"@,
        CronErrorView::Blank => "cron name 与 prompt 不能为空"@,
        CronErrorView::NameExists(n) => "cron 名称已存在："@ + n,
        CronErrorView::NotFound(n) => "找不到 cron："@ + n,
        CronErrorView::AlreadyRunning(n) => "cron 已在运行："@ + n,
    }
}

fn two(a: &str, b: &str) -> (r: String)
    ensures
        r@ == a@ + b@,
{
    let mut r = a.to_owned();
    r.append(b);
    r
}

impl CronError {
    /// The message of a refusal.
    pub fn message(&self) -> (r: String)
        ensures
            r@ == error_message(self@),
    {
        match self {
            CronError::ZeroInterval => "interval 秒数必须大于 0".to_owned(),
            CronError::FieldCount => "cron 表达式必须正好是 5 段：分 时 日 月 周".to_owned(),
            CronError::Invalid { expression, reason } => {
                let mut r = two("非法 cron 表达式：", expression.as_str());
                r.append(": ");
                r.append(reason.as_str());
                r
            },
            CronError::TimeOverflow => "cron 基准时间溢出".to_owned(),
            CronError::NoNext => "cron 表达式没有下一次触发时间".to_owned(),
            CronError::Blank => "cron name 与 prompt 不能为空".to_owned(),
            CronError::NameExists(n) => two("cron 名称已存在：", n.as_str()),
            CronError::NotFound(n) => two("找不到 cron：", n.as_str()),
            CronError::AlreadyRunning(n) => two("cron 已在运行：", n.as_str()),
        }
    }
}

/// The six-field schedule of a five-field expression: it fires at second zero.
pub open spec fn at_second_zero(expression: Seq<char>) -> Seq<char> {
    "0 "@ + expression
}

/// What is wrong with a cron expression, if anything.
pub open spec fn expression_error(expression: Seq<char>) -> Option<CronErrorView> {
    if text::words(expression).len() != 5 {
        Some(CronErrorView::FieldCount)
    } else {
        match cron_error_of(at_second_zero(expression)) {
            Some(reason) => Some(CronErrorView::Invalid(expression, reason)),
            None => None,
        }
    }
}

/// What is wrong with a schedule, if anything.
pub open spec fn schedule_error(s: ScheduleView) -> Option<CronErrorView> {
    match s {
        ScheduleView::Interval(seconds) => if seconds == 0 {
            Some(CronErrorView::ZeroInterval)
        } else {
            None
        },
        ScheduleView::Cron(expression) => expression_error(expression),
    }
}

/// A start from which a schedule can be asked for its next time: one that a
/// calendar can hold, or one beyond any machine time, which is refused.
pub open spec fn time_in_range(after: u64) -> bool {
    after <= MAX_CRON_BASE || after > i64::MAX
}

/// The clock stands where the schedule can be asked for its next time: only a cron
/// expression needs a calendar.
pub open spec fn clock_fits(s: ScheduleView, now: u64) -> bool {
    s is Cron ==> time_in_range(now)
}

/// When a schedule fires next after `after`.
pub open spec fn next_of(s: ScheduleView, after: u64) -> Result<u64, CronErrorView> {
    match s {
        ScheduleView::Interval(seconds) => Ok(
            if after + seconds > u64::MAX {
                u64::MAX
            } else {
                (after + seconds) as u64
            },
        ),
        ScheduleView::Cron(expression) => match expression_error(expression) {
            Some(e) => Err(e),
            None => if after > i64::MAX {
                Err(CronErrorView::TimeOverflow)
            } else {
                match cron_next_of(at_second_zero(expression), after as int) {
                    Some(t) => Ok(t as u64),
                    None => Err(CronErrorView::NoNext),
                }
            },
        },
    }
}

/// Tests a five-field expression and gives the schedule it stands for.
pub fn parse_five_field_cron(expression: &str) -> (r: Result<String, CronError>)
    ensures
        match r {
            Ok(s) => expression_error(expression@) is None && s@ == at_second_zero(expression@),
            Err(e) => expression_error(expression@) == Some(e@),
        },
{
    if text::split_words(expression).len() != 5 {
        return Err(CronError::FieldCount);
    }
    let source = two("0 ", expression);
    match cron_error(source.as_str()) {
        Some(reason) => Err(CronError::Invalid { expression: expression.to_owned(), reason }),
        None => Ok(source),
    }
}

impl ScheduleSpec {
    /// Tests a schedule.
    pub fn validate(&self) -> (r: Result<(), CronError>)
        ensures
            match r {
                Ok(()) => schedule_error(self@) is None,
                Err(e) => schedule_error(self@) == Some(e@),
            },
    {
        match self {
            ScheduleSpec::Interval { seconds } => if *seconds == 0 {
                Err(CronError::ZeroInterval)
            } else {
                Ok(())
            },
            ScheduleSpec::Cron { expression } => match parse_five_field_cron(expression.as_str()) {
                Ok(_) => Ok(()),
                Err(e) => Err(e),
            },
        }
    }

    /// When the schedule fires next. A valid schedule fires later than `after`,
    /// as long as there is a later second to name.
    pub fn next_after(&self, after: u64) -> (r: Result<u64, CronError>)
        requires
            clock_fits(self@, after),
        ensures
            match r {
                Ok(t) => next_of(self@, after) == Ok::<u64, CronErrorView>(t),
                Err(e) => next_of(self@, after) == Err::<u64, CronErrorView>(e@),
            },
            match r {
                Ok(t) => schedule_error(self@) is None && after < u64::MAX ==> t > after,
                Err(_) => true,
            },
    {
        match self {
            ScheduleSpec::Interval { seconds } => Ok(after.saturating_add(*seconds)),
            ScheduleSpec::Cron { expression } => {
                let source = match parse_five_field_cron(expression.as_str()) {
                    Ok(s) => s,
                    Err(e) => return Err(e),
                };
                if after > i64::MAX as u64 {
                    return Err(CronError::TimeOverflow);
                }
                match cron_next(source.as_str(), after as i64) {
                    Some(t) => Ok(t as u64),
                    None => Err(CronError::NoNext),
                }
            },
        }
    }

    /// The schedule as it is shown.
    pub fn display(&self) -> (r: String)
        ensures
            r@ == (match self@ {
                ScheduleView::Interval(seconds) => "interval="@ + text::decimal(seconds as nat)
                    + "s"@,
                ScheduleView::Cron(expression) => "cron="@ + expression,
            }),
    {
        match self {
            ScheduleSpec::Interval { seconds } => {
                let mut r = two("interval=", text::decimal_text(*seconds).as_str());
                r.append("s");
                r
            },
            ScheduleSpec::Cron { expression } => two("cron=", expression.as_str()),
        }
    }
}

/// One finished run of a job.
#[derive(Debug)]
pub struct CronRunRecord {
    pub started_at: u64,
    pub finished_at: u64,
    pub attempts: u32,
    pub success: bool,
    pub result: String,
}

/// What a record says.
pub struct RecordView {
    pub started_at: u64,
    pub finished_at: u64,
    pub attempts: u32,
    pub success: bool,
    pub result: Seq<char>,
}

impl View for CronRunRecord {
    type V = RecordView;

    open spec fn view(&self) -> RecordView {
        RecordView {
            started_at: self.started_at,
            finished_at: self.finished_at,
            attempts: self.attempts,
            success: self.success,
            result: self.result@,
        }
    }
}

impl Clone for CronRunRecord {
    fn clone(&self) -> (r: Self)
        ensures
            r@ == self@,
    {
        CronRunRecord {
            started_at: self.started_at,
            finished_at: self.finished_at,
            attempts: self.attempts,
            success: self.success,
            result: self.result.clone(),
        }
    }
}

/// What a list of records says.
pub open spec fn record_views(v: Seq<CronRunRecord>) -> Seq<RecordView> {
    Seq::new(v.len(), |i: int| v[i]@)
}

/// A job with its history.
#[derive(Debug)]
pub struct CronJob {
    pub id: String,
    pub name: String,
    pub schedule: ScheduleSpec,
    pub prompt: String,
    pub enabled: bool,
    pub max_retries: u32,
    pub backoff_seconds: u64,
    pub next_run_at: u64,
    pub history: Vec<CronRunRecord>,
}

/// What a job says.
pub struct JobView {
    pub id: Seq<char>,
    pub name: Seq<char>,
    pub schedule: ScheduleView,
    pub prompt: Seq<char>,
    pub enabled: bool,
    pub max_retries: u32,
    pub backoff_seconds: u64,
    pub next_run_at: u64,
    pub history: Seq<RecordView>,
}

impl View for CronJob {
    type V = JobView;

    open spec fn view(&self) -> JobView {
        JobView {
            id: self.id@,
            name: self.name@,
            schedule: self.schedule@,
            prompt: self.prompt@,
            enabled: self.enabled,
            max_retries: self.max_retries,
            backoff_seconds: self.backoff_seconds,
            next_run_at: self.next_run_at,
            history: record_views(self.history@),
        }
    }
}

fn clone_records(v: &Vec<CronRunRecord>, from: usize) -> (r: Vec<CronRunRecord>)
    requires
        from <= v@.len(),
    ensures
        record_views(r@) == record_views(v@).skip(from as int),
{
    let mut out: Vec<CronRunRecord> = Vec::new();
    let ghost all = record_views(v@);
    let mut i: usize = from;
    while i < v.len()
        invariant
            from <= i <= v@.len(),
            all == record_views(v@),
            out@.len() == i - from,
            forall|k: int| 0 <= k < i - from ==> (#[trigger] out@[k])@ == v@[from + k]@,
        decreases v@.len() - i,
    {
        out.push(v[i].clone());
        i = i + 1;
    }
    assert(record_views(out@) =~= all.skip(from as int));
    out
}

impl Clone for CronJob {
    fn clone(&self) -> (r: Self)
        ensures
            r@ == self@,
    {
        let history = clone_records(&self.history, 0);
        assert(record_views(self.history@).skip(0) =~= record_views(self.history@));
        CronJob {
            id: self.id.clone(),
            name: self.name.clone(),
            schedule: self.schedule.clone(),
            prompt: self.prompt.clone(),
            enabled: self.enabled,
            max_retries: self.max_retries,
            backoff_seconds: self.backoff_seconds,
            next_run_at: self.next_run_at,
            history,
        }
    }
}

/// What a list of jobs says.
pub open spec fn job_views(v: Seq<CronJob>) -> Seq<JobView> {
    Seq::new(v.len(), |i: int| v[i]@)
}

/// A job answers to its identifier and to its name.
pub open spec fn answers_to(job: JobView, key: Seq<char>) -> bool {
    job.id == key || job.name == key
}

/// Position of the first job from `from` on that answers to `key`.
pub open spec fn find_from(jobs: Seq<JobView>, key: Seq<char>, from: int) -> Option<int>
    decreases jobs.len() - from,
{
    if from < 0 || from >= jobs.len() {
        None
    } else if answers_to(jobs[from], key) {
        Some(from)
    } else {
        find_from(jobs, key, from + 1)
    }
}

/// Position of the first job that answers to `key`.
pub open spec fn find_job(jobs: Seq<JobView>, key: Seq<char>) -> Option<int> {
    find_from(jobs, key, 0)
}

/// The search gives the first job that answers, exactly when one does.
pub proof fn lemma_find_from(jobs: Seq<JobView>, key: Seq<char>, from: int)
    requires
        0 <= from,
    ensures
        match find_from(jobs, key, from) {
            Some(at) => from <= at < jobs.len() && answers_to(jobs[at], key) && forall|k: int|
                from <= k < at ==> !answers_to(#[trigger] jobs[k], key),
            None => forall|k: int| from <= k < jobs.len() ==> !answers_to(#[trigger] jobs[k], key),
        },
    decreases jobs.len() - from,
{
    if from < jobs.len() && !answers_to(jobs[from], key) {
        lemma_find_from(jobs, key, from + 1);
    }
}

/// The last entries of a history, as many as are kept.
pub open spec fn kept(history: Seq<RecordView>) -> Seq<RecordView> {
    if history.len() > MAX_HISTORY {
        history.skip(history.len() - MAX_HISTORY)
    } else {
        history
    }
}

/// The identifier of a job made at `now` with the serial number `serial`.
pub open spec fn job_id(now: u64, serial: u64) -> Seq<char> {
    "cron-"@ + text::decimal(now as nat) + "-"@ + text::decimal(serial as nat)
}

/// Some job has the name.
pub open spec fn name_taken(jobs: Seq<JobView>, name: Seq<char>) -> bool {
    exists|i: int| 0 <= i < jobs.len() && (#[trigger] jobs[i]).name == name
}

/// A job as it is added at `now`.
pub open spec fn fresh_job(
    name: Seq<char>,
    schedule: ScheduleView,
    prompt: Seq<char>,
    max_retries: u32,
    backoff_seconds: u64,
    now: u64,
    serial: u64,
) -> JobView {
    JobView {
        id: job_id(now, serial),
        name,
        schedule,
        prompt,
        enabled: true,
        max_retries,
        backoff_seconds,
        next_run_at: next_of(schedule, now)->Ok_0,
        history: Seq::empty(),
    }
}

/// A job after it was enabled or disabled at `now`.
pub open spec fn switched(job: JobView, enabled: bool, now: u64) -> JobView {
    JobView {
        enabled,
        next_run_at: if enabled {
            next_of(job.schedule, now)->Ok_0
        } else {
            job.next_run_at
        },
        ..job
    }
}

/// Why a job cannot be added at `now`, if it cannot.
pub open spec fn addition_error(
    jobs: Seq<JobView>,
    name: Seq<char>,
    schedule: ScheduleView,
    prompt: Seq<char>,
    now: u64,
) -> Option<CronErrorView> {
    if text::blank(name) || text::blank(prompt) {
        Some(CronErrorView::Blank)
    } else if schedule_error(schedule) is Some {
        schedule_error(schedule)
    } else if next_of(schedule, now) is Err {
        Some(next_of(schedule, now)->Err_0)
    } else if name_taken(jobs, name) {
        Some(CronErrorView::NameExists(name))
    } else {
        None
    }
}

/// A job is enabled and its time has come.
pub open spec fn is_due(job: JobView, now: u64) -> bool {
    job.enabled && job.next_run_at <= now
}

/// The jobs that are due, in order.
pub open spec fn due_jobs(jobs: Seq<JobView>, now: u64) -> Seq<JobView>
    decreases jobs.len(),
{
    if jobs.len() == 0 {
        Seq::empty()
    } else if is_due(jobs.last(), now) {
        due_jobs(jobs.drop_last(), now).push(jobs.last())
    } else {
        due_jobs(jobs.drop_last(), now)
    }
}

/// The error of the first due job that has no next time.
pub open spec fn due_error(jobs: Seq<JobView>, now: u64) -> Option<CronErrorView>
    decreases jobs.len(),
{
    if jobs.len() == 0 {
        None
    } else if due_error(jobs.drop_last(), now) is Some {
        due_error(jobs.drop_last(), now)
    } else if is_due(jobs.last(), now) {
        match next_of(jobs.last().schedule, now) {
            Ok(_) => None,
            Err(e) => Some(e),
        }
    } else {
        None
    }
}

/// A job after the due ones were taken: a due one waits for its next time.
pub open spec fn taken(job: JobView, now: u64) -> JobView {
    if is_due(job, now) && next_of(job.schedule, now) is Ok {
        JobView { next_run_at: next_of(job.schedule, now)->Ok_0, ..job }
    } else {
        job
    }
}

/// Every schedule is valid.
pub open spec fn valid_schedules(jobs: Seq<JobView>) -> bool {
    forall|i: int| 0 <= i < jobs.len() ==> schedule_error((#[trigger] jobs[i]).schedule) is None
}

proof fn lemma_none_due(jobs: Seq<JobView>, now: u64)
    requires
        forall|i: int| 0 <= i < jobs.len() ==> !is_due(#[trigger] jobs[i], now),
    ensures
        due_jobs(jobs, now) == Seq::<JobView>::empty(),
        due_error(jobs, now) is None,
    decreases jobs.len(),
{
    if jobs.len() > 0 {
        assert(!is_due(jobs[jobs.len() - 1], now));
        assert forall|i: int| 0 <= i < jobs.drop_last().len() implies !is_due(
            #[trigger] jobs.drop_last()[i],
            now,
        ) by {
            assert(jobs.drop_last()[i] == jobs[i]);
        }
        lemma_none_due(jobs.drop_last(), now);
    }
}

/// No job fires twice for the same time: where each that is due has a later time to wait for,
/// taking the due jobs a second time gives none and changes nothing.
pub proof fn law_no_job_fires_twice(jobs: Seq<JobView>, now: u64)
    requires
        forall|i: int|
            0 <= i < jobs.len() && is_due(#[trigger] jobs[i], now) ==> next_of(
                jobs[i].schedule,
                now,
            ) is Ok && next_of(jobs[i].schedule, now)->Ok_0 > now,
    ensures
        ({
            let after = jobs.map_values(|j: JobView| taken(j, now));
            &&& due_jobs(after, now) == Seq::<JobView>::empty()
            &&& due_error(after, now) is None
            &&& after.map_values(|j: JobView| taken(j, now)) == after
        }),
{
    let after = jobs.map_values(|j: JobView| taken(j, now));
    assert forall|i: int| 0 <= i < after.len() implies !is_due(#[trigger] after[i], now) by {
        assert(after[i] == taken(jobs[i], now));
    }
    lemma_none_due(after, now);
    assert(after.map_values(|j: JobView| taken(j, now)) =~= after);
}

/// The jobs of a workspace.
#[derive(Debug)]
pub struct CronStore {
    pub jobs: Vec<CronJob>,
}

impl View for CronStore {
    type V = Seq<JobView>;

    open spec fn view(&self) -> Seq<JobView> {
        job_views(self.jobs@)
    }
}

/// Every schedule is valid, and names do not repeat.
pub open spec fn jobs_wf(jobs: Seq<JobView>) -> bool {
    &&& forall|i: int| 0 <= i < jobs.len() ==> schedule_error((#[trigger] jobs[i]).schedule) is None
    &&& forall|i: int, k: int|
        0 <= i < k < jobs.len() ==> (#[trigger] jobs[i]).name != (#[trigger] jobs[k]).name
}

impl CronStore {
    /// A store without jobs.
    pub fn new() -> (r: Self)
        ensures
            r@ == Seq::<JobView>::empty(),
            jobs_wf(r@),
    {
        let r = CronStore { jobs: Vec::new() };
        assert(r@ =~= Seq::<JobView>::empty());
        r
    }

    /// A store with the jobs that were read, where all their schedules are valid;
    /// else the error of the first that is not.
    pub fn from_jobs(jobs: Vec<CronJob>) -> (r: Result<CronStore, CronError>)
        ensures
            match r {
                Ok(s) => s@ == job_views(jobs@) && forall|i: int|
                    0 <= i < jobs@.len() ==> schedule_error((#[trigger] jobs@[i])@.schedule) is None,
                Err(e) => exists|i: int|
                    0 <= i < jobs@.len() && schedule_error((#[trigger] jobs@[i])@.schedule) == Some(
                        e@,
                    ) && forall|k: int|
                        0 <= k < i ==> schedule_error((#[trigger] jobs@[k])@.schedule) is None,
            },
    {
        let mut i: usize = 0;
        while i < jobs.len()
            invariant
                i <= jobs@.len(),
                forall|k: int|
                    0 <= k < i ==> schedule_error((#[trigger] jobs@[k])@.schedule) is None,
            decreases jobs@.len() - i,
        {
            match jobs[i].schedule.validate() {
                Ok(()) => {},
                Err(e) => {
                    assert(schedule_error(jobs@[i as int]@.schedule) == Some(e@));
                    return Err(e);
                },
            }
            i = i + 1;
        }
        Ok(CronStore { jobs })
    }

    fn position(&self, key: &str) -> (r: Option<usize>)
        ensures
            match r {
                Some(i) => find_job(self@, key@) == Some(i as int) && i < self.jobs@.len(),
                None => find_job(self@, key@) is None,
            },
    {
        let mut i: usize = 0;
        while i < self.jobs.len()
            invariant
                i <= self.jobs@.len(),
                find_job(self@, key@) == find_from(self@, key@, i as int),
            decreases self.jobs@.len() - i,
        {
            if text::same(self.jobs[i].id.as_str(), key) || text::same(
                self.jobs[i].name.as_str(),
                key,
            ) {
                return Some(i);
            }
            i = i + 1;
        }
        None
    }

    /// The jobs, in order.
    pub fn list(&self) -> (r: Vec<CronJob>)
        ensures
            job_views(r@) == self@,
    {
        let mut out: Vec<CronJob> = Vec::new();
        let mut i: usize = 0;
        while i < self.jobs.len()
            invariant
                i <= self.jobs@.len(),
                out@.len() == i,
                forall|k: int| 0 <= k < i ==> (#[trigger] out@[k])@ == self.jobs@[k]@,
            decreases self.jobs@.len() - i,
        {
            out.push(self.jobs[i].clone());
            i = i + 1;
        }
        assert(job_views(out@) =~= self@);
        out
    }

    /// Adds a job at `now` under a new name and with a valid schedule.
    pub fn add(
        &mut self,
        name: &str,
        schedule: ScheduleSpec,
        prompt: &str,
        max_retries: u32,
        backoff_seconds: u64,
        now: u64,
        serial: u64,
    ) -> (r: Result<CronJob, CronError>)
        requires
            clock_fits(schedule@, now),
        ensures
            match addition_error(old(self)@, name@, schedule@, prompt@, now) {
                None => {
                    let job = fresh_job(
                        name@,
                        schedule@,
                        prompt@,
                        max_retries,
                        backoff_seconds,
                        now,
                        serial,
                    );
                    &&& r is Ok && r->Ok_0@ == job
                    &&& final(self)@ == old(self)@.push(job)
                },
                Some(e) => r is Err && r->Err_0@ == e && final(self)@ == old(self)@,
            },
            jobs_wf(old(self)@) ==> jobs_wf(final(self)@),
    {
        if text::is_blank(name) || text::is_blank(prompt) {
            return Err(CronError::Blank);
        }
        if let Err(e) = schedule.validate() {
            return Err(e);
        }
        let next_run_at: u64 = match schedule.next_after(now) {
            Ok(t) => t,
            Err(e) => return Err(e),
        };
        let mut i: usize = 0;
        while i < self.jobs.len()
            invariant
                i <= self.jobs@.len(),
                self@ == old(self)@,
                forall|k: int| 0 <= k < i ==> (#[trigger] self@[k]).name != name@,
                !(text::blank(name@) || text::blank(prompt@)),
                schedule_error(schedule@) is None,
                next_of(schedule@, now) == Ok::<u64, CronErrorView>(next_run_at),
            decreases self.jobs@.len() - i,
        {
            if text::same(self.jobs[i].name.as_str(), name) {
                assert(self@[i as int].name == name@);
                return Err(CronError::NameExists(name.to_owned()));
            }
            i = i + 1;
        }
        let mut id = two("cron-", text::decimal_text(now).as_str());
        id.append("-");
        id.append(text::decimal_text(serial).as_str());
        let job = CronJob {
            id,
            name: name.to_owned(),
            schedule,
            prompt: prompt.to_owned(),
            enabled: true,
            max_retries,
            backoff_seconds,
            next_run_at,
            history: Vec::new(),
        };
        assert(job@.history =~= Seq::<RecordView>::empty());
        let out = job.clone();
        self.jobs.push(job);
        assert(self@ =~= old(self)@.push(job@));
        Ok(out)
    }

    /// Enables or disables a job; one that is enabled waits for its next time from
    /// `now` on.
    pub fn set_enabled(&mut self, id_or_name: &str, enabled: bool, now: u64) -> (r: Result<
        CronJob,
        CronError,
    >)
        requires
            enabled ==> (find_job(old(self)@, id_or_name@) matches Some(at) ==> clock_fits(
                old(self)@[at].schedule,
                now,
            )),
        ensures
            match find_job(old(self)@, id_or_name@) {
                None => r is Err && r->Err_0@ == CronErrorView::NotFound(id_or_name@)
                    && final(self)@ == old(self)@,
                Some(at) => {
                    let job = old(self)@[at];
                    if enabled && next_of(job.schedule, now) is Err {
                        &&& r is Err && r->Err_0@ == next_of(job.schedule, now)->Err_0
                        &&& final(self)@ == old(self)@
                    } else {
                        &&& r is Ok && r->Ok_0@ == switched(job, enabled, now)
                        &&& final(self)@ == old(self)@.update(at, switched(job, enabled, now))
                    }
                },
            },
            jobs_wf(old(self)@) ==> jobs_wf(final(self)@),
    {
        let at: usize = match self.position(id_or_name) {
            Some(i) => i,
            None => return Err(CronError::NotFound(id_or_name.to_owned())),
        };
        let mut job = self.jobs[at].clone();
        job.enabled = enabled;
        if enabled {
            match job.schedule.next_after(now) {
                Ok(t) => job.next_run_at = t,
                Err(e) => return Err(e),
            }
        }
        let out = job.clone();
        self.jobs.set(at, job);
        assert(self@ =~= old(self)@.update(at as int, job@));
        Ok(out)
    }

    /// Removes a job and gives it back.
    pub fn remove(&mut self, id_or_name: &str) -> (r: Result<CronJob, CronError>)
        ensures
            match find_job(old(self)@, id_or_name@) {
                None => r is Err && r->Err_0@ == CronErrorView::NotFound(id_or_name@)
                    && final(self)@ == old(self)@,
                Some(at) => r is Ok && r->Ok_0@ == old(self)@[at] && final(self)@ == old(
                    self,
                )@.remove(at),
            },
            jobs_wf(old(self)@) ==> jobs_wf(final(self)@),
    {
        let at: usize = match self.position(id_or_name) {
            Some(i) => i,
            None => return Err(CronError::NotFound(id_or_name.to_owned())),
        };
        let job = self.jobs.remove(at);
        assert(self@ =~= old(self)@.remove(at as int));
        Ok(job)
    }

    /// The job that answers to an identifier or a name.
    pub fn get(&self, id_or_name: &str) -> (r: Result<CronJob, CronError>)
        ensures
            match find_job(self@, id_or_name@) {
                None => r is Err && r->Err_0@ == CronErrorView::NotFound(id_or_name@),
                Some(at) => r is Ok && r->Ok_0@ == self@[at],
            },
    {
        match self.position(id_or_name) {
            Some(i) => Ok(self.jobs[i].clone()),
            None => Err(CronError::NotFound(id_or_name.to_owned())),
        }
    }

    /// Takes the jobs that are due at `now`, as they were, and sets each to its
    /// next time. Where one has none, nothing changes. Afterwards no job with a
    /// valid schedule is due.
    pub fn take_due(&mut self, now: u64) -> (r: Result<Vec<CronJob>, CronError>)
        requires
            forall|i: int|
                0 <= i < old(self)@.len() && is_due(#[trigger] old(self)@[i], now) ==> clock_fits(
                    old(self)@[i].schedule,
                    now,
                ),
        ensures
            match r {
                Ok(due) => {
                    &&& due_error(old(self)@, now) is None
                    &&& job_views(due@) == due_jobs(old(self)@, now)
                    &&& final(self)@ == old(self)@.map_values(|j: JobView| taken(j, now))
                    &&& now < u64::MAX ==> forall|i: int|
                        0 <= i < final(self)@.len() && schedule_error(
                            (#[trigger] final(self)@[i]).schedule,
                        ) is None ==> !is_due(final(self)@[i], now)
                    &&& now < u64::MAX && valid_schedules(old(self)@) ==> due_jobs(
                        final(self)@,
                        now,
                    ) == Seq::<JobView>::empty()
                },
                Err(e) => due_error(old(self)@, now) == Some(e@) && final(self)@ == old(self)@,
            },
            jobs_wf(old(self)@) ==> jobs_wf(final(self)@),
            final(self)@.len() == old(self)@.len(),
            r is Ok ==> forall|k: int|
                0 <= k < r->Ok_0@.len() ==> (#[trigger] r->Ok_0@[k]).enabled
                    && r->Ok_0@[k].next_run_at <= now && old(self)@.contains(r->Ok_0@[k]@),
            r is Ok ==> forall|i: int|
                0 <= i < old(self)@.len() && (#[trigger] old(self)@[i]).enabled
                    && old(self)@[i].next_run_at <= now ==> job_views(r->Ok_0@).contains(
                    old(self)@[i],
                ),
            forall|i: int|
                0 <= i < old(self)@.len() && !(#[trigger] old(self)@[i]).enabled ==> final(self)@[i]
                    == old(self)@[i],
            forall|i: int|
                0 <= i < old(self)@.len() && (#[trigger] old(self)@[i]).next_run_at > now
                    ==> final(self)@[i] == old(self)@[i],
    {
        proof {
            lemma_due_jobs(self@, now);
        }
        let ghost all = self@;
        let mut next: Vec<CronJob> = Vec::new();
        let mut due: Vec<CronJob> = Vec::new();
        let mut i: usize = 0;
        assert(all.take(0) =~= Seq::<JobView>::empty());
        assert(job_views(due@) =~= Seq::<JobView>::empty());
        while i < self.jobs.len()
            invariant
                i <= self.jobs@.len(),
                all == self@,
                all == old(self)@,
                forall|k: int|
                    0 <= k < all.len() && is_due(#[trigger] all[k], now) ==> clock_fits(
                        all[k].schedule,
                        now,
                    ),
                next@.len() == i,
                due_error(all.take(i as int), now) is None,
                job_views(due@) == due_jobs(all.take(i as int), now),
                forall|k: int| 0 <= k < i ==> (#[trigger] next@[k])@ == taken(all[k], now),
                now < u64::MAX ==> forall|k: int|
                    0 <= k < i && schedule_error((#[trigger] next@[k])@.schedule) is None
                        ==> !is_due(next@[k]@, now),
            decreases self.jobs@.len() - i,
        {
            proof {
                assert(all.take(i + 1).drop_last() =~= all.take(i as int));
                assert(all.take(i + 1).last() == all[i as int]);
            }
            let mut job = self.jobs[i].clone();
            if job.enabled && job.next_run_at <= now {
                let ghost before = job_views(due@);
                let old_job = job.clone();
                due.push(old_job);
                assert(job_views(due@) =~= before.push(old_job@));
                match job.schedule.next_after(now) {
                    Ok(t) => job.next_run_at = t,
                    Err(e) => {
                        proof {
                            lemma_due_error_prefix(all, i + 1, now);
                        }
                        return Err(e);
                    },
                }
            }
            next.push(job);
            i = i + 1;
        }
        assert(all.take(i as int) =~= all);
        self.jobs = next;
        assert(self@ =~= all.map_values(|j: JobView| taken(j, now)));
        proof {
            if now < u64::MAX && valid_schedules(all) {
                assert forall|k: int| 0 <= k < self@.len() implies !is_due(
                    #[trigger] self@[k],
                    now,
                ) by {
                    assert(self@[k].schedule == all[k].schedule);
                }
                lemma_none_due(self@, now);
            }
        }
        assert(forall|k: int|
            0 <= k < due@.len() ==> (#[trigger] due@[k])@ == job_views(due@)[k]);
        Ok(due)
    }

    /// Adds a record to the history of a job; the oldest make room for it.
    pub fn record(&mut self, job_id: &str, record: CronRunRecord) -> (r: Result<(), CronError>)
        ensures
            match find_job(old(self)@, job_id@) {
                None => r is Err && r->Err_0@ == CronErrorView::NotFound(job_id@) && final(self)@
                    == old(self)@,
                Some(at) => {
                    let job = old(self)@[at];
                    &&& r is Ok
                    &&& final(self)@ == old(self)@.update(
                        at,
                        JobView { history: kept(job.history.push(record@)), ..job },
                    )
                },
            },
            jobs_wf(old(self)@) ==> jobs_wf(final(self)@),
    {
        let at: usize = match self.position(job_id) {
            Some(i) => i,
            None => return Err(CronError::NotFound(job_id.to_owned())),
        };
        let mut job = self.jobs[at].clone();
        let ghost before = job.history@;
        let mut history: Vec<CronRunRecord> = Vec::new();
        std::mem::swap(&mut history, &mut job.history);
        history.push(record);
        assert(record_views(history@) =~= record_views(before).push(record@));
        if history.len() > MAX_HISTORY {
            let from: usize = history.len() - MAX_HISTORY;
            history = clone_records(&history, from);
        }
        job.history = history;
        self.jobs.set(at, job);
        assert(self@ =~= old(self)@.update(at as int, job@));
        Ok(())
    }

    /// Some job is enabled.
    pub fn has_enabled_jobs(&self) -> (r: bool)
        ensures
            r == exists|i: int| 0 <= i < self@.len() && (#[trigger] self@[i]).enabled,
    {
        let mut i: usize = 0;
        while i < self.jobs.len()
            invariant
                i <= self.jobs@.len(),
                forall|k: int| 0 <= k < i ==> !(#[trigger] self@[k]).enabled,
            decreases self.jobs@.len() - i,
        {
            if self.jobs[i].enabled {
                assert(self@[i as int].enabled);
                return true;
            }
            i = i + 1;
        }
        false
    }
}

proof fn lemma_due_error_prefix(jobs: Seq<JobView>, n: int, now: u64)
    requires
        0 <= n <= jobs.len(),
        due_error(jobs.take(n), now) is Some,
    ensures
        due_error(jobs, now) == due_error(jobs.take(n), now),
    decreases jobs.len(),
{
    if n < jobs.len() {
        assert(jobs.drop_last().take(n) =~= jobs.take(n));
        lemma_due_error_prefix(jobs.drop_last(), n, now);
    } else {
        assert(jobs.take(n) =~= jobs);
    }
}

/// Runs one job. The library only asks for the outcome; how a job runs is up to
/// whoever implements this.
pub trait ScheduledJobRunner {
    /// Runs the job once and gives its answer, or the text of its failure.
    fn run(&mut self, job: &CronJob) -> Result<String, String>;
}

/// How an agent runs jobs: with a limit on the time of each.
#[derive(Clone, Copy, Debug, PartialEq, Eq, Structural)]
pub struct AgentCronRunner {
    pub timeout_secs: u64,
}

/// The time limit that a setting gives: a positive number of seconds, else ten minutes.
pub open spec fn timeout_of(setting: Option<Seq<char>>) -> u64 {
    match setting {
        Some(s) => match text::unsigned_value(s, u64::MAX as nat) {
            Some(n) => if n > 0 {
                n as u64
            } else {
                600
            },
            None => 600,
        },
        None => 600,
    }
}

impl AgentCronRunner {
    /// A runner with the time limit of the setting `CRON_RUN_TIMEOUT_SECS`.
    pub fn new(setting: Option<&str>) -> (r: Self)
        ensures
            r.timeout_secs == timeout_of(json::opt_view(setting)),
            r.timeout_secs > 0,
    {
        let timeout_secs: u64 = match setting {
            Some(s) => match text::parse_unsigned(s, u64::MAX) {
                Some(n) => if n > 0 {
                    n
                } else {
                    600
                },
                None => 600,
            },
            None => 600,
        };
        AgentCronRunner { timeout_secs }
    }

    /// The session file of a run, below the workspace.
    pub fn session_file(job_id: &str, now: u64) -> (r: String)
        ensures
            r@ == ".my-agent/cron-sessions/"@ + job_id@ + "-"@ + text::decimal(now as nat)
                + ".jsonl"@,
    {
        let mut r = two(".my-agent/cron-sessions/", job_id);
        r.append("-");
        r.append(text::decimal_text(now).as_str());
        r.append(".jsonl");
        r
    }

    /// What a run comes to: what its turn came to, or, where the time limit passed first
    /// (with the words of the clock), a failure.
    pub fn outcome(turn: Result<Result<String, String>, String>) -> (r: Result<String, String>)
        ensures
            match turn {
                Ok(done) => r == done,
                Err(elapsed) => r is Err && r->Err_0@ == "cron 任务执行超时: "@ + elapsed@,
            },
    {
        match turn {
            Ok(done) => done,
            Err(elapsed) => Err(two("cron 任务执行超时: ", elapsed.as_str())),
        }
    }
}

/// Answers for a person where there is none.
#[derive(Clone, Copy, Debug, PartialEq, Eq, Structural)]
pub struct UnattendedApproval;

impl UnattendedApproval {
    /// Refuses every request.
    pub fn request(&self, prompt: &str) -> (approved: bool)
        ensures
            !approved,
    {
        false
    }
}

/// The highest power of two that a delay is multiplied with.
pub const MAX_BACKOFF_EXPONENT: u32 = 20;

/// The pause after the failed attempt number `attempts`: it doubles each time, up
/// to a highest factor.
pub open spec fn backoff(backoff_seconds: u64, attempts: u32) -> u64 {
    let before: nat = if attempts == 0 {
        0
    } else {
        (attempts - 1) as nat
    };
    let exponent = if before > MAX_BACKOFF_EXPONENT {
        MAX_BACKOFF_EXPONENT as nat
    } else {
        before
    };
    let delay = backoff_seconds * vstd::arithmetic::power2::pow2(exponent);
    if delay > u64::MAX {
        u64::MAX
    } else {
        delay as u64
    }
}

fn two_to(exponent: u32) -> (r: u64)
    requires
        exponent <= MAX_BACKOFF_EXPONENT,
    ensures
        r == vstd::arithmetic::power2::pow2(exponent as nat),
        r <= 0x10_0000,
{
    let mut r: u64 = 1;
    let mut i: u32 = 0;
    proof {
        vstd::arithmetic::power2::lemma2_to64();
    }
    while i < exponent
        invariant
            i <= exponent <= MAX_BACKOFF_EXPONENT,
            r == vstd::arithmetic::power2::pow2(i as nat),
            r <= 0x10_0000,
            vstd::arithmetic::power2::pow2(20) == 0x10_0000,
        decreases exponent - i,
    {
        proof {
            vstd::arithmetic::power2::lemma_pow2_unfold((i + 1) as nat);
            if i + 1 < 20 {
                vstd::arithmetic::power2::lemma_pow2_strictly_increases((i + 1) as nat, 20);
            }
        }
        r = r * 2;
        i = i + 1;
    }
    r
}

/// The attempts at one run of a job.
#[derive(Clone, Copy, Debug, PartialEq, Eq, Structural)]
pub struct JobRun {
    pub attempts: u32,
    pub max_retries: u32,
    pub backoff_seconds: u64,
}

/// What follows an attempt.
#[derive(Debug)]
pub enum RunStep {
    /// Try again after the pause.
    RetryAfter { seconds: u64 },
    /// The run is over.
    Finished { attempts: u32, success: bool, result: String },
}

/// What follows an attempt with the given outcome.
pub open spec fn run_step(
    before: JobRun,
    after: JobRun,
    success: bool,
    result: Seq<char>,
    step: RunStep,
) -> bool {
    &&& after.max_retries == before.max_retries
    &&& after.backoff_seconds == before.backoff_seconds
    &&& after.attempts == (if before.attempts == u32::MAX {
        u32::MAX as int
    } else {
        before.attempts + 1
    })
    &&& if !success && after.attempts <= after.max_retries {
        step matches RunStep::RetryAfter { seconds } && seconds == backoff(
            after.backoff_seconds,
            after.attempts,
        )
    } else {
        step matches RunStep::Finished { attempts, success: s, result: t } && attempts
            == after.attempts && s == success && t@ == result
    }
}

impl JobRun {
    /// A run before its first attempt.
    pub fn new(job: &CronJob) -> (r: Self)
        ensures
            r == (JobRun {
                attempts: 0,
                max_retries: job@.max_retries,
                backoff_seconds: job@.backoff_seconds,
            }),
    {
        JobRun {
            attempts: 0,
            max_retries: job.max_retries,
            backoff_seconds: job.backoff_seconds,
        }
    }

    /// Takes the outcome of an attempt. A failed one is repeated while retries are
    /// left; anything else ends the run.
    pub fn attempt(&mut self, outcome: Result<String, String>) -> (step: RunStep)
        ensures
            match outcome {
                Ok(t) => run_step(*old(self), *final(self), true, t@, step),
                Err(e) => run_step(*old(self), *final(self), false, e@, step),
            },
    {
        self.attempts = self.attempts.saturating_add(1);
        match outcome {
            Ok(result) => RunStep::Finished { attempts: self.attempts, success: true, result },
            Err(error) => {
                if self.attempts <= self.max_retries {
                    let before: u32 = self.attempts - 1;
                    let exponent: u32 = if before > MAX_BACKOFF_EXPONENT {
                        MAX_BACKOFF_EXPONENT
                    } else {
                        before
                    };
                    let seconds: u64 = match self.backoff_seconds.checked_mul(two_to(exponent)) {
                        Some(d) => d,
                        None => u64::MAX,
                    };
                    RunStep::RetryAfter { seconds }
                } else {
                    RunStep::Finished { attempts: self.attempts, success: false, result: error }
                }
            },
        }
    }

    /// Runs the job once with `runner` and takes the outcome, which is given back beside
    /// the step: what a runner answers is its own affair, what follows is not.
    pub fn attempt_with<R: ScheduledJobRunner>(
        &mut self,
        runner: &mut R,
        job: &CronJob,
    ) -> (r: (RunStep, Result<String, String>))
        ensures
            match r.1 {
                Ok(t) => run_step(*old(self), *final(self), true, t@, r.0),
                Err(e) => run_step(*old(self), *final(self), false, e@, r.0),
            },
    {
        let outcome = runner.run(job);
        let kept = match &outcome {
            Ok(t) => Ok(t.clone()),
            Err(e) => Err(e.clone()),
        };
        (self.attempt(outcome), kept)
    }
}

/// The scheduler: its jobs, the ones that run now, and its pauses.
#[derive(Debug)]
pub struct CronManager {
    pub store: CronStore,
    pub running: Vec<String>,
    pub tick_ms: u64,
    pub stagger_ms: u64,
    pub heartbeat_ms: Option<u64>,
}

/// Some running job has the identifier.
pub open spec fn runs(running: Seq<Seq<char>>, id: Seq<char>) -> bool {
    exists|i: int| 0 <= i < running.len() && #[trigger] running[i] == id
}

impl CronManager {
    /// No job runs twice at a time.
    pub open spec fn wf(self) -> bool {
        forall|i: int, k: int|
            0 <= i < k < self.running@.len() ==> (#[trigger] self.running@[i])@ != (
            #[trigger] self.running@[k])@
    }

    /// A scheduler in which nothing runs.
    pub fn new(
        store: CronStore,
        tick_ms: u64,
        stagger_ms: u64,
        heartbeat_ms: Option<u64>,
    ) -> (r: Self)
        ensures
            r.wf(),
            r.store == store,
            text::views(r.running@) == Seq::<Seq<char>>::empty(),
            r.tick_ms == tick_ms,
            r.stagger_ms == stagger_ms,
            r.heartbeat_ms == heartbeat_ms,
    {
        let r = CronManager { store, running: Vec::new(), tick_ms, stagger_ms, heartbeat_ms };
        assert(text::views(r.running@) =~= Seq::<Seq<char>>::empty());
        r
    }

    /// The jobs of the scheduler.
    pub fn store(&self) -> (r: &CronStore)
        ensures
            *r == self.store,
    {
        &self.store
    }

    fn running_at(&self, id: &str) -> (r: Option<usize>)
        ensures
            match r {
                Some(i) => i < self.running@.len() && self.running@[i as int]@ == id@,
                None => !runs(text::views(self.running@), id@),
            },
    {
        let mut i: usize = 0;
        while i < self.running.len()
            invariant
                i <= self.running@.len(),
                forall|k: int| 0 <= k < i ==> (#[trigger] self.running@[k])@ != id@,
            decreases self.running@.len() - i,
        {
            if text::same(self.running[i].as_str(), id) {
                return Some(i);
            }
            i = i + 1;
        }
        None
    }

    /// Opens a run of a job, unless one is going on.
    pub fn begin(&mut self, job: &CronJob) -> (r: Result<JobRun, CronError>)
        requires
            old(self).wf(),
        ensures
            final(self).wf(),
            *final(self) == (CronManager { running: final(self).running, ..*old(self) }),
            match r {
                Ok(run) => {
                    &&& !runs(text::views(old(self).running@), job@.id)
                    &&& text::views(final(self).running@) == text::views(
                        old(self).running@,
                    ).push(job@.id)
                    &&& run == (JobRun {
                        attempts: 0,
                        max_retries: job@.max_retries,
                        backoff_seconds: job@.backoff_seconds,
                    })
                },
                Err(e) => {
                    &&& runs(text::views(old(self).running@), job@.id)
                    &&& final(self).running == old(self).running
                    &&& e@ == CronErrorView::AlreadyRunning(job@.name)
                },
            },
    {
        if let Some(i) = self.running_at(job.id.as_str()) {
            assert(text::views(self.running@)[i as int] == job@.id);
            return Err(CronError::AlreadyRunning(job.name.clone()));
        }
        let ghost before = self.running@;
        self.running.push(job.id.clone());
        proof {
            let after = self.running@;
            assert(text::views(after) =~= text::views(before).push(job@.id));
            assert forall|i: int, k: int| 0 <= i < k < after.len() implies (#[trigger] after[i])@
                != (#[trigger] after[k])@ by {
                if k == before.len() {
                    assert(text::views(before)[i] == after[i]@);
                } else {
                    assert(after[i] == before[i] && after[k] == before[k]);
                }
            }
        }
        Ok(JobRun::new(job))
    }

    /// Closes a run: the job may run again, and the record joins its history.
    pub fn finish(&mut self, job_id: &str, record: CronRunRecord) -> (r: Result<(), CronError>)
        requires
            old(self).wf(),
        ensures
            final(self).wf(),
            *final(self) == (CronManager {
                store: final(self).store,
                running: final(self).running,
                ..*old(self)
            }),
            !runs(text::views(final(self).running@), job_id@),
            forall|id: Seq<char>|
                id != job_id@ ==> (runs(text::views(final(self).running@), id) <==> runs(
                    text::views(old(self).running@),
                    id,
                )),
            match find_job(old(self).store@, job_id@) {
                None => r is Err && r->Err_0@ == CronErrorView::NotFound(job_id@)
                    && final(self).store@ == old(self).store@,
                Some(at) => {
                    let job = old(self).store@[at];
                    &&& r is Ok
                    &&& final(self).store@ == old(self).store@.update(
                        at,
                        JobView { history: kept(job.history.push(record@)), ..job },
                    )
                },
            },
    {
        let ghost before = self.running@;
        let ghost old_views = text::views(before);
        if let Some(i) = self.running_at(job_id) {
            self.running.remove(i);
            proof {
                let after = self.running@;
                let views = text::views(after);
                assert(after =~= before.remove(i as int));
                assert forall|a: int, b: int| 0 <= a < b < after.len() implies (
                #[trigger] after[a])@ != (#[trigger] after[b])@ by {
                    let x = if a < i {
                        a
                    } else {
                        a + 1
                    };
                    let y = if b < i {
                        b
                    } else {
                        b + 1
                    };
                    assert(after[a] == before[x] && after[b] == before[y]);
                }
                assert forall|k: int| 0 <= k < after.len() implies (#[trigger] views[k])
                    != job_id@ by {
                    if k < i {
                        assert(views[k] == before[k]@);
                    } else {
                        assert(views[k] == before[k + 1]@);
                    }
                }
                assert forall|id: Seq<char>| id != job_id@ implies (runs(views, id) <==> runs(
                    old_views,
                    id,
                )) by {
                    if runs(views, id) {
                        let k = choose|k: int| 0 <= k < views.len() && #[trigger] views[k] == id;
                        if k < i {
                            assert(old_views[k] == id);
                        } else {
                            assert(old_views[k + 1] == id);
                        }
                    }
                    if runs(old_views, id) {
                        let k = choose|k: int|
                            0 <= k < old_views.len() && #[trigger] old_views[k] == id;
                        if k < i {
                            assert(views[k] == id);
                        } else {
                            assert(views[k - 1] == id);
                        }
                    }
                }
            }
        }
        self.store.record(job_id, record)
    }

    /// The pause before the due job number `index`: every job but the first waits.
    pub fn pause_before(&self, index: usize) -> (ms: u64)
        ensures
            ms == (if index > 0 {
                self.stagger_ms
            } else {
                0
            }),
    {
        if index > 0 {
            self.stagger_ms
        } else {
            0
        }
    }

    /// Whether the heartbeat is due, so many milliseconds after the last.
    pub fn heartbeat_due(&self, elapsed_ms: u64) -> (r: bool)
        ensures
            r == (self.heartbeat_ms is Some && elapsed_ms >= self.heartbeat_ms->0),
    {
        match self.heartbeat_ms {
            Some(period) => elapsed_ms >= period,
            None => false,
        }
    }

    /// A heartbeat, or an enabled job, keeps the daemon alive.
    pub fn keeps_daemon_alive(&self) -> (r: bool)
        ensures
            r == (self.heartbeat_ms is Some || exists|i: int|
                0 <= i < self.store@.len() && (#[trigger] self.store@[i]).enabled),
    {
        self.heartbeat_ms.is_some() || self.store.has_enabled_jobs()
    }
}

/// A job that was added under a key that nothing answered to is the one found by
/// its name, and removing it brings back what was there before.
pub proof fn law_added_job_is_found(jobs: Seq<JobView>, job: JobView)
    requires
        find_job(jobs, job.name) is None,
    ensures
        find_job(jobs.push(job), job.name) == Some(jobs.len() as int),
        jobs.push(job).remove(jobs.len() as int) == jobs,
{
    lemma_find_from(jobs, job.name, 0);
    let more = jobs.push(job);
    lemma_find_from(more, job.name, 0);
    assert forall|k: int| 0 <= k < jobs.len() implies !answers_to(#[trigger] more[k], job.name) by {
        assert(more[k] == jobs[k]);
    }
    assert(answers_to(more[jobs.len() as int], job.name));
    assert(more.remove(jobs.len() as int) =~= jobs);
}

/// A history never outgrows its bound: it keeps its newest entries, in order, the
/// one just added among them.
pub proof fn law_history_is_bounded(history: Seq<RecordView>, record: RecordView)
    requires
        history.len() <= MAX_HISTORY,
    ensures
        kept(history.push(record)).len() <= MAX_HISTORY,
        kept(history.push(record)).last() == record,
        history.len() < MAX_HISTORY ==> kept(history.push(record)) == history.push(record),
        history.len() == MAX_HISTORY ==> kept(history.push(record)) == history.drop_first().push(
            record,
        ),
{
    let more = history.push(record);
    if history.len() == MAX_HISTORY {
        assert(more.skip(1) =~= history.drop_first().push(record));
    }
}

/// A run ends by itself: one that fails every time is over after its first attempt
/// and its retries, and not before.
pub proof fn law_retries_are_finite(before: JobRun, after: JobRun, result: Seq<char>, step: RunStep)
    requires
        run_step(before, after, false, result, step),
        before.attempts < u32::MAX,
    ensures
        step is RetryAfter <==> before.attempts < before.max_retries,
        step is Finished ==> after.attempts == before.attempts + 1,
        step is Finished && before.attempts <= before.max_retries ==> after.attempts
            == before.max_retries + 1,
{
}

/// The pauses between the attempts never get shorter.
pub proof fn law_backoff_grows(backoff_seconds: u64, attempts: u32)
    requires
        attempts < u32::MAX,
    ensures
        backoff(backoff_seconds, attempts) <= backoff(backoff_seconds, (attempts + 1) as u32),
{
    let a: nat = if attempts == 0 {
        0
    } else {
        (attempts - 1) as nat
    };
    let b: nat = attempts as nat;
    let x = if a > 20 {
        20nat
    } else {
        a
    };
    let y = if b > 20 {
        20nat
    } else {
        b
    };
    if x < y {
        vstd::arithmetic::power2::lemma_pow2_strictly_increases(x, y);
    }
    let p = vstd::arithmetic::power2::pow2(x) as int;
    let q = vstd::arithmetic::power2::pow2(y) as int;
    assert(backoff_seconds * p <= backoff_seconds * q) by (nonlinear_arith)
        requires
            p <= q,
            0 <= backoff_seconds,
    ;
}

/// A disabled job, and one whose time has not come, is left alone when the due
/// jobs are taken.
pub proof fn law_only_due_jobs_change(job: JobView, now: u64)
    requires
        !is_due(job, now),
    ensures
        taken(job, now) == job,
{
}

/// Where the due jobs of a list stand in it.
pub open spec fn due_places(jobs: Seq<JobView>, now: u64) -> Seq<int>
    decreases jobs.len(),
{
    if jobs.len() == 0 {
        Seq::empty()
    } else if jobs.last().enabled && jobs.last().next_run_at <= now {
        due_places(jobs.drop_last(), now).push(jobs.len() - 1)
    } else {
        due_places(jobs.drop_last(), now)
    }
}

proof fn lemma_due_jobs(jobs: Seq<JobView>, now: u64)
    ensures
        due_jobs(jobs, now).len() == due_places(jobs, now).len(),
        forall|k: int|
            0 <= k < due_places(jobs, now).len() ==> 0 <= #[trigger] due_places(jobs, now)[k]
                < jobs.len() && due_jobs(jobs, now)[k] == jobs[due_places(jobs, now)[k]]
                && jobs[due_places(jobs, now)[k]].enabled
                && jobs[due_places(jobs, now)[k]].next_run_at <= now,
        forall|k: int, l: int|
            0 <= k < l < due_places(jobs, now).len() ==> #[trigger] due_places(jobs, now)[k]
                < #[trigger] due_places(jobs, now)[l],
        forall|i: int|
            0 <= i < jobs.len() && (#[trigger] jobs[i]).enabled && jobs[i].next_run_at <= now
                ==> due_places(jobs, now).contains(i),
        forall|k: int|
            0 <= k < due_jobs(jobs, now).len() ==> (#[trigger] due_jobs(jobs, now)[k]).enabled
                && due_jobs(jobs, now)[k].next_run_at <= now && jobs.contains(
                due_jobs(jobs, now)[k],
            ),
        forall|i: int|
            0 <= i < jobs.len() && (#[trigger] jobs[i]).enabled && jobs[i].next_run_at <= now
                ==> due_jobs(jobs, now).contains(jobs[i]),
    decreases jobs.len(),
{
    if jobs.len() > 0 {
        let w = jobs.drop_last();
        let p = due_places(w, now);
        let q = due_places(jobs, now);
        lemma_due_jobs(w, now);
        assert forall|k: int| 0 <= k < q.len() implies 0 <= #[trigger] q[k] < jobs.len()
            && due_jobs(jobs, now)[k] == jobs[q[k]] && jobs[q[k]].enabled && jobs[q[k]].next_run_at
            <= now by {
            if k < p.len() {
                assert(q[k] == p[k]);
                assert(w[p[k]] == jobs[p[k]]);
            }
        }
        assert forall|k: int, l: int| 0 <= k < l < q.len() implies #[trigger] q[k]
            < #[trigger] q[l] by {
            assert(q[k] == p[k]);
            if l < p.len() {
                assert(q[l] == p[l]);
            }
        }
        assert forall|i: int|
            0 <= i < jobs.len() && (#[trigger] jobs[i]).enabled && jobs[i].next_run_at
                <= now implies q.contains(i) by {
            if i < w.len() {
                assert(w[i] == jobs[i]);
                let k = choose|k: int| 0 <= k < p.len() && p[k] == i;
                assert(q[k] == i);
            } else {
                assert(q[q.len() - 1] == i);
            }
        }
        assert forall|k: int| 0 <= k < due_jobs(jobs, now).len() implies (
        #[trigger] due_jobs(jobs, now)[k]).enabled && due_jobs(jobs, now)[k].next_run_at <= now
            && jobs.contains(due_jobs(jobs, now)[k]) by {
            assert(jobs[q[k]] == due_jobs(jobs, now)[k]);
        }
        assert forall|i: int|
            0 <= i < jobs.len() && (#[trigger] jobs[i]).enabled && jobs[i].next_run_at
                <= now implies due_jobs(jobs, now).contains(jobs[i]) by {
            assert(q.contains(i));
            let k = choose|k: int| 0 <= k < q.len() && q[k] == i;
            assert(due_jobs(jobs, now)[k] == jobs[i]);
        }
    }
}

/// The jobs that are taken at a time are those that are switched on and whose time has come:
/// each of them, none besides, each once and in the order of the store.
pub proof fn law_due_jobs_are_those_whose_time_came(jobs: Seq<JobView>, now: u64) -> (places: Seq<
    int,
>)
    ensures
        places.len() == due_jobs(jobs, now).len(),
        forall|k: int|
            0 <= k < places.len() ==> 0 <= #[trigger] places[k] < jobs.len() && due_jobs(
                jobs,
                now,
            )[k] == jobs[places[k]] && jobs[places[k]].enabled && jobs[places[k]].next_run_at
                <= now,
        forall|k: int, l: int|
            0 <= k < l < places.len() ==> #[trigger] places[k] < #[trigger] places[l],
        forall|i: int|
            0 <= i < jobs.len() ==> (places.contains(i) <==> (#[trigger] jobs[i]).enabled
                && jobs[i].next_run_at <= now),
{
    lemma_due_jobs(jobs, now);
    due_places(jobs, now)
}

/// A job that is switched off, or whose time has not come, is left exactly as it was. One
/// that is taken changes in its next time alone.
pub proof fn law_taking_changes_the_time_alone(job: JobView, now: u64)
    ensures
        !job.enabled ==> taken(job, now) == job,
        job.next_run_at > now ==> taken(job, now) == job,
        job.enabled && job.next_run_at <= now && next_of(job.schedule, now) is Ok ==> taken(
            job,
            now,
        ).next_run_at == next_of(job.schedule, now)->Ok_0,
        taken(job, now).id == job.id,
        taken(job, now).name == job.name,
        taken(job, now).schedule == job.schedule,
        taken(job, now).prompt == job.prompt,
        taken(job, now).enabled == job.enabled,
        taken(job, now).max_retries == job.max_retries,
        taken(job, now).backoff_seconds == job.backoff_seconds,
        taken(job, now).history == job.history,
{
}

/// Taking fails exactly where a job that is on and whose time has come has no next time, and
/// then with what the first such job says.
pub proof fn law_taking_fails_for_want_of_a_next_time(jobs: Seq<JobView>, now: u64)
    ensures
        due_error(jobs, now) is None <==> forall|i: int|
            0 <= i < jobs.len() && (#[trigger] jobs[i]).enabled && jobs[i].next_run_at <= now
                ==> next_of(jobs[i].schedule, now) is Ok,
        due_error(jobs, now) is Some ==> exists|i: int|
            0 <= i < jobs.len() && (#[trigger] jobs[i]).enabled && jobs[i].next_run_at <= now
                && next_of(jobs[i].schedule, now) == Err::<u64, CronErrorView>(
                due_error(jobs, now)->0,
            ),
    decreases jobs.len(),
{
    if jobs.len() > 0 {
        let w = jobs.drop_last();
        law_taking_fails_for_want_of_a_next_time(w, now);
        if due_error(w, now) is Some {
            let i = choose|i: int|
                0 <= i < w.len() && (#[trigger] w[i]).enabled && w[i].next_run_at <= now && next_of(
                    w[i].schedule,
                    now,
                ) == Err::<u64, CronErrorView>(due_error(w, now)->0);
            assert(jobs[i] == w[i]);
        } else {
            assert forall|i: int|
                0 <= i < w.len() && (#[trigger] jobs[i]).enabled && jobs[i].next_run_at
                    <= now implies next_of(jobs[i].schedule, now) is Ok by {
                assert(w[i] == jobs[i]);
            }
            assert(jobs[jobs.len() - 1] == jobs.last());
        }
    }
}

/// A job is found under its identifier or its name, the first that has it; where none has
/// it, nothing is found.
pub proof fn law_jobs_are_found_by_id_or_name(jobs: Seq<JobView>, key: Seq<char>)
    ensures
        find_job(jobs, key) is None <==> forall|i: int|
            0 <= i < jobs.len() ==> (#[trigger] jobs[i]).id != key && jobs[i].name != key,
        find_job(jobs, key) matches Some(at) ==> 0 <= at < jobs.len() && (jobs[at].id == key
            || jobs[at].name == key) && forall|i: int|
            0 <= i < at ==> (#[trigger] jobs[i]).id != key && jobs[i].name != key,
{
    lemma_found_from(jobs, key, 0);
}

proof fn lemma_found_from(jobs: Seq<JobView>, key: Seq<char>, from: int)
    requires
        0 <= from <= jobs.len(),
    ensures
        find_from(jobs, key, from) is None <==> forall|i: int|
            from <= i < jobs.len() ==> (#[trigger] jobs[i]).id != key && jobs[i].name != key,
        find_from(jobs, key, from) matches Some(at) ==> from <= at < jobs.len() && (jobs[at].id
            == key || jobs[at].name == key) && forall|i: int|
            from <= i < at ==> (#[trigger] jobs[i]).id != key && jobs[i].name != key,
    decreases jobs.len() - from,
{
    if from < jobs.len() {
        lemma_found_from(jobs, key, from + 1);
    }
}

/// Switching a job sets what was asked for. Switched off it keeps its time; switched on it
/// gets the next one after now. Nothing else of it changes.
pub proof fn law_switching_a_job(job: JobView, enabled: bool, now: u64)
    ensures
        switched(job, enabled, now).enabled == enabled,
        !enabled ==> switched(job, enabled, now).next_run_at == job.next_run_at,
        enabled && next_of(job.schedule, now) is Ok ==> next_of(job.schedule, now) == Ok::<
            u64,
            CronErrorView,
        >(switched(job, enabled, now).next_run_at),
        switched(job, enabled, now).id == job.id,
        switched(job, enabled, now).name == job.name,
        switched(job, enabled, now).schedule == job.schedule,
        switched(job, enabled, now).prompt == job.prompt,
        switched(job, enabled, now).max_retries == job.max_retries,
        switched(job, enabled, now).backoff_seconds == job.backoff_seconds,
        switched(job, enabled, now).history == job.history,
        !enabled ==> forall|later: u64| !is_due(switched(job, enabled, now), later),
        switched(switched(job, !enabled, now), enabled, now).enabled == enabled,
{
}

/// An interval lies between a time and the next one, as far as a machine number goes, and an
/// interval of nothing is refused.
pub proof fn law_intervals_are_kept(seconds: u64, after: u64)
    ensures
        next_of(ScheduleView::Interval(seconds), after) is Ok,
        after + seconds <= u64::MAX ==> next_of(ScheduleView::Interval(seconds), after)->Ok_0
            - after == seconds,
        after + seconds > u64::MAX ==> next_of(ScheduleView::Interval(seconds), after)->Ok_0
            == u64::MAX,
        schedule_error(ScheduleView::Interval(seconds)) is Some <==> seconds == 0,
        seconds == 0 ==> schedule_error(ScheduleView::Interval(seconds)) == Some(
            CronErrorView::ZeroInterval,
        ),
{
}

/// An expression has a next time only where it is valid: five fields that the schedule
/// reader accepts with the second zero put in front.
pub proof fn law_expressions_are_checked_first(expression: Seq<char>, after: u64)
    ensures
        next_of(ScheduleView::Cron(expression), after) is Ok ==> schedule_error(
            ScheduleView::Cron(expression),
        ) is None && after <= i64::MAX,
        text::words(expression).len() != 5 ==> next_of(ScheduleView::Cron(expression), after)
            == Err::<u64, CronErrorView>(CronErrorView::FieldCount),
        text::words(expression).len() == 5 && cron_error_of("0 "@ + expression) is Some ==> next_of(
            ScheduleView::Cron(expression),
            after,
        ) == Err::<u64, CronErrorView>(
            CronErrorView::Invalid(expression, cron_error_of("0 "@ + expression)->0),
        ),
        next_of(ScheduleView::Cron(expression), after) is Ok ==> cron_next_of(
            "0 "@ + expression,
            after as int,
        ) is Some && next_of(ScheduleView::Cron(expression), after)->Ok_0 == cron_next_of(
            "0 "@ + expression,
            after as int,
        )->0 as u64,
{
}

/// A job is taken in only with a name and a prompt that say something, a schedule with a
/// next time and a name that no job of the store has; then it is on, has no history, and
/// holds what was given.
pub proof fn law_what_a_new_job_needs(
    jobs: Seq<JobView>,
    name: Seq<char>,
    schedule: ScheduleView,
    prompt: Seq<char>,
    max_retries: u32,
    backoff_seconds: u64,
    now: u64,
    serial: u64,
)
    ensures
        addition_error(jobs, name, schedule, prompt, now) is None <==> !text::blank(name)
            && !text::blank(prompt) && schedule_error(schedule) is None && next_of(
            schedule,
            now,
        ) is Ok && forall|i: int| 0 <= i < jobs.len() ==> (#[trigger] jobs[i]).name != name,
        ({
            let job = fresh_job(name, schedule, prompt, max_retries, backoff_seconds, now, serial);
            &&& job.name == name
            &&& job.schedule == schedule
            &&& job.prompt == prompt
            &&& job.enabled
            &&& job.max_retries == max_retries
            &&& job.backoff_seconds == backoff_seconds
            &&& job.history.len() == 0
            &&& next_of(schedule, now) is Ok ==> next_of(schedule, now) == Ok::<u64, CronErrorView>(
                job.next_run_at,
            )
        }),
{
}

/// The newest record of a job is always kept, as its last; of the others the newest stay, in
/// their order.
pub proof fn law_newest_records_stay(history: Seq<RecordView>, record: RecordView)
    ensures
        kept(history.push(record)).len() > 0,
        kept(history.push(record)).last() == record,
        kept(history.push(record)).len() <= MAX_HISTORY,
        history.len() < MAX_HISTORY ==> kept(history.push(record)) == history.push(record),
        forall|i: int|
            0 <= i < kept(history.push(record)).len() - 1 ==> #[trigger] kept(
                history.push(record),
            )[i] == history[history.len() - (kept(history.push(record)).len() - 1) + i],
{
}

/// The first retry waits as long as the job says; each later one twice as long as the one
/// before, up to the largest power, and as far as a machine number goes.
pub proof fn law_backoff_doubles(backoff_seconds: u64, attempts: u32)
    requires
        1 <= attempts < u32::MAX,
    ensures
        backoff(backoff_seconds, 1) == backoff_seconds,
        attempts <= MAX_BACKOFF_EXPONENT && 2 * backoff(backoff_seconds, attempts) <= u64::MAX
            ==> backoff(backoff_seconds, (attempts + 1) as u32) == 2 * backoff(
            backoff_seconds,
            attempts,
        ),
        attempts > MAX_BACKOFF_EXPONENT ==> backoff(backoff_seconds, (attempts + 1) as u32)
            == backoff(backoff_seconds, attempts),
{
    broadcast use vstd::arithmetic::power2::lemma_pow2_unfold;

    vstd::arithmetic::power2::lemma2_to64();
    if attempts <= MAX_BACKOFF_EXPONENT {
        let e = (attempts - 1) as nat;
        let p = vstd::arithmetic::power2::pow2(e) as int;
        assert(vstd::arithmetic::power2::pow2(e + 1) == 2 * vstd::arithmetic::power2::pow2(e));
        assert(backoff_seconds * (2 * p) == 2 * (backoff_seconds * p)) by (nonlinear_arith);
    }
}

/// An attempt that succeeds ends the run with its own result. One that fails is retried
/// exactly while attempts are left, and else ends the run as failed.
pub proof fn law_success_is_not_retried(
    before: JobRun,
    after: JobRun,
    success: bool,
    result: Seq<char>,
    step: RunStep,
)
    requires
        run_step(before, after, success, result, step),
    ensures
        success ==> step is Finished,
        step is RetryAfter <==> !success && after.attempts <= before.max_retries,
        step matches RunStep::Finished { attempts, success: s, result: t } ==> s == success && t@
            == result && attempts == after.attempts,
        before.attempts < u32::MAX ==> after.attempts == before.attempts + 1,
{
}

/// Jobs are told apart by when they were made and by the number they got: one identifier is
/// of one time and one number.
pub proof fn law_identifiers_are_of_one_job(now: u64, serial: u64, then: u64, other: u64)
    requires
        job_id(now, serial) == job_id(then, other),
    ensures
        now == then,
        serial == other,
{
    reveal_strlit("cron-");
    reveal_strlit("-");
    let a = text::decimal(now as nat);
    let b = text::decimal(then as nat);
    let x = text::decimal(serial as nat);
    let y = text::decimal(other as nat);
    text::law_decimals_read_back(now as nat, now as nat);
    text::law_decimals_read_back(then as nat, then as nat);
    let s = job_id(now, serial);
    let t = job_id(then, other);
    let h = "cron-"@.len() as int;
    assert(s[h + a.len()] == '-');
    assert(t[h + b.len()] == '-');
    if a.len() < b.len() {
        assert(t[h + a.len()] == b[a.len() as int]);
        assert('0' <= b[a.len() as int] <= '9');
    } else if b.len() < a.len() {
        assert(s[h + b.len()] == a[b.len() as int]);
        assert('0' <= a[b.len() as int] <= '9');
    }
    assert(a =~= s.subrange(h, h + a.len()));
    assert(b =~= t.subrange(h, h + b.len()));
    assert(x =~= s.skip(h + a.len() + 1));
    assert(y =~= t.skip(h + b.len() + 1));
    if now != then {
        text::law_decimals_differ(now as nat, then as nat);
    }
    if serial != other {
        text::law_decimals_differ(serial as nat, other as nat);
    }
}

/// A job may run as long as is set, in seconds; without a number that counts, ten minutes.
pub proof fn law_the_time_a_job_has(setting: Option<Seq<char>>, n: u64)
    ensures
        timeout_of(setting) > 0,
        setting is None ==> timeout_of(setting) == 600,
        n > 0 && setting == Some(text::decimal(n as nat)) ==> timeout_of(setting) == n,
        setting == Some(text::decimal(0)) ==> timeout_of(setting) == 600,
{
    text::law_decimals_read_back(n as nat, u64::MAX as nat);
    text::law_decimals_read_back(0, u64::MAX as nat);
}

/// A job runs exactly while its identifier is among those that run.
pub proof fn law_jobs_that_run(running: Seq<Seq<char>>, id: Seq<char>, other: Seq<char>)
    ensures
        runs(running.push(id), id),
        other != id ==> (runs(running.push(id), other) <==> runs(running, other)),
        !runs(Seq::empty(), id),
{
    let v = running.push(id);
    assert(v[running.len() as int] == id);
    if runs(running, other) {
        let i = choose|i: int| 0 <= i < running.len() && #[trigger] running[i] == other;
        assert(v[i] == other);
    }
    if other != id && runs(v, other) {
        let i = choose|i: int| 0 <= i < v.len() && #[trigger] v[i] == other;
        assert(running[i] == other);
    }
}

/// What went wrong is told with the name it is about.
pub proof fn law_errors_name_what_they_are_about(name: Seq<char>)
    ensures
        name.is_suffix_of(error_message(CronErrorView::NameExists(name))),
        name.is_suffix_of(error_message(CronErrorView::NotFound(name))),
        name.is_suffix_of(error_message(CronErrorView::AlreadyRunning(name))),
{
    let a = error_message(CronErrorView::NameExists(name));
    let b = error_message(CronErrorView::NotFound(name));
    let c = error_message(CronErrorView::AlreadyRunning(name));
    assert(a.subrange(a.len() - name.len(), a.len() as int) =~= name);
    assert(b.subrange(b.len() - name.len(), b.len() as int) =~= name);
    assert(c.subrange(c.len() - name.len(), c.len() as int) =~= name);
}

} // verus!
