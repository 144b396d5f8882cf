//! The commands for skills, scheduled jobs and outside tools.
use vstd::prelude::*;

use crate::cron;
use crate::cron::{
    CronJob, CronManager, CronRunRecord, CronStore, JobView, RecordView, ScheduleSpec,
    ScheduleView,
};
use crate::daemon::DaemonState;
use crate::text;

verus! {

/// What the command for skills asks for.
#[derive(Debug)]
pub enum SkillCommand {
    List,
    Install { path: String, force: bool },
    Update { name: String, path: String },
    Remove { name: String, confirmed: bool },
}

/// What a command for skills says.
pub enum SkillView {
    List,
    Install { path: Seq<char>, force: bool },
    Update { name: Seq<char>, path: Seq<char> },
    Remove { name: Seq<char>, confirmed: bool },
}

impl View for SkillCommand {
    type V = SkillView;

    open spec fn view(&self) -> SkillView {
        match *self {
            SkillCommand::List => SkillView::List,
            SkillCommand::Install { path, force } => SkillView::Install { path: path@, force },
            SkillCommand::Update { name, path } => SkillView::Update { name: name@, path: path@ },
            SkillCommand::Remove { name, confirmed } => SkillView::Remove {
                name: name@,
                confirmed,
            },
        }
    }
}

pub const SKILL_USAGE: &'static str =
    "用法：/skill list | install <路径> [--force] | update <name> <路径> | remove <name> --confirm";

/// What the words of the command for skills ask for, or what is wrong with them.
pub open spec fn skill_of(args: Seq<Seq<char>>) -> Result<SkillView, Seq<char>> {
    if args.len() == 1 && args[0] == "list"@ {
        Ok(SkillView::List)
    } else if args.len() >= 2 && args[0] == "install"@ {
        let force = args.last() == "--force"@;
        let path = text::join(
            args.subrange(
                1,
                if force {
                    args.len() - 1
                } else {
                    args.len() as int
                },
            ),
            " "@,
        );
        if path.len() == 0 {
            Err("用法：/skill install <路径> [--force]"@)
        } else {
            Ok(SkillView::Install { path, force })
        }
    } else if args.len() >= 3 && args[0] == "update"@ {
        Ok(
            SkillView::Update {
                name: args[1],
                path: text::join(args.subrange(2, args.len() as int), " "@),
            },
        )
    } else if args.len() >= 2 && args[0] == "remove"@ {
        if args.len() > 3 {
            Err("用法：/skill remove <name> --confirm"@)
        } else {
            Ok(
                SkillView::Remove {
                    name: args[1],
                    confirmed: args.len() > 2 && args[2] == "--confirm"@,
                },
            )
        }
    } else {
        Err(SKILL_USAGE@)
    }
}

fn is_word(args: &Vec<String>, i: usize, word: &str) -> (r: bool)
    requires
        i < args@.len(),
    ensures
        r == (text::views(args@)[i as int] == word@),
{
    text::same(args[i].as_str(), word)
}

/// Reads the command for skills.
pub fn parse_skill_command(args: &Vec<String>) -> (r: Result<SkillCommand, String>)
    ensures
        match skill_of(text::views(args@)) {
            Ok(c) => r is Ok && r->Ok_0@ == c,
            Err(e) => r is Err && r->Err_0@ == e,
        },
{
    let ghost words = text::views(args@);
    let n: usize = args.len();
    if n == 1 && is_word(args, 0, "list") {
        return Ok(SkillCommand::List);
    }
    if n >= 2 && is_word(args, 0, "install") {
        let force = is_word(args, n - 1, "--force");
        let end: usize = if force {
            n - 1
        } else {
            n
        };
        let path = text::join_range(args, 1, end, " ");
        if text::chars_of(path.as_str()).len() == 0 {
            return Err("用法：/skill install <路径> [--force]".to_owned());
        }
        return Ok(SkillCommand::Install { path, force });
    }
    if n >= 3 && is_word(args, 0, "update") {
        let path = text::join_range(args, 2, n, " ");
        return Ok(SkillCommand::Update { name: args[1].clone(), path });
    }
    if n >= 2 && is_word(args, 0, "remove") {
        if n > 3 {
            return Err("用法：/skill remove <name> --confirm".to_owned());
        }
        let confirmed = n > 2 && is_word(args, 2, "--confirm");
        return Ok(SkillCommand::Remove { name: args[1].clone(), confirmed });
    }
    Err(SKILL_USAGE.to_owned())
}

/// A skill as it is listed.
#[derive(Debug)]
pub struct SkillInfo {
    pub name: String,
    pub version: String,
    pub description: String,
}

/// One line of the list of skills.
pub open spec fn skill_line(s: SkillInfo) -> Seq<char> {
    s.name@ + "@"@ + s.version@ + "："@ + s.description@
}

/// The list of skills as text.
pub open spec fn skills_text(v: Seq<SkillInfo>) -> Seq<char> {
    if v.len() == 0 {
        "暂无已安装 skill。"@
    } else {
        text::join(Seq::new(v.len(), |i: int| skill_line(v[i])), "\n"@)
    }
}

/// Lists the skills.
pub fn list_skills(items: &Vec<SkillInfo>) -> (r: String)
    ensures
        r@ == skills_text(items@),
{
    if items.len() == 0 {
        return "暂无已安装 skill。".to_owned();
    }
    let mut lines: Vec<String> = Vec::new();
    let mut i: usize = 0;
    while i < items.len()
        invariant
            i <= items@.len(),
            lines@.len() == i,
            forall|k: int| 0 <= k < i ==> (#[trigger] lines@[k])@ == skill_line(items@[k]),
        decreases items@.len() - i,
    {
        let mut line = items[i].name.clone();
        line.append("@");
        line.append(items[i].version.as_str());
        line.append("：");
        line.append(items[i].description.as_str());
        lines.push(line);
        i = i + 1;
    }
    assert(text::views(lines@) =~= Seq::new(items@.len(), |i: int| skill_line(items@[i])));
    text::join_texts(&lines, "\n")
}

/// The answer to the command for skills.
pub fn skill_answer(available: bool, result: Result<String, String>) -> (r: String)
    ensures
        r@ == (if !available {
            "当前 daemon 未启用 skill 管理器。"@
        } else {
            match result {
                Ok(t) => t@,
                Err(e) => "Skill 命令失败："@ + e@,
            }
        }),
{
    if !available {
        return "当前 daemon 未启用 skill 管理器。".to_owned();
    }
    match result {
        Ok(t) => t,
        Err(e) => {
            let mut r = "Skill 命令失败：".to_owned();
            r.append(e.as_str());
            r
        },
    }
}

/// A job that is to be added.
#[derive(Debug)]
pub struct NewJob {
    pub name: String,
    pub schedule: ScheduleSpec,
    pub prompt: String,
    pub retries: u32,
    pub backoff: u64,
}

/// What a job that is to be added says.
pub struct NewJobView {
    pub name: Seq<char>,
    pub schedule: ScheduleView,
    pub prompt: Seq<char>,
    pub retries: u32,
    pub backoff: u64,
}

impl View for NewJob {
    type V = NewJobView;

    open spec fn view(&self) -> NewJobView {
        NewJobView {
            name: self.name@,
            schedule: self.schedule@,
            prompt: self.prompt@,
            retries: self.retries,
            backoff: self.backoff,
        }
    }
}

/// What an option says, and why a number that it gives is none.
pub open spec fn number_or_error(
    value: Seq<char>,
    max: nat,
    what: Seq<char>,
) -> Result<nat, Seq<char>> {
    match text::unsigned_value(value, max) {
        Some(n) => Ok(n),
        None => Err(what + ": "@ + text::number_error(value, max)),
    }
}

/// The schedule that a word gives.
pub open spec fn schedule_of(word: Seq<char>) -> Result<ScheduleView, Seq<char>> {
    if text::has_prefix(word, "interval="@) {
        match number_or_error(
            word.skip("interval="@.len() as int),
            u64::MAX as nat,
            "interval 必须是正整数秒"@,
        ) {
            Ok(n) => Ok(ScheduleView::Interval(n as u64)),
            Err(e) => Err(e),
        }
    } else if text::has_prefix(word, "cron="@) {
        Ok(ScheduleView::Cron(text::replaced(word.skip("cron="@.len() as int), ',', ' ')))
    } else {
        Err("schedule 必须是 interval=<秒> 或 cron=<分,时,日,月,周>"@)
    }
}

/// What the words after the schedule say: retries, pause, and the words of the prompt.
pub open spec fn job_options(words: Seq<Seq<char>>) -> Result<
    (u32, u64, Seq<Seq<char>>),
    Seq<char>,
>
    decreases words.len(),
{
    if words.len() == 0 {
        Ok((0, 5, Seq::empty()))
    } else {
        match job_options(words.drop_last()) {
            Err(e) => Err(e),
            Ok((retries, backoff, prompt)) => {
                let word = words.last();
                if text::has_prefix(word, "--retries="@) {
                    match number_or_error(
                        word.skip("--retries="@.len() as int),
                        u32::MAX as nat,
                        "--retries 必须是非负整数"@,
                    ) {
                        Ok(n) => Ok((n as u32, backoff, prompt)),
                        Err(e) => Err(e),
                    }
                } else if text::has_prefix(word, "--backoff="@) {
                    match number_or_error(
                        word.skip("--backoff="@.len() as int),
                        u64::MAX as nat,
                        "--backoff 必须是非负整数秒"@,
                    ) {
                        Ok(n) => Ok((retries, n as u64, prompt)),
                        Err(e) => Err(e),
                    }
                } else {
                    Ok((retries, backoff, prompt.push(word)))
                }
            },
        }
    }
}

/// The job that the words of a command describe.
pub open spec fn new_job(args: Seq<Seq<char>>) -> Result<NewJobView, Seq<char>> {
    match schedule_of(args[2]) {
        Err(e) => Err(e),
        Ok(schedule) => match job_options(args.skip(3)) {
            Err(e) => Err(e),
            Ok((retries, backoff, prompt)) => if prompt.len() == 0 {
                Err("cron prompt 不能为空"@)
            } else {
                Ok(
                    NewJobView {
                        name: args[1],
                        schedule,
                        prompt: text::join(prompt, " "@),
                        retries,
                        backoff,
                    },
                )
            },
        },
    }
}

fn read_number(value: &str, max: u64, what: &str) -> (r: Result<u64, String>)
    ensures
        match number_or_error(value@, max as nat, what@) {
            Ok(n) => r is Ok && r->Ok_0 == n && n <= max,
            Err(e) => r is Err && r->Err_0@ == e,
        },
{
    match text::parse_unsigned(value, max) {
        Some(n) => Ok(n),
        None => {
            let mut e = what.to_owned();
            e.append(": ");
            e.append(text::number_error_text(value, max));
            Err(e)
        },
    }
}

fn read_schedule(word: &str) -> (r: Result<ScheduleSpec, String>)
    ensures
        match schedule_of(word@) {
            Ok(s) => r is Ok && r->Ok_0@ == s,
            Err(e) => r is Err && r->Err_0@ == e,
        },
{
    if let Some(seconds) = text::strip_prefix(word, "interval=") {
        return match read_number(seconds.as_str(), u64::MAX, "interval 必须是正整数秒") {
            Ok(n) => Ok(ScheduleSpec::Interval { seconds: n }),
            Err(e) => Err(e),
        };
    }
    if let Some(expression) = text::strip_prefix(word, "cron=") {
        return Ok(
            ScheduleSpec::Cron { expression: text::replace_char(expression.as_str(), ',', ' ') },
        );
    }
    Err("schedule 必须是 interval=<秒> 或 cron=<分,时,日,月,周>".to_owned())
}

proof fn lemma_options_error(words: Seq<Seq<char>>, n: int)
    requires
        0 <= n <= words.len(),
        job_options(words.take(n)) is Err,
    ensures
        job_options(words) == job_options(words.take(n)),
    decreases words.len() - n,
{
    if n < words.len() {
        assert(words.take(n + 1).drop_last() =~= words.take(n));
        lemma_options_error(words, n + 1);
    } else {
        assert(words.take(n) =~= words);
    }
}

/// Reads a job that is to be added.
pub fn parse_cron_add(args: &Vec<String>) -> (r: Result<NewJob, String>)
    requires
        args@.len() >= 3,
    ensures
        match new_job(text::views(args@)) {
            Ok(j) => r is Ok && r->Ok_0@ == j,
            Err(e) => r is Err && r->Err_0@ == e,
        },
{
    let ghost words = text::views(args@).skip(3);
    let schedule = match read_schedule(args[2].as_str()) {
        Ok(s) => s,
        Err(e) => return Err(e),
    };
    let mut retries: u32 = 0;
    let mut backoff: u64 = 5;
    let mut prompt: Vec<String> = Vec::new();
    let mut i: usize = 3;
    assert(words.take(0) =~= Seq::<Seq<char>>::empty());
    assert(text::views(prompt@) =~= Seq::<Seq<char>>::empty());
    while i < args.len()
        invariant
            3 <= i <= args@.len(),
            words == text::views(args@).skip(3),
            schedule_of(text::views(args@)[2]) == Ok::<ScheduleView, Seq<char>>(schedule@),
            job_options(words.take(i - 3)) == Ok::<(u32, u64, Seq<Seq<char>>), Seq<char>>(
                (retries, backoff, text::views(prompt@)),
            ),
        decreases args@.len() - i,
    {
        let word = args[i].as_str();
        proof {
            assert(words.take(i - 2).drop_last() =~= words.take(i - 3));
            assert(words.take(i - 2).last() == word@);
        }
        if let Some(value) = text::strip_prefix(word, "--retries=") {
            match read_number(value.as_str(), u32::MAX as u64, "--retries 必须是非负整数") {
                Ok(n) => {
                    retries = n as u32;
                },
                Err(e) => {
                    proof {
                        lemma_options_error(words, i - 2);
                    }
                    return Err(e);
                },
            }
        } else if let Some(value) = text::strip_prefix(word, "--backoff=") {
            match read_number(value.as_str(), u64::MAX, "--backoff 必须是非负整数秒") {
                Ok(n) => {
                    backoff = n;
                },
                Err(e) => {
                    proof {
                        lemma_options_error(words, i - 2);
                    }
                    return Err(e);
                },
            }
        } else {
            let ghost before = text::views(prompt@);
            prompt.push(args[i].clone());
            assert(text::views(prompt@) =~= before.push(word@));
        }
        i = i + 1;
    }
    assert(words.take(i - 3) =~= words);
    if prompt.len() == 0 {
        return Err("cron prompt 不能为空".to_owned());
    }
    Ok(
        NewJob {
            name: args[1].clone(),
            schedule,
            prompt: text::join_texts(&prompt, " "),
            retries,
            backoff,
        },
    )
}

/// The word for how a run of a job went.
pub open spec fn success_word(success: bool) -> Seq<char> {
    if success {
        "成功"@
    } else {
        "失败"@
    }
}

fn success_text(success: bool) -> (r: &'static str)
    ensures
        r@ == success_word(success),
{
    if success {
        "成功"
    } else {
        "失败"
    }
}

/// What is told of the last run of a job.
pub open spec fn last_run_text(history: Seq<RecordView>) -> Seq<char> {
    if history.len() == 0 {
        "尚未运行"@
    } else {
        let run = history.last();
        "上次="@ + text::decimal(run.finished_at as nat) + "，尝试="@ + text::decimal(
            run.attempts as nat,
        ) + "，结果="@ + success_word(run.success)
    }
}

/// The schedule of a job as it is shown.
pub open spec fn schedule_text(s: ScheduleView) -> Seq<char> {
    match s {
        ScheduleView::Interval(seconds) => "interval="@ + text::decimal(seconds as nat) + "s"@,
        ScheduleView::Cron(expression) => "cron="@ + expression,
    }
}

/// One line of the list of jobs.
pub open spec fn job_line(job: JobView) -> Seq<char> {
    job.name + " ["@ + job.id + "] "@ + (if job.enabled {
        "启用"@
    } else {
        "停用"@
    }) + " · "@ + schedule_text(job.schedule) + " · next="@ + text::decimal(
        job.next_run_at as nat,
    ) + " · "@ + last_run_text(job.history)
}

/// The list of jobs as text.
pub open spec fn jobs_text(jobs: Seq<JobView>) -> Seq<char> {
    if jobs.len() == 0 {
        "暂无 cron 任务。"@
    } else {
        text::join(Seq::new(jobs.len(), |i: int| job_line(jobs[i])), "\n"@)
    }
}

fn last_run(history: &Vec<CronRunRecord>) -> (r: String)
    ensures
        r@ == last_run_text(cron::record_views(history@)),
{
    if history.len() == 0 {
        return "尚未运行".to_owned();
    }
    let run = &history[history.len() - 1];
    assert(cron::record_views(history@).last() == run@);
    let mut r = "上次=".to_owned();
    r.append(text::decimal_text(run.finished_at).as_str());
    r.append("，尝试=");
    r.append(text::decimal_text(run.attempts as u64).as_str());
    r.append("，结果=");
    r.append(success_text(run.success));
    r
}

fn describe_job(job: &CronJob) -> (r: String)
    ensures
        r@ == job_line(job@),
{
    let mut r = job.name.clone();
    r.append(" [");
    r.append(job.id.as_str());
    r.append("] ");
    if job.enabled {
        r.append("启用");
    } else {
        r.append("停用");
    }
    r.append(" · ");
    r.append(job.schedule.display().as_str());
    r.append(" · next=");
    r.append(text::decimal_text(job.next_run_at).as_str());
    r.append(" · ");
    r.append(last_run(&job.history).as_str());
    r
}

/// Lists the jobs.
pub fn list_jobs(store: &CronStore) -> (r: String)
    ensures
        r@ == jobs_text(store@),
{
    if store.jobs.len() == 0 {
        return "暂无 cron 任务。".to_owned();
    }
    let mut lines: Vec<String> = Vec::new();
    let mut i: usize = 0;
    while i < store.jobs.len()
        invariant
            i <= store.jobs@.len(),
            lines@.len() == i,
            forall|k: int| 0 <= k < i ==> (#[trigger] lines@[k])@ == job_line(store@[k]),
        decreases store.jobs@.len() - i,
    {
        lines.push(describe_job(&store.jobs[i]));
        i = i + 1;
    }
    assert(text::views(lines@) =~= Seq::new(store@.len(), |i: int| job_line(store@[i])));
    text::join_texts(&lines, "\n")
}

pub const CRON_USAGE: &'static str =
    "用法：/cron list | add <name> interval=<秒>|cron=<分,时,日,月,周> [--retries=N] [--backoff=N] <prompt> | enable|disable|run-now <ID或名称> | remove <ID或名称> --confirm";

/// What the command for jobs asks for.
pub enum CronView {
    List,
    Add,
    SetEnabled(Seq<char>, bool),
    RunNow(Seq<char>),
    Remove(Seq<char>),
    Wrong(Seq<char>),
}

/// What the words of the command for jobs ask for.
pub open spec fn cron_command(args: Seq<Seq<char>>) -> CronView {
    if args.len() == 1 && args[0] == "list"@ {
        CronView::List
    } else if args.len() >= 4 && args[0] == "add"@ {
        CronView::Add
    } else if args.len() == 2 && args[0] == "enable"@ {
        CronView::SetEnabled(args[1], true)
    } else if args.len() == 2 && args[0] == "disable"@ {
        CronView::SetEnabled(args[1], false)
    } else if args.len() == 2 && args[0] == "run-now"@ {
        CronView::RunNow(args[1])
    } else if args.len() == 3 && args[0] == "remove"@ && args[2] == "--confirm"@ {
        CronView::Remove(args[1])
    } else if args.len() == 2 && args[0] == "remove"@ {
        CronView::Wrong("删除需要显式确认：/cron remove "@ + args[1] + " --confirm"@)
    } else {
        CronView::Wrong(CRON_USAGE@)
    }
}

/// What the command for jobs comes to.
#[derive(Debug)]
pub enum CronAnswer {
    /// Answer with the text.
    Say(String),
    /// Run the job now; what came of it goes to `ran_now`.
    RunNow(String),
}

/// The text of a command for jobs that failed.
pub open spec fn cron_failure(e: Seq<char>) -> Seq<char> {
    "Cron 命令失败："@ + e
}

fn failed(e: &str) -> (r: CronAnswer)
    ensures
        r matches CronAnswer::Say(t) && t@ == cron_failure(e@),
{
    let mut t = "Cron 命令失败：".to_owned();
    t.append(e);
    CronAnswer::Say(t)
}

/// The answer to adding a job, as the store took it.
pub open spec fn added_text(job: JobView) -> Seq<char> {
    "已添加 "@ + job.name + " ["@ + job.id + "]，下次运行 "@ + text::decimal(
        job.next_run_at as nat,
    )
}

/// What the command for jobs did, and what it answers.
pub open spec fn cron_done(
    before: Seq<JobView>,
    after: Seq<JobView>,
    args: Seq<Seq<char>>,
    now: u64,
    serial: u64,
    r: CronAnswer,
) -> bool {
    match cron_command(args) {
        CronView::List => after == before && (r matches CronAnswer::Say(t) && t@
            == jobs_text(before)),
        CronView::Wrong(e) => after == before && (r matches CronAnswer::Say(t)
            && t@ == cron_failure(e)),
        CronView::RunNow(key) => after == before && (
        r matches CronAnswer::RunNow(k) && k@ == key),
        CronView::Remove(key) => match cron::find_job(before, key) {
            Some(at) => after == before.remove(at) && (r matches CronAnswer::Say(
                t,
            ) && t@ == "已删除 "@ + before[at].name),
            None => after == before && (r matches CronAnswer::Say(t) && t@
                == cron_failure(
                cron::error_message(cron::CronErrorView::NotFound(key)),
            )),
        },
        CronView::SetEnabled(key, enabled) => match cron::find_job(before, key) {
            None => after == before && (r matches CronAnswer::Say(t) && t@
                == cron_failure(
                cron::error_message(cron::CronErrorView::NotFound(key)),
            )),
            Some(at) => {
                let job = before[at];
                if enabled && cron::next_of(job.schedule, now) is Err {
                    after == before && (r matches CronAnswer::Say(t) && t@
                        == cron_failure(
                        cron::error_message(cron::next_of(job.schedule, now)->Err_0),
                    ))
                } else {
                    &&& after == before.update(
                        at,
                        cron::switched(job, enabled, now),
                    )
                    &&& r matches CronAnswer::Say(t) && t@ == (if enabled {
                        "已启用 "@
                    } else {
                        "已停用 "@
                    }) + job.name
                }
            },
        },
        CronView::Add => match new_job(args) {
            Err(e) => after == before && (r matches CronAnswer::Say(t) && t@
                == cron_failure(e)),
            Ok(j) => if cron::addition_error(before, j.name, j.schedule, j.prompt, now)
                is Some {
                &&& after == before
                &&& r matches CronAnswer::Say(t) && t@ == cron_failure(
                    cron::error_message(
                        cron::addition_error(
                            before,
                            j.name,
                            j.schedule,
                            j.prompt,
                            now,
                        )->0,
                    ),
                )
            } else {
                &&& after == before.push(
                    cron::fresh_job(
                        j.name,
                        j.schedule,
                        j.prompt,
                        j.retries,
                        j.backoff,
                        now,
                        serial,
                    ),
                )
                &&& r matches CronAnswer::Say(t) && t@ == added_text(after.last())
            },
        },
    }
}

/// The clock stands where the command for jobs can be done: only adding or enabling a job with
/// a cron expression needs a calendar.
pub open spec fn command_clock_fits(jobs: Seq<JobView>, args: Seq<Seq<char>>, now: u64) -> bool {
    match cron_command(args) {
        CronView::Add => new_job(args) matches Ok(j) ==> cron::clock_fits(j.schedule, now),
        CronView::SetEnabled(key, enabled) => enabled ==> (cron::find_job(jobs, key) matches Some(
            at,
        ) ==> cron::clock_fits(jobs[at].schedule, now)),
        _ => true,
    }
}

/// Does what the command for jobs asks for. `serial` sets the job apart from others that are
/// added at the same time.
pub fn execute_cron_command(store: &mut CronStore, args: &Vec<String>, now: u64, serial: u64) -> (r:
    CronAnswer)
    requires
        command_clock_fits(old(store)@, text::views(args@), now),
    ensures
        cron_done(old(store)@, final(store)@, text::views(args@), now, serial, r),
{
    let n: usize = args.len();
    if n == 1 && is_word(args, 0, "list") {
        return CronAnswer::Say(list_jobs(store));
    }
    if n >= 4 && is_word(args, 0, "add") {
        let job = match parse_cron_add(args) {
            Ok(j) => j,
            Err(e) => return failed(e.as_str()),
        };
        return match store.add(
            job.name.as_str(),
            job.schedule,
            job.prompt.as_str(),
            job.retries,
            job.backoff,
            now,
            serial,
        ) {
            Ok(added) => {
                let mut t = "已添加 ".to_owned();
                t.append(added.name.as_str());
                t.append(" [");
                t.append(added.id.as_str());
                t.append("]，下次运行 ");
                t.append(text::decimal_text(added.next_run_at).as_str());
                CronAnswer::Say(t)
            },
            Err(e) => failed(e.message().as_str()),
        };
    }
    if n == 2 && (is_word(args, 0, "enable") || is_word(args, 0, "disable")) {
        let enabled = is_word(args, 0, "enable");
        proof {
            reveal_strlit("enable");
            reveal_strlit("disable");
        }
        return match store.set_enabled(args[1].as_str(), enabled, now) {
            Ok(job) => {
                let mut t = if enabled {
                    "已启用 ".to_owned()
                } else {
                    "已停用 ".to_owned()
                };
                t.append(job.name.as_str());
                CronAnswer::Say(t)
            },
            Err(e) => failed(e.message().as_str()),
        };
    }
    if n == 2 && is_word(args, 0, "run-now") {
        return CronAnswer::RunNow(args[1].clone());
    }
    if n == 3 && is_word(args, 0, "remove") && is_word(args, 2, "--confirm") {
        return match store.remove(args[1].as_str()) {
            Ok(job) => {
                let mut t = "已删除 ".to_owned();
                t.append(job.name.as_str());
                CronAnswer::Say(t)
            },
            Err(e) => failed(e.message().as_str()),
        };
    }
    if n == 2 && is_word(args, 0, "remove") {
        let mut e = "删除需要显式确认：/cron remove ".to_owned();
        e.append(args[1].as_str());
        e.append(" --confirm");
        return failed(e.as_str());
    }
    failed(CRON_USAGE)
}

impl DaemonState {
    /// Does what the command for jobs asks for, where the daemon has a scheduler.
    pub fn execute_cron_command(&mut self, args: &Vec<String>, now: u64, serial: u64) -> (r:
        CronAnswer)
        requires
            old(self).wf(),
            old(self).cron matches Some(m) ==> command_clock_fits(
                m.store@,
                text::views(args@),
                now,
            ),
        ensures
            final(self).wf(),
            match old(self).cron {
                None => *final(self) == *old(self) && (r matches CronAnswer::Say(t) && t@
                    == "当前 daemon 未启用 cron 管理器。"@),
                Some(m) => {
                    &&& final(self).cron is Some
                    &&& final(self).cron->0 == (CronManager { store: final(self).cron->0.store, ..m })
                    &&& *final(self) == (DaemonState { cron: final(self).cron, ..*old(self) })
                    &&& cron_done(
                        m.store@,
                        final(self).cron->0.store@,
                        text::views(args@),
                        now,
                        serial,
                        r,
                    )
                },
            },
    {
        match &mut self.cron {
            None => CronAnswer::Say("当前 daemon 未启用 cron 管理器。".to_owned()),
            Some(manager) => execute_cron_command(&mut manager.store, args, now, serial),
        }
    }
}

/// The answer once a job was run by hand.
pub fn ran_now(run: Result<CronRunRecord, String>) -> (r: String)
    ensures
        r@ == (match run {
            Ok(run) => "立即运行"@ + success_word(run@.success) + "（尝试 "@ + text::decimal(
                run@.attempts as nat,
            ) + " 次）："@ + run@.result,
            Err(e) => cron_failure(e@),
        }),
{
    match run {
        Ok(run) => {
            let mut t = "立即运行".to_owned();
            t.append(success_text(run.success));
            t.append("（尝试 ");
            t.append(text::decimal_text(run.attempts as u64).as_str());
            t.append(" 次）：");
            t.append(run.result.as_str());
            t
        },
        Err(e) => {
            let mut t = "Cron 命令失败：".to_owned();
            t.append(e.as_str());
            t
        },
    }
}

/// A server of outside tools as it is shown.
#[derive(Debug)]
pub struct McpServerStatus {
    pub name: String,
    pub connected: bool,
    pub tools: Vec<String>,
    pub error: Option<String>,
}

/// How the servers of outside tools stand.
#[derive(Debug)]
pub struct McpStatus {
    pub file_error: Option<String>,
    pub servers: Vec<McpServerStatus>,
}

/// One line of the list of servers.
pub open spec fn server_line(s: McpServerStatus, include_errors: bool) -> Seq<char> {
    let line = s.name@ + "："@ + (if s.connected {
        "已连接"@
    } else {
        "不可用"@
    }) + " · "@ + (if s.tools@.len() == 0 {
        "无工具"@
    } else {
        text::join(text::views(s.tools@), "、"@)
    });
    if include_errors && s.error is Some {
        line + " · "@ + s.error->0@
    } else {
        line
    }
}

/// The lines of the list of servers: what is wrong with the file, then each server.
pub open spec fn mcp_lines(s: McpStatus, include_errors: bool) -> Seq<Seq<char>> {
    (match s.file_error {
        Some(e) => seq!["配置错误："@ + e@],
        None => Seq::empty(),
    }) + Seq::new(s.servers@.len(), |i: int| server_line(s.servers@[i], include_errors))
}

/// The list of servers as text.
pub open spec fn mcp_text(s: McpStatus, include_errors: bool) -> Seq<char> {
    if mcp_lines(s, include_errors).len() == 0 {
        "未配置 MCP server（期望 .my-agent/mcp.json）。"@
    } else {
        text::join(mcp_lines(s, include_errors), "\n"@)
    }
}

fn describe_server(s: &McpServerStatus, include_errors: bool) -> (r: String)
    ensures
        r@ == server_line(*s, include_errors),
{
    let mut r = s.name.clone();
    r.append("：");
    if s.connected {
        r.append("已连接");
    } else {
        r.append("不可用");
    }
    r.append(" · ");
    if s.tools.len() == 0 {
        r.append("无工具");
    } else {
        r.append(text::join_texts(&s.tools, "、").as_str());
    }
    if include_errors {
        if let Some(e) = &s.error {
            r.append(" · ");
            r.append(e.as_str());
        }
    }
    r
}

/// Tells how the servers of outside tools stand.
pub fn format_mcp_status(status: &McpStatus, include_errors: bool) -> (r: String)
    ensures
        r@ == mcp_text(*status, include_errors),
{
    let mut lines: Vec<String> = Vec::new();
    if let Some(e) = &status.file_error {
        let mut line = "配置错误：".to_owned();
        line.append(e.as_str());
        lines.push(line);
    }
    let ghost head = text::views(lines@);
    let mut i: usize = 0;
    while i < status.servers.len()
        invariant
            i <= status.servers@.len(),
            text::views(lines@) == head + Seq::new(
                i as nat,
                |k: int| server_line(status.servers@[k], include_errors),
            ),
        decreases status.servers@.len() - i,
    {
        let ghost before = text::views(lines@);
        let line = describe_server(&status.servers[i], include_errors);
        lines.push(line);
        assert(text::views(lines@) =~= before.push(line@));
        i = i + 1;
        assert(text::views(lines@) =~= head + Seq::new(
            i as nat,
            |k: int| server_line(status.servers@[k], include_errors),
        ));
    }
    assert(text::views(lines@) =~= mcp_lines(*status, include_errors));
    if lines.len() == 0 {
        assert(mcp_lines(*status, include_errors).len() == 0);
        return "未配置 MCP server（期望 .my-agent/mcp.json）。".to_owned();
    }
    assert(mcp_lines(*status, include_errors).len() > 0);
    text::join_texts(&lines, "\n")
}

/// What the command for outside tools asks for.
#[derive(Debug)]
pub enum McpStep {
    /// Answer with the text.
    Say(String),
    /// Connect anew, then tell how the servers stand.
    Reload,
    /// Tell how the servers stand.
    Status { include_errors: bool },
}

/// Decides what the command for outside tools asks for.
pub fn execute_mcp_command(available: bool, args: &Vec<String>) -> (r: McpStep)
    ensures
        ({
            let words = text::views(args@);
            if !available {
                r matches McpStep::Say(t) && t@ == "当前 daemon 未启用 MCP 管理器。"@
            } else if words.len() == 1 && words[0] == "reload"@ {
                r is Reload
            } else if words.len() == 1 && words[0] == "status"@ {
                r matches McpStep::Status { include_errors } && include_errors
            } else if words.len() == 1 && words[0] == "list"@ {
                r matches McpStep::Status { include_errors } && !include_errors
            } else {
                r matches McpStep::Say(t) && t@
                    == "MCP 命令失败：用法：/mcp list | status | reload"@
            }
        }),
{
    if !available {
        return McpStep::Say("当前 daemon 未启用 MCP 管理器。".to_owned());
    }
    if args.len() == 1 {
        if is_word(args, 0, "reload") {
            return McpStep::Reload;
        }
        if is_word(args, 0, "status") {
            return McpStep::Status { include_errors: true };
        }
        if is_word(args, 0, "list") {
            return McpStep::Status { include_errors: false };
        }
    }
    McpStep::Say("MCP 命令失败：用法：/mcp list | status | reload".to_owned())
}

/// A skill command does what its first word says, with the words that follow; a removal is
/// confirmed only by the word that confirms it.
pub proof fn law_skill_commands(args: Seq<Seq<char>>)
    ensures
        skill_of(args) matches Ok(c) ==> match c {
            SkillView::List => args.len() == 1 && args[0] == "list"@,
            SkillView::Install { path, force } => args.len() >= 2 && args[0] == "install"@
                && path.len() > 0 && (force <==> args.last() == "--force"@) && (args.len() == 2
                && !force ==> path == args[1]),
            SkillView::Update { name, path } => args.len() >= 3 && args[0] == "update"@ && name
                == args[1] && (args.len() == 3 ==> path == args[2]),
            SkillView::Remove { name, confirmed } => args.len() <= 3 && args[0] == "remove"@ && name
                == args[1] && (confirmed <==> args.len() == 3 && args[2] == "--confirm"@),
        },
{
    if args.len() == 2 {
        assert(args.subrange(1, 2) =~= seq![args[1]]);
    }
    if args.len() == 3 {
        assert(args.subrange(2, 3) =~= seq![args[2]]);
    }
}

/// A schedule is an interval of the seconds that are written, or the expression that is
/// written with its fields apart.
pub proof fn law_schedules_are_read(seconds: u64, fields: Seq<char>)
    ensures
        schedule_of("interval="@ + text::decimal(seconds as nat)) == Ok::<
            ScheduleView,
            Seq<char>,
        >(ScheduleView::Interval(seconds)),
        schedule_of("cron="@ + fields) == Ok::<ScheduleView, Seq<char>>(
            ScheduleView::Cron(text::replaced(fields, ',', ' ')),
        ),
{
    reveal_strlit("interval=");
    reveal_strlit("cron=");
    let a = "interval="@ + text::decimal(seconds as nat);
    assert(a.take("interval="@.len() as int) =~= "interval="@);
    assert(a.skip("interval="@.len() as int) =~= text::decimal(seconds as nat));
    text::law_decimals_read_back(seconds as nat, u64::MAX as nat);
    let b = "cron="@ + fields;
    assert(b.take("cron="@.len() as int) =~= "cron="@);
    assert(b.skip("cron="@.len() as int) =~= fields);
    assert(b[0] == 'c');
    if text::has_prefix(b, "interval="@) {
        assert(b.take("interval="@.len() as int)[0] == b[0]);
        assert("interval="@[0] == 'i');
    }
}

/// The words of a job are its prompt, in order, except its options; an option is taken from
/// the last word that gives it.
pub proof fn law_job_words(words: Seq<Seq<char>>, word: Seq<char>)
    requires
        job_options(words) is Ok,
        !text::has_prefix(word, "--retries="@),
        !text::has_prefix(word, "--backoff="@),
    ensures
        job_options(words.push(word)) is Ok,
        job_options(words.push(word))->Ok_0.0 == job_options(words)->Ok_0.0,
        job_options(words.push(word))->Ok_0.1 == job_options(words)->Ok_0.1,
        job_options(words.push(word))->Ok_0.2 == job_options(words)->Ok_0.2.push(word),
{
    assert(words.push(word).drop_last() =~= words);
}

/// An option of a job changes that option alone, to the number that is written.
pub proof fn law_job_options(words: Seq<Seq<char>>, retries: u32, backoff: u64)
    requires
        job_options(words) is Ok,
    ensures
        job_options(words.push("--retries="@ + text::decimal(retries as nat))) == Ok::<
            (u32, u64, Seq<Seq<char>>),
            Seq<char>,
        >((retries, job_options(words)->Ok_0.1, job_options(words)->Ok_0.2)),
        job_options(words.push("--backoff="@ + text::decimal(backoff as nat))) == Ok::<
            (u32, u64, Seq<Seq<char>>),
            Seq<char>,
        >((job_options(words)->Ok_0.0, backoff, job_options(words)->Ok_0.2)),
{
    reveal_strlit("--retries=");
    reveal_strlit("--backoff=");
    let a = "--retries="@ + text::decimal(retries as nat);
    assert(a.take("--retries="@.len() as int) =~= "--retries="@);
    assert(a.skip("--retries="@.len() as int) =~= text::decimal(retries as nat));
    assert(words.push(a).drop_last() =~= words);
    text::law_decimals_read_back(retries as nat, u32::MAX as nat);
    let b = "--backoff="@ + text::decimal(backoff as nat);
    assert(b.take("--backoff="@.len() as int) =~= "--backoff="@);
    assert(b.skip("--backoff="@.len() as int) =~= text::decimal(backoff as nat));
    assert(words.push(b).drop_last() =~= words);
    text::law_decimals_read_back(backoff as nat, u64::MAX as nat);
    assert(b[2] == 'b');
    if text::has_prefix(b, "--retries="@) {
        assert(b.take("--retries="@.len() as int)[2] == b[2]);
        assert("--retries="@[2] == 'r');
    }
}

/// A job holds what was written: its name, its schedule, the rest as its prompt and its
/// options. Without options it is not retried, and would wait five seconds if it were.
pub proof fn law_jobs_hold_what_was_written(args: Seq<Seq<char>>)
    ensures
        new_job(args) matches Ok(j) ==> j.name == args[1] && schedule_of(args[2]) == Ok::<
            ScheduleView,
            Seq<char>,
        >(j.schedule) && job_options(args.skip(3)) is Ok && j.retries == job_options(
            args.skip(3),
        )->Ok_0.0 && j.backoff == job_options(args.skip(3))->Ok_0.1 && job_options(
            args.skip(3),
        )->Ok_0.2.len() > 0 && j.prompt == text::join(job_options(args.skip(3))->Ok_0.2, " "@),
        args.len() == 4 && !text::has_prefix(args[3], "--retries="@) && !text::has_prefix(
            args[3],
            "--backoff="@,
        ) && schedule_of(args[2]) is Ok ==> (new_job(args) matches Ok(j) && j.prompt == args[3]
            && j.retries == 0 && j.backoff == 5),
{
    if args.len() == 4 {
        let w = args.skip(3);
        assert(w =~= seq![args[3]]);
        assert(w.drop_last() =~= Seq::<Seq<char>>::empty());
        assert(job_options(w.drop_last()) == Ok::<(u32, u64, Seq<Seq<char>>), Seq<char>>(
            (0u32, 5u64, Seq::<Seq<char>>::empty()),
        ));
        if !text::has_prefix(args[3], "--retries="@) && !text::has_prefix(args[3], "--backoff="@) {
            assert(job_options(w)->Ok_0.2 =~= seq![args[3]]);
        }
    }
}

/// A schedule command does what its first word says to the job it names, and removes one only
/// with the word that confirms it.
pub proof fn law_cron_commands(args: Seq<Seq<char>>)
    ensures
        match cron_command(args) {
            CronView::List => args.len() == 1 && args[0] == "list"@,
            CronView::Add => args.len() >= 4 && args[0] == "add"@,
            CronView::SetEnabled(key, enabled) => args.len() == 2 && key == args[1] && (if enabled {
                args[0] == "enable"@
            } else {
                args[0] == "disable"@
            }),
            CronView::RunNow(key) => args.len() == 2 && args[0] == "run-now"@ && key == args[1],
            CronView::Remove(key) => args.len() == 3 && args[0] == "remove"@ && args[2]
                == "--confirm"@ && key == args[1],
            CronView::Wrong(_) => true,
        },
        cron_command(args) is Wrong ==> !(args.len() == 1 && args[0] == "list"@) && !(args.len()
            >= 4 && args[0] == "add"@) && !(args.len() == 2 && (args[0] == "enable"@ || args[0]
            == "disable"@ || args[0] == "run-now"@)),
{
}

/// A schedule command changes the store only where it adds, switches or removes a job: no job
/// that it does not name changes, and a command that fails changes nothing.
pub proof fn law_commands_change_one_job(
    before: Seq<JobView>,
    after: Seq<JobView>,
    args: Seq<Seq<char>>,
    now: u64,
    serial: u64,
    r: CronAnswer,
)
    requires
        cron_done(before, after, args, now, serial, r),
    ensures
        after.len() <= before.len() + 1,
        after.len() + 1 >= before.len(),
        after.len() > before.len() ==> args[0] == "add"@ && after.take(before.len() as int)
            == before && after.last().enabled && after.last().name == args[1],
        after.len() < before.len() ==> args.len() == 3 && args[0] == "remove"@ && args[2]
            == "--confirm"@ && forall|i: int|
            0 <= i < before.len() && (#[trigger] before[i]).id != args[1] && before[i].name
                != args[1] ==> after.contains(before[i]),
        after.len() == before.len() ==> forall|i: int|
            0 <= i < before.len() && (#[trigger] before[i]).id != args[1] && before[i].name
                != args[1] ==> after[i] == before[i],
        r is RunNow ==> after == before,
{
    if args.len() > 1 {
        cron::law_jobs_are_found_by_id_or_name(before, args[1]);
    }
    match cron_command(args) {
        CronView::Remove(key) => {
            if let Some(at) = cron::find_job(before, key) {
                assert forall|i: int|
                    0 <= i < before.len() && (#[trigger] before[i]).id != args[1] && before[i].name
                        != args[1] implies after.contains(before[i]) by {
                    let k = if i < at {
                        i
                    } else {
                        i - 1
                    };
                    assert(after[k] == before[i]);
                }
            }
        },
        CronView::Add => {
            if after.len() > before.len() {
                assert(after.take(before.len() as int) =~= before);
            }
        },
        _ => {},
    }
}

/// The line of a job tells its name, its identifier, whether it is on, when it runs and how
/// its last run went.
pub proof fn law_job_lines(job: JobView)
    ensures
        job.name.is_prefix_of(job_line(job)),
        text::has_text(job_line(job), " ["@ + job.id + "] "@),
        text::has_text(job_line(job), schedule_text(job.schedule)),
        text::has_text(job_line(job), text::decimal(job.next_run_at as nat)),
        last_run_text(job.history).is_suffix_of(job_line(job)),
        success_word(true) != success_word(false),
{
    reveal_strlit("成功");
    reveal_strlit("失败");
    assert("成功"@[0] != "失败"@[0]);
    let l = job_line(job);
    let on = if job.enabled {
        "启用"@
    } else {
        "停用"@
    };
    let s = schedule_text(job.schedule);
    let d = text::decimal(job.next_run_at as nat);
    let h = last_run_text(job.history);
    let id = " ["@ + job.id + "] "@;
    assert(l.subrange(0, job.name.len() as int) =~= job.name);
    let a = job.name.len() as int;
    assert(l.subrange(a, a + id.len()) =~= id);
    assert(text::occurs_at(l, id, a));
    let b = a + id.len() + on.len() + " · "@.len();
    assert(l.subrange(b, b + s.len()) =~= s);
    assert(text::occurs_at(l, s, b));
    let c = b + s.len() + " · next="@.len();
    assert(l.subrange(c, c + d.len()) =~= d);
    assert(text::occurs_at(l, d, c));
    assert(l.subrange(l.len() - h.len(), l.len() as int) =~= h);
}

/// The line of a server names it and tells its tools, and its error only where errors are
/// shown.
pub proof fn law_server_lines(s: McpServerStatus)
    ensures
        s.name@.is_prefix_of(server_line(s, true)),
        s.name@.is_prefix_of(server_line(s, false)),
        s.error is Some ==> s.error->0@.is_suffix_of(server_line(s, true)),
        s.error is None ==> server_line(s, true) == server_line(s, false),
        s.tools@.len() > 0 ==> text::has_text(
            server_line(s, false),
            text::join(text::views(s.tools@), "、"@),
        ),
{
    let l = server_line(s, true);
    let m = server_line(s, false);
    assert(l.subrange(0, s.name@.len() as int) =~= s.name@);
    assert(m.subrange(0, s.name@.len() as int) =~= s.name@);
    if s.error is Some {
        assert(l.subrange(l.len() - s.error->0@.len(), l.len() as int) =~= s.error->0@);
    }
    if s.tools@.len() > 0 {
        let t = text::join(text::views(s.tools@), "、"@);
        let at = m.len() - t.len();
        assert(m.subrange(at, at + t.len()) =~= t);
        assert(text::occurs_at(m, t, at));
    }
}

/// Every skill, every job and every server that there is is told, one to a line and in order.
pub proof fn law_lists_tell_everything(
    skills: Seq<SkillInfo>,
    jobs: Seq<JobView>,
    s: McpStatus,
    errors: bool,
)
    ensures
        skills.len() == 1 ==> skills_text(skills) == skill_line(skills[0]),
        jobs.len() == 1 ==> jobs_text(jobs) == job_line(jobs[0]),
        mcp_lines(s, errors).len() == s.servers@.len() + (if s.file_error is Some {
            1int
        } else {
            0
        }),
        forall|i: int, k: int|
            0 <= i < s.servers@.len() && k == (if s.file_error is Some {
                i + 1
            } else {
                i
            }) ==> #[trigger] mcp_lines(s, errors)[k] == server_line(
                #[trigger] s.servers@[i],
                errors,
            ),
        s.file_error is Some ==> s.file_error->0@.is_suffix_of(mcp_lines(s, errors)[0]),
{
    if s.file_error is Some {
        let l = mcp_lines(s, errors)[0];
        let e = s.file_error->0@;
        assert(l.subrange(l.len() - e.len(), l.len() as int) =~= e);
    }
}

/// Skills and jobs are told in order: what is told of two lists is what is told of each.
pub proof fn law_lists_are_told_in_order(
    a: Seq<SkillInfo>,
    b: Seq<SkillInfo>,
    x: Seq<JobView>,
    y: Seq<JobView>,
)
    ensures
        a.len() > 0 && b.len() > 0 ==> skills_text(a + b) == skills_text(a) + "\n"@ + skills_text(
            b,
        ),
        x.len() > 0 && y.len() > 0 ==> jobs_text(x + y) == jobs_text(x) + "\n"@ + jobs_text(y),
{
    let la = Seq::new(a.len(), |i: int| skill_line(a[i]));
    let lb = Seq::new(b.len(), |i: int| skill_line(b[i]));
    let lab = Seq::new((a + b).len(), |i: int| skill_line((a + b)[i]));
    assert(lab =~= la + lb);
    let lx = Seq::new(x.len(), |i: int| job_line(x[i]));
    let ly = Seq::new(y.len(), |i: int| job_line(y[i]));
    let lxy = Seq::new((x + y).len(), |i: int| job_line((x + y)[i]));
    assert(lxy =~= lx + ly);
    if a.len() > 0 && b.len() > 0 {
        text::law_join_splits(la, lb, "\n"@);
    }
    if x.len() > 0 && y.len() > 0 {
        text::law_join_splits(lx, ly, "\n"@);
    }
}

/// A skill is told by its name, its version and what it does; a job that was added by its
/// name, its identifier and when it runs.
pub proof fn law_what_is_told_of_one(s: SkillInfo, job: JobView)
    ensures
        s.name@.is_prefix_of(skill_line(s)),
        s.description@.is_suffix_of(skill_line(s)),
        text::has_text(added_text(job), job.name),
        text::has_text(added_text(job), job.id),
        text::decimal(job.next_run_at as nat).is_suffix_of(added_text(job)),
{
    let l = skill_line(s);
    assert(l.subrange(0, s.name@.len() as int) =~= s.name@);
    assert(l.subrange(l.len() - s.description@.len(), l.len() as int) =~= s.description@);
    let t = added_text(job);
    let d = text::decimal(job.next_run_at as nat);
    let a = "已添加 "@.len() as int;
    assert(t.subrange(a, a + job.name.len()) =~= job.name);
    assert(text::occurs_at(t, job.name, a));
    let b = a + job.name.len() + " ["@.len();
    assert(t.subrange(b, b + job.id.len()) =~= job.id);
    assert(text::occurs_at(t, job.id, b));
    assert(t.subrange(t.len() - d.len(), t.len() as int) =~= d);
}

/// Without a server and without an error the text says that none is set up; else it tells
/// them all, one to a line.
pub proof fn law_servers_are_told(s: McpStatus, errors: bool)
    ensures
        s.servers@.len() == 0 && s.file_error is None ==> mcp_text(s, errors)
            == "未配置 MCP server（期望 .my-agent/mcp.json）。"@,
        s.servers@.len() > 0 || s.file_error is Some ==> mcp_text(s, errors) == text::join(
            mcp_lines(s, errors),
            "\n"@,
        ),
        s.servers@.len() == 1 && s.file_error is None ==> mcp_text(s, errors) == server_line(
            s.servers@[0],
            errors,
        ),
{
    law_lists_tell_everything(Seq::empty(), Seq::empty(), s, errors);
    if s.servers@.len() == 1 && s.file_error is None {
        let l = mcp_lines(s, errors);
        assert(l =~= seq![server_line(s.servers@[0], errors)]);
    }
}

} // verus!
