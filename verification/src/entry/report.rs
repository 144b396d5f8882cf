//! What the commands of the program print: its log, its configuration and how the daemon stands.
use vstd::prelude::*;

use crate::config;
use crate::config::{ConfigFile, ConfigIssue, ConfigView, IssueView};
use crate::provider;
use crate::provider::{ProfileView, ProviderProfile};
use crate::text;

verus! {

fn two(a: &str, b: &str) -> (r: String)
    ensures
        r@ == a@ + b@,
{
    let mut r = a.to_owned();
    r.append(b);
    r
}

/// A line of the log tells of a request. The request is named as the log names it, or by its
/// number or text alone; a longer name that begins with it is another request.
pub open spec fn tells_of(line: Seq<char>, request: Seq<char>) -> bool {
    if text::has_prefix(request, "Number("@) || text::has_prefix(request, "String("@) {
        text::has_whole(line, "request_id="@ + request)
    } else {
        text::has_text(line, "request_id=Number("@ + request + ")"@) || text::has_text(
            line,
            "request_id=String(\""@ + request + "\")"@,
        ) || text::has_whole(line, "request_id="@ + request)
    }
}

/// Tests whether a line of the log tells of a request.
pub fn log_line_matches_request(line: &str, request: &str) -> (r: bool)
    ensures
        r == tells_of(line@, request@),
{
    let plain = two("request_id=", request);
    if text::starts_with(request, "Number(") || text::starts_with(request, "String(") {
        return text::contains_whole(line, plain.as_str());
    }
    let mut number = two("request_id=Number(", request);
    number.append(")");
    let mut string = two("request_id=String(\"", request);
    string.append("\")");
    text::contains(line, number.as_str()) || text::contains(line, string.as_str())
        || text::contains_whole(line, plain.as_str())
}

/// A line of the log is wanted: it tells of the session and of the request that are named.
pub open spec fn is_wanted(line: Seq<char>, session: Option<Seq<char>>, request: Option<Seq<char>>)
    -> bool {
    &&& session is Some ==> text::has_whole(line, "session_id="@ + session->0)
    &&& request is Some ==> tells_of(line, request->0)
}

/// The lines of the log that are wanted.
pub open spec fn wanted_lines(
    v: Seq<Seq<char>>,
    session: Option<Seq<char>>,
    request: Option<Seq<char>>,
) -> Seq<Seq<char>>
    decreases v.len(),
{
    if v.len() == 0 {
        v
    } else if is_wanted(v.last(), session, request) {
        wanted_lines(v.drop_last(), session, request).push(v.last())
    } else {
        wanted_lines(v.drop_last(), session, request)
    }
}

/// The last of so many lines.
pub open spec fn last_lines(v: Seq<Seq<char>>, count: int) -> Seq<Seq<char>> {
    if v.len() <= count {
        v
    } else {
        v.skip(v.len() - count)
    }
}

/// The last lines of a log that are wanted, in the order in which they stand.
pub fn recent_lines(
    content: &str,
    count: usize,
    session: Option<&str>,
    request: Option<&str>,
) -> (r: Result<Vec<String>, String>)
    ensures
        match r {
            Ok(lines) => count > 0 && text::views(lines@) == last_lines(
                wanted_lines(
                    text::lines(content@),
                    crate::json::opt_view(session),
                    crate::json::opt_view(request),
                ),
                count as int,
            ),
            Err(e) => count == 0 && e@ == "--lines 必须大于 0"@,
        },
{
    if count == 0 {
        return Err("--lines 必须大于 0".to_owned());
    }
    let ghost s = crate::json::opt_view(session);
    let ghost q = crate::json::opt_view(request);
    let lines = text::split_lines(content);
    let ghost all = text::views(lines@);
    let mut wanted: Vec<String> = Vec::new();
    let mut i: usize = 0;
    assert(all.take(0) =~= Seq::<Seq<char>>::empty());
    assert(text::views(wanted@) =~= Seq::<Seq<char>>::empty());
    while i < lines.len()
        invariant
            i <= lines@.len(),
            all == text::views(lines@),
            s == crate::json::opt_view(session),
            q == crate::json::opt_view(request),
            text::views(wanted@) == wanted_lines(all.take(i as int), s, q),
        decreases lines@.len() - i,
    {
        proof {
            assert(all.take(i + 1).drop_last() =~= all.take(i as int));
            assert(all.take(i + 1).last() == lines@[i as int]@);
        }
        let of_session = match session {
            Some(id) => text::contains_whole(
                lines[i].as_str(),
                two("session_id=", id).as_str(),
            ),
            None => true,
        };
        let of_request = match request {
            Some(id) => log_line_matches_request(lines[i].as_str(), id),
            None => true,
        };
        if of_session && of_request {
            let ghost before = text::views(wanted@);
            let line = lines[i].clone();
            let ghost said = line@;
            wanted.push(line);
            assert(text::views(wanted@) =~= before.push(said));
        }
        i = i + 1;
    }
    assert(all.take(i as int) =~= all);
    let from: usize = wanted.len().saturating_sub(count);
    let ghost found = text::views(wanted@);
    let mut out: Vec<String> = Vec::new();
    let mut k: usize = from;
    assert(text::views(out@) =~= found.subrange(from as int, from as int));
    while k < wanted.len()
        invariant
            from <= k <= wanted@.len(),
            found == text::views(wanted@),
            text::views(out@) == found.subrange(from as int, k as int),
        decreases wanted@.len() - k,
    {
        let line = wanted[k].clone();
        let ghost before = text::views(out@);
        let ghost said = line@;
        out.push(line);
        assert(text::views(out@) =~= before.push(said));
        assert(found.subrange(from as int, k + 1) =~= found.subrange(from as int, k as int).push(
            found[k as int],
        ));
        k = k + 1;
    }
    assert(text::views(out@) =~= last_lines(found, count as int));
    Ok(out)
}

/// Every line that is printed is wanted.
pub proof fn law_only_wanted_lines_are_printed(
    v: Seq<Seq<char>>,
    session: Option<Seq<char>>,
    request: Option<Seq<char>>,
    count: int,
    i: int,
)
    requires
        0 < count,
        0 <= i < last_lines(wanted_lines(v, session, request), count).len(),
    ensures
        is_wanted(last_lines(wanted_lines(v, session, request), count)[i], session, request),
        last_lines(wanted_lines(v, session, request), count).len() <= count,
{
    let w = wanted_lines(v, session, request);
    if w.len() <= count {
        lemma_wanted(v, session, request, i);
    } else {
        lemma_wanted(v, session, request, w.len() - count + i);
    }
}

proof fn lemma_wanted(
    v: Seq<Seq<char>>,
    session: Option<Seq<char>>,
    request: Option<Seq<char>>,
    i: int,
)
    requires
        0 <= i < wanted_lines(v, session, request).len(),
    ensures
        is_wanted(wanted_lines(v, session, request)[i], session, request),
    decreases v.len(),
{
    if v.len() > 0 {
        if i < wanted_lines(v.drop_last(), session, request).len() {
            lemma_wanted(v.drop_last(), session, request, i);
        }
    }
}

/// The line of a profile in the list.
pub open spec fn profile_line(p: ProfileView, active: Option<Seq<char>>) -> Seq<char> {
    (if active == Some(p.id) {
        "*"@
    } else {
        " "@
    }) + " "@ + (if text::blank(p.name) {
        p.id
    } else {
        p.name
    }) + " · "@ + provider::api_name(p.api_type) + " · "@ + p.model + " · key="@ + (
    if provider::has_key(p.api_key) {
        "true"@
    } else {
        "false"@
    })
}

/// The lines of the list of profiles. No key is shown.
pub open spec fn profile_lines(c: ConfigView, path: Seq<char>) -> Seq<Seq<char>> {
    if c.profiles.len() == 0 {
        seq!["暂无已保存模型配置。\n配置文件："@ + path]
    } else {
        seq!["全局配置文件："@ + path] + Seq::new(
            c.profiles.len(),
            |i: int| profile_line(c.profiles[i], c.active_profile),
        )
    }
}

fn make_profile_line(p: &ProviderProfile, active: &Option<String>) -> (r: String)
    ensures
        r@ == profile_line(p@, crate::json::opt_text(*active)),
{
    let is_active = match active {
        Some(id) => text::same(id.as_str(), p.id.as_str()),
        None => false,
    };
    let marker = if is_active {
        "*"
    } else {
        " "
    };
    let mut r = two(marker, " ");
    if text::is_blank(p.name.as_str()) {
        r.append(p.id.as_str());
    } else {
        r.append(p.name.as_str());
    }
    r.append(" · ");
    r.append(p.api_type.as_str());
    r.append(" · ");
    r.append(p.model.as_str());
    r.append(" · key=");
    if provider::key_is_set(&p.api_key) {
        r.append("true");
    } else {
        r.append("false");
    }
    r
}

/// The lines of the list of profiles.
pub fn config_list(file: &ConfigFile, path: &str) -> (r: Vec<String>)
    ensures
        text::views(r@) == profile_lines(file@, path@),
{
    let mut out: Vec<String> = Vec::new();
    if file.profiles.len() == 0 {
        out.push(two("暂无已保存模型配置。\n配置文件：", path));
        assert(text::views(out@) =~= profile_lines(file@, path@));
        return out;
    }
    out.push(two("全局配置文件：", path));
    let ghost head = seq!["全局配置文件："@ + path@];
    let ghost rest = Seq::new(
        file@.profiles.len(),
        |i: int| profile_line(file@.profiles[i], file@.active_profile),
    );
    let mut i: usize = 0;
    assert(text::views(out@) =~= head + rest.take(0));
    while i < file.profiles.len()
        invariant
            i <= file.profiles@.len(),
            rest == Seq::new(
                file@.profiles.len(),
                |i: int| profile_line(file@.profiles[i], file@.active_profile),
            ),
            text::views(out@) == head + rest.take(i as int),
        decreases file.profiles@.len() - i,
    {
        let line = make_profile_line(&file.profiles[i], &file.active_profile);
        let ghost before = text::views(out@);
        let ghost said = line@;
        out.push(line);
        assert(text::views(out@) =~= before.push(said));
        assert(rest[i as int] == said);
        assert(rest.take(i + 1) =~= rest.take(i as int).push(rest[i as int]));
        assert(text::views(out@) =~= head + rest.take(i + 1));
        i = i + 1;
    }
    assert(rest.take(i as int) =~= rest);
    out
}

/// A list shows no key: profiles that differ in their keys alone, and both have one, look the
/// same.
pub proof fn law_keys_are_not_shown(
    p: ProfileView,
    q: ProfileView,
    active: Option<Seq<char>>,
)
    requires
        q == (ProfileView { api_key: q.api_key, ..p }),
        provider::has_key(p.api_key) == provider::has_key(q.api_key),
    ensures
        profile_line(p, active) == profile_line(q, active),
{
}

/// What is said of a configuration: that it is in order, or what is wrong with it.
pub open spec fn check_lines(issues: Seq<IssueView>, path: Seq<char>) -> Seq<Seq<char>> {
    if issues.len() == 0 {
        seq![
            "配置检查通过。API 密钥已设置（值不会显示）。\n全局配置文件："@ + path,
        ]
    } else {
        seq!["配置检查发现 "@ + text::decimal(issues.len()) + " 个问题："@] + Seq::new(
            issues.len(),
            |i: int| "- "@ + issues[i].variable + "："@ + issues[i].message,
        )
    }
}

/// What the check fails with where something is wrong.
pub open spec fn check_failure(path: Seq<char>) -> Seq<char> {
    "配置尚未就绪。可运行 `myagent serve` 打开 Web 设置保存模型，或修正以上环境变量；配置文件："@
        + path
}

/// What is said of a configuration, and what the check fails with.
pub fn config_check(issues: &Vec<ConfigIssue>, path: &str) -> (r: (Vec<String>, Option<String>))
    ensures
        text::views(r.0@) == check_lines(config::issue_views(issues@), path@),
        crate::json::opt_text(r.1) == if issues@.len() == 0 {
            None
        } else {
            Some(check_failure(path@))
        },
{
    let ghost all = config::issue_views(issues@);
    let mut out: Vec<String> = Vec::new();
    if issues.len() == 0 {
        out.push(
            two("配置检查通过。API 密钥已设置（值不会显示）。\n全局配置文件：", path),
        );
        assert(text::views(out@) =~= check_lines(all, path@));
        return (out, None);
    }
    let mut first = two(
        "配置检查发现 ",
        text::decimal_text(issues.len() as u64).as_str(),
    );
    first.append(" 个问题：");
    let ghost head = seq![first@];
    out.push(first);
    let ghost rest = Seq::new(
        all.len(),
        |i: int| "- "@ + all[i].variable + "："@ + all[i].message,
    );
    let mut i: usize = 0;
    assert(text::views(out@) =~= head + rest.take(0));
    while i < issues.len()
        invariant
            i <= issues@.len(),
            all == config::issue_views(issues@),
            rest == Seq::new(
                all.len(),
                |i: int| "- "@ + all[i].variable + "："@ + all[i].message,
            ),
            text::views(out@) == head + rest.take(i as int),
        decreases issues@.len() - i,
    {
        let mut line = two("- ", issues[i].variable);
        line.append("：");
        line.append(issues[i].message.as_str());
        let ghost before = text::views(out@);
        let ghost said = line@;
        out.push(line);
        assert(text::views(out@) =~= before.push(said));
        assert(rest[i as int] == said);
        assert(rest.take(i + 1) =~= rest.take(i as int).push(rest[i as int]));
        assert(text::views(out@) =~= head + rest.take(i + 1));
        i = i + 1;
    }
    assert(rest.take(i as int) =~= rest);
    assert(text::views(out@) =~= check_lines(all, path@));
    (
        out,
        Some(
            two(
                "配置尚未就绪。可运行 `myagent serve` 打开 Web 设置保存模型，或修正以上环境变量；配置文件：",
                path,
            ),
        ),
    )
}

/// How the daemon of a workspace stands.
#[derive(Clone, Copy, Debug, PartialEq, Eq, Structural)]
pub enum DaemonStatus {
    Ready { pid: u32 },
    Starting { pid: Option<u32> },
    Stale { pid: Option<u32> },
    Stopped,
}

/// A process that may be there.
pub open spec fn pid_text(pid: Option<u32>) -> Seq<char> {
    match pid {
        Some(n) => "Some("@ + text::decimal(n as nat) + ")"@,
        None => "None"@,
    }
}

fn name_pid(pid: Option<u32>) -> (r: String)
    ensures
        r@ == pid_text(pid),
{
    match pid {
        Some(n) => {
            let mut r = two("Some(", text::decimal_text(n as u64).as_str());
            r.append(")");
            r
        },
        None => "None".to_owned(),
    }
}

/// What is said of how the daemon stands.
pub open spec fn status_text(
    status: DaemonStatus,
    socket: Seq<char>,
    log: Seq<char>,
    sessions: Seq<char>,
) -> Seq<char> {
    match status {
        DaemonStatus::Ready { pid } => "ready · pid="@ + text::decimal(pid as nat) + " · socket="@
            + socket + " · log="@ + log + " · sessions="@ + sessions,
        DaemonStatus::Starting { pid } => "starting · pid="@ + pid_text(pid) + " · log="@ + log
            + " · sessions="@ + sessions,
        DaemonStatus::Stale { pid } => "stale · pid="@ + pid_text(pid) + " · log="@ + log
            + " · 可再次运行 `my-agent` 自动清理并重启"@,
        DaemonStatus::Stopped => "stopped · log="@ + log,
    }
}

/// What is said of how the daemon stands.
pub fn status_report(status: DaemonStatus, socket: &str, log: &str, sessions: &str) -> (r: String)
    ensures
        r@ == status_text(status, socket@, log@, sessions@),
{
    match status {
        DaemonStatus::Ready { pid } => {
            let mut r = two("ready · pid=", text::decimal_text(pid as u64).as_str());
            r.append(" · socket=");
            r.append(socket);
            r.append(" · log=");
            r.append(log);
            r.append(" · sessions=");
            r.append(sessions);
            r
        },
        DaemonStatus::Starting { pid } => {
            let mut r = two("starting · pid=", name_pid(pid).as_str());
            r.append(" · log=");
            r.append(log);
            r.append(" · sessions=");
            r.append(sessions);
            r
        },
        DaemonStatus::Stale { pid } => {
            let mut r = two("stale · pid=", name_pid(pid).as_str());
            r.append(" · log=");
            r.append(log);
            r.append(" · 可再次运行 `my-agent` 自动清理并重启");
            r
        },
        DaemonStatus::Stopped => two("stopped · log=", log),
    }
}

/// A workspace has at most one daemon.
pub fn may_start(status: DaemonStatus) -> (r: Result<(), String>)
    ensures
        if status is Ready {
            r is Err && r->Err_0@ == "该工作区的 daemon 已在运行"@
        } else {
            r is Ok
        },
{
    match status {
        DaemonStatus::Ready { .. } => Err("该工作区的 daemon 已在运行".to_owned()),
        _ => Ok(()),
    }
}

/// What is said where there is no log.
pub fn no_log(log: &str) -> (r: String)
    ensures
        r@ == "暂无 daemon 日志："@ + log@,
{
    two("暂无 daemon 日志：", log)
}

/// What is said above the sessions that are listed while no daemon runs.
pub const STORED_SESSIONS: &'static str = "daemon 未运行，以下为本地会话快照：";

/// What is done to stop the daemon, before it is said.
#[derive(Clone, Copy, Debug, PartialEq, Eq, Structural)]
pub enum StopAction {
    /// Ask it to stop.
    Request,
    /// Take away what it left behind.
    CleanUp,
    Nothing,
}

/// What is done to stop the daemon, and what is said then.
pub fn stop_command(status: DaemonStatus) -> (r: (StopAction, String))
    ensures
        match status {
            DaemonStatus::Ready { .. } => r.0 == StopAction::Request && r.1@
                == "已请求 daemon 优雅停止；正在执行的 turn 不会被超时强杀。"@,
            DaemonStatus::Stale { .. } => r.0 == StopAction::CleanUp && r.1@
                == "已清理失效的 daemon 运行标记。"@,
            DaemonStatus::Starting { pid } => r.0 == StopAction::Nothing && r.1@
                == "daemon 正在启动（pid="@ + pid_text(pid) + "），请稍后重试 stop。"@,
            DaemonStatus::Stopped => r.0 == StopAction::Nothing && r.1@ == "daemon 未运行。"@,
        },
{
    match status {
        DaemonStatus::Ready { .. } => (
            StopAction::Request,
            "已请求 daemon 优雅停止；正在执行的 turn 不会被超时强杀。".to_owned(),
        ),
        DaemonStatus::Stale { .. } => (
            StopAction::CleanUp,
            "已清理失效的 daemon 运行标记。".to_owned(),
        ),
        DaemonStatus::Starting { pid } => {
            let mut r = two("daemon 正在启动（pid=", name_pid(pid).as_str());
            r.append("），请稍后重试 stop。");
            (StopAction::Nothing, r)
        },
        DaemonStatus::Stopped => (StopAction::Nothing, "daemon 未运行。".to_owned()),
    }
}

/// A line is wanted without a filter, and with one only where it names the session and the
/// request that are asked for.
pub proof fn law_filters(line: Seq<char>, session: Option<Seq<char>>, request: Option<Seq<char>>)
    ensures
        is_wanted(line, None, None),
        is_wanted(line, session, request) && session is Some ==> text::has_text(
            line,
            "session_id="@ + session->0,
        ),
        is_wanted(line, session, request) <==> is_wanted(line, session, None) && is_wanted(
            line,
            None,
            request,
        ),
{
    if is_wanted(line, session, request) && session is Some {
        let p = "session_id="@ + session->0;
        let i = choose|i: int|
            #[trigger] text::occurs_at(line, p, i) && (i + p.len() == line.len() || !text::goes_on(
                line[i + p.len()],
            ));
        assert(text::occurs_at(line, p, i));
    }
}

/// Every wanted line is kept, in order; of those the last ones are shown.
pub proof fn law_wanted_lines_are_kept(
    a: Seq<Seq<char>>,
    b: Seq<Seq<char>>,
    session: Option<Seq<char>>,
    request: Option<Seq<char>>,
    count: int,
)
    requires
        count > 0,
    ensures
        wanted_lines(a + b, session, request) == wanted_lines(a, session, request) + wanted_lines(
            b,
            session,
            request,
        ),
        wanted_lines(a, None, None) == a,
        a.len() <= count ==> last_lines(a, count) == a,
        a.len() > count ==> last_lines(a, count).len() == count,
        last_lines(a, count).is_suffix_of(a),
    decreases b.len(), a.len(),
{
    if a.len() > 0 {
        law_wanted_lines_are_kept(a.drop_last(), Seq::empty(), session, request, count);
        assert(a.drop_last().push(a.last()) =~= a);
    } else {
        assert(wanted_lines(a, None, None) =~= a);
    }
    lemma_wanted_adds_up(a, b, session, request);
    let l = last_lines(a, count);
    assert(a.subrange(a.len() - l.len(), a.len() as int) =~= l);
}

proof fn lemma_wanted_adds_up(
    a: Seq<Seq<char>>,
    b: Seq<Seq<char>>,
    session: Option<Seq<char>>,
    request: Option<Seq<char>>,
)
    ensures
        wanted_lines(a + b, session, request) == wanted_lines(a, session, request) + wanted_lines(
            b,
            session,
            request,
        ),
    decreases b.len(),
{
    if b.len() == 0 {
        assert(a + b =~= a);
    } else {
        lemma_wanted_adds_up(a, b.drop_last(), session, request);
        assert((a + b).drop_last() =~= a + b.drop_last());
        assert((a + b).last() == b.last());
    }
    assert(wanted_lines(a + b, session, request) =~= wanted_lines(a, session, request)
        + wanted_lines(b, session, request));
}

/// The line of a profile marks the active one and tells its model; there is one for each.
pub proof fn law_profile_lines(c: ConfigView, p: ProfileView, path: Seq<char>)
    ensures
        profile_line(p, c.active_profile)[0] == '*' <==> c.active_profile == Some(p.id),
        text::has_text(profile_line(p, c.active_profile), " · "@ + p.model + " · key="@),
        c.profiles.len() > 0 ==> profile_lines(c, path).len() == c.profiles.len() + 1,
        forall|i: int|
            0 <= i < c.profiles.len() ==> #[trigger] profile_lines(c, path)[i + 1] == profile_line(
                c.profiles[i],
                c.active_profile,
            ),
        path.is_suffix_of(profile_lines(c, path)[0]),
{
    reveal_strlit("*");
    reveal_strlit(" ");
    let l = profile_line(p, c.active_profile);
    assert(l[0] == if c.active_profile == Some(p.id) {
        '*'
    } else {
        ' '
    });
    let k = " · "@ + p.model + " · key="@;
    let e = if provider::has_key(p.api_key) {
        "true"@
    } else {
        "false"@
    };
    let at = l.len() - e.len() - k.len();
    assert(l.subrange(at, at + k.len()) =~= k);
    assert(text::occurs_at(l, k, at));
    let f = profile_lines(c, path)[0];
    assert(f.subrange(f.len() - path.len(), f.len() as int) =~= path);
}

/// What is said of a configuration names every issue, each in its own line and in order; only
/// without any is it said to be in order.
pub proof fn law_checks_name_every_issue(issues: Seq<IssueView>, path: Seq<char>, i: int)
    ensures
        check_lines(issues, path).len() == issues.len() + 1,
        0 <= i < issues.len() ==> check_lines(issues, path)[i + 1] == "- "@ + issues[i].variable
            + "："@ + issues[i].message,
        issues.len() > 0 ==> text::has_text(
            check_lines(issues, path)[0],
            text::decimal(issues.len()),
        ),
        issues.len() == 0 ==> path.is_suffix_of(check_lines(issues, path)[0]),
{
    let f = check_lines(issues, path)[0];
    if issues.len() > 0 {
        let d = text::decimal(issues.len());
        let at = "配置检查发现 "@.len() as int;
        assert(f.subrange(at, at + d.len()) =~= d);
        assert(text::occurs_at(f, d, at));
    } else {
        assert(f.subrange(f.len() - path.len(), f.len() as int) =~= path);
    }
}

/// What is said of the daemon tells its state apart: ready, starting, stale and stopped begin
/// differently, and a daemon that is ready tells where it can be reached.
pub proof fn law_daemon_states_are_told(
    status: DaemonStatus,
    socket: Seq<char>,
    log: Seq<char>,
    sessions: Seq<char>,
)
    ensures
        status is Ready <==> "ready"@.is_prefix_of(status_text(status, socket, log, sessions)),
        status is Starting <==> "starting"@.is_prefix_of(
            status_text(status, socket, log, sessions),
        ),
        status is Stale <==> "stale"@.is_prefix_of(status_text(status, socket, log, sessions)),
        status is Stopped <==> "stopped"@.is_prefix_of(status_text(status, socket, log, sessions)),
        status is Ready ==> text::has_text(status_text(status, socket, log, sessions), socket),
{
    reveal_strlit("ready");
    reveal_strlit("starting");
    reveal_strlit("stale");
    reveal_strlit("stopped");
    reveal_strlit("ready · pid=");
    reveal_strlit("starting · pid=");
    reveal_strlit("stale · pid=");
    reveal_strlit("stopped · log=");
    let t = status_text(status, socket, log, sessions);
    match status {
        DaemonStatus::Ready { pid } => {
            assert(t.subrange(0, 5) =~= "ready"@);
            assert(t[0] == 'r');
            assert("starting"@[0] == 's' && "stale"@[0] == 's' && "stopped"@[0] == 's');
            let d = text::decimal(pid as nat);
            let at = "ready · pid="@.len() + d.len() + " · socket="@.len();
            assert(t.subrange(at as int, at as int + socket.len()) =~= socket);
            assert(text::occurs_at(t, socket, at as int));
        },
        DaemonStatus::Starting { .. } => {
            assert(t.subrange(0, 8) =~= "starting"@);
            assert(t[0] == 's' && t[2] == 'a' && t[3] == 'r');
            assert("stale"@[3] == 'l' && "stopped"@[2] == 'o' && "ready"@[0] == 'r');
        },
        DaemonStatus::Stale { .. } => {
            assert(t.subrange(0, 5) =~= "stale"@);
            assert(t[0] == 's' && t[2] == 'a' && t[3] == 'l');
            assert("starting"@[3] == 'r' && "stopped"@[2] == 'o' && "ready"@[0] == 'r');
        },
        DaemonStatus::Stopped => {
            assert(t.subrange(0, 7) =~= "stopped"@);
            assert(t[0] == 's' && t[2] == 'o');
            assert("starting"@[2] == 'a' && "stale"@[2] == 'a' && "ready"@[0] == 'r');
        },
    }
}

} // verus!
