use my_agent::cron::{
    parse_five_field_cron, AgentCronRunner, CronError, CronManager, CronRunRecord, CronStore,
    JobRun, RunStep, ScheduleSpec, ScheduledJobRunner, UnattendedApproval,
};
use my_agent::cron::CronJob;

fn every(seconds: u64) -> ScheduleSpec {
    ScheduleSpec::Interval { seconds }
}

fn record(success: bool, result: &str) -> CronRunRecord {
    CronRunRecord {
        started_at: 1,
        finished_at: 2,
        attempts: 1,
        success,
        result: result.to_owned(),
    }
}

struct FakeRunner {
    failures: usize,
    calls: usize,
}

impl ScheduledJobRunner for FakeRunner {
    fn run(&mut self, _job: &CronJob) -> Result<String, String> {
        self.calls += 1;
        if self.calls <= self.failures {
            Err("失败".to_owned())
        } else {
            Ok("done".to_owned())
        }
    }
}

#[test]
fn accepts_standard_five_field_cron() {
    assert!(parse_five_field_cron("0 9 * * 1-5").is_ok());
    assert!(parse_five_field_cron("0 9 * *").is_err());
}

#[test]
fn expressions_that_are_no_schedule_are_refused() {
    match parse_five_field_cron("99 9 * * *") {
        Err(CronError::Invalid { expression, .. }) => assert_eq!(expression, "99 9 * * *"),
        other => panic!("{other:?}"),
    }
    assert_eq!(
        every(0).validate().unwrap_err().message(),
        "interval 秒数必须大于 0"
    );
    assert_eq!(
        parse_five_field_cron("* *").unwrap_err().message(),
        "cron 表达式必须正好是 5 段：分 时 日 月 周"
    );
}

#[test]
fn the_next_time_is_later() {
    assert_eq!(every(5).next_after(100).unwrap(), 105);
    let daily = ScheduleSpec::Cron { expression: "0 9 * * *".to_owned() };
    assert_eq!(daily.next_after(0).unwrap(), 9 * 3600);
    assert_eq!(daily.next_after(9 * 3600).unwrap(), 33 * 3600);
    assert_eq!(daily.display(), "cron=0 9 * * *");
    assert_eq!(every(5).display(), "interval=5s");
    assert!(matches!(daily.next_after(u64::MAX), Err(CronError::TimeOverflow)));
    let never = ScheduleSpec::Cron { expression: "0 0 30 2 *".to_owned() };
    assert!(matches!(never.next_after(0), Err(CronError::NoNext)));
}

#[test]
fn persists_due_job_and_records_success() {
    let mut store = CronStore::new();
    let job = store.add("fast", every(5), "run", 0, 0, 100, 1).unwrap();
    assert_eq!(job.next_run_at, 105);
    assert!(store.take_due(104).unwrap().is_empty());
    let due = store.take_due(job.next_run_at).unwrap();
    assert_eq!(due.len(), 1);
    store.record(&job.id, record(true, "ok")).unwrap();
    let jobs = store.list();
    assert_eq!(jobs.len(), 1);
    assert_eq!(jobs[0].history.len(), 1);
    assert!(jobs[0].history[0].success);
    assert_eq!(jobs[0].next_run_at, 110);
}

#[test]
fn stops_after_finite_retries() {
    let mut store = CronStore::new();
    let job = store.add("failure", every(5), "fail", 2, 0, 0, 1).unwrap();
    let mut runner = FakeRunner { failures: usize::MAX, calls: 0 };
    let mut run = JobRun::new(&job);
    for _ in 0..2 {
        let (step, outcome) = run.attempt_with(&mut runner, &job);
        assert!(matches!(step, RunStep::RetryAfter { .. }));
        assert!(outcome.is_err());
    }
    let (step, outcome) = run.attempt_with(&mut runner, &job);
    match step {
        RunStep::Finished { attempts, success, result } => {
            assert!(!success);
            assert_eq!(attempts, 3);
            assert_eq!(Err(result), outcome);
        }
        other => panic!("{other:?}"),
    }
    assert_eq!(runner.calls, 3);
}

#[test]
fn pauses_grow_between_attempts() {
    let mut store = CronStore::new();
    let job = store.add("slow", every(5), "fail", 5, 10, 0, 1).unwrap();
    let mut run = JobRun::new(&job);
    let mut pauses = Vec::new();
    for _ in 0..3 {
        match run.attempt(Err("失败".to_owned())) {
            RunStep::RetryAfter { seconds } => pauses.push(seconds),
            other => panic!("{other:?}"),
        }
    }
    assert_eq!(pauses, vec![10, 20, 40]);
    assert!(matches!(
        run.attempt(Ok("好".to_owned())),
        RunStep::Finished { attempts: 4, success: true, .. }
    ));
}

#[test]
fn unattended_approval_always_refuses() {
    assert!(!UnattendedApproval.request("danger"));
}

#[test]
fn agent_runner_uses_an_independent_persisted_session() {
    assert_eq!(
        AgentCronRunner::session_file("job-1", 7),
        ".my-agent/cron-sessions/job-1-7.jsonl"
    );
    assert!(AgentCronRunner::new(None).timeout_secs > 0);
    assert_eq!(AgentCronRunner::new(Some("45")).timeout_secs, 45);
    assert_eq!(
        AgentCronRunner::new(Some("x")).timeout_secs,
        AgentCronRunner::new(None).timeout_secs
    );
}

#[test]
fn unattended_rejection_is_recorded_as_failure() {
    let mut store = CronStore::new();
    let job = store.add("danger", every(5), "danger", 0, 0, 0, 1).unwrap();
    let mut manager = CronManager::new(store, 1_000, 0, None);
    let mut run = manager.begin(&job).unwrap();
    assert!(matches!(manager.begin(&job), Err(CronError::AlreadyRunning(_))));
    let (attempts, success, result) = match run.attempt(Err("无人值守审批已拒绝".to_owned())) {
        RunStep::Finished { attempts, success, result } => (attempts, success, result),
        other => panic!("{other:?}"),
    };
    let kept = CronRunRecord { started_at: 0, finished_at: 1, attempts, success, result };
    assert!(!kept.success);
    assert!(kept.result.contains("无人值守审批已拒绝"));
    manager.finish(&job.id, kept).unwrap();
    assert_eq!(manager.store().get(&job.id).unwrap().history.len(), 1);
    assert!(manager.begin(&job).is_ok());
}

#[test]
fn jobs_are_switched_found_and_removed() {
    let mut store = CronStore::new();
    store.add("one", every(5), "p", 0, 0, 0, 1).unwrap();
    assert!(store.add("one", every(5), "p", 0, 0, 0, 2).is_err());
    assert!(store.add(" ", every(5), "p", 0, 0, 0, 3).is_err());
    assert!(store.add("two", every(0), "p", 0, 0, 0, 4).is_err());
    assert!(store.has_enabled_jobs());
    assert!(!store.set_enabled("one", false, 10).unwrap().enabled);
    assert!(!store.has_enabled_jobs());
    assert_eq!(store.set_enabled("one", true, 10).unwrap().next_run_at, 15);
    assert!(matches!(store.get("none"), Err(CronError::NotFound(_))));
    assert_eq!(store.remove("one").unwrap().name, "one");
    assert!(matches!(store.remove("one"), Err(CronError::NotFound(_))));
    assert!(store.list().is_empty());
}

#[test]
fn only_the_last_runs_are_kept() {
    let mut store = CronStore::new();
    let job = store.add("many", every(5), "p", 0, 0, 0, 1).unwrap();
    for i in 0..25 {
        store.record(&job.id, record(true, &format!("{i}"))).unwrap();
    }
    let history = store.get(&job.id).unwrap().history;
    assert_eq!(history.len(), 20);
    assert_eq!(history[0].result, "5");
    assert_eq!(history[19].result, "24");
}

#[test]
fn a_store_is_read_back_from_its_jobs() {
    let mut store = CronStore::new();
    store.add("one", every(5), "p", 0, 0, 0, 1).unwrap();
    assert_eq!(CronStore::from_jobs(store.list()).unwrap().list().len(), 1);
    let mut broken = store.list();
    broken[0].schedule = every(0);
    assert!(matches!(CronStore::from_jobs(broken), Err(CronError::ZeroInterval)));
}

#[test]
fn a_manager_keeps_the_daemon_alive() {
    let idle = CronManager::new(CronStore::new(), 1_000, 250, None);
    assert!(!idle.keeps_daemon_alive());
    assert_eq!(idle.pause_before(0), 0);
    assert_eq!(idle.pause_before(2), 250);
    assert!(!idle.heartbeat_due(u64::MAX));
    let beating = CronManager::new(CronStore::new(), 1_000, 0, Some(60_000));
    assert!(beating.keeps_daemon_alive());
    assert!(beating.heartbeat_due(60_000));
    assert!(!beating.heartbeat_due(59_999));
}

#[test]
fn a_run_that_takes_too_long_fails() {
    assert_eq!(AgentCronRunner::outcome(Ok(Ok("好".to_owned()))), Ok("好".to_owned()));
    assert_eq!(
        AgentCronRunner::outcome(Err("deadline has elapsed".to_owned())).unwrap_err(),
        "cron 任务执行超时: deadline has elapsed"
    );
}

#[test]
fn a_refused_expression_says_why() {
    let error = parse_five_field_cron("99 9 * * *").unwrap_err();
    let reason = match &error {
        CronError::Invalid { reason, .. } => reason.clone(),
        other => panic!("{other:?}"),
    };
    assert!(!reason.is_empty());
    assert_eq!(error.message(), format!("非法 cron 表达式：99 9 * * *: {reason}"));
}

#[test]
fn a_job_is_taken_once() {
    let mut store = CronStore::new();
    store.add("fast", every(5), "run", 0, 0, 100, 1).unwrap();
    assert_eq!(store.take_due(105).unwrap().len(), 1);
    assert!(store.take_due(105).unwrap().is_empty());
    assert_eq!(store.take_due(110).unwrap().len(), 1);
}

#[test]
fn a_clock_beyond_all_dates_serves_plain_intervals() {
    let far = u64::MAX - 10;
    let mut store = CronStore::new();
    assert_eq!(store.add("far", every(5), "run", 0, 0, far, 1).unwrap().next_run_at, far + 5);
    assert_eq!(store.take_due(far + 5).unwrap().len(), 1);
    assert_eq!(store.list()[0].next_run_at, far + 10);
    assert_eq!(every(20).next_after(far).unwrap(), u64::MAX);
}

#[test]
fn an_attempt_gives_back_what_the_runner_said() {
    let mut store = CronStore::new();
    let job = store.add("good", every(5), "run", 1, 3, 0, 1).unwrap();
    let mut runner = FakeRunner { failures: 1, calls: 0 };
    let mut run = JobRun::new(&job);
    let (step, outcome) = run.attempt_with(&mut runner, &job);
    assert!(matches!(step, RunStep::RetryAfter { seconds: 3 }));
    assert_eq!(outcome, Err("失败".to_owned()));
    let (step, outcome) = run.attempt_with(&mut runner, &job);
    assert!(matches!(step, RunStep::Finished { attempts: 2, success: true, .. }));
    assert_eq!(outcome, Ok("done".to_owned()));
}
