use flowmode::config::{Config, StartArgs};
use flowmode::hosts::TargetKind;
use flowmode::report::{close_row, open_row, parse_log, LogLine};
use flowmode::session::{Directive, Outcome, Phase, Session, StartError, Step};
use flowmode::store::{block_websites, unblock_websites, HostsFiles};

#[derive(Clone, Debug, PartialEq)]
struct Disk {
    files: HostsFiles,
    marker: Option<String>,
    log: String,
}

fn clean_disk(kind: TargetKind, hosts: Option<&str>) -> Disk {
    Disk {
        files: HostsFiles { kind, hosts: hosts.map(|h| h.to_string()), backup: None },
        marker: None,
        log: String::new(),
    }
}

fn perform(step: Step, disk: &mut Disk, request: &StartArgs, config: &Config) {
    match step {
        Step::BlockWebsites => {
            block_websites(request, config, &mut disk.files);
        }
        Step::WriteMarker => disk.marker = Some("4242".to_string()),
        Step::OpenLog => disk.log.push_str(&open_row(&request.task, "2024-05-01T10:00:00+00:00")),
        Step::UnblockWebsites => {
            unblock_websites(&mut disk.files);
        }
        Step::RemoveMarker => disk.marker = None,
        Step::CloseLog => disk.log.push_str(&close_row("2024-05-01T11:00:00+00:00")),
        _ => {}
    }
}

fn run_on_disk(
    session: &mut Session,
    disk: &mut Disk,
    request: &StartArgs,
    config: &Config,
    at_most: usize,
) -> usize {
    let mut done = 0;
    let mut directive = session.directive();
    while let Directive::Perform(step) = directive {
        if done == at_most {
            break;
        }
        perform(step, disk, request, config);
        done += 1;
        directive = session.advance(Outcome::Done);
    }
    done
}

fn stop_on_disk(disk: &mut Disk) {
    let mut session = Session::new();
    session.stop(disk.marker.is_some());
    let request = args("1m", false);
    run_on_disk(&mut session, disk, &request, &Config::default(), usize::MAX);
    assert_eq!(session, Session::new());
}

fn args(duration: &str, webhook: bool) -> StartArgs {
    StartArgs {
        duration: duration.to_string(),
        task: None,
        slack_webhook_url: if webhook { Some("http://example.invalid".to_string()) } else { None },
        whitelist: false,
        pomodoro: None,
        short_break: None,
        long_break: None,
        cycles: None,
    }
}

fn run_to_end(session: &mut Session, fail: &[Step]) -> (Vec<Step>, Option<Step>) {
    let mut performed = Vec::new();
    let mut directive = session.directive();
    loop {
        match directive {
            Directive::Perform(step) => {
                performed.push(step);
                assert!(performed.len() < 100);
                let outcome = if fail.contains(&step) { Outcome::Failed } else { Outcome::Done };
                directive = session.advance(outcome);
            }
            Directive::Abort(step) => return (performed, Some(step)),
            Directive::Finished => return (performed, None),
        }
    }
}

#[test]
fn test_stop_command() {
    let mut session = Session::new();
    session.stop(false);
    let (steps, aborted) = run_to_end(&mut session, &[]);
    assert_eq!(aborted, None);
    assert_eq!(
        steps,
        vec![Step::PublishCancellation, Step::UnblockWebsites, Step::UnblockApplications, Step::Unmute]
    );
    assert_eq!(session, Session::new());
}

#[test]
fn stop_with_marker_removes_it_and_closes_the_log() {
    let mut session = Session::new();
    assert_eq!(session.stop(true), Directive::Perform(Step::PublishCancellation));
    assert_eq!(session.current_phase(), Phase::Stopping);
    let (steps, aborted) = run_to_end(&mut session, &[]);
    assert_eq!(aborted, None);
    assert_eq!(
        steps,
        vec![
            Step::PublishCancellation,
            Step::UnblockWebsites,
            Step::UnblockApplications,
            Step::Unmute,
            Step::RemoveMarker,
            Step::CloseLog,
        ]
    );
    assert_eq!(session.current_phase(), Phase::Idle);
}

#[test]
fn full_session_runs_every_step_in_order() {
    let mut session = Session::new();
    let plan = session.start(&args("1h", true), &Config::default()).unwrap();
    assert!(plan.pomodoro.is_some());
    assert_eq!(session.current_phase(), Phase::Starting);
    let (steps, aborted) = run_to_end(&mut session, &[]);
    assert_eq!(aborted, None);
    assert_eq!(
        steps,
        vec![
            Step::BlockWebsites,
            Step::BlockApplications,
            Step::Mute,
            Step::Notify,
            Step::WriteMarker,
            Step::OpenLog,
            Step::InstallCancellation,
            Step::RunSchedule,
            Step::PublishCancellation,
            Step::UnblockWebsites,
            Step::UnblockApplications,
            Step::Unmute,
            Step::RemoveMarker,
            Step::CloseLog,
        ]
    );
    assert_eq!(session, Session::new());
}

#[test]
fn session_without_webhook_skips_the_notice() {
    let mut session = Session::new();
    session.start(&args("1h", false), &Config::default()).unwrap();
    let (steps, _) = run_to_end(&mut session, &[]);
    assert!(!steps.contains(&Step::Notify));
    assert_eq!(steps.len(), 13);
}

#[test]
fn invalid_duration_fails_before_any_step() {
    let mut session = Session::new();
    let error = session.start(&args("5", true), &Config::default()).unwrap_err();
    match error {
        StartError::Invalid(e) => assert!(e.message().contains("Invalid duration '5'")),
        StartError::Busy => panic!("idle session reported busy"),
    }
    assert_eq!(session, Session::new());
    assert_eq!(session.directive(), Directive::Finished);
    assert_eq!(session.current_phase(), Phase::Idle);
}

#[test]
fn second_start_is_refused_while_busy() {
    let mut session = Session::new();
    session.start(&args("1h", false), &Config::default()).unwrap();
    session.advance(Outcome::Done);
    let before = session;
    assert_eq!(session.start(&args("1h", false), &Config::default()), Err(StartError::Busy));
    assert_eq!(session, before);
    assert_eq!(session.stop(true), Directive::Perform(Step::BlockApplications));
    assert_eq!(session, before);
}

#[test]
fn fatal_failure_aborts_the_start() {
    for step in [Step::BlockWebsites, Step::WriteMarker, Step::OpenLog, Step::InstallCancellation] {
        let mut session = Session::new();
        session.start(&args("1h", true), &Config::default()).unwrap();
        let (steps, aborted) = run_to_end(&mut session, &[step]);
        assert_eq!(aborted, Some(step));
        assert_eq!(steps.last(), Some(&step));
        assert!(!steps.contains(&Step::RunSchedule));
        assert_eq!(session.current_phase(), Phase::Idle);
    }
}

#[test]
fn fatal_failure_aborts_the_stop() {
    for step in [Step::UnblockWebsites, Step::RemoveMarker, Step::CloseLog] {
        let mut session = Session::new();
        session.stop(true);
        let (steps, aborted) = run_to_end(&mut session, &[step]);
        assert_eq!(aborted, Some(step));
        assert_eq!(steps.last(), Some(&step));
        assert_eq!(session, Session::new());
    }
}

#[test]
fn warnings_do_not_abort() {
    let mut session = Session::new();
    session.start(&args("1h", true), &Config::default()).unwrap();
    let (steps, aborted) = run_to_end(
        &mut session,
        &[
            Step::BlockApplications,
            Step::Mute,
            Step::Notify,
            Step::RunSchedule,
            Step::PublishCancellation,
            Step::UnblockApplications,
            Step::Unmute,
        ],
    );
    assert_eq!(aborted, None);
    assert_eq!(steps.len(), 14);
}

#[test]
fn phases_follow_the_steps() {
    let mut session = Session::new();
    assert_eq!(session.current_phase(), Phase::Idle);
    session.start(&args("1h", false), &Config::default()).unwrap();
    let mut phases = vec![session.current_phase()];
    while let Directive::Perform(_) = session.advance(Outcome::Done) {
        if phases.last() != Some(&session.current_phase()) {
            phases.push(session.current_phase());
        }
    }
    phases.push(session.current_phase());
    assert_eq!(phases, vec![Phase::Starting, Phase::Active, Phase::Stopping, Phase::Idle]);
    assert_eq!(session.advance(Outcome::Done), Directive::Finished);
    assert_eq!(session.advance(Outcome::Failed), Directive::Finished);
}

#[test]
fn full_session_leaves_the_disk_as_found_but_for_the_log() {
    for kind in [TargetKind::System, TargetKind::UserFallback] {
        let disk0 = clean_disk(kind, Some("127.0.0.1 localhost\n"));
        let mut disk = disk0.clone();
        let mut request = args("1h", true);
        request.task = Some("Write".to_string());
        let mut session = Session::new();
        session.start(&request, &Config::default()).unwrap();
        let steps = run_on_disk(&mut session, &mut disk, &request, &Config::default(), usize::MAX);
        assert_eq!(steps, 14);
        assert_eq!(disk.files, disk0.files);
        assert_eq!(disk.marker, None);
        assert_eq!(disk.log, "Write,2024-05-01T10:00:00+00:00,2024-05-01T11:00:00+00:00\n");
        assert!(matches!(parse_log(&disk.log)[..], [LogLine::Complete { minutes: 60, .. }]));
    }
}

#[test]
fn stop_without_session_leaves_the_disk_unchanged() {
    for disk0 in [
        clean_disk(TargetKind::System, Some("127.0.0.1 localhost\n")),
        clean_disk(TargetKind::System, None),
        clean_disk(TargetKind::UserFallback, None),
    ] {
        let mut disk = disk0.clone();
        stop_on_disk(&mut disk);
        assert_eq!(disk, disk0);
        stop_on_disk(&mut disk);
        assert_eq!(disk, disk0);
    }
}

#[test]
fn stop_undoes_a_session_interrupted_at_any_step() {
    for kind in [TargetKind::System, TargetKind::UserFallback] {
        for notify in [false, true] {
            for interrupted_after in 1..=8 {
                let disk0 = clean_disk(kind, Some("127.0.0.1 localhost\n"));
                let mut disk = disk0.clone();
                let request = args("1h", notify);
                let mut session = Session::new();
                session.start(&request, &Config::default()).unwrap();
                run_on_disk(&mut session, &mut disk, &request, &Config::default(), interrupted_after);
                assert!(disk.files.backup.is_some());
                assert_ne!(disk.files.hosts, disk0.files.hosts);
                stop_on_disk(&mut disk);
                assert_eq!(disk.files, disk0.files);
                assert_eq!(disk.marker, None);
            }
        }
    }
}
