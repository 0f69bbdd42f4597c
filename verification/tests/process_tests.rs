use flowmode::config::Config;
use flowmode::process::{
    block_applications, judge, select, summarize, AppOutcome, ProcessInfo, Selection, Verdict,
};

fn process(pid: u32, name: &str, owner: Option<u32>) -> ProcessInfo {
    ProcessInfo { pid, name: name.to_string(), owner }
}

#[test]
fn test_application_blocking() {
    let config = Config::default();
    let outcomes = block_applications(&config);
    assert_eq!(outcomes.len(), 2);
    assert_eq!(outcomes[0].name, "slack.exe");
    assert_eq!(outcomes[1].name, "discord.exe");
}

#[test]
fn blocking_without_list_does_nothing() {
    let config =
        Config { block_list: None, app_block_list: None, whitelist: None, pomodoro_defaults: None };
    assert_eq!(block_applications(&config), vec![]);
}

#[test]
fn blocking_reports_names_that_do_not_run() {
    let config = Config {
        block_list: None,
        app_block_list: Some(vec!["no-such-process-7f3a9".to_string()]),
        whitelist: None,
        pomodoro_defaults: None,
    };
    let outcomes = block_applications(&config);
    assert_eq!(
        outcomes,
        vec![AppOutcome {
            name: "no-such-process-7f3a9".to_string(),
            killed: vec![],
            failed: vec![],
            skipped: vec![],
        }]
    );
    assert!(!outcomes[0].acted());
}

#[test]
fn verdicts() {
    assert_eq!(judge(&process(1, "slack", Some(1000)), "slack", Some(1000)), Verdict::Terminate);
    assert_eq!(judge(&process(1, "slack", Some(0)), "slack", Some(1000)), Verdict::Foreign);
    assert_eq!(judge(&process(1, "slack", None), "slack", Some(1000)), Verdict::Terminate);
    assert_eq!(judge(&process(1, "slack", Some(0)), "slack", None), Verdict::Terminate);
    assert_eq!(judge(&process(1, "slack-helper", Some(1000)), "slack", Some(1000)), Verdict::NotTargeted);
    assert_eq!(judge(&process(1, "Slack", Some(1000)), "slack", Some(1000)), Verdict::NotTargeted);
    assert_eq!(judge(&process(1, "other", Some(0)), "slack", Some(1000)), Verdict::NotTargeted);
}

#[test]
fn selection_keeps_listing_order() {
    let listing = vec![
        process(10, "slack", Some(1000)),
        process(11, "bash", Some(1000)),
        process(12, "slack", Some(0)),
        process(13, "slack", None),
        process(14, "discord", Some(1000)),
        process(15, "slack", Some(1000)),
    ];
    let chosen = select(&listing, "slack", Some(1000));
    assert_eq!(chosen, Selection { targets: vec![10, 13, 15], foreign: vec![12] });
    let chosen = select(&listing, "slack", None);
    assert_eq!(chosen, Selection { targets: vec![10, 12, 13, 15], foreign: vec![] });
    let chosen = select(&listing, "none", Some(1000));
    assert_eq!(chosen, Selection { targets: vec![], foreign: vec![] });
}

#[test]
fn summary_sorts_by_result() {
    let chosen = Selection { targets: vec![10, 13, 15], foreign: vec![12] };
    let outcome = summarize("slack", chosen, &vec![true, false, true]);
    assert_eq!(
        outcome,
        AppOutcome {
            name: "slack".to_string(),
            killed: vec![10, 15],
            failed: vec![13],
            skipped: vec![12],
        }
    );
    assert!(outcome.acted());
    let chosen = Selection { targets: vec![10], foreign: vec![] };
    let outcome = summarize("slack", chosen, &vec![false]);
    assert!(!outcome.acted());
    assert_eq!(outcome.failed, vec![10]);
}

#[test]
fn attempts_that_were_not_made_count_as_failed() {
    let chosen = Selection { targets: vec![1, 2, 3], foreign: vec![] };
    let outcome = summarize("x", chosen, &vec![true]);
    assert_eq!(outcome.killed, vec![1]);
    assert_eq!(outcome.failed, vec![2, 3]);
    let chosen = Selection { targets: vec![1], foreign: vec![] };
    let outcome = summarize("x", chosen, &vec![false, true, true]);
    assert_eq!(outcome.killed, Vec::<u32>::new());
    assert_eq!(outcome.failed, vec![1]);
}
