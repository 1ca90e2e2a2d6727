use docrules::plan::{plan, TaskKind};
use docrules::protocol::CheckError;
use docrules::run::{Action, Run, RunOutcome};
use docrules::selector::{Entry, SelectorConfig};

fn file(path: &str, size: u64) -> Entry {
    let name = path.rsplit('/').next().unwrap().to_string();
    Entry { path: path.to_string(), name, is_file: true, size }
}

/// Reads the `pass` and `message` fields of a JSON response body.
fn decode(raw: &str) -> Option<(bool, String)> {
    let v: serde_json::Value = serde_json::from_str(raw).ok()?;
    let pass = v.get("pass")?.as_bool()?;
    let message = v.get("message")?.as_str()?.to_string();
    Some((pass, message))
}

/// Drives `run` to its end, answering each evaluation with `answer`; returns
/// the (document, rule) pairs sent and the documents skipped as too large.
fn drive(
    run: &mut Run,
    answer: &dyn Fn(&str, &str) -> String,
) -> (Vec<(String, String)>, Vec<String>) {
    let mut sent = Vec::new();
    let mut skipped = Vec::new();
    loop {
        match run.next_action() {
            Action::Evaluate { document, rule } => {
                let raw = answer(&document, &rule);
                let decoded = decode(&raw);
                sent.push((document, rule));
                run.record_response(raw, decoded);
            }
            Action::SkipTooLarge { document } => skipped.push(document),
            Action::Finish => return (sent, skipped),
        }
    }
}

fn scenario_entries() -> Vec<Entry> {
    vec![
        Entry { path: "./rules".to_string(), name: "rules".to_string(), is_file: false, size: 0 },
        file("./rules/r1.md", 14),
        file("./a.js", 50),
    ]
}

#[test]
fn single_pair_passes() {
    let mut run = Run::new(SelectorConfig::standard(), scenario_entries(), vec!["rules/r1.md".to_string()]);
    let (sent, skipped) = drive(&mut run, &|_, _| "{\"pass\": true, \"message\": \"ok\"}".to_string());
    assert_eq!(sent, vec![("./a.js".to_string(), "rules/r1.md".to_string())]);
    assert!(skipped.is_empty());
    let outcome = run.outcome().as_ref().unwrap();
    assert!(matches!(outcome, RunOutcome::Passed));
    assert_eq!(outcome.exit_code(), 0);
}

#[test]
fn single_pair_fails() {
    let mut run = Run::new(SelectorConfig::standard(), scenario_entries(), vec!["rules/r1.md".to_string()]);
    let (sent, _) = drive(&mut run, &|_, _| "{\"pass\": false, \"message\": \"uses var\"}".to_string());
    assert_eq!(sent.len(), 1);
    let outcome = run.outcome().as_ref().unwrap();
    match outcome {
        RunOutcome::Failed { path, rule, message } => {
            assert_eq!(path, "./a.js");
            assert_eq!(rule, "rules/r1.md");
            assert_eq!(message, "uses var");
        }
        _ => panic!("expected a failed run"),
    }
    assert_eq!(outcome.exit_code(), 1);
}

#[test]
fn oversized_file_is_skipped() {
    let entries = vec![file("./big.js", 20_000)];
    let mut run = Run::new(SelectorConfig::standard(), entries, vec!["rules/r1.md".to_string()]);
    let (sent, skipped) = drive(&mut run, &|_, _| panic!("no request expected"));
    assert!(sent.is_empty());
    assert_eq!(skipped, vec!["./big.js".to_string()]);
    let outcome = run.outcome().as_ref().unwrap();
    assert!(matches!(outcome, RunOutcome::Passed));
    assert_eq!(outcome.exit_code(), 0);
}

#[test]
fn size_limit_is_inclusive() {
    let entries = vec![file("./edge.js", 10240), file("./over.js", 10241)];
    let tasks = plan(&SelectorConfig::standard(), &entries, 1);
    assert_eq!(tasks.len(), 2);
    assert!(tasks[0].kind == TaskKind::Evaluate);
    assert!(tasks[1].kind == TaskKind::SkipTooLarge);
}

#[test]
fn excluded_files_are_never_sent() {
    let entries = vec![
        file("./logo.png", 10),
        file("./.gitignore", 10),
        file("./notes.txt", 10),
        file("./main.rs", 10),
    ];
    let mut run = Run::new(SelectorConfig::standard(), entries, vec!["r".to_string()]);
    let (sent, _) = drive(&mut run, &|_, _| "{\"pass\": true, \"message\": \"ok\"}".to_string());
    assert_eq!(sent, vec![("./main.rs".to_string(), "r".to_string())]);
}

#[test]
fn all_passing_checks_every_pair_once() {
    let entries = vec![file("./a.js", 5), file("./b.js", 5)];
    let rules = vec!["r1".to_string(), "r2".to_string()];
    let mut run = Run::new(SelectorConfig::standard(), entries, rules);
    let (sent, _) = drive(&mut run, &|_, _| "{\"pass\": true, \"message\": \"ok\"}".to_string());
    let pair = |d: &str, r: &str| (d.to_string(), r.to_string());
    assert_eq!(
        sent,
        vec![pair("./a.js", "r1"), pair("./a.js", "r2"), pair("./b.js", "r1"), pair("./b.js", "r2")]
    );
    assert_eq!(run.outcome().as_ref().unwrap().exit_code(), 0);
}

#[test]
fn first_failure_stops_the_run() {
    let entries = vec![file("./a.js", 5), file("./b.js", 5), file("./c.js", 5)];
    let rules = vec!["r1".to_string(), "r2".to_string()];
    let mut run = Run::new(SelectorConfig::standard(), entries, rules);
    let (sent, _) = drive(&mut run, &|d, r| {
        if d == "./b.js" && r == "r1" {
            "{\"pass\": false, \"message\": \"bad\"}".to_string()
        } else {
            "{\"pass\": true, \"message\": \"ok\"}".to_string()
        }
    });
    assert_eq!(sent.len(), 3);
    assert_eq!(sent[2], ("./b.js".to_string(), "r1".to_string()));
    assert!(matches!(run.next_action(), Action::Finish));
    assert_eq!(run.outcome().as_ref().unwrap().exit_code(), 1);
}

#[test]
fn malformed_response_aborts_with_raw_body() {
    let entries = vec![file("./a.js", 5), file("./b.js", 5)];
    let mut run = Run::new(SelectorConfig::standard(), entries, vec!["r1".to_string()]);
    let (sent, _) = drive(&mut run, &|_, _| "{\"pass\": true}".to_string());
    assert_eq!(sent.len(), 1);
    let outcome = run.outcome().as_ref().unwrap();
    match outcome {
        RunOutcome::Aborted { error: CheckError::Protocol { raw } } => {
            assert_eq!(raw, "{\"pass\": true}")
        }
        _ => panic!("expected a protocol error"),
    }
    assert_eq!(outcome.exit_code(), 1);
}

#[test]
fn invalid_json_aborts_the_run() {
    let mut run = Run::new(SelectorConfig::standard(), vec![file("./a.js", 5)], vec!["r1".to_string()]);
    let (_, _) = drive(&mut run, &|_, _| "not json".to_string());
    match run.outcome().as_ref().unwrap() {
        RunOutcome::Aborted { error } => {
            assert_eq!(error.describe(), "Failed to parse response: not json")
        }
        _ => panic!("expected a protocol error"),
    }
}

#[test]
fn transport_error_aborts_the_run() {
    let entries = vec![file("./a.js", 5), file("./b.js", 5)];
    let mut run = Run::new(SelectorConfig::standard(), entries, vec!["r1".to_string()]);
    assert!(matches!(run.next_action(), Action::Evaluate { .. }));
    run.record(Err(CheckError::Transport { detail: "refused".to_string() }));
    assert!(matches!(run.next_action(), Action::Finish));
    assert!(matches!(
        run.outcome().as_ref().unwrap(),
        RunOutcome::Aborted { error: CheckError::Transport { .. } }
    ));
    assert_eq!(run.outcome().as_ref().unwrap().exit_code(), 1);
}

#[test]
fn no_rules_means_nothing_sent() {
    let mut run = Run::new(SelectorConfig::standard(), vec![file("./a.js", 5)], Vec::new());
    let (sent, _) = drive(&mut run, &|_, _| panic!("no request expected"));
    assert!(sent.is_empty());
    assert!(matches!(run.outcome().as_ref().unwrap(), RunOutcome::Passed));
}
