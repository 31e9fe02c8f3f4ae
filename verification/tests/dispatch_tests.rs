use agent_kanban::dispatch::{
    build_prompt, grok_args, grok_finish, grok_step, parse_grok_json, run_dispatch, spawn_failure,
    stub_should_fail, truncate_log, truthy, ChildState, DispatchConfig, DispatchEnv, DispatchOutcome,
    DispatchPlan, GrokStep, OutcomeKind, LOG_MESSAGE_MAX,
};
use agent_kanban::model::{Card, Status};

fn card(title: &str, body: &str) -> Card {
    let mut c = Card::new(title, "");
    c.status = Status::Todo;
    c.body = body.into();
    c
}

fn finished(plan: DispatchPlan) -> DispatchOutcome {
    match plan {
        DispatchPlan::Finished(o) => o,
        DispatchPlan::Spawn(_) => panic!("expected the stub to finish at once"),
    }
}

#[test]
fn grok_argv_matches_ac() {
    let args = grok_args("do the thing", "/tmp/work");
    assert_eq!(
        args,
        vec![
            "-p",
            "do the thing",
            "--cwd",
            "/tmp/work",
            "--always-approve",
            "--json"
        ]
    );
}

#[test]
fn prompt_includes_title_body_and_context() {
    let mut c = card("Ship login", "Use existing auth crate");
    c.revision_count = 2;
    let prompt = build_prompt(&c);
    assert!(prompt.contains("Ship login"), "{prompt}");
    assert!(prompt.contains("Use existing auth crate"), "{prompt}");
    assert!(prompt.contains("Revision: 2"), "{prompt}");
    assert!(prompt.contains(&c.id), "{prompt}");
}

#[test]
fn stub_success_and_fail_paths() {
    let mut cfg = DispatchConfig::stub_for_tests(".");
    let ok = finished(run_dispatch(&cfg, &card("A", "body")));
    assert_eq!(ok.kind, OutcomeKind::Success);
    assert!(ok.message.contains("stub dispatch ok"));

    cfg.stub_fail = true;
    let fail = finished(run_dispatch(&cfg, &card("A", "body")));
    assert_eq!(fail.kind, OutcomeKind::Failure);

    cfg.stub_fail = false;
    let marked = finished(run_dispatch(&cfg, &card("x [stub:fail]", "")));
    assert_eq!(marked.kind, OutcomeKind::Failure);
}

#[test]
fn parse_json_object_and_trailing_line() {
    assert!(parse_grok_json("").is_err());
    assert!(parse_grok_json("not json").is_err());
    assert_eq!(parse_grok_json(r#"{"text":"hello"}"#).unwrap(), "hello");
    assert_eq!(
        parse_grok_json("noise\n{\"message\":\"ok\"}\n").unwrap(),
        "ok"
    );
}

#[test]
fn missing_binary_is_failure() {
    let out = spawn_failure(true, "/this/does/not/exist/grok-agent-kanban", "No such file or directory");
    assert_eq!(out.kind, OutcomeKind::Failure);
    assert!(out.message.contains("missing binary"), "{}", out.message);
}

#[test]
fn nonzero_exit_is_failure() {
    let out = grok_finish(false, Some(7), "nope\n", "");
    assert_eq!(out.kind, OutcomeKind::Failure);
    assert!(out.message.contains("exit 7"), "{}", out.message);
}

#[test]
fn bad_json_is_failure_even_on_zero_exit() {
    let out = grok_finish(true, Some(0), "not-json\n", "");
    assert_eq!(out.kind, OutcomeKind::Failure);
    assert!(out.message.contains("bad JSON"), "{}", out.message);
}

#[test]
fn success_json_is_ok() {
    let out = grok_finish(true, Some(0), "{\"text\":\"patched\"}\n", "");
    assert_eq!(out.kind, OutcomeKind::Success);
    assert_eq!(out.message, "patched");
}

#[test]
fn timeout_kills_child() {
    match grok_step(false, &ChildState::Running, 200, 200) {
        GrokStep::KillAndStop(out) => {
            assert_eq!(out.kind, OutcomeKind::Failure);
            assert!(out.message.contains("timed out"), "{}", out.message);
        }
        _ => panic!("expected the run to be killed"),
    }
}

#[test]
fn truthy_flags() {
    assert!(truthy("1"));
    assert!(truthy("true"));
    assert!(truthy("YES"));
    assert!(!truthy("0"));
    assert!(!truthy(""));
}

#[test]
fn truthy_trims_and_accepts_on() {
    assert!(truthy("  On \n"));
    assert!(truthy("TRUE"));
    assert!(!truthy("yess"));
    assert!(!truthy("o n"));
}

#[test]
fn exact_prompt_text() {
    let mut c = card("T", "   ");
    c.id = "abc".to_string();
    c.revision_count = 3;
    let p = build_prompt(&c);
    assert_eq!(
        p,
        "You are completing one Agent Kanban card. Do the work in the working directory.\n\nTitle: T\nStatus: To Do\nRevision: 3\nCard id: abc\n\nBody / context:\n(empty)\n\nWhen finished, summarize what you changed. If you cannot complete the work, say so clearly."
    );
}

#[test]
fn spawn_plan_for_real_agent() {
    let mut cfg = DispatchConfig::stub_for_tests("/work");
    cfg.stub = false;
    cfg.grok_bin = "grok-bin".to_string();
    let c = card("Title", "Body");
    match run_dispatch(&cfg, &c) {
        DispatchPlan::Spawn(cmd) => {
            assert_eq!(cmd.program, "grok-bin");
            assert_eq!(cmd.cwd, "/work");
            assert_eq!(cmd.timeout_ms, 5000);
            assert_eq!(cmd.args.len(), 6);
            assert_eq!(cmd.args[1], build_prompt(&c));
            assert_eq!(cmd.args[3], "/work");
        }
        DispatchPlan::Finished(_) => panic!("expected a process to start"),
    }
}

#[test]
fn stub_marker_in_body_fails() {
    let cfg = DispatchConfig::stub_for_tests(".");
    assert!(stub_should_fail(&cfg, &card("ok", "please [stub:fail] now")));
    assert!(!stub_should_fail(&cfg, &card("ok", "[stub:fai]")));
    let ok = finished(run_dispatch(&cfg, &card("Hello", "")));
    assert_eq!(ok.message, "stub dispatch ok: Hello");
}

#[test]
fn spawn_error_is_quoted() {
    let out = spawn_failure(false, "grok", "permission denied");
    assert_eq!(out.message, "failed to spawn grok: permission denied");
    let out = spawn_failure(true, "grok", "x");
    assert_eq!(out.message, "missing binary: grok");
}

#[test]
fn wait_steps() {
    assert!(matches!(grok_step(false, &ChildState::Exited, 0, 10), GrokStep::Collect));
    assert!(matches!(grok_step(false, &ChildState::Running, 9, 10), GrokStep::Wait));
    match grok_step(true, &ChildState::Exited, 0, 10) {
        GrokStep::KillAndStop(o) => assert_eq!(o.message, "dispatch cancelled"),
        _ => panic!("a cancel request wins"),
    }
    match grok_step(false, &ChildState::WaitFailed("boom".to_string()), 0, 10) {
        GrokStep::Stop(o) => assert_eq!(o.message, "wait failed: boom"),
        _ => panic!("expected a stop"),
    }
}

#[test]
fn failed_exit_detail_prefers_stderr() {
    let out = grok_finish(false, Some(2), "out", "  err text \n");
    assert_eq!(out.message, "grok exit 2: err text");
    let out = grok_finish(false, None, " ", "");
    assert_eq!(out.message, "grok exit signal: no output");
    let out = grok_finish(false, Some(-1), "x", "");
    assert_eq!(out.message, "grok exit -1: x");
}

#[test]
fn reply_summaries() {
    assert_eq!(parse_grok_json("\"plain\"").unwrap(), "plain");
    assert_eq!(
        parse_grok_json(r#"{"text":"","result":"r","summary":"s"}"#).unwrap(),
        "r"
    );
    assert_eq!(parse_grok_json(r#"{"n":1}"#).unwrap(), r#"{"n":1}"#);
    assert_eq!(parse_grok_json("[1, 2]").unwrap(), "[1,2]");
    assert_eq!(
        parse_grok_json("   ").unwrap_err(),
        "bad JSON from grok: empty stdout"
    );
    assert_eq!(parse_grok_json("a\nb").unwrap_err(), "bad JSON from grok");
    assert_eq!(
        parse_grok_json("{\"output\":\"first\"}\nlog line\n  {\"content\":\"last\"}  ").unwrap(),
        "last"
    );
}

#[test]
fn log_messages_are_capped() {
    let long = "x".repeat(LOG_MESSAGE_MAX + 5);
    let cut = truncate_log(long);
    assert_eq!(cut.chars().count(), LOG_MESSAGE_MAX + 1);
    assert!(cut.ends_with('…'));
    let short = truncate_log("short".to_string());
    assert_eq!(short, "short");
    let o = DispatchOutcome::success(&"y".repeat(LOG_MESSAGE_MAX));
    assert_eq!(o.message.chars().count(), LOG_MESSAGE_MAX);
}

fn env() -> DispatchEnv {
    DispatchEnv {
        cwd: None,
        current_dir: "/home/me".to_string(),
        grok: None,
        interval_ms: None,
        timeout_secs: None,
        dispatch: None,
        stub: None,
        stub_fail: None,
    }
}

#[test]
fn config_defaults() {
    let c = DispatchConfig::from_env(&env());
    assert!(c.enabled);
    assert!(!c.stub);
    assert!(!c.stub_fail);
    assert_eq!(c.grok_bin, "grok");
    assert_eq!(c.cwd, "/home/me");
    assert_eq!(c.interval_ms, 2000);
    assert_eq!(c.timeout_ms, 300_000);
}

#[test]
fn config_from_settings() {
    let mut e = env();
    e.cwd = Some("  /work  ".to_string());
    e.grok = Some("   ".to_string());
    e.interval_ms = Some(" +250 ".to_string());
    e.timeout_secs = Some("0".to_string());
    e.dispatch = Some("off".to_string());
    e.stub = Some("Yes".to_string());
    e.stub_fail = Some("1".to_string());
    let c = DispatchConfig::from_env(&e);
    assert_eq!(c.cwd, "/work");
    assert_eq!(c.grok_bin, "grok");
    assert_eq!(c.interval_ms, 250);
    assert_eq!(c.timeout_ms, 1000);
    assert!(!c.enabled);
    assert!(c.stub);
    assert!(c.stub_fail);

    let mut e = env();
    e.interval_ms = Some("-5".to_string());
    e.timeout_secs = Some("18446744073709551615".to_string());
    let c = DispatchConfig::from_env(&e);
    assert_eq!(c.interval_ms, 2000);
    assert_eq!(c.timeout_ms, u64::MAX as u128 * 1000);
}
