//! The dispatcher's decisions: its configuration, the prompt and command line
//! handed to the `grok` agent, the in-process stub, and how a finished run
//! (exit status and output) becomes an outcome for the card. Starting the
//! process, its pipes and the worker thread are the caller's work.

use vstd::prelude::*;

use crate::model::{Card, CardView};
use crate::text::{
    ascii_lowered, blank, char_count, chars_of, contains, contains_seq, decimal, is_blank,
    lowercase_ascii, owned, parse_u64, parsed_u64, push_decimal, push_signed_decimal, push_str,
    same_text, signed_decimal, string_of_range, trim, trimmed, truncate_chars,
    truncated,
};

verus! {

/// Put this marker in a card title or body to force a stub failure.
pub const STUB_FAIL_MARKER: &'static str = "[stub:fail]";

pub const DEFAULT_INTERVAL_MS: u64 = 2000;

pub const DEFAULT_TIMEOUT_SECS: u64 = 300;

pub const LOG_MESSAGE_MAX: usize = 4000;

pub open spec fn opt_view(o: Option<String>) -> Option<Seq<char>> {
    match o {
        Some(s) => Some(s@),
        None => None,
    }
}

// ---------------------------------------------------------------------------
// Configuration
// ---------------------------------------------------------------------------
/// How the dispatcher runs.
pub struct DispatchConfig {
    /// When false, the interval wake never starts a new job.
    pub enabled: bool,
    /// In-process fake agent with the same card transitions as the real one.
    pub stub: bool,
    /// The stub always fails.
    pub stub_fail: bool,
    pub grok_bin: String,
    pub cwd: String,
    pub timeout_ms: u128,
    pub interval_ms: u64,
}

#[verifier::ext_equal]
pub struct ConfigView {
    pub enabled: bool,
    pub stub: bool,
    pub stub_fail: bool,
    pub grok_bin: Seq<char>,
    pub cwd: Seq<char>,
    pub timeout_ms: u128,
    pub interval_ms: u64,
}

impl View for DispatchConfig {
    type V = ConfigView;

    open spec fn view(&self) -> ConfigView {
        ConfigView {
            enabled: self.enabled,
            stub: self.stub,
            stub_fail: self.stub_fail,
            grok_bin: self.grok_bin@,
            cwd: self.cwd@,
            timeout_ms: self.timeout_ms,
            interval_ms: self.interval_ms,
        }
    }
}

/// The raw settings a dispatcher configuration is read from: each
/// `AGENT_KANBAN_*` variable when it is set, and the process's working
/// directory (`.` when it cannot be read).
pub struct DispatchEnv {
    /// `AGENT_KANBAN_CWD`
    pub cwd: Option<String>,
    pub current_dir: String,
    /// `AGENT_KANBAN_GROK`
    pub grok: Option<String>,
    /// `AGENT_KANBAN_DISPATCH_INTERVAL_MS`
    pub interval_ms: Option<String>,
    /// `AGENT_KANBAN_DISPATCH_TIMEOUT_SECS`
    pub timeout_secs: Option<String>,
    /// `AGENT_KANBAN_DISPATCH`
    pub dispatch: Option<String>,
    /// `AGENT_KANBAN_STUB_DISPATCH`
    pub stub: Option<String>,
    /// `AGENT_KANBAN_STUB_FAIL`
    pub stub_fail: Option<String>,
}

/// `1`, `true`, `yes` or `on`, ignoring surrounding whitespace and ASCII case.
pub open spec fn is_truthy(raw: Seq<char>) -> bool {
    let w = ascii_lowered(trimmed(raw));
    w == "1"@ || w == "true"@ || w == "yes"@ || w == "on"@
}

/// A variable's trimmed text, unless it is unset or blank.
pub open spec fn env_text(v: Option<Seq<char>>, default: Seq<char>) -> Seq<char> {
    match v {
        Some(s) => if trimmed(s).len() > 0 {
            trimmed(s)
        } else {
            default
        },
        None => default,
    }
}

/// A variable's number, unless it is unset or not a `u64`.
pub open spec fn env_number(v: Option<Seq<char>>, default: u64) -> u64 {
    match v {
        Some(s) => match parsed_u64(trimmed(s)) {
            Some(n) => n,
            None => default,
        },
        None => default,
    }
}

pub open spec fn max_u64(a: u64, b: u64) -> u64 {
    if a >= b {
        a
    } else {
        b
    }
}

/// Whole seconds as milliseconds.
pub open spec fn secs_to_ms(secs: u64) -> u128 {
    (secs * 1000) as u128
}

/// Whether a flag's raw text reads as true.
pub fn truthy(raw: &str) -> (b: bool)
    ensures
        b == is_truthy(raw@),
{
    let t = trim(raw);
    let w = lowercase_ascii(t.as_str());
    same_text(w.as_str(), "1") || same_text(w.as_str(), "true") || same_text(w.as_str(), "yes")
        || same_text(w.as_str(), "on")
}

fn env_text_or(v: &Option<String>, default: &str) -> (r: String)
    ensures
        r@ == env_text(opt_view(*v), default@),
{
    match v {
        Some(s) => {
            let t = trim(s.as_str());
            if char_count(t.as_str()) > 0 {
                t
            } else {
                owned(default)
            }
        },
        None => owned(default),
    }
}

fn env_u64(v: &Option<String>, default: u64) -> (n: u64)
    ensures
        n == env_number(opt_view(*v), default),
{
    match v {
        Some(s) => {
            let t = trim(s.as_str());
            match parse_u64(t.as_str()) {
                Some(n) => n,
                None => default,
            }
        },
        None => default,
    }
}

fn flag(v: &Option<String>) -> (b: bool)
    ensures
        b == match opt_view(*v) {
            Some(s) => is_truthy(s),
            None => false,
        },
{
    match v {
        Some(s) => truthy(s.as_str()),
        None => false,
    }
}

impl DispatchConfig {
    /// The configuration the settings describe: blank or unset text falls
    /// back to the working directory and `grok`, an unreadable number to its
    /// default, the timeout is at least one second, dispatching is on unless
    /// its flag reads false, and both stub flags are off unless they read true.
    pub fn from_env(env: &DispatchEnv) -> (c: DispatchConfig)
        ensures
            c.cwd@ == env_text(opt_view(env.cwd), env.current_dir@),
            c.grok_bin@ == env_text(opt_view(env.grok), "grok"@),
            c.interval_ms == env_number(opt_view(env.interval_ms), DEFAULT_INTERVAL_MS),
            c.timeout_ms == secs_to_ms(
                max_u64(env_number(opt_view(env.timeout_secs), DEFAULT_TIMEOUT_SECS), 1),
            ),
            c.enabled == match opt_view(env.dispatch) {
                Some(s) => is_truthy(s),
                None => true,
            },
            c.stub == match opt_view(env.stub) {
                Some(s) => is_truthy(s),
                None => false,
            },
            c.stub_fail == match opt_view(env.stub_fail) {
                Some(s) => is_truthy(s),
                None => false,
            },
    {
        let cwd = env_text_or(&env.cwd, env.current_dir.as_str());
        let grok_bin = env_text_or(&env.grok, "grok");
        let interval_ms = env_u64(&env.interval_ms, DEFAULT_INTERVAL_MS);
        let mut timeout_secs = env_u64(&env.timeout_secs, DEFAULT_TIMEOUT_SECS);
        if timeout_secs < 1 {
            timeout_secs = 1;
        }
        let timeout_ms: u128 = (timeout_secs as u128) * 1000;
        let enabled = match &env.dispatch {
            Some(s) => truthy(s.as_str()),
            None => true,
        };
        DispatchConfig {
            enabled,
            stub: flag(&env.stub),
            stub_fail: flag(&env.stub_fail),
            grok_bin,
            cwd,
            timeout_ms,
            interval_ms,
        }
    }

    /// The stub dispatcher with an immediate wake and a five-second timeout.
    pub fn stub_for_tests(cwd: &str) -> (c: DispatchConfig)
        ensures
            c.enabled && c.stub && !c.stub_fail,
            c.grok_bin@ == "grok"@,
            c.cwd@ == cwd@,
            c.timeout_ms == 5000,
            c.interval_ms == 0,
    {
        DispatchConfig {
            enabled: true,
            stub: true,
            stub_fail: false,
            grok_bin: owned("grok"),
            cwd: owned(cwd),
            timeout_ms: 5000,
            interval_ms: 0,
        }
    }
}

impl Clone for DispatchConfig {
    fn clone(&self) -> (r: Self)
        ensures
            r@ == self@,
    {
        DispatchConfig {
            enabled: self.enabled,
            stub: self.stub,
            stub_fail: self.stub_fail,
            grok_bin: self.grok_bin.clone(),
            cwd: self.cwd.clone(),
            timeout_ms: self.timeout_ms,
            interval_ms: self.interval_ms,
        }
    }
}

// ---------------------------------------------------------------------------
// Outcomes
// ---------------------------------------------------------------------------
#[derive(Clone, Copy, PartialEq, Eq, Structural, Debug)]
pub enum OutcomeKind {
    Success,
    Failure,
}

/// How a dispatch ended, with the message for the card's log.
pub struct DispatchOutcome {
    pub kind: OutcomeKind,
    pub message: String,
}

/// A log message, cut to `LOG_MESSAGE_MAX` characters.
pub open spec fn log_text(message: Seq<char>) -> Seq<char> {
    if message.len() <= LOG_MESSAGE_MAX {
        message
    } else {
        truncated(message, LOG_MESSAGE_MAX as int)
    }
}

/// Keeps a log message within `LOG_MESSAGE_MAX` characters.
pub fn truncate_log(message: String) -> (r: String)
    ensures
        r@ == log_text(message@),
{
    if char_count(message.as_str()) <= LOG_MESSAGE_MAX {
        message
    } else {
        truncate_chars(message.as_str(), LOG_MESSAGE_MAX)
    }
}

impl DispatchOutcome {
    pub fn success(message: &str) -> (o: DispatchOutcome)
        ensures
            o.kind == OutcomeKind::Success,
            o.message@ == log_text(message@),
    {
        DispatchOutcome { kind: OutcomeKind::Success, message: truncate_log(owned(message)) }
    }

    pub fn failure(message: &str) -> (o: DispatchOutcome)
        ensures
            o.kind == OutcomeKind::Failure,
            o.message@ == log_text(message@),
    {
        DispatchOutcome { kind: OutcomeKind::Failure, message: truncate_log(owned(message)) }
    }
}

impl Clone for DispatchOutcome {
    fn clone(&self) -> (r: Self)
        ensures
            r.kind == self.kind,
            r.message@ == self.message@,
    {
        DispatchOutcome { kind: self.kind, message: self.message.clone() }
    }
}

// ---------------------------------------------------------------------------
// Prompt, command line and stub
// ---------------------------------------------------------------------------
/// The prompt sent to the agent: instructions, the card's title, status,
/// revision and id, and its body (`(empty)` when blank).
pub open spec fn prompt_for(card: CardView) -> Seq<char> {
    let body = if is_blank(card.body) {
        "(empty)"@
    } else {
        card.body
    };
    "You are completing one Agent Kanban card. Do the work in the working directory.\n\nTitle: "@
        + card.title + "\nStatus: "@ + card.status.title_text() + "\nRevision: "@ + decimal(
        card.revision_count as nat,
    ) + "\nCard id: "@ + card.id + "\n\nBody / context:\n"@ + body
        + "\n\nWhen finished, summarize what you changed. If you cannot complete the work, say so clearly."@
}

/// The prompt sent to `grok -p` for this card.
pub fn build_prompt(card: &Card) -> (p: String)
    ensures
        p@ == prompt_for(card@),
{
    let mut out = owned(
        "You are completing one Agent Kanban card. Do the work in the working directory.\n\nTitle: ",
    );
    push_str(&mut out, card.title.as_str());
    push_str(&mut out, "\nStatus: ");
    push_str(&mut out, card.status.title());
    push_str(&mut out, "\nRevision: ");
    push_decimal(&mut out, card.revision_count as u64);
    push_str(&mut out, "\nCard id: ");
    push_str(&mut out, card.id.as_str());
    push_str(&mut out, "\n\nBody / context:\n");
    if blank(card.body.as_str()) {
        push_str(&mut out, "(empty)");
    } else {
        push_str(&mut out, card.body.as_str());
    }
    push_str(
        &mut out,
        "\n\nWhen finished, summarize what you changed. If you cannot complete the work, say so clearly.",
    );
    out
}

pub open spec fn strings_view(v: Seq<String>) -> Seq<Seq<char>> {
    v.map_values(|s: String| s@)
}

/// The headless arguments after the binary: `-p PROMPT --cwd DIR --always-approve --json`.
pub fn grok_args(prompt: &str, cwd: &str) -> (args: Vec<String>)
    ensures
        strings_view(args@) == seq!["-p"@, prompt@, "--cwd"@, cwd@, "--always-approve"@, "--json"@],
{
    let mut args: Vec<String> = Vec::new();
    args.push(owned("-p"));
    args.push(owned(prompt));
    args.push(owned("--cwd"));
    args.push(owned(cwd));
    args.push(owned("--always-approve"));
    args.push(owned("--json"));
    assert(strings_view(args@) =~= seq![
        "-p"@,
        prompt@,
        "--cwd"@,
        cwd@,
        "--always-approve"@,
        "--json"@,
    ]);
    args
}

/// The stub fails when told to, or when the card carries the failure marker.
pub open spec fn stub_fails(stub_fail: bool, card: CardView) -> bool {
    stub_fail || contains_seq(card.title, STUB_FAIL_MARKER@) || contains_seq(
        card.body,
        STUB_FAIL_MARKER@,
    )
}

pub fn stub_should_fail(config: &DispatchConfig, card: &Card) -> (b: bool)
    ensures
        b == stub_fails(config.stub_fail, card@),
{
    config.stub_fail || contains(card.title.as_str(), STUB_FAIL_MARKER) || contains(
        card.body.as_str(),
        STUB_FAIL_MARKER,
    )
}

/// The in-process agent: fails or reports success with the card's title.
fn run_stub(config: &DispatchConfig, card: &Card) -> (o: DispatchOutcome)
    ensures
        stub_fails(config.stub_fail, card@) ==> o.kind == OutcomeKind::Failure && o.message@
            == log_text("stub dispatch failed"@),
        !stub_fails(config.stub_fail, card@) ==> o.kind == OutcomeKind::Success && o.message@
            == log_text("stub dispatch ok: "@ + card.title@),
{
    if stub_should_fail(config, card) {
        DispatchOutcome::failure("stub dispatch failed")
    } else {
        let mut m = owned("stub dispatch ok: ");
        push_str(&mut m, card.title.as_str());
        DispatchOutcome::success(m.as_str())
    }
}

/// The agent process to start: program, arguments, working directory, and
/// how long it may run.
pub struct GrokCommand {
    pub program: String,
    pub args: Vec<String>,
    pub cwd: String,
    pub timeout_ms: u128,
}

/// What a dispatch comes to: an outcome at once (the stub), or a process to run.
pub enum DispatchPlan {
    Finished(DispatchOutcome),
    Spawn(GrokCommand),
}

/// With the stub, the stub's outcome; otherwise the `grok` command for this
/// card, run in the configured directory with the configured timeout.
pub fn run_dispatch(config: &DispatchConfig, card: &Card) -> (plan: DispatchPlan)
    ensures
        config.stub ==> (plan matches DispatchPlan::Finished(o) && (if stub_fails(
            config.stub_fail,
            card@,
        ) {
            o.kind == OutcomeKind::Failure && o.message@ == log_text("stub dispatch failed"@)
        } else {
            o.kind == OutcomeKind::Success && o.message@ == log_text(
                "stub dispatch ok: "@ + card.title@,
            )
        })),
        !config.stub ==> (plan matches DispatchPlan::Spawn(cmd) && cmd.program@ == config.grok_bin@
            && strings_view(cmd.args@) == seq![
            "-p"@,
            prompt_for(card@),
            "--cwd"@,
            config.cwd@,
            "--always-approve"@,
            "--json"@,
        ] && cmd.cwd@ == config.cwd@ && cmd.timeout_ms == config.timeout_ms),
{
    if config.stub {
        DispatchPlan::Finished(run_stub(config, card))
    } else {
        let prompt = build_prompt(card);
        DispatchPlan::Spawn(
            GrokCommand {
                program: config.grok_bin.clone(),
                args: grok_args(prompt.as_str(), config.cwd.as_str()),
                cwd: config.cwd.clone(),
                timeout_ms: config.timeout_ms,
            },
        )
    }
}

// ---------------------------------------------------------------------------
// Running the agent process
// ---------------------------------------------------------------------------
/// Starting the agent failed: a missing binary is named, other errors are quoted.
pub fn spawn_failure(not_found: bool, program: &str, error: &str) -> (o: DispatchOutcome)
    ensures
        o.kind == OutcomeKind::Failure,
        not_found ==> o.message@ == log_text("missing binary: "@ + program@),
        !not_found ==> o.message@ == log_text("failed to spawn grok: "@ + error@),
{
    if not_found {
        let mut m = owned("missing binary: ");
        push_str(&mut m, program);
        DispatchOutcome::failure(m.as_str())
    } else {
        let mut m = owned("failed to spawn grok: ");
        push_str(&mut m, error);
        DispatchOutcome::failure(m.as_str())
    }
}

/// What waiting on the agent process reported.
pub enum ChildState {
    Exited,
    Running,
    WaitFailed(String),
}

/// The next move while the agent runs.
pub enum GrokStep {
    /// The process has exited: collect its output.
    Collect,
    /// Still running within its time: wait a little and look again.
    Wait,
    /// Give up with this outcome.
    Stop(DispatchOutcome),
    /// Kill the process, then give up with this outcome.
    KillAndStop(DispatchOutcome),
}

/// One look at the running agent: a cancel request wins, then an exit, then
/// the timeout.
pub fn grok_step(kill_requested: bool, child: &ChildState, elapsed_ms: u128, timeout_ms: u128) -> (step: GrokStep)
    ensures
        kill_requested ==> (step matches GrokStep::KillAndStop(o) && o.kind == OutcomeKind::Failure
            && o.message@ == "dispatch cancelled"@),
        !kill_requested ==> match child {
            ChildState::Exited => step is Collect,
            ChildState::Running => if elapsed_ms >= timeout_ms {
                (step matches GrokStep::KillAndStop(o) && o.kind == OutcomeKind::Failure
                    && o.message@ == "dispatch timed out"@)
            } else {
                step is Wait
            },
            ChildState::WaitFailed(e) => (step matches GrokStep::Stop(o) && o.kind
                == OutcomeKind::Failure && o.message@ == log_text("wait failed: "@ + e@)),
        },
{
    if kill_requested {
        let o = DispatchOutcome::failure("dispatch cancelled");
        proof {
            reveal_strlit("dispatch cancelled");
        }
        return GrokStep::KillAndStop(o);
    }
    match child {
        ChildState::Exited => GrokStep::Collect,
        ChildState::Running => {
            if elapsed_ms >= timeout_ms {
                let o = DispatchOutcome::failure("dispatch timed out");
                proof {
                    reveal_strlit("dispatch timed out");
                }
                GrokStep::KillAndStop(o)
            } else {
                GrokStep::Wait
            }
        },
        ChildState::WaitFailed(e) => {
            let mut m = owned("wait failed: ");
            push_str(&mut m, e.as_str());
            GrokStep::Stop(DispatchOutcome::failure(m.as_str()))
        },
    }
}

/// The first of two texts that is not blank, trimmed.
pub open spec fn first_nonblank(a: Seq<char>, b: Seq<char>) -> Option<Seq<char>> {
    if !is_blank(a) {
        Some(trimmed(a))
    } else if !is_blank(b) {
        Some(trimmed(b))
    } else {
        None
    }
}

fn first_nonempty(a: &str, b: &str) -> (r: Option<String>)
    ensures
        opt_view(r) == first_nonblank(a@, b@),
{
    if !blank(a) {
        Some(trim(a))
    } else if !blank(b) {
        Some(trim(b))
    } else {
        None
    }
}

/// The exit code as text, or `signal` when the process was killed by one.
pub open spec fn exit_code_text(code: Option<i32>) -> Seq<char> {
    match code {
        Some(c) => signed_decimal(c as int),
        None => "signal"@,
    }
}

/// The outcome of a finished agent run: a failed exit quotes its code and the
/// first non-blank of stderr and stdout; a clean exit is judged by its JSON.
pub open spec fn finished_run(
    exit_ok: bool,
    code: Option<i32>,
    stdout: Seq<char>,
    stderr: Seq<char>,
) -> (OutcomeKind, Seq<char>) {
    if !exit_ok {
        let detail = match first_nonblank(stderr, stdout) {
            Some(d) => d,
            None => "no output"@,
        };
        (OutcomeKind::Failure, log_text("grok exit "@ + exit_code_text(code) + ": "@ + detail))
    } else {
        match grok_reply(stdout) {
            Ok(summary) => (OutcomeKind::Success, log_text(summary)),
            Err(err) => (OutcomeKind::Failure, log_text(err)),
        }
    }
}

/// Judges a finished agent run from its exit status and its output.
pub fn grok_finish(exit_ok: bool, code: Option<i32>, stdout: &str, stderr: &str) -> (o: DispatchOutcome)
    ensures
        (o.kind, o.message@) == finished_run(exit_ok, code, stdout@, stderr@),
{
    if !exit_ok {
        let mut m = owned("grok exit ");
        match code {
            Some(c) => push_signed_decimal(&mut m, c as i64),
            None => push_str(&mut m, "signal"),
        }
        push_str(&mut m, ": ");
        match first_nonempty(stderr, stdout) {
            Some(d) => push_str(&mut m, d.as_str()),
            None => push_str(&mut m, "no output"),
        }
        return DispatchOutcome::failure(m.as_str());
    }
    match parse_grok_json(stdout) {
        Ok(summary) => DispatchOutcome::success(summary.as_str()),
        Err(err) => DispatchOutcome::failure(err.as_str()),
    }
}

// ---------------------------------------------------------------------------
// The agent's JSON reply
// ---------------------------------------------------------------------------
/// `serde_json::from_str::<serde_json::Value>` accepts `text`.
pub uninterp spec fn json_parses(text: Seq<char>) -> bool;

/// The string that `text` is, when it parses as a JSON string.
pub uninterp spec fn json_string_of(text: Seq<char>) -> Option<Seq<char>>;

/// The string value under `key`, when `text` parses as a JSON object whose
/// member `key` is a string.
pub uninterp spec fn json_field_of(text: Seq<char>, key: Seq<char>) -> Option<Seq<char>>;

/// The compact rendering (`Display`) of the JSON value that `text` parses to.
pub uninterp spec fn json_compact_of(text: Seq<char>) -> Seq<char>;

/// Whether `text` is one JSON value: `serde_json::from_str::<Value>` succeeds.
#[verifier::external_body]
fn json_valid(text: &str) -> (ok: bool)
    ensures
        ok == json_parses(text@),
{
    serde_json::from_str::<serde_json::Value>(text).is_ok()
}

/// `serde_json::from_str::<Value>`, kept when the value is a JSON string.
#[verifier::external_body]
fn json_as_string(text: &str) -> (r: Option<String>)
    ensures
        opt_view(r) == json_string_of(text@),
{
    match serde_json::from_str::<serde_json::Value>(text) {
        Ok(serde_json::Value::String(s)) => Some(s),
        _ => None,
    }
}

/// `serde_json::from_str::<Value>`, then `Map::get(key)` on an object, kept
/// when that member is a JSON string.
#[verifier::external_body]
fn json_object_string_field(text: &str, key: &str) -> (r: Option<String>)
    ensures
        opt_view(r) == json_field_of(text@, key@),
{
    match serde_json::from_str::<serde_json::Value>(text) {
        Ok(serde_json::Value::Object(map)) => match map.get(key) {
            Some(serde_json::Value::String(s)) => Some(s.clone()),
            _ => None,
        },
        _ => None,
    }
}

/// `serde_json::from_str::<Value>`, then the value's `Display` (compact JSON).
#[verifier::external_body]
fn json_compact(text: &str) -> (r: String)
    ensures
        json_parses(text@) ==> r@ == json_compact_of(text@),
{
    match serde_json::from_str::<serde_json::Value>(text) {
        Ok(v) => v.to_string(),
        Err(_) => String::new(),
    }
}

/// The members tried, in order, for a summary of a JSON object reply.
pub open spec fn summary_keys() -> Seq<Seq<char>> {
    seq!["text"@, "message"@, "result"@, "output"@, "content"@, "summary"@]
}

/// The first non-empty string among `fields[i..]`.
pub open spec fn first_filled(fields: Seq<Option<Seq<char>>>, i: int) -> Option<Seq<char>>
    decreases fields.len() - i,
{
    if i < 0 || i >= fields.len() {
        None
    } else {
        match fields[i] {
            Some(s) => if s.len() > 0 {
                Some(s)
            } else {
                first_filled(fields, i + 1)
            },
            None => first_filled(fields, i + 1),
        }
    }
}

/// A reply's summary from its parts: the string it is, else the first
/// non-empty string member in key order, else its compact rendering.
pub open spec fn summary_from(
    as_string: Option<Seq<char>>,
    fields: Seq<Option<Seq<char>>>,
    compact: Seq<char>,
) -> Seq<char> {
    match as_string {
        Some(s) => s,
        None => match first_filled(fields, 0) {
            Some(s) => s,
            None => compact,
        },
    }
}

/// The string members of a reply under each of `summary_keys`.
pub open spec fn reply_fields(text: Seq<char>) -> Seq<Option<Seq<char>>> {
    summary_keys().map_values(|k: Seq<char>| json_field_of(text, k))
}

/// The summary of the JSON value `text` holds.
pub open spec fn json_summary(text: Seq<char>) -> Seq<char> {
    summary_from(json_string_of(text), reply_fields(text), json_compact_of(text))
}

/// The summary of a reply from its parts (see `summary_from`).
pub fn summary_of_parts(as_string: Option<String>, fields: &Vec<Option<String>>, compact: String) -> (r: String)
    ensures
        r@ == summary_from(opt_view(as_string), fields@.map_values(|o: Option<String>| opt_view(o)), compact@),
{
    let ghost fv = fields@.map_values(|o: Option<String>| opt_view(o));
    match as_string {
        Some(s) => s,
        None => {
            let mut i: usize = 0;
            while i < fields.len()
                invariant
                    i <= fields.len(),
                    as_string is None,
                    fv == fields@.map_values(|o: Option<String>| opt_view(o)),
                    first_filled(fv, 0) == first_filled(fv, i as int),
                decreases fields.len() - i,
            {
                match &fields[i] {
                    Some(s) => {
                        if char_count(s.as_str()) > 0 {
                            assert(fv[i as int] == Some(s@));
                            return s.clone();
                        }
                    },
                    None => {},
                }
                i = i + 1;
            }
            compact
        },
    }
}

/// Summarizes the JSON value `text` holds.
fn summarize_json(text: &str) -> (r: String)
    requires
        json_parses(text@),
    ensures
        r@ == json_summary(text@),
{
    let mut fields: Vec<Option<String>> = Vec::new();
    fields.push(json_object_string_field(text, "text"));
    fields.push(json_object_string_field(text, "message"));
    fields.push(json_object_string_field(text, "result"));
    fields.push(json_object_string_field(text, "output"));
    fields.push(json_object_string_field(text, "content"));
    fields.push(json_object_string_field(text, "summary"));
    assert(fields@.map_values(|o: Option<String>| opt_view(o)) =~= reply_fields(text@));
    summary_of_parts(json_as_string(text), &fields, json_compact(text))
}

/// Where the line holding position `j - 1` starts.
pub open spec fn line_start_before(s: Seq<char>, j: int) -> int
    decreases j,
{
    if j <= 0 {
        0
    } else if s[j - 1] == '\n' {
        j
    } else {
        line_start_before(s, j - 1)
    }
}

/// The text after the last newline of `s`.
pub open spec fn last_line(s: Seq<char>) -> Seq<char> {
    s.subrange(line_start_before(s, s.len() as int), s.len() as int)
}

/// What the agent's standard output comes to. It is trimmed; a blank one is an
/// error. It may be one JSON value, or end in a JSON line after other output:
/// that is the last line of the trimmed text, which is also its last non-blank
/// line, since the trimmed text ends in a non-blank character.
pub open spec fn grok_reply(stdout: Seq<char>) -> Result<Seq<char>, Seq<char>> {
    let t = trimmed(stdout);
    if t.len() == 0 {
        Err("bad JSON from grok: empty stdout"@)
    } else if json_parses(t) {
        Ok(json_summary(t))
    } else {
        let l = trimmed(last_line(t));
        if json_parses(l) {
            Ok(json_summary(l))
        } else {
            Err("bad JSON from grok"@)
        }
    }
}

proof fn lemma_line_start_before_bounds(s: Seq<char>, j: int)
    requires
        0 <= j <= s.len(),
    ensures
        0 <= line_start_before(s, j) <= j,
    decreases j,
{
    if j > 0 && s[j - 1] != '\n' {
        lemma_line_start_before_bounds(s, j - 1);
    }
}

/// Accepts a single JSON value, or the last line of mixed output when that
/// line is one; the value's summary is the result.
pub fn parse_grok_json(stdout: &str) -> (r: Result<String, String>)
    ensures
        r matches Ok(s) ==> grok_reply(stdout@) == Ok::<Seq<char>, Seq<char>>(s@),
        r matches Err(e) ==> grok_reply(stdout@) == Err::<Seq<char>, Seq<char>>(e@),
{
    let t = trim(stdout);
    let tc = chars_of(t.as_str());
    if tc.len() == 0 {
        return Err(owned("bad JSON from grok: empty stdout"));
    }
    if json_valid(t.as_str()) {
        return Ok(summarize_json(t.as_str()));
    }
    let mut j: usize = tc.len();
    while j > 0 && tc[j - 1] != '\n'
        invariant
            j <= tc.len(),
            line_start_before(tc@, tc@.len() as int) == line_start_before(tc@, j as int),
        decreases j,
    {
        j = j - 1;
    }
    proof {
        lemma_line_start_before_bounds(tc@, j as int);
    }
    let line = string_of_range(&tc, j, tc.len());
    let l = trim(line.as_str());
    if json_valid(l.as_str()) {
        return Ok(summarize_json(l.as_str()));
    }
    Err(owned("bad JSON from grok"))
}

} // verus!
