//! Agent sessions for web conversations: the command line that runs the agent, what its
//! first output says about the session it started, and which log file is the session's.
use vstd::prelude::*;

use crate::reader::{find_text};
use crate::text::{
    chars_eq, chars_of, ends_with, has_suffix, push_all, push_str, string_of, trim, trim_seq,
};
use crate::transcript::{lines_spec, parse_rfc3339_utc, rfc3339_instant, transcript_lines};

verus! {

broadcast use vstd::string::group_string_axioms;

/// A session the agent started or resumed, and where its log is.
#[derive(Debug, Clone, PartialEq, Eq)]
pub struct SessionLaunchResult {
    pub session_id: String,
    pub session_log_path: String,
    /// Nanoseconds since the Unix epoch.
    pub launched_at: i64,
}

/// The views of a list of texts.
pub open spec fn arg_views(v: Seq<String>) -> Seq<Seq<char>> {
    v.map_values(|s: String| s@)
}

/// The arguments the agent runs with: the configured ones, then the workspace, `exec`,
/// `resume <session>` when resuming, JSON output, and the prompt.
pub open spec fn exec_args_spec(
    cli_args: Seq<Seq<char>>,
    workspace: Seq<char>,
    session_id: Option<Seq<char>>,
    prompt: Seq<char>,
) -> Seq<Seq<char>> {
    cli_args + seq!["-C"@, workspace, "exec"@] + match session_id {
        Some(s) => seq!["resume"@, s],
        None => seq![],
    } + seq!["--json"@, "--skip-git-repo-check"@, prompt]
}

/// The arguments the agent runs with.
pub fn build_codex_exec_args(
    codex_cli_args: &Vec<String>,
    workspace: &str,
    session_id: Option<&str>,
    prompt: &str,
) -> (r: Vec<String>)
    ensures
        arg_views(r@) == exec_args_spec(
            arg_views(codex_cli_args@),
            workspace@,
            crate::html::opt_str_view(session_id),
            prompt@,
        ),
{
    let mut args: Vec<String> = Vec::new();
    let mut i: usize = 0;
    while i < codex_cli_args.len()
        invariant
            i <= codex_cli_args@.len(),
            arg_views(args@) == arg_views(codex_cli_args@).take(i as int),
        decreases codex_cli_args.len() - i,
    {
        let a = codex_cli_args[i].clone();
        let ghost before = arg_views(args@);
        args.push(a);
        assert(arg_views(args@) =~= before.push(codex_cli_args@[i as int]@));
        assert(arg_views(codex_cli_args@).take(i + 1) =~= arg_views(codex_cli_args@).take(
            i as int,
        ).push(codex_cli_args@[i as int]@));
        i = i + 1;
    }
    assert(arg_views(codex_cli_args@).take(codex_cli_args@.len() as int) =~= arg_views(
        codex_cli_args@,
    ));
    let ghost base = arg_views(args@);
    args.push("-C".to_string());
    args.push(workspace.to_string());
    args.push("exec".to_string());
    let ghost mid = arg_views(args@);
    assert(mid =~= base + seq!["-C"@, workspace@, "exec"@]);
    match session_id {
        Some(s) => {
            args.push("resume".to_string());
            args.push(s.to_string());
        },
        None => {},
    }
    let ghost mid2 = arg_views(args@);
    assert(mid2 =~= mid + match crate::html::opt_str_view(session_id) {
        Some(s) => seq!["resume"@, s],
        None => Seq::<Seq<char>>::empty(),
    });
    args.push("--json".to_string());
    args.push("--skip-git-repo-check".to_string());
    args.push(prompt.to_string());
    assert(arg_views(args@) =~= mid2 + seq!["--json"@, "--skip-git-repo-check"@, prompt@]);
    args
}

/// What one line of the agent's first output says, as far as a session goes: its `type`,
/// and for a `session_meta` line the `id` and `timestamp` of its payload, for a
/// `thread.started` line its `thread_id` (each when present as a string).
#[derive(Debug, Clone)]
pub struct LaunchEvent {
    pub event_type: Option<String>,
    pub payload_id: Option<String>,
    pub payload_timestamp: Option<String>,
    pub thread_id: Option<String>,
}

/// Why the agent's first output names no session.
#[derive(Debug, Clone, Copy, PartialEq, Eq, Structural)]
pub enum LaunchOutputError {
    /// A line is not JSON.
    Malformed,
    /// No line names a session.
    MissingSessionId,
}

impl LaunchOutputError {
    /// The message shown for the error.
    pub fn message(&self) -> (r: &'static str)
        ensures
            r@ == match self {
                LaunchOutputError::Malformed => "failed to parse Codex session launch output"@,
                LaunchOutputError::MissingSessionId => "codex launch did not report a session id"@,
            },
    {
        match self {
            LaunchOutputError::Malformed => "failed to parse Codex session launch output",
            LaunchOutputError::MissingSessionId => "codex launch did not report a session id",
        }
    }
}

/// The reading of the agent's output after some lines: failed, or the session id and
/// start instant found so far and whether the reading stopped.
pub enum LaunchScan {
    Failed,
    Reading(Option<Seq<char>>, Option<i64>, bool),
}

/// The reading after the first `k` lines (events are the decoded lines, `None` for one
/// that is not JSON). A `session_meta` line sets the id and instant from its payload, a
/// `thread.started` line sets the id; reading stops once an id is known.
pub open spec fn scan_launch(lines: Seq<Seq<char>>, events: Seq<Option<LaunchEvent>>, k: nat) -> LaunchScan
    decreases k,
{
    if k == 0 {
        LaunchScan::Reading(None, None, false)
    } else {
        match scan_launch(lines, events, (k - 1) as nat) {
            LaunchScan::Failed => LaunchScan::Failed,
            LaunchScan::Reading(id, at, done) => if done || trim_seq(lines[k - 1]).len() == 0 {
                LaunchScan::Reading(id, at, done)
            } else {
                match events[k - 1] {
                    None => LaunchScan::Failed,
                    Some(e) => {
                        let kind = crate::models::opt_text(e.event_type);
                        if kind == Some("session_meta"@) {
                            let sid = crate::models::opt_text(e.payload_id);
                            let t = match e.payload_timestamp {
                                Some(ts) => rfc3339_instant(ts@),
                                None => None,
                            };
                            LaunchScan::Reading(sid, t, sid is Some)
                        } else if kind == Some("thread.started"@) {
                            let sid = crate::models::opt_text(e.thread_id);
                            LaunchScan::Reading(sid, at, sid is Some)
                        } else {
                            LaunchScan::Reading(id, at, false)
                        }
                    },
                }
            },
        }
    }
}

fn text_eq(s: &String, lit: &str) -> (r: bool)
    ensures
        r == (s@ == lit@),
{
    chars_eq(chars_of(s.as_str()).as_slice(), chars_of(lit).as_slice())
}

/// The session the agent's first output reports: its id and, when a `session_meta` line
/// gives one, its start instant. `events` holds the decoding of each line of `stdout`.
pub fn parse_session_launch_output(stdout: &str, events: &Vec<Option<LaunchEvent>>) -> (r: Result<
    (String, Option<i64>),
    LaunchOutputError,
>)
    requires
        events@.len() == lines_spec(stdout@).len(),
    ensures
        match scan_launch(lines_spec(stdout@), events@, lines_spec(stdout@).len()) {
            LaunchScan::Failed => r == Err::<(String, Option<i64>), LaunchOutputError>(
                LaunchOutputError::Malformed,
            ),
            LaunchScan::Reading(None, _, _) => r == Err::<(String, Option<i64>), LaunchOutputError>(
                LaunchOutputError::MissingSessionId,
            ),
            LaunchScan::Reading(Some(id), at, _) => r matches Ok((s, t)) && s@ == id && t == at,
        },
{
    let lines = transcript_lines(stdout);
    let ghost lv = lines@.map_values(|s: String| s@);
    let mut session_id: Option<String> = None;
    let mut launched_at: Option<i64> = None;
    let mut done = false;
    let mut i: usize = 0;
    while i < lines.len()
        invariant
            i <= lines@.len(),
            lv == lines@.map_values(|s: String| s@),
            lv == lines_spec(stdout@),
            events@.len() == lv.len(),
            scan_launch(lv, events@, i as nat) == LaunchScan::Reading(
                crate::models::opt_text(session_id),
                launched_at,
                done,
            ),
        decreases lines.len() - i,
    {
        assert(lv[i as int] == lines@[i as int]@);
        if done || trim(chars_of(lines[i].as_str()).as_slice()).len() == 0 {
            i = i + 1;
            continue;
        }
        match &events[i] {
            None => {
                proof {
                    lemma_launch_failed_stays(lv, events@, (i + 1) as nat, lv.len());
                }
                return Err(LaunchOutputError::Malformed);
            },
            Some(e) => {
                let is_meta = match &e.event_type {
                    Some(t) => text_eq(t, "session_meta"),
                    None => false,
                };
                let is_thread = match &e.event_type {
                    Some(t) => text_eq(t, "thread.started"),
                    None => false,
                };
                proof {
                    reveal_strlit("session_meta");
                    reveal_strlit("thread.started");
                }
                if is_meta {
                    session_id = crate::models::copy_text(&e.payload_id);
                    launched_at = match &e.payload_timestamp {
                        Some(ts) => parse_rfc3339_utc(ts.as_str()),
                        None => None,
                    };
                    done = session_id.is_some();
                } else if is_thread {
                    session_id = crate::models::copy_text(&e.thread_id);
                    done = session_id.is_some();
                } else {
                    done = false;
                }
            },
        }
        i = i + 1;
    }
    match session_id {
        Some(s) => Ok((s, launched_at)),
        None => Err(LaunchOutputError::MissingSessionId),
    }
}

proof fn lemma_launch_failed_stays(
    lines: Seq<Seq<char>>,
    events: Seq<Option<LaunchEvent>>,
    k: nat,
    n: nat,
)
    requires
        k <= n,
        scan_launch(lines, events, k) == LaunchScan::Failed,
    ensures
        scan_launch(lines, events, n) == LaunchScan::Failed,
    decreases n - k,
{
    if k < n {
        lemma_launch_failed_stays(lines, events, k, (n - 1) as nat);
    }
}

/// Whether a file is the log of session `session_id`: its name contains the id and ends
/// with `.jsonl`.
pub fn is_session_log_name(file_name: &str, session_id: &str) -> (r: bool)
    ensures
        r == (find_text(file_name@, session_id@) is Some && has_suffix(file_name@, ".jsonl"@)),
{
    let f = chars_of(file_name);
    let sid = chars_of(session_id);
    let found = if sid.len() == 0 {
        proof {
            assert(crate::reader::occurs_at(file_name@, session_id@, 0)) by {
                assert(file_name@.subrange(0, 0) =~= session_id@);
            }
        }
        true
    } else {
        crate::reader::find_from_start(f.as_slice(), sid.as_slice())
    };
    found && ends_with(f.as_slice(), chars_of(".jsonl").as_slice())
}

/// The reason a session run failed: the conversation title and the agent's error output
/// trimmed.
pub fn launch_failure_message(title: &str, stderr: &str) -> (r: String)
    ensures
        r@ == "codex session launch failed for `"@ + title@ + "`: "@ + trim_seq(stderr@),
{
    let mut v = chars_of("codex session launch failed for `");
    push_all(&mut v, chars_of(title).as_slice());
    push_str(&mut v, "`: ");
    push_all(&mut v, trim(chars_of(stderr).as_slice()).as_slice());
    string_of(v.as_slice())
}

} // verus!
