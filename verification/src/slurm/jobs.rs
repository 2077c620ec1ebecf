//! What Slurm says of jobs, and what that means for sandboxes.

use crate::listing::{in_order, sort, Named};
use crate::outcome::shown;
use crate::slurm::sandbox::{
    ConditionView, DriverCondition, DriverErrorView, DriverSandbox, DriverSandboxStatus,
    SandboxStatusView, SandboxView, SlurmDriverError, TextMap,
};
use crate::text;
use crate::text::{cat2, cat4};
use vstd::prelude::*;

verus! {

/// What a command printed, and how it ended. There is no status where a signal
/// ended it.
#[derive(Debug, Clone, PartialEq, Eq)]
pub struct SlurmCommandOutput {
    pub status: Option<i32>,
    pub stdout: String,
    pub stderr: String,
}

/// The content of a command's output.
pub struct OutputView {
    pub status: Option<i32>,
    pub stdout: Seq<char>,
    pub stderr: Seq<char>,
}

impl DeepView for SlurmCommandOutput {
    type V = OutputView;

    open spec fn deep_view(&self) -> OutputView {
        OutputView { status: self.status, stdout: self.stdout@, stderr: self.stderr@ }
    }
}

/// What the driver keeps of a sandbox.
#[derive(Debug, Clone, PartialEq, Eq)]
pub struct SlurmSandboxState {
    pub sandbox_id: String,
    pub sandbox_name: String,
    pub job_id: String,
    pub job_name: String,
    pub created_at_ms: i64,
}

/// The content of what the driver keeps.
pub struct StateView {
    pub sandbox_id: Seq<char>,
    pub sandbox_name: Seq<char>,
    pub job_id: Seq<char>,
    pub job_name: Seq<char>,
    pub created_at_ms: i64,
}

impl DeepView for SlurmSandboxState {
    type V = StateView;

    open spec fn deep_view(&self) -> StateView {
        StateView {
            sandbox_id: self.sandbox_id@,
            sandbox_name: self.sandbox_name@,
            job_id: self.job_id@,
            job_name: self.job_name@,
            created_at_ms: self.created_at_ms,
        }
    }
}

/// How far the batch script has come.
#[derive(Debug, Clone, Copy, PartialEq, Eq, Structural)]
pub enum LocalMarkerState {
    Starting,
    Running,
    Exited,
}

/// What the batch script wrote down last.
#[derive(Debug, Clone, Copy, PartialEq, Eq, Structural)]
pub struct LocalStatusMarker {
    pub state: LocalMarkerState,
    pub exit_code: Option<i32>,
}

impl DeepView for LocalStatusMarker {
    type V = LocalStatusMarker;

    open spec fn deep_view(&self) -> LocalStatusMarker {
        *self
    }
}

/// What is known of a job.
#[derive(Debug, Clone, PartialEq, Eq)]
pub struct SlurmJobSnapshot {
    pub state: String,
    pub reason: String,
}

/// The content of what is known of a job.
pub struct SnapshotView {
    pub state: Seq<char>,
    pub reason: Seq<char>,
}

impl DeepView for SlurmJobSnapshot {
    type V = SnapshotView;

    open spec fn deep_view(&self) -> SnapshotView {
        SnapshotView { state: self.state@, reason: self.reason@ }
    }
}

/// Something that happened to a sandbox.
#[derive(Debug, Clone, PartialEq, Eq)]
pub struct DriverPlatformEvent {
    pub timestamp_ms: i64,
    pub source: String,
    pub event_type: String,
    pub reason: String,
    pub message: String,
    pub metadata: Vec<(String, String)>,
}

/// The content of something that happened.
#[verifier::ext_equal]
pub struct PlatformEventView {
    pub timestamp_ms: i64,
    pub source: Seq<char>,
    pub event_type: Seq<char>,
    pub reason: Seq<char>,
    pub message: Seq<char>,
    pub metadata: TextMap,
}

impl DeepView for DriverPlatformEvent {
    type V = PlatformEventView;

    open spec fn deep_view(&self) -> PlatformEventView {
        PlatformEventView {
            timestamp_ms: self.timestamp_ms,
            source: self.source@,
            event_type: self.event_type@,
            reason: self.reason@,
            message: self.message@,
            metadata: self.metadata.deep_view(),
        }
    }
}

/// What those are told who watch sandboxes.
#[derive(Debug, Clone, PartialEq, Eq)]
pub enum WatchSandboxesEvent {
    Sandbox(DriverSandbox),
    PlatformEvent { sandbox_id: String, event: DriverPlatformEvent },
    Deleted { sandbox_id: String },
}

/// The content of what watchers are told.
pub enum WatchView {
    Sandbox(SandboxView),
    PlatformEvent { sandbox_id: Seq<char>, event: PlatformEventView },
    Deleted { sandbox_id: Seq<char> },
}

impl DeepView for WatchSandboxesEvent {
    type V = WatchView;

    open spec fn deep_view(&self) -> WatchView {
        match self {
            WatchSandboxesEvent::Sandbox(sandbox) => WatchView::Sandbox(sandbox.deep_view()),
            WatchSandboxesEvent::PlatformEvent { sandbox_id, event } => WatchView::PlatformEvent {
                sandbox_id: sandbox_id@,
                event: event.deep_view(),
            },
            WatchSandboxesEvent::Deleted { sandbox_id } => WatchView::Deleted {
                sandbox_id: sandbox_id@,
            },
        }
    }
}

// ---------------------------------------------------------------------------
// Commands
// ---------------------------------------------------------------------------

/// The way a command ended, as it is reported.
pub open spec fn status_text(status: Option<i32>) -> Seq<char> {
    match status {
        Some(code) => "Some("@ + text::signed_decimal(code as int) + ")"@,
        None => "None"@,
    }
}

/// What a failed command says of its failure: what it printed as an error, or
/// else what it printed, or else how it ended.
pub open spec fn error_text(output: OutputView) -> Seq<char> {
    if text::trimmed(output.stderr).len() > 0 {
        text::trimmed(output.stderr)
    } else if text::trimmed(output.stdout).len() > 0 {
        text::trimmed(output.stdout)
    } else {
        "exit status "@ + status_text(output.status)
    }
}

/// A command's output says that there is no such job any more.
pub open spec fn says_not_found(output: OutputView) -> bool {
    let said = text::lower(output.stdout + output.stderr);
    ||| text::contains_text(said, "invalid job id"@)
    ||| text::contains_text(said, "unknown job id"@)
    ||| text::contains_text(said, "not found"@)
    ||| text::contains_text(said, "already completed"@)
}

/// What a failed command says of its failure.
pub fn trim_command_error(output: &SlurmCommandOutput) -> (r: String)
    ensures
        r@ == error_text(output.deep_view()),
{
    let stderr = text::trim(output.stderr.as_str());
    if !stderr.is_empty() {
        return stderr.to_owned();
    }
    let stdout = text::trim(output.stdout.as_str());
    if !stdout.is_empty() {
        return stdout.to_owned();
    }
    match output.status {
        Some(code) => {
            let number = text::signed_decimal_of(code as i64);
            let shown_status = text::cat3("Some(", number.as_str(), ")");
            cat2("exit status ", shown_status.as_str())
        },
        None => cat2("exit status ", "None"),
    }
}

/// Tells whether a command's output says that there is no such job any more.
pub fn command_error_is_not_found(output: &SlurmCommandOutput) -> (r: bool)
    ensures
        r == says_not_found(output.deep_view()),
{
    let whole = cat2(output.stdout.as_str(), output.stderr.as_str());
    let lowered = text::to_lower(whole.as_str());
    let said = lowered.as_str();
    text::contains(said, "invalid job id") || text::contains(said, "unknown job id")
        || text::contains(said, "not found") || text::contains(said, "already completed")
}

// ---------------------------------------------------------------------------
// Job identities
// ---------------------------------------------------------------------------

/// The first line of a list that is not blank.
pub open spec fn first_line(lines: Seq<Seq<char>>) -> Option<Seq<char>>
    decreases lines.len(),
{
    if lines.len() == 0 {
        None
    } else if text::trimmed(lines[0]).len() > 0 {
        Some(lines[0])
    } else {
        first_line(lines.skip(1))
    }
}

/// The job that was submitted: what stands before the first semicolon of the first
/// line that is not blank.
pub open spec fn submitted_job(stdout: Seq<char>) -> Option<Seq<char>> {
    match first_line(text::lines(stdout)) {
        None => None,
        Some(line) => {
            let job = text::trimmed(text::split(text::trimmed(line), ';')[0]);
            if job.len() > 0 {
                Some(job)
            } else {
                None
            }
        },
    }
}

fn find_first_line(lines: &Vec<String>) -> (r: Option<String>)
    ensures
        r.deep_view() == first_line(lines.deep_view()),
{
    let ghost list = lines.deep_view();
    let mut i: usize = 0;
    proof {
        assert(list.skip(0) =~= list);
    }
    while i < lines.len()
        invariant
            i <= lines.len(),
            list == lines.deep_view(),
            first_line(list) == first_line(list.skip(i as int)),
        decreases lines.len() - i,
    {
        proof {
            assert(list.skip(i as int)[0] == lines@[i as int]@);
            assert(list.skip(i as int).skip(1) =~= list.skip(i + 1));
        }
        if !text::is_blank(lines[i].as_str()) {
            return Some(lines[i].clone());
        }
        i += 1;
    }
    None
}

/// The job that was submitted.
pub fn parse_sbatch_job_id(stdout: &str) -> (r: Option<String>)
    ensures
        r.deep_view() == submitted_job(stdout@),
{
    let lines = text::lines_of(stdout);
    let line = match find_first_line(&lines) {
        Some(line) => line,
        None => {
            return None;
        },
    };
    let content = text::trim(line.as_str());
    let parts = text::split_on(content, ';');
    proof {
        text::lemma_split_nonempty(content@, ';');
        assert(parts.deep_view().len() == parts.len());
        assert(parts.deep_view()[0] == parts@[0]@);
    }
    let job = text::trim(parts[0].as_str());
    if job.is_empty() {
        None
    } else {
        Some(job.to_owned())
    }
}

// ---------------------------------------------------------------------------
// Snapshots
// ---------------------------------------------------------------------------

/// The arguments that ask for a queued job.
pub open spec fn squeue_args_of(job_id: Seq<char>) -> Seq<Seq<char>> {
    seq!["--noheader"@, "--jobs"@, job_id, "--format"@, "%T|%R"@]
}

/// The arguments that ask for the account of a job.
pub open spec fn sacct_args_of(job_id: Seq<char>) -> Seq<Seq<char>> {
    seq![
        "-X"@,
        "--noheader"@,
        "--parsable2"@,
        "--jobs"@,
        job_id,
        "--format"@,
        "JobIDRaw,State,Reason"@,
    ]
}

/// The arguments that ask for a queued job.
pub fn squeue_args(job_id: &str) -> (r: Vec<String>)
    ensures
        r.deep_view() == squeue_args_of(job_id@),
{
    let mut args: Vec<String> = Vec::new();
    args.push("--noheader".to_owned());
    args.push("--jobs".to_owned());
    args.push(job_id.to_owned());
    args.push("--format".to_owned());
    args.push("%T|%R".to_owned());
    assert(args.deep_view() =~= squeue_args_of(job_id@));
    args
}

/// The arguments that ask for the account of a job.
pub fn sacct_args(job_id: &str) -> (r: Vec<String>)
    ensures
        r.deep_view() == sacct_args_of(job_id@),
{
    let mut args: Vec<String> = Vec::new();
    args.push("-X".to_owned());
    args.push("--noheader".to_owned());
    args.push("--parsable2".to_owned());
    args.push("--jobs".to_owned());
    args.push(job_id.to_owned());
    args.push("--format".to_owned());
    args.push("JobIDRaw,State,Reason".to_owned());
    assert(args.deep_view() =~= sacct_args_of(job_id@));
    args
}

/// What a line of the queue says of a job: its state before the first bar, the
/// reason behind it.
pub open spec fn queued(line: Seq<char>) -> SnapshotView {
    match text::split_once(line, '|') {
        Some((state, reason)) => SnapshotView {
            state: text::trimmed(state),
            reason: text::trimmed(reason),
        },
        None => SnapshotView { state: text::trimmed(line), reason: Seq::empty() },
    }
}

/// What the queue says of a job.
pub open spec fn queue_answer(output: OutputView, job_id: Seq<char>) -> Result<
    Option<SnapshotView>,
    DriverErrorView,
> {
    if output.status != Some(0i32) {
        Err(
            DriverErrorView::Message(
                "squeue failed for job "@ + job_id + ": "@ + error_text(output),
            ),
        )
    } else {
        match first_line(text::lines(output.stdout)) {
            None => Ok(None),
            Some(line) => Ok(Some(queued(line))),
        }
    }
}

/// What the queue says of a job, from what was asked.
pub fn squeue_snapshot(output: &SlurmCommandOutput, job_id: &str) -> (r: Result<
    Option<SlurmJobSnapshot>,
    SlurmDriverError,
>)
    ensures
        shown(r) == queue_answer(output.deep_view(), job_id@),
{
    if output.status != Some(0) {
        let said = trim_command_error(output);
        return Err(
            SlurmDriverError::Message(
                cat4("squeue failed for job ", job_id, ": ", said.as_str()),
            ),
        );
    }
    let lines = text::lines_of(output.stdout.as_str());
    match find_first_line(&lines) {
        None => Ok(None),
        Some(line) => {
            let snapshot = match text::cut(line.as_str(), '|') {
                Some((state, reason)) => SlurmJobSnapshot {
                    state: text::trim(state).to_owned(),
                    reason: text::trim(reason).to_owned(),
                },
                None => {
                    let reason = String::new();
                    assert(reason@ =~= Seq::empty());
                    SlurmJobSnapshot { state: text::trim(line.as_str()).to_owned(), reason }
                },
            };
            Ok(Some(snapshot))
        },
    }
}

/// What the accounts say of a job: the first line with the job and a state.
pub open spec fn accounted(lines: Seq<Seq<char>>, job_id: Seq<char>) -> Option<SnapshotView>
    decreases lines.len(),
{
    if lines.len() == 0 {
        None
    } else {
        let parts = text::split(lines[0], '|');
        if parts.len() >= 2 && text::trimmed(parts[0]) == job_id {
            Some(
                SnapshotView {
                    state: text::trimmed(parts[1]),
                    reason: if parts.len() > 2 {
                        text::trimmed(parts[2])
                    } else {
                        Seq::empty()
                    },
                },
            )
        } else {
            accounted(lines.skip(1), job_id)
        }
    }
}

/// What the accounts say of a job. Where they cannot be asked, nothing.
pub open spec fn account_answer(output: OutputView, job_id: Seq<char>) -> Option<SnapshotView> {
    if output.status != Some(0i32) {
        None
    } else {
        accounted(text::lines(output.stdout), job_id)
    }
}

/// What the accounts say of a job, from what was asked.
pub fn sacct_snapshot(output: &SlurmCommandOutput, job_id: &str) -> (r: Option<SlurmJobSnapshot>)
    ensures
        r.deep_view() == account_answer(output.deep_view(), job_id@),
{
    if output.status != Some(0) {
        return None;
    }
    let lines = text::lines_of(output.stdout.as_str());
    let ghost list = lines.deep_view();
    let mut i: usize = 0;
    proof {
        assert(list.skip(0) =~= list);
    }
    while i < lines.len()
        invariant
            i <= lines.len(),
            list == lines.deep_view(),
            output.status == Some(0i32),
            list == text::lines(output.deep_view().stdout),
            accounted(list, job_id@) == accounted(list.skip(i as int), job_id@),
        decreases lines.len() - i,
    {
        proof {
            assert(list.skip(i as int)[0] == lines@[i as int]@);
            assert(list.skip(i as int).skip(1) =~= list.skip(i + 1));
        }
        let parts = text::split_on(lines[i].as_str(), '|');
        let ghost fields = text::split(lines@[i as int]@, '|');
        proof {
            assert(parts.deep_view().len() == parts.len());
        }
        if parts.len() >= 2 {
            proof {
                assert(fields[0] == parts@[0]@);
                assert(fields[1] == parts@[1]@);
            }
            if text::same(text::trim(parts[0].as_str()), job_id) {
                let state = text::trim(parts[1].as_str()).to_owned();
                let mut reason = String::new();
                proof {
                    assert(reason@ =~= Seq::empty());
                }
                if parts.len() > 2 {
                    proof {
                        assert(fields[2] == parts@[2]@);
                    }
                    reason = text::trim(parts[2].as_str()).to_owned();
                }
                return Some(SlurmJobSnapshot { state, reason });
            }
        }
        i += 1;
    }
    None
}

/// A state in which a job ended without success.
pub open spec fn is_failed(state: Seq<char>) -> bool {
    ||| state == "BOOT_FAIL"@
    ||| state == "CANCELLED"@
    ||| state == "DEADLINE"@
    ||| state == "FAILED"@
    ||| state == "NODE_FAIL"@
    ||| state == "OUT_OF_MEMORY"@
    ||| state == "PREEMPTED"@
    ||| state == "REVOKED"@
    ||| state == "SPECIAL_EXIT"@
    ||| state == "TIMEOUT"@
}

/// A state in which a job has not ended, and does not run.
pub open spec fn is_waiting(state: Seq<char>) -> bool {
    ||| state == "PENDING"@
    ||| state == "CONFIGURING"@
    ||| state == "COMPLETING"@
    ||| state == "RESIZING"@
    ||| state == "SIGNALING"@
    ||| state == "SUSPENDED"@
}

/// The condition of a sandbox whose job is in a given state.
pub open spec fn condition_of(snapshot: SnapshotView) -> ConditionView {
    let state = text::upper(snapshot.state);
    let (status, reason, message) = if is_failed(state) {
        ("False"@, "Slurm"@ + state, "Slurm job ended with state "@ + snapshot.state)
    } else if state == "COMPLETED"@ {
        (
            "False"@,
            "SlurmCompleted"@,
            "Slurm job completed before the sandbox supervisor connected"@,
        )
    } else if state == "RUNNING"@ {
        (
            "False"@,
            "DependenciesNotReady"@,
            "Slurm job is running; waiting for supervisor session"@,
        )
    } else if is_waiting(state) {
        (
            "False"@,
            "DependenciesNotReady"@,
            if snapshot.reason.len() == 0 {
                "Slurm job is "@ + snapshot.state
            } else {
                "Slurm job is "@ + snapshot.state + ": "@ + snapshot.reason
            },
        )
    } else {
        ("Unknown"@, "SlurmJobUnknown"@, "Slurm job state is "@ + snapshot.state)
    };
    ConditionView {
        condition_type: "Ready"@,
        status,
        reason,
        message,
        last_transition_time: Seq::empty(),
    }
}

fn state_is_failed(state: &str) -> (r: bool)
    ensures
        r == is_failed(state@),
{
    text::same(state, "BOOT_FAIL") || text::same(state, "CANCELLED") || text::same(
        state,
        "DEADLINE",
    ) || text::same(state, "FAILED") || text::same(state, "NODE_FAIL") || text::same(
        state,
        "OUT_OF_MEMORY",
    ) || text::same(state, "PREEMPTED") || text::same(state, "REVOKED") || text::same(
        state,
        "SPECIAL_EXIT",
    ) || text::same(state, "TIMEOUT")
}

fn state_is_waiting(state: &str) -> (r: bool)
    ensures
        r == is_waiting(state@),
{
    text::same(state, "PENDING") || text::same(state, "CONFIGURING") || text::same(
        state,
        "COMPLETING",
    ) || text::same(state, "RESIZING") || text::same(state, "SIGNALING") || text::same(
        state,
        "SUSPENDED",
    )
}

fn condition(status: &str, reason: String, message: String) -> (r: DriverCondition)
    ensures
        r.deep_view() == (ConditionView {
            condition_type: "Ready"@,
            status: status@,
            reason: reason@,
            message: message@,
            last_transition_time: Seq::empty(),
        }),
{
    let last_transition_time = String::new();
    assert(last_transition_time@ =~= Seq::empty());
    DriverCondition {
        condition_type: "Ready".to_owned(),
        status: status.to_owned(),
        reason,
        message,
        last_transition_time,
    }
}

/// The condition of a sandbox whose job is in a given state.
pub fn condition_from_snapshot(snapshot: &SlurmJobSnapshot) -> (r: DriverCondition)
    ensures
        r.deep_view() == condition_of(snapshot.deep_view()),
{
    let upper = text::to_upper(snapshot.state.as_str());
    let state = upper.as_str();
    if state_is_failed(state) {
        condition(
            "False",
            cat2("Slurm", state),
            cat2("Slurm job ended with state ", snapshot.state.as_str()),
        )
    } else if text::same(state, "COMPLETED") {
        condition(
            "False",
            "SlurmCompleted".to_owned(),
            "Slurm job completed before the sandbox supervisor connected".to_owned(),
        )
    } else if text::same(state, "RUNNING") {
        condition(
            "False",
            "DependenciesNotReady".to_owned(),
            "Slurm job is running; waiting for supervisor session".to_owned(),
        )
    } else if state_is_waiting(state) {
        let message = if snapshot.reason.as_str().is_empty() {
            cat2("Slurm job is ", snapshot.state.as_str())
        } else {
            cat4("Slurm job is ", snapshot.state.as_str(), ": ", snapshot.reason.as_str())
        };
        condition("False", "DependenciesNotReady".to_owned(), message)
    } else {
        condition(
            "Unknown",
            "SlurmJobUnknown".to_owned(),
            cat2("Slurm job state is ", snapshot.state.as_str()),
        )
    }
}

/// No state of a job by itself makes a sandbox ready: that is for its supervisor.
pub proof fn law_no_job_state_is_ready(snapshot: SnapshotView)
    ensures
        condition_of(snapshot).condition_type == "Ready"@,
        condition_of(snapshot).status != "True"@,
{
    reveal_strlit("True");
    reveal_strlit("False");
    reveal_strlit("Unknown");
    assert("True"@.len() == 4);
    assert("False"@.len() == 5);
    assert("Unknown"@.len() == 7);
}

/// A job that has ended is not reported as one to wait for.
pub proof fn law_ended_jobs_are_not_awaited(snapshot: SnapshotView)
    requires
        is_failed(text::upper(snapshot.state)),
    ensures
        condition_of(snapshot).reason != "DependenciesNotReady"@,
        condition_of(snapshot).reason == "Slurm"@ + text::upper(snapshot.state),
{
    reveal_strlit("Slurm");
    reveal_strlit("DependenciesNotReady");
    let reason = "Slurm"@ + text::upper(snapshot.state);
    assert(reason[0] == 'S');
    assert("DependenciesNotReady"@[0] == 'D');
}

// ---------------------------------------------------------------------------
// The batch script's own notes
// ---------------------------------------------------------------------------

/// The value of a key among words of the form `key=value`: that of the last word
/// with the key.
pub open spec fn noted(words: Seq<Seq<char>>, key: Seq<char>) -> Option<Seq<char>>
    decreases words.len(),
{
    if words.len() == 0 {
        None
    } else {
        match text::split_once(words.last(), '=') {
            Some((name, value)) if name == key => Some(value),
            _ => noted(words.drop_last(), key),
        }
    }
}

/// The signed number that a text denotes, where it denotes one in range.
pub open spec fn number_of(s: Seq<char>) -> Option<i32> {
    let negative = s.len() > 0 && s[0] == '-';
    let digits = if s.len() > 0 && (s[0] == '-' || s[0] == '+') {
        s.skip(1)
    } else {
        s
    };
    if digits.len() == 0 || !text::all_digits(digits) {
        None
    } else {
        let value = if negative {
            -(text::digits_value(digits) as int)
        } else {
            text::digits_value(digits) as int
        };
        if i32::MIN <= value <= i32::MAX {
            Some(value as i32)
        } else {
            None
        }
    }
}

/// What the batch script wrote down.
pub open spec fn marker_of(content: Seq<char>) -> Option<LocalStatusMarker> {
    let words = text::words(content);
    let state = match noted(words, "state"@) {
        Some(value) => if value == "starting"@ {
            Some(LocalMarkerState::Starting)
        } else if value == "running"@ {
            Some(LocalMarkerState::Running)
        } else if value == "exited"@ {
            Some(LocalMarkerState::Exited)
        } else {
            None
        },
        None => None,
    };
    match state {
        None => None,
        Some(state) => Some(
            LocalStatusMarker {
                state,
                exit_code: match noted(words, "exit_code"@) {
                    Some(value) => number_of(value),
                    None => None,
                },
            },
        ),
    }
}

fn find_note(words: &Vec<String>, key: &str) -> (r: Option<String>)
    ensures
        r.deep_view() == noted(words.deep_view(), key@),
{
    let ghost list = words.deep_view();
    let mut n: usize = words.len();
    proof {
        assert(list.take(n as int) =~= list);
    }
    while n > 0
        invariant
            n <= words.len(),
            list == words.deep_view(),
            noted(list, key@) == noted(list.take(n as int), key@),
        decreases n,
    {
        proof {
            assert(list.take(n as int).last() == words@[n - 1]@);
            assert(list.take(n as int).drop_last() =~= list.take(n - 1));
        }
        if let Some((name, value)) = text::cut(words[n - 1].as_str(), '=') {
            if text::same(name, key) {
                return Some(value.to_owned());
            }
        }
        n -= 1;
    }
    None
}

/// The signed number that a text denotes.
pub fn parse_number(s: &str) -> (r: Option<i32>)
    ensures
        r == number_of(s@),
{
    let n = s.unicode_len();
    let mut negative = false;
    let mut digits = s;
    if n > 0 {
        let first = s.get_char(0);
        if first == '-' || first == '+' {
            negative = first == '-';
            digits = s.substring_char(1, n);
            assert(s@.subrange(1, n as int) =~= s@.skip(1));
        }
    }
    match text::parse_digits(digits) {
        Some(value) => {
            if negative {
                if value > 2147483648 {
                    None
                } else {
                    Some((-(value as i64)) as i32)
                }
            } else {
                if value > 2147483647 {
                    None
                } else {
                    Some(value as i32)
                }
            }
        },
        None => None,
    }
}

/// What the batch script wrote down, from the content of its status file.
pub fn read_status_marker(content: &str) -> (r: Option<LocalStatusMarker>)
    ensures
        r == marker_of(content@),
{
    let words = text::words_of(content);
    let state = match find_note(&words, "state") {
        Some(value) => {
            if text::same(value.as_str(), "starting") {
                LocalMarkerState::Starting
            } else if text::same(value.as_str(), "running") {
                LocalMarkerState::Running
            } else if text::same(value.as_str(), "exited") {
                LocalMarkerState::Exited
            } else {
                return None;
            }
        },
        None => {
            return None;
        },
    };
    let exit_code = match find_note(&words, "exit_code") {
        Some(value) => parse_number(value.as_str()),
        None => None,
    };
    Some(LocalStatusMarker { state, exit_code })
}

/// What the batch script's notes say of the job.
pub open spec fn noted_snapshot(marker: LocalStatusMarker) -> SnapshotView {
    match marker.state {
        LocalMarkerState::Starting => SnapshotView {
            state: "CONFIGURING"@,
            reason: "BatchScriptStarting"@,
        },
        LocalMarkerState::Running => SnapshotView { state: "RUNNING"@, reason: Seq::empty() },
        LocalMarkerState::Exited => match marker.exit_code {
            Some(code) => if code == 0 {
                SnapshotView { state: "COMPLETED"@, reason: Seq::empty() }
            } else {
                SnapshotView {
                    state: "FAILED"@,
                    reason: "ExitCode="@ + text::signed_decimal(code as int),
                }
            },
            None => SnapshotView { state: "FAILED"@, reason: Seq::empty() },
        },
    }
}

fn empty_text() -> (r: String)
    ensures
        r@ == Seq::<char>::empty(),
{
    let r = String::new();
    assert(r@ =~= Seq::empty());
    r
}

/// What the batch script's notes say of the job.
pub fn snapshot_from_marker(marker: LocalStatusMarker) -> (r: SlurmJobSnapshot)
    ensures
        r.deep_view() == noted_snapshot(marker),
{
    match marker.state {
        LocalMarkerState::Starting => SlurmJobSnapshot {
            state: "CONFIGURING".to_owned(),
            reason: "BatchScriptStarting".to_owned(),
        },
        LocalMarkerState::Running => SlurmJobSnapshot {
            state: "RUNNING".to_owned(),
            reason: empty_text(),
        },
        LocalMarkerState::Exited => match marker.exit_code {
            Some(code) => {
                if code == 0 {
                    SlurmJobSnapshot { state: "COMPLETED".to_owned(), reason: empty_text() }
                } else {
                    let number = text::signed_decimal_of(code as i64);
                    SlurmJobSnapshot {
                        state: "FAILED".to_owned(),
                        reason: cat2("ExitCode=", number.as_str()),
                    }
                }
            },
            None => SlurmJobSnapshot { state: "FAILED".to_owned(), reason: empty_text() },
        },
    }
}

/// What is known of a job: what the queue says, or else its batch script, or else
/// the accounts.
pub open spec fn known(
    queue: Option<SnapshotView>,
    marker: Option<LocalStatusMarker>,
    account: Option<SnapshotView>,
) -> SnapshotView {
    match queue {
        Some(snapshot) => snapshot,
        None => match marker {
            Some(marker) => noted_snapshot(marker),
            None => match account {
                Some(snapshot) => snapshot,
                None => SnapshotView { state: "UNKNOWN"@, reason: "SlurmJobUnknown"@ },
            },
        },
    }
}

/// What is known of a job, from the three that can know it.
pub fn job_snapshot(
    queue: Option<SlurmJobSnapshot>,
    marker: Option<LocalStatusMarker>,
    account: Option<SlurmJobSnapshot>,
) -> (r: SlurmJobSnapshot)
    ensures
        r.deep_view() == known(queue.deep_view(), marker, account.deep_view()),
{
    if let Some(snapshot) = queue {
        return snapshot;
    }
    if let Some(marker) = marker {
        return snapshot_from_marker(marker);
    }
    if let Some(snapshot) = account {
        return snapshot;
    }
    SlurmJobSnapshot { state: "UNKNOWN".to_owned(), reason: "SlurmJobUnknown".to_owned() }
}

/// Who is to be asked about a job next, or what is known of it.
#[derive(Debug, PartialEq, Eq)]
pub enum Inquiry {
    Queue,
    Marker,
    Account,
    Known(SlurmJobSnapshot),
}

/// The content of an inquiry.
pub enum InquiryView {
    Queue,
    Marker,
    Account,
    Known(SnapshotView),
}

impl DeepView for Inquiry {
    type V = InquiryView;

    open spec fn deep_view(&self) -> InquiryView {
        match self {
            Inquiry::Queue => InquiryView::Queue,
            Inquiry::Marker => InquiryView::Marker,
            Inquiry::Account => InquiryView::Account,
            Inquiry::Known(snapshot) => InquiryView::Known(snapshot.deep_view()),
        }
    }
}

/// How an inquiry goes on with the answers so far: the queue is asked first, the batch
/// script's marker is read where the queue does not know the job, and the accounts are
/// asked where there is no marker.
pub open spec fn inquiry_of(
    queue: Option<Option<SnapshotView>>,
    marker: Option<Option<LocalStatusMarker>>,
    account: Option<Option<SnapshotView>>,
) -> InquiryView {
    match queue {
        None => InquiryView::Queue,
        Some(Some(snapshot)) => InquiryView::Known(known(Some(snapshot), None, None)),
        Some(None) => match marker {
            None => InquiryView::Marker,
            Some(Some(noted)) => InquiryView::Known(known(None, Some(noted), None)),
            Some(None) => match account {
                None => InquiryView::Account,
                Some(answer) => InquiryView::Known(known(None, None, answer)),
            },
        },
    }
}

/// How an inquiry about a job goes on with the answers so far. An answer that is not
/// there yet is `None`, and one that does not know the job `Some(None)`.
pub fn inquire(
    queue: Option<Option<SlurmJobSnapshot>>,
    marker: Option<Option<LocalStatusMarker>>,
    account: Option<Option<SlurmJobSnapshot>>,
) -> (r: Inquiry)
    ensures
        r.deep_view() == inquiry_of(queue.deep_view(), marker, account.deep_view()),
{
    match queue {
        None => Inquiry::Queue,
        Some(Some(snapshot)) => Inquiry::Known(job_snapshot(Some(snapshot), None, None)),
        Some(None) => match marker {
            None => Inquiry::Marker,
            Some(Some(noted)) => Inquiry::Known(job_snapshot(None, Some(noted), None)),
            Some(None) => match account {
                None => Inquiry::Account,
                Some(answer) => Inquiry::Known(job_snapshot(None, None, answer)),
            },
        },
    }
}

/// The sandbox of a job.
pub open spec fn sandbox_of(state: StateView, snapshot: SnapshotView) -> SandboxView {
    SandboxView {
        id: state.sandbox_id,
        name: state.sandbox_name,
        namespace: Seq::empty(),
        spec: None,
        status: Some(
            SandboxStatusView {
                sandbox_name: state.job_name,
                instance_id: state.job_id,
                agent_fd: Seq::empty(),
                sandbox_fd: Seq::empty(),
                conditions: seq![condition_of(snapshot)],
                deleting: false,
            },
        ),
    }
}

/// The sandbox of a job, from what the driver keeps of it and what is known of the
/// job.
pub fn sandbox_from_state(state: &SlurmSandboxState, snapshot: &SlurmJobSnapshot) -> (r:
    DriverSandbox)
    ensures
        r.deep_view() == sandbox_of(state.deep_view(), snapshot.deep_view()),
{
    let mut conditions: Vec<DriverCondition> = Vec::new();
    conditions.push(condition_from_snapshot(snapshot));
    assert(conditions.deep_view() =~= seq![condition_of(snapshot.deep_view())]);
    DriverSandbox {
        id: state.sandbox_id.clone(),
        name: state.sandbox_name.clone(),
        namespace: empty_text(),
        spec: None,
        status: Some(
            DriverSandboxStatus {
                sandbox_name: state.job_name.clone(),
                instance_id: state.job_id.clone(),
                agent_fd: empty_text(),
                sandbox_fd: empty_text(),
                conditions,
                deleting: false,
            },
        ),
    }
}

/// A script that exited with code 0 is a completed job, and one that exited with
/// another code is a failed one.
pub proof fn law_exit_codes_are_reported(code: i32)
    ensures
        code == 0 ==> noted_snapshot(
            LocalStatusMarker { state: LocalMarkerState::Exited, exit_code: Some(code) },
        ).state == "COMPLETED"@,
        code != 0 ==> is_failed(
            noted_snapshot(
                LocalStatusMarker { state: LocalMarkerState::Exited, exit_code: Some(code) },
            ).state,
        ),
{
}

// ---------------------------------------------------------------------------
// Events
// ---------------------------------------------------------------------------

/// What watchers are told of a sandbox.
pub fn sandbox_event(sandbox: DriverSandbox) -> (r: WatchSandboxesEvent)
    ensures
        r.deep_view() == WatchView::Sandbox(sandbox.deep_view()),
{
    WatchSandboxesEvent::Sandbox(sandbox)
}

/// What watchers are told of something that happened at a given time.
pub fn platform_event(
    sandbox_id: &str,
    event_type: &str,
    reason: &str,
    message: String,
    metadata: Vec<(String, String)>,
    now_ms: i64,
) -> (r: WatchSandboxesEvent)
    ensures
        r.deep_view() == (WatchView::PlatformEvent {
            sandbox_id: sandbox_id@,
            event: PlatformEventView {
                timestamp_ms: now_ms,
                source: "slurm"@,
                event_type: event_type@,
                reason: reason@,
                message: message@,
                metadata: metadata.deep_view(),
            },
        }),
{
    WatchSandboxesEvent::PlatformEvent {
        sandbox_id: sandbox_id.to_owned(),
        event: DriverPlatformEvent {
            timestamp_ms: now_ms,
            source: "slurm".to_owned(),
            event_type: event_type.to_owned(),
            reason: reason.to_owned(),
            message,
            metadata,
        },
    }
}

/// What watchers are told of something that happened to a job.
pub open spec fn job_event(
    sandbox_id: Seq<char>,
    reason: Seq<char>,
    message: Seq<char>,
    job_id: Seq<char>,
    now_ms: i64,
) -> WatchView {
    WatchView::PlatformEvent {
        sandbox_id,
        event: PlatformEventView {
            timestamp_ms: now_ms,
            source: "slurm"@,
            event_type: "Normal"@,
            reason,
            message,
            metadata: seq![("job_id"@, job_id)],
        },
    }
}

/// What watchers are told of something that happened to a job.
pub fn job_platform_event(
    sandbox_id: &str,
    reason: &str,
    message: String,
    job_id: &str,
    now_ms: i64,
) -> (r: WatchSandboxesEvent)
    ensures
        r.deep_view() == job_event(sandbox_id@, reason@, message@, job_id@, now_ms),
{
    let mut metadata: Vec<(String, String)> = Vec::new();
    metadata.push(("job_id".to_owned(), job_id.to_owned()));
    assert(metadata.deep_view() =~= seq![("job_id"@, job_id@)]);
    platform_event(sandbox_id, "Normal", reason, message, metadata, now_ms)
}

// ---------------------------------------------------------------------------
// Order
// ---------------------------------------------------------------------------

impl Named for SlurmSandboxState {
    open spec fn name_in(content: StateView) -> Seq<char> {
        content.sandbox_name
    }

    open spec fn id_in(content: StateView) -> Seq<char> {
        content.sandbox_id
    }

    fn listed_name(&self) -> (r: &str) {
        self.sandbox_name.as_str()
    }

    fn listed_id(&self) -> (r: &str) {
        self.sandbox_id.as_str()
    }
}

impl Named for DriverSandbox {
    open spec fn name_in(content: SandboxView) -> Seq<char> {
        content.name
    }

    open spec fn id_in(content: SandboxView) -> Seq<char> {
        content.id
    }

    fn listed_name(&self) -> (r: &str) {
        self.name.as_str()
    }

    fn listed_id(&self) -> (r: &str) {
        self.id.as_str()
    }
}

/// What the driver keeps of its sandboxes, in order.
pub fn list_states(found: Vec<SlurmSandboxState>) -> (r: Vec<SlurmSandboxState>)
    ensures
        r.deep_view() == in_order::<SlurmSandboxState>(found.deep_view()),
{
    sort(found)
}

/// Sandboxes in order.
pub fn list_sandboxes(found: Vec<DriverSandbox>) -> (r: Vec<DriverSandbox>)
    ensures
        r.deep_view() == in_order::<DriverSandbox>(found.deep_view()),
{
    sort(found)
}

/// The first of some states with a given name.
pub open spec fn first_named(states: Seq<StateView>, name: Seq<char>) -> Option<StateView>
    decreases states.len(),
{
    if states.len() == 0 {
        None
    } else if states[0].sandbox_name == name {
        Some(states[0])
    } else {
        first_named(states.skip(1), name)
    }
}

/// The first of some states with a given name.
pub fn find_state_by_name<'a>(states: &'a Vec<SlurmSandboxState>, sandbox_name: &str) -> (r: Option<
    &'a SlurmSandboxState,
>)
    ensures
        match r {
            Some(state) => first_named(states.deep_view(), sandbox_name@) == Some(
                state.deep_view(),
            ),
            None => first_named(states.deep_view(), sandbox_name@) is None,
        },
{
    let ghost list = states.deep_view();
    let mut i: usize = 0;
    proof {
        assert(list.skip(0) =~= list);
    }
    while i < states.len()
        invariant
            i <= states.len(),
            list == states.deep_view(),
            first_named(list, sandbox_name@) == first_named(list.skip(i as int), sandbox_name@),
        decreases states.len() - i,
    {
        proof {
            assert(list.skip(i as int)[0] == states@[i as int].deep_view());
            assert(list.skip(i as int).skip(1) =~= list.skip(i + 1));
        }
        if text::same(states[i].sandbox_name.as_str(), sandbox_name) {
            return Some(&states[i]);
        }
        i += 1;
    }
    None
}

} // verus!
