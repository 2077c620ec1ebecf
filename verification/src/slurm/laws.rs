//! What is reported of sandboxes that run as jobs, and what their jobs are given.

use crate::ordered;
use crate::paths::joined_path;
use crate::slurm::config::{has_tls, tls_verdict, ConfigView};
use crate::slurm::driver::{
    cancel_outcome, creation_dir, deletion_dir, dir_of, lookup_of, prepared, submission_outcome,
    LookupView,
};
use crate::slurm::environment::{
    env_file, environment_of, imposed, requested, with_variables, NamesView,
};
use crate::slurm::jobs::{
    account_answer, accounted, condition_of, error_text, known, marker_of, noted, queue_answer,
    queued, sandbox_of, says_not_found, submitted_job, LocalMarkerState, LocalStatusMarker,
    OutputView, SnapshotView, StateView, WatchView,
};
use crate::slurm::sandbox::{
    env_name_verdict, env_value_verdict, first_filled, image_of, is_path_id, job_resources,
    path_id_verdict, unit_of, DriverErrorView, JobResourcesView, SandboxView, TextMap,
};
use crate::slurm::script::{apptainer_args, job_name_of, script_of, srun_args, submission};
use crate::text;
use vstd::prelude::*;

verus! {

// ---------------------------------------------------------------------------
// Conditions
// ---------------------------------------------------------------------------

/// The state is one of the ten in which a job ended without success.
spec fn ended_badly(state: Seq<char>) -> bool {
    state == "BOOT_FAIL"@ || state == "CANCELLED"@ || state == "DEADLINE"@ || state == "FAILED"@
        || state == "NODE_FAIL"@ || state == "OUT_OF_MEMORY"@ || state == "PREEMPTED"@ || state
        == "REVOKED"@ || state == "SPECIAL_EXIT"@ || state == "TIMEOUT"@
}

proof fn lemma_states()
    ensures
        !ended_badly("COMPLETED"@),
        !ended_badly("RUNNING"@),
        !ended_badly("PENDING"@),
        !ended_badly("CONFIGURING"@),
        !ended_badly("COMPLETING"@),
        !ended_badly("RESIZING"@),
        !ended_badly("SIGNALING"@),
        !ended_badly("SUSPENDED"@),
        "COMPLETED"@ != "RUNNING"@,
        "COMPLETED"@ != "PENDING"@,
        "COMPLETED"@ != "CONFIGURING"@,
        "COMPLETED"@ != "COMPLETING"@,
        "COMPLETED"@ != "RESIZING"@,
        "COMPLETED"@ != "SIGNALING"@,
        "COMPLETED"@ != "SUSPENDED"@,
        "RUNNING"@ != "PENDING"@,
        "RUNNING"@ != "CONFIGURING"@,
        "RUNNING"@ != "COMPLETING"@,
        "RUNNING"@ != "RESIZING"@,
        "RUNNING"@ != "SIGNALING"@,
        "RUNNING"@ != "SUSPENDED"@,
{
    reveal_strlit("BOOT_FAIL");
    reveal_strlit("CANCELLED");
    reveal_strlit("DEADLINE");
    reveal_strlit("FAILED");
    reveal_strlit("NODE_FAIL");
    reveal_strlit("OUT_OF_MEMORY");
    reveal_strlit("PREEMPTED");
    reveal_strlit("REVOKED");
    reveal_strlit("SPECIAL_EXIT");
    reveal_strlit("TIMEOUT");
    reveal_strlit("COMPLETED");
    reveal_strlit("RUNNING");
    reveal_strlit("PENDING");
    reveal_strlit("CONFIGURING");
    reveal_strlit("COMPLETING");
    reveal_strlit("RESIZING");
    reveal_strlit("SIGNALING");
    reveal_strlit("SUSPENDED");
    assert("BOOT_FAIL"@.len() == 9 && "BOOT_FAIL"@[0] == 'B');
    assert("CANCELLED"@.len() == 9 && "CANCELLED"@[0] == 'C' && "CANCELLED"@[1] == 'A');
    assert("DEADLINE"@.len() == 8 && "DEADLINE"@[0] == 'D');
    assert("FAILED"@.len() == 6);
    assert("NODE_FAIL"@.len() == 9 && "NODE_FAIL"@[0] == 'N');
    assert("OUT_OF_MEMORY"@.len() == 13);
    assert("PREEMPTED"@.len() == 9 && "PREEMPTED"@[0] == 'P');
    assert("REVOKED"@.len() == 7 && "REVOKED"@[0] == 'R' && "REVOKED"@[1] == 'E');
    assert("SPECIAL_EXIT"@.len() == 12);
    assert("TIMEOUT"@.len() == 7 && "TIMEOUT"@[0] == 'T');
    assert("COMPLETED"@.len() == 9 && "COMPLETED"@[0] == 'C' && "COMPLETED"@[1] == 'O');
    assert("RUNNING"@.len() == 7 && "RUNNING"@[0] == 'R' && "RUNNING"@[1] == 'U');
    assert("PENDING"@.len() == 7 && "PENDING"@[0] == 'P');
    assert("CONFIGURING"@.len() == 11);
    assert("COMPLETING"@.len() == 10);
    assert("RESIZING"@.len() == 8 && "RESIZING"@[0] == 'R');
    assert("SIGNALING"@.len() == 9 && "SIGNALING"@[0] == 'S');
    assert("SUSPENDED"@.len() == 9 && "SUSPENDED"@[0] == 'S');
}

/// A job that has not ended is reported as one to wait for, with the reason that Slurm
/// gives: one in the states PENDING, CONFIGURING, COMPLETING, RESIZING, SIGNALING and
/// SUSPENDED, and one that runs, in whatever case the state is written.
pub proof fn law_unfinished_jobs_are_awaited(snapshot: SnapshotView)
    ensures
        ({
            let state = text::upper(snapshot.state);
            let condition = condition_of(snapshot);
            &&& (state == "PENDING"@ || state == "CONFIGURING"@ || state == "COMPLETING"@ || state
                == "RESIZING"@ || state == "SIGNALING"@ || state == "SUSPENDED"@) ==> {
                &&& condition.condition_type == "Ready"@
                &&& condition.status == "False"@
                &&& condition.reason == "DependenciesNotReady"@
                &&& snapshot.reason.len() == 0 ==> condition.message == "Slurm job is "@
                    + snapshot.state
                &&& snapshot.reason.len() > 0 ==> condition.message == "Slurm job is "@
                    + snapshot.state + ": "@ + snapshot.reason
            }
            &&& state == "RUNNING"@ ==> {
                &&& condition.condition_type == "Ready"@
                &&& condition.status == "False"@
                &&& condition.reason == "DependenciesNotReady"@
                &&& condition.message == "Slurm job is running; waiting for supervisor session"@
            }
        }),
{
    lemma_states();
}

/// A job that ended is reported as ended: without success in the ten states of failure,
/// each with its state for a reason, and too early where it completed. A job is reported as
/// ended in no other state, and what is said of any other state is that it is unknown.
pub proof fn law_ended_jobs_are_reported(snapshot: SnapshotView)
    ensures
        ({
            let state = text::upper(snapshot.state);
            let condition = condition_of(snapshot);
            let failed = state == "BOOT_FAIL"@ || state == "CANCELLED"@ || state == "DEADLINE"@
                || state == "FAILED"@ || state == "NODE_FAIL"@ || state == "OUT_OF_MEMORY"@
                || state == "PREEMPTED"@ || state == "REVOKED"@ || state == "SPECIAL_EXIT"@
                || state == "TIMEOUT"@;
            let awaited = state == "RUNNING"@ || state == "PENDING"@ || state == "CONFIGURING"@
                || state == "COMPLETING"@ || state == "RESIZING"@ || state == "SIGNALING"@
                || state == "SUSPENDED"@;
            &&& failed ==> condition.status == "False"@ && condition.reason == "Slurm"@ + state
                && condition.message == "Slurm job ended with state "@ + snapshot.state
            &&& state == "COMPLETED"@ ==> condition.status == "False"@ && condition.reason
                == "SlurmCompleted"@
            &&& !failed && !awaited && state != "COMPLETED"@ ==> condition.status == "Unknown"@
                && condition.reason == "SlurmJobUnknown"@ && condition.message
                == "Slurm job state is "@ + snapshot.state
            &&& condition.reason == "DependenciesNotReady"@ <==> awaited
            &&& condition.reason == "Slurm"@ + state <==> failed
        }),
{
    lemma_states();
    let state = text::upper(snapshot.state);
    reveal_strlit("Slurm");
    reveal_strlit("SlurmCompleted");
    reveal_strlit("SlurmJobUnknown");
    reveal_strlit("DependenciesNotReady");
    let whole = "Slurm"@ + state;
    assert(whole[0] == 'S');
    assert("DependenciesNotReady"@[0] == 'D');
    assert("SlurmCompleted"@[0] == 'S' && "SlurmCompleted"@[6] == 'o');
    assert("SlurmJobUnknown"@[0] == 'S' && "SlurmJobUnknown"@[6] == 'o');
    if state.len() > 1 {
        assert(whole[6] == state[1]);
        assert(state[1] == text::upper_char(snapshot.state[1]));
        assert(state[1] != 'o');
    } else {
        assert(whole.len() <= 6);
    }
}

/// The sandbox of a job has the identity and the name that the driver keeps, the job's
/// identity and name, and the one condition that its job's state stands for.
pub proof fn law_sandboxes_of_jobs(state: StateView, snapshot: SnapshotView)
    ensures
        ({
            let sandbox = sandbox_of(state, snapshot);
            &&& sandbox.id == state.sandbox_id
            &&& sandbox.name == state.sandbox_name
            &&& sandbox.status matches Some(status) && status.instance_id == state.job_id
                && status.sandbox_name == state.job_name && status.conditions.len() == 1
                && status.conditions[0] == condition_of(snapshot) && !status.deleting
        }),
{
}

/// What the queue says of a job counts before what its script wrote down, and that before
/// what the accounts say. A job that none of them knows is in an unknown state.
pub proof fn law_sources_of_knowledge(
    queue: Option<SnapshotView>,
    marker: Option<LocalStatusMarker>,
    account: Option<SnapshotView>,
)
    ensures
        queue matches Some(snapshot) ==> known(queue, marker, account) == snapshot,
        queue is None && marker is Some ==> {
            let said = known(queue, marker, account);
            &&& marker->0.state == LocalMarkerState::Starting ==> said.state == "CONFIGURING"@
            &&& marker->0.state == LocalMarkerState::Running ==> said.state == "RUNNING"@
            &&& marker->0.state == LocalMarkerState::Exited && marker->0.exit_code == Some(0i32)
                ==> said.state == "COMPLETED"@
            &&& marker->0.state == LocalMarkerState::Exited && marker->0.exit_code != Some(0i32)
                ==> said.state == "FAILED"@
            &&& marker->0.state == LocalMarkerState::Exited ==> (marker->0.exit_code matches Some(
                code,
            ) ==> code != 0 ==> said.reason == "ExitCode="@ + text::signed_decimal(code as int))
        },
        queue is None && marker is None ==> (account matches Some(snapshot) ==> known(
            queue,
            marker,
            account,
        ) == snapshot),
        queue is None && marker is None && account is None ==> known(queue, marker, account).state
            == "UNKNOWN"@,
{
}

/// The last of the notes with a key counts, and notes with other keys do not.
pub proof fn law_notes(words: Seq<Seq<char>>, word: Seq<char>, key: Seq<char>)
    ensures
        text::split_once(word, '=') matches Some((name, value)) ==> {
            &&& name == key ==> noted(words.push(word), key) == Some(value)
            &&& name != key ==> noted(words.push(word), key) == noted(words, key)
        },
        text::split_once(word, '=') is None ==> noted(words.push(word), key) == noted(words, key),
{
    assert(words.push(word).drop_last() =~= words);
    assert(words.push(word).last() == word);
}

/// A script's notes are read where they name one of three states.
pub proof fn law_markers(content: Seq<char>)
    ensures
        ({
            let state = noted(text::words(content), "state"@);
            &&& marker_of(content) is Some <==> state == Some("starting"@) || state == Some(
                "running"@,
            ) || state == Some("exited"@)
            &&& marker_of(content) matches Some(marker) ==> {
                &&& marker.state == LocalMarkerState::Starting <==> state == Some("starting"@)
                &&& marker.state == LocalMarkerState::Running <==> state == Some("running"@)
                &&& marker.state == LocalMarkerState::Exited <==> state == Some("exited"@)
                &&& noted(text::words(content), "exit_code"@) is None ==> marker.exit_code is None
            }
        }),
{
    reveal_strlit("starting");
    reveal_strlit("running");
    reveal_strlit("exited");
    assert("starting"@.len() == 8 && "running"@.len() == 7 && "exited"@.len() == 6);
}

/// A line of the queue gives the state before its first bar and the reason behind it.
pub proof fn law_queue_lines(state: Seq<char>, reason: Seq<char>)
    requires
        !state.contains('|'),
    ensures
        queued(state + "|"@ + reason).state == text::trimmed(state),
        queued(state + "|"@ + reason).reason == text::trimmed(reason),
{
    reveal_strlit("|");
    let line = state + "|"@ + reason;
    text::lemma_first_index(line, '|');
    assert(line[state.len() as int] == '|');
    assert forall|i: int| 0 <= i < state.len() implies #[trigger] line[i] != '|' by {
        assert(state.contains(state[i]));
    }
    assert(line.take(state.len() as int) =~= state);
    assert(line.skip(state.len() as int + 1) =~= reason);
}

/// What the accounts say is what a line for that very job says: its state, and its reason
/// where it has one. Nothing is taken from a command that failed.
pub proof fn law_account_lines(output: OutputView, job_id: Seq<char>)
    ensures
        account_answer(output, job_id) matches Some(snapshot) ==> output.status == Some(0i32)
            && exists|i: int| {
            let parts = text::split(#[trigger] text::lines(output.stdout)[i], '|');
            &&& 0 <= i < text::lines(output.stdout).len()
            &&& parts.len() >= 2
            &&& text::trimmed(parts[0]) == job_id
            &&& snapshot.state == text::trimmed(parts[1])
            &&& parts.len() > 2 ==> snapshot.reason == text::trimmed(parts[2])
        },
        output.status != Some(0i32) ==> account_answer(output, job_id) is None,
        output.status != Some(0i32) ==> queue_answer(output, job_id) is Err,
        output.status == Some(0i32) ==> queue_answer(output, job_id) is Ok,
{
    if output.status == Some(0i32) {
        lemma_accounted(text::lines(output.stdout), job_id);
    }
}

proof fn lemma_accounted(lines: Seq<Seq<char>>, job_id: Seq<char>)
    ensures
        accounted(lines, job_id) matches Some(snapshot) ==> exists|i: int| {
            let parts = text::split(#[trigger] lines[i], '|');
            &&& 0 <= i < lines.len()
            &&& parts.len() >= 2
            &&& text::trimmed(parts[0]) == job_id
            &&& snapshot.state == text::trimmed(parts[1])
            &&& parts.len() > 2 ==> snapshot.reason == text::trimmed(parts[2])
        },
    decreases lines.len(),
{
    if lines.len() > 0 {
        let rest = lines.skip(1);
        lemma_accounted(rest, job_id);
        let parts = text::split(lines[0], '|');
        if !(parts.len() >= 2 && text::trimmed(parts[0]) == job_id) && accounted(lines, job_id)
            is Some {
            let snapshot = accounted(lines, job_id)->0;
            let i = choose|i: int| {
                let parts = text::split(#[trigger] rest[i], '|');
                &&& 0 <= i < rest.len()
                &&& parts.len() >= 2
                &&& text::trimmed(parts[0]) == job_id
                &&& snapshot.state == text::trimmed(parts[1])
                &&& parts.len() > 2 ==> snapshot.reason == text::trimmed(parts[2])
            };
            assert(lines[i + 1] == rest[i]);
        }
    }
}

// ---------------------------------------------------------------------------
// Commands
// ---------------------------------------------------------------------------

/// A job is gone where the command says so in one of four ways, in whatever case.
pub proof fn law_missing_jobs(output: OutputView)
    ensures
        ({
            let said = text::lower(output.stdout + output.stderr);
            says_not_found(output) <==> text::contains_text(said, "invalid job id"@)
                || text::contains_text(said, "unknown job id"@) || text::contains_text(
                said,
                "not found"@,
            ) || text::contains_text(said, "already completed"@)
        }),
{
}

/// A cancellation succeeds where the command does, and where the job is gone already. It is
/// told of the sandbox and the job that were cancelled.
pub proof fn law_cancellations(state: StateView, output: OutputView, now_ms: i64)
    ensures
        cancel_outcome(state, output, now_ms) is Ok <==> output.status == Some(0i32)
            || says_not_found(output),
        cancel_outcome(state, output, now_ms) matches Ok(told) ==> (told
            matches WatchView::PlatformEvent { sandbox_id, event } && sandbox_id
            == state.sandbox_id && event.timestamp_ms == now_ms && event.reason == "Cancelled"@
            && event.source == "slurm"@ && event.event_type == "Normal"@ && event.metadata
            == seq![("job_id"@, state.job_id)]),
{
}

/// A failed command is quoted by what it printed as an error, or else by what it printed,
/// without the space around it.
pub proof fn law_command_errors(output: OutputView)
    ensures
        text::trimmed(output.stderr).len() > 0 ==> error_text(output) == text::trimmed(
            output.stderr,
        ),
        text::trimmed(output.stderr).len() == 0 && text::trimmed(output.stdout).len() > 0
            ==> error_text(output) == text::trimmed(output.stdout),
        text::trimmed(output.stderr).len() == 0 && text::trimmed(output.stdout).len() == 0
            ==> text::starts_with(error_text(output), "exit status "@),
{
    let start = "exit status "@;
    if text::trimmed(output.stderr).len() == 0 && text::trimmed(output.stdout).len() == 0 {
        assert(error_text(output).take(start.len() as int) =~= start);
    }
}

/// A submission succeeds exactly where the command does and names a job. The driver then
/// keeps that job under the sandbox's identity and name. The directory of the sandbox goes
/// only where the command failed: a job that cannot be named may still run in it.
pub proof fn law_submissions(
    sandbox: SandboxView,
    job_name: Seq<char>,
    output: OutputView,
    unreadable: Seq<char>,
    now_ms: i64,
)
    ensures
        match submission_outcome(sandbox, job_name, output, unreadable, now_ms) {
            Ok(submitted) => {
                &&& output.status == Some(0i32)
                &&& submitted_job(output.stdout) == Some(submitted.state.job_id)
                &&& submitted.state.sandbox_id == sandbox.id
                &&& submitted.state.sandbox_name == sandbox.name
                &&& submitted.state.job_name == job_name
                &&& submitted.state.created_at_ms == now_ms
            },
            Err(failure) => {
                &&& output.status != Some(0i32) || submitted_job(output.stdout) is None
                &&& failure.clean_up <==> output.status != Some(0i32)
            },
        },
{
}

// ---------------------------------------------------------------------------
// Names and places
// ---------------------------------------------------------------------------

/// An identity is accepted where it has 1 to 128 letters, digits, dots, underscores and
/// hyphens, and nothing else.
pub proof fn law_identities(value: Seq<char>)
    ensures
        path_id_verdict(value) is Ok <==> 1 <= value.len() <= 128 && forall|i: int|
            0 <= i < value.len() ==> {
                let c = #[trigger] value[i];
                ||| 'a' <= c && c <= 'z'
                ||| 'A' <= c && c <= 'Z'
                ||| '0' <= c && c <= '9'
                ||| c == '.'
                ||| c == '_'
                ||| c == '-'
            },
{
    if path_id_verdict(value) is Ok {
        assert forall|i: int| 0 <= i < value.len() implies ({
            let c = #[trigger] value[i];
            ||| 'a' <= c && c <= 'z'
            ||| 'A' <= c && c <= 'Z'
            ||| '0' <= c && c <= '9'
            ||| c == '.'
            ||| c == '_'
            ||| c == '-'
        }) by {
            assert(crate::slurm::sandbox::is_path_char(value[i]));
        }
    }
    if 1 <= value.len() <= 128 && forall|i: int|
        0 <= i < value.len() ==> {
            let c = #[trigger] value[i];
            ||| 'a' <= c && c <= 'z'
            ||| 'A' <= c && c <= 'Z'
            ||| '0' <= c && c <= '9'
            ||| c == '.'
            ||| c == '_'
            ||| c == '-'
        } {
        assert(is_path_id(value));
    }
}

/// The name of a variable is accepted where it begins with a letter or an underscore and
/// goes on with letters, digits and underscores. Its value may hold neither a line break
/// nor a NUL.
pub proof fn law_variables(name: Seq<char>, value: Seq<char>)
    ensures
        env_name_verdict(name) is Ok <==> name.len() > 0 && !('0' <= name[0] && name[0] <= '9')
            && forall|i: int|
            0 <= i < name.len() ==> {
                let c = #[trigger] name[i];
                ||| 'a' <= c && c <= 'z'
                ||| 'A' <= c && c <= 'Z'
                ||| '0' <= c && c <= '9'
                ||| c == '_'
            },
        env_value_verdict(name, value) is Ok <==> !value.contains('\n') && !value.contains('\0'),
{
}

/// A sandbox lives in the directory of its identity below the working directory, is looked
/// for there by its identity before it is looked for by its name, and is not created where
/// the directory exists.
pub proof fn law_places(
    sandbox: SandboxView,
    config: ConfigView,
    resources: Result<JobResourcesView, DriverErrorView>,
    sandbox_id: Seq<char>,
    sandbox_name: Seq<char>,
)
    ensures
        path_id_verdict(sandbox_id) is Ok ==> dir_of(config, sandbox_id) == Ok::<
            Seq<char>,
            DriverErrorView,
        >(joined_path(config.work_dir, sandbox_id)),
        path_id_verdict(sandbox_id) is Err ==> dir_of(config, sandbox_id) is Err && deletion_dir(
            config,
            sandbox_id,
        ) is Err,
        path_id_verdict(sandbox_id) is Ok ==> deletion_dir(config, sandbox_id) == dir_of(
            config,
            sandbox_id,
        ),
        path_id_verdict(sandbox_id) is Ok ==> lookup_of(config, sandbox_id, sandbox_name) == Ok::<
            LookupView,
            DriverErrorView,
        >(
            LookupView::StateFile(
                joined_path(joined_path(config.work_dir, sandbox_id), "state.json"@),
            ),
        ),
        sandbox_id.len() == 0 && sandbox_name.len() > 0 ==> lookup_of(
            config,
            sandbox_id,
            sandbox_name,
        ) == Ok::<LookupView, DriverErrorView>(LookupView::Name(sandbox_name)),
        sandbox_id.len() == 0 && sandbox_name.len() == 0 ==> lookup_of(
            config,
            sandbox_id,
            sandbox_name,
        ) is Err,
        creation_dir(sandbox, config, resources, true) is Err,
        creation_dir(sandbox, config, resources, false) matches Ok(dir) ==> dir == joined_path(
            config.work_dir,
            sandbox.id,
        ) && resources is Ok && sandbox.id.len() > 0,
{
}

/// A job's name begins with `openshell-`, and goes on with at most 48 characters for the
/// sandbox's name and at most 12 of its identity.
pub proof fn law_job_names(sandbox_name: Seq<char>, sandbox_id: Seq<char>)
    ensures
        text::starts_with(job_name_of(sandbox_name, sandbox_id), "openshell-"@),
        job_name_of(sandbox_name, sandbox_id).len() <= 71,
        sandbox_id.len() <= 12 ==> text::ends_with(
            job_name_of(sandbox_name, sandbox_id),
            "-"@ + sandbox_id,
        ),
        sandbox_name.len() <= 48 && sandbox_id.len() <= 12 && (forall|i: int|
            0 <= i < sandbox_name.len() ==> text::is_alphanumeric(#[trigger] sandbox_name[i])
                || sandbox_name[i] == '-' || sandbox_name[i] == '_' || sandbox_name[i] == '.')
            ==> job_name_of(sandbox_name, sandbox_id) == "openshell-"@ + sandbox_name + "-"@
            + sandbox_id,
{
    reveal_strlit("openshell-");
    reveal_strlit("openshell");
    reveal_strlit("-");
    let name = job_name_of(sandbox_name, sandbox_id);
    let start = "openshell-"@;
    assert("openshell"@ + "-"@ =~= start);
    assert(name.take(start.len() as int) =~= start);
    if sandbox_id.len() <= 12 {
        let end = "-"@ + sandbox_id;
        assert(name.skip(name.len() - end.len()) =~= end);
        let safe = Seq::new(
            sandbox_name.len(),
            |i: int| crate::slurm::script::job_char(sandbox_name[i]),
        );
        if sandbox_name.len() <= 48 && (forall|i: int|
            0 <= i < sandbox_name.len() ==> text::is_alphanumeric(#[trigger] sandbox_name[i])
                || sandbox_name[i] == '-' || sandbox_name[i] == '_' || sandbox_name[i] == '.') {
            assert(safe =~= sandbox_name);
            assert(name =~= start + sandbox_name + "-"@ + sandbox_id);
        }
    }
}

// ---------------------------------------------------------------------------
// Jobs
// ---------------------------------------------------------------------------

/// A job's files stand in its sandbox's directory: the environment that its script reads,
/// the script that is submitted, and the status that the script writes.
pub proof fn law_prepared_jobs(
    sandbox: SandboxView,
    config: ConfigView,
    dir: Seq<char>,
    resources: JobResourcesView,
    log_level: Seq<char>,
    names: NamesView,
)
    ensures
        prepared(sandbox, config, dir, resources, log_level, names) matches Ok(job) ==> {
            let image = image_of(sandbox, config);
            &&& job.env_path == joined_path(dir, "sandbox.env"@)
            &&& job.script_path == joined_path(dir, "run.sh"@)
            &&& job.job_name == job_name_of(sandbox.name, sandbox.id)
            &&& environment_of(sandbox, config, image, log_level, names) matches Ok(env)
                && job.env_content == env_file(env)
            &&& job.script == script_of(
                dir,
                job.env_path,
                joined_path(dir, "status.env"@),
                image,
                config,
            )
            &&& job.args.len() >= 12
            &&& job.args[0] == "--parsable"@
            &&& job.args[1] == "--job-name"@
            &&& job.args[2] == job.job_name
            &&& job.args.last() == job.script_path
        },
        prepared(sandbox, config, dir, resources, log_level, names) is Err <==> environment_of(
            sandbox,
            config,
            image_of(sandbox, config),
            log_level,
            names,
        ) is Err,
{
    if let Ok(job) = prepared(sandbox, config, dir, resources, log_level, names) {
        let list = submission(
            job.job_name,
            dir,
            job.script_path,
            resources,
            crate::slurm::driver::wants_gpu(sandbox),
            config,
        );
        assert(list[0] == "--parsable"@);
        assert(list[1] == "--job-name"@);
        assert(list[2] == job.job_name);
        assert(list.last() == job.script_path);
    }
}

/// What a job is given besides its script is what was asked for: cores, memory and one GPU
/// where one is wanted, and the partition, account, quality of service and time limit where
/// they are set.
pub proof fn law_submitted_arguments(
    job_name: Seq<char>,
    sandbox_dir: Seq<char>,
    script_path: Seq<char>,
    resources: JobResourcesView,
    gpu: bool,
    config: ConfigView,
)
    ensures
        ({
            let plain = ConfigView {
                partition: None,
                account: None,
                qos: None,
                time_limit: None,
                extra_sbatch_args: Seq::empty(),
                ..config
            };
            let first = seq![
                "--parsable"@,
                "--job-name"@,
                job_name,
                "--output"@,
                joined_path(sandbox_dir, "slurm-%j.out"@),
                "--error"@,
                joined_path(sandbox_dir, "slurm-%j.err"@),
                "--ntasks"@,
                "1"@,
                "--nodes"@,
                "1"@,
            ];
            let none = JobResourcesView { cpus_per_task: None, mem: None };
            &&& submission(job_name, sandbox_dir, script_path, none, false, plain) == first + seq![
                script_path,
            ]
            &&& submission(job_name, sandbox_dir, script_path, none, true, plain) == first + seq![
                "--gres"@,
                config.gpu_resource + ":1"@,
                script_path,
            ]
            &&& forall|cpus: u32|
                #![trigger text::decimal(cpus as nat)]
                submission(
                    job_name,
                    sandbox_dir,
                    script_path,
                    JobResourcesView { cpus_per_task: Some(cpus), mem: None },
                    false,
                    plain,
                ) == first + seq!["--cpus-per-task"@, text::decimal(cpus as nat), script_path]
            &&& forall|mem: Seq<char>|
                #![trigger mem.len()]
                submission(
                    job_name,
                    sandbox_dir,
                    script_path,
                    JobResourcesView { cpus_per_task: None, mem: Some(mem) },
                    false,
                    plain,
                ) == first + seq!["--mem"@, mem, script_path]
            &&& config.partition is Some && text::trimmed(config.partition->0).len() > 0
                ==> submission(
                job_name,
                sandbox_dir,
                script_path,
                none,
                false,
                ConfigView { partition: config.partition, ..plain },
            ) == first + seq!["--partition"@, config.partition->0, script_path]
            &&& config.account is Some && text::trimmed(config.account->0).len() > 0
                ==> submission(
                job_name,
                sandbox_dir,
                script_path,
                none,
                false,
                ConfigView { account: config.account, ..plain },
            ) == first + seq!["--account"@, config.account->0, script_path]
            &&& config.qos is Some && text::trimmed(config.qos->0).len() > 0 ==> submission(
                job_name,
                sandbox_dir,
                script_path,
                none,
                false,
                ConfigView { qos: config.qos, ..plain },
            ) == first + seq!["--qos"@, config.qos->0, script_path]
            &&& config.time_limit is Some && text::trimmed(config.time_limit->0).len() > 0
                ==> submission(
                job_name,
                sandbox_dir,
                script_path,
                none,
                false,
                ConfigView { time_limit: config.time_limit, ..plain },
            ) == first + seq!["--time"@, config.time_limit->0, script_path]
            &&& submission(
                job_name,
                sandbox_dir,
                script_path,
                none,
                false,
                ConfigView { extra_sbatch_args: config.extra_sbatch_args, ..plain },
            ) == first + config.extra_sbatch_args + seq![script_path]
        }),
{
}

/// The variables that the driver sets: who the sandbox is, where the gateway is, how its
/// supervisor is reached, what it runs, its image, the path of programs, and the paths of
/// the TLS files where there are any.
pub proof fn law_imposed_values(
    sandbox: SandboxView,
    config: ConfigView,
    image: Seq<char>,
    log_level: Seq<char>,
    names: NamesView,
)
    ensures
        ({
            let set = imposed(sandbox, config, image, log_level, names);
            &&& set.contains((names.log_level, log_level))
            &&& set.contains((names.sandbox, sandbox.name))
            &&& set.contains((names.sandbox_id, sandbox.id))
            &&& set.contains((names.endpoint, config.grpc_endpoint))
            &&& set.contains((names.ssh_socket_path, config.sandbox_ssh_socket_path))
            &&& set.contains((names.ssh_handshake_secret, config.ssh_handshake_secret))
            &&& set.contains(
                (
                    names.ssh_handshake_skew_secs,
                    text::decimal(config.ssh_handshake_skew_secs as nat),
                ),
            )
            &&& set.contains((names.sandbox_command, "sleep infinity"@))
            &&& set.contains(("OPENSHELL_CONTAINER_IMAGE"@, image))
            &&& set.contains(
                ("PATH"@, "/usr/local/sbin:/usr/local/bin:/usr/sbin:/usr/bin:/sbin:/bin"@),
            )
            &&& config.guest_tls_ca is Some && config.guest_tls_cert is Some
                && config.guest_tls_key is Some ==> {
                &&& set.len() == 13
                &&& set.contains((names.tls_ca, "/etc/openshell/tls/client/ca.crt"@))
                &&& set.contains((names.tls_cert, "/etc/openshell/tls/client/tls.crt"@))
                &&& set.contains((names.tls_key, "/etc/openshell/tls/client/tls.key"@))
            }
            &&& config.guest_tls_ca is None || config.guest_tls_cert is None
                || config.guest_tls_key is None ==> set.len() == 10
        }),
{
    let set = imposed(sandbox, config, image, log_level, names);
    assert(set[0] == (names.log_level, log_level));
    assert(set[1] == (names.sandbox, sandbox.name));
    assert(set[2] == (names.sandbox_id, sandbox.id));
    assert(set[3] == (names.endpoint, config.grpc_endpoint));
    assert(set[4] == (names.ssh_socket_path, config.sandbox_ssh_socket_path));
    assert(set[5] == (names.ssh_handshake_secret, config.ssh_handshake_secret));
    assert(set[6] == (
        names.ssh_handshake_skew_secs,
        text::decimal(config.ssh_handshake_skew_secs as nat),
    ));
    assert(set[7] == (names.sandbox_command, "sleep infinity"@));
    assert(set[8] == ("OPENSHELL_CONTAINER_IMAGE"@, image));
    assert(set[9] == (
        "PATH"@,
        "/usr/local/sbin:/usr/local/bin:/usr/sbin:/usr/bin:/sbin:/bin"@,
    ));
    if has_tls(config) {
        assert(set[10] == (names.tls_ca, "/etc/openshell/tls/client/ca.crt"@));
        assert(set[11] == (names.tls_cert, "/etc/openshell/tls/client/tls.crt"@));
        assert(set[12] == (names.tls_key, "/etc/openshell/tls/client/tls.key"@));
    }
}

/// A list of variables is accepted exactly where each of them is valid. Then each variable has
/// the value that the list gives it last, and what the list does not name stays.
pub proof fn law_given_variables(env: TextMap, variables: TextMap, key: Seq<char>)
    requires
        ordered::is_map(env),
    ensures
        with_variables(env, variables) is Ok <==> (forall|i: int|
            0 <= i < variables.len() ==> env_name_verdict((#[trigger] variables[i]).0) is Ok
                && env_value_verdict(variables[i].0, variables[i].1) is Ok),
        with_variables(env, variables) matches Ok(given) ==> ordered::lookup(given, key)
            == ordered::lookup(ordered::put_all(env, variables), key),
    decreases variables.len(),
{
    if variables.len() > 0 {
        let before = variables.drop_last();
        let last = variables.len() - 1;
        law_given_variables(env, before, key);
        assert(variables[last] == variables.last());
        assert forall|i: int| 0 <= i < last implies before[i] == #[trigger] variables[i] by {}
        if with_variables(env, before) is Err {
            let k = choose|k: int|
                0 <= k < before.len() && !(env_name_verdict((#[trigger] before[k]).0) is Ok
                    && env_value_verdict(before[k].0, before[k].1) is Ok);
            assert(variables[k] == before[k]);
        } else {
            assert forall|i: int| 0 <= i < last implies env_name_verdict(
                (#[trigger] variables[i]).0,
            ) is Ok && env_value_verdict(variables[i].0, variables[i].1) is Ok by {
                assert(before[i] == variables[i]);
            }
            lemma_given_is_all(env, before);
        }
        if with_variables(env, variables) is Ok {
            lemma_given_is_all(env, variables);
        }
    }
}

proof fn lemma_given_is_all(env: TextMap, variables: TextMap)
    requires
        with_variables(env, variables) is Ok,
    ensures
        with_variables(env, variables)->Ok_0 == ordered::put_all(env, variables),
    decreases variables.len(),
{
    if variables.len() > 0 {
        lemma_given_is_all(env, variables.drop_last());
    }
}

/// What a template sets counts before what the sandbox itself sets.
pub proof fn law_templates_count_first(
    sandbox: SandboxView,
    names: NamesView,
    i: int,
)
    requires
        sandbox.spec is Some,
        sandbox.spec->0.template is Some,
        requested(sandbox, names) is Ok,
        0 <= i < sandbox.spec->0.template->0.environment.len(),
        forall|j: int|
            i < j < sandbox.spec->0.template->0.environment.len() ==> (
            #[trigger] sandbox.spec->0.template->0.environment[j]).0
                != sandbox.spec->0.template->0.environment[i].0,
    ensures
        ordered::lookup(
            requested(sandbox, names)->Ok_0,
            sandbox.spec->0.template->0.environment[i].0,
        ) == Some(sandbox.spec->0.template->0.environment[i].1),
{
    let spec = sandbox.spec->0;
    let wanted = spec.template->0.environment;
    let none = TextMap::empty();
    assert(ordered::is_map(none));
    ordered::law_put_map(none, names.log_level, spec.log_level);
    let first = if spec.log_level.len() > 0 {
        ordered::put(none, names.log_level, spec.log_level)
    } else {
        none
    };
    lemma_given_is_all(first, spec.environment);
    let env = ordered::put_all(first, spec.environment);
    ordered::law_put_all_map(first, spec.environment);
    lemma_given_is_all(env, wanted);
    ordered::law_put_all_lookup(env, wanted, wanted[i].0);
}

/// The container is started without the environment of the job, with the sandbox's own
/// environment file, and with the supervisor mounted read-only as what it runs. The image
/// stands before the supervisor, and both stand at the end.
pub proof fn law_containers(env_path: Seq<char>, image: Seq<char>, config: ConfigView)
    ensures
        ({
            let args = apptainer_args(env_path, image, config);
            let tls = config.guest_tls_ca is Some && config.guest_tls_cert is Some
                && config.guest_tls_key is Some;
            let n = args.len() as int;
            &&& args[0] == "exec"@
            &&& args[1] == "--cleanenv"@
            &&& args[2] == "--env-file"@
            &&& args[3] == env_path
            &&& args[4] == "--bind"@
            &&& args[5] == config.supervisor_bin + ":"@ + "/opt/openshell/bin/openshell-sandbox"@
                + ":ro"@
            &&& args[n - 2] == image
            &&& args[n - 1] == "/opt/openshell/bin/openshell-sandbox"@
            &&& n == (if tls {
                14int
            } else {
                8int
            }) + config.extra_apptainer_args.len()
            &&& tls ==> args[6] == "--bind"@ && args[7] == config.guest_tls_ca->0 + ":"@
                + "/etc/openshell/tls/client/ca.crt"@ + ":ro"@
            &&& tls ==> args[8] == "--bind"@ && args[9] == config.guest_tls_cert->0 + ":"@
                + "/etc/openshell/tls/client/tls.crt"@ + ":ro"@
            &&& tls ==> args[10] == "--bind"@ && args[11] == config.guest_tls_key->0 + ":"@
                + "/etc/openshell/tls/client/tls.key"@ + ":ro"@
            &&& args.subrange(n - 2 - config.extra_apptainer_args.len(), n - 2)
                == config.extra_apptainer_args
        }),
{
    let args = apptainer_args(env_path, image, config);
    let n = args.len() as int;
    assert(args.subrange(n - 2 - config.extra_apptainer_args.len(), n - 2)
        =~= config.extra_apptainer_args);
}

/// A job step runs one task, with the arguments that are configured.
pub proof fn law_steps(config: ConfigView)
    ensures
        srun_args(config).len() == config.extra_srun_args.len() + 1,
        srun_args(config)[0] == "--ntasks=1"@,
        srun_args(config).skip(1) == config.extra_srun_args,
{
    assert(srun_args(config).skip(1) =~= config.extra_srun_args);
}

/// A limit counts before a request, a blank one counts for nothing, and whole cores and
/// mebibytes are asked for.
pub proof fn law_amounts(
    limit: Seq<char>,
    request: Seq<char>,
    cpus: Option<Result<u32, DriverErrorView>>,
    mebibytes: Option<Result<u64, DriverErrorView>>,
)
    ensures
        text::trimmed(limit).len() > 0 ==> first_filled(limit, request) == Some(
            text::trimmed(limit),
        ),
        text::trimmed(limit).len() == 0 && text::trimmed(request).len() > 0 ==> first_filled(
            limit,
            request,
        ) == Some(text::trimmed(request)),
        text::trimmed(limit).len() == 0 && text::trimmed(request).len() == 0 ==> first_filled(
            limit,
            request,
        ) is None,
        match job_resources(cpus, mebibytes) {
            Ok(resources) => {
                &&& cpus is None ==> resources.cpus_per_task is None
                &&& cpus matches Some(Ok(count)) ==> resources.cpus_per_task == Some(count)
                &&& mebibytes is None ==> resources.mem is None
                &&& mebibytes matches Some(Ok(amount)) ==> resources.mem == Some(
                    text::decimal(amount as nat) + "M"@,
                )
                &&& !(cpus matches Some(Err(_)))
                &&& !(mebibytes matches Some(Err(_)))
            },
            Err(_) => (cpus matches Some(Err(_))) || (mebibytes matches Some(Err(_))),
        },
{
}

/// The suffixes of memory quantities, each with its base and power.
pub proof fn law_memory_units(suffix: Seq<char>)
    ensures
        unit_of(suffix) matches Ok((base, power)) ==> {
            ||| suffix.len() == 0 && base == 1
            ||| suffix == "Ki"@ && base == 1024 && power == 1
            ||| suffix == "Mi"@ && base == 1024 && power == 2
            ||| suffix == "Gi"@ && base == 1024 && power == 3
            ||| suffix == "Ti"@ && base == 1024 && power == 4
            ||| suffix == "K"@ && base == 1000 && power == 1
            ||| suffix == "k"@ && base == 1000 && power == 1
            ||| suffix == "M"@ && base == 1000 && power == 2
            ||| suffix == "G"@ && base == 1000 && power == 3
            ||| suffix == "T"@ && base == 1000 && power == 4
        },
        unit_of(suffix) is Ok <==> suffix.len() == 0 || suffix == "Ki"@ || suffix == "Mi"@
            || suffix == "Gi"@ || suffix == "Ti"@ || suffix == "K"@ || suffix == "k"@ || suffix
            == "M"@ || suffix == "G"@ || suffix == "T"@,
{
    reveal_strlit("");
    if suffix.len() == 0 {
        assert(suffix =~= ""@);
    }
}

/// The TLS files of a configuration are set together or not at all.
pub proof fn law_tls_settings(config: ConfigView)
    ensures
        tls_verdict(config) is Ok <==> (config.guest_tls_ca is Some <==> config.guest_tls_cert
            is Some) && (config.guest_tls_cert is Some <==> config.guest_tls_key is Some),
{
}

} // verus!
