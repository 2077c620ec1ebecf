//! What the driver needs before it starts, which sandboxes it accepts, and how it asks for
//! their jobs.

use crate::slurm::config::ConfigView;
use crate::slurm::driver::{
    command_verdict, commands_of, executable_verdict, preflight_verdict, readable_verdict,
    wants_gpu, FileFacts, FilesView,
};
use crate::slurm::jobs::{
    first_line, first_named, inquiry_of, job_event, known, number_of, sacct_args_of, squeue_args_of,
    InquiryView, LocalStatusMarker, OutputView, SnapshotView, StateView, WatchView,
};
use crate::slurm::sandbox::{
    cpu_parts, cpu_text, env_name_verdict, first_bad_name, first_filled, image_of, memory_parts,
    memory_text, path_id_verdict, resources_of, shape_problem, SandboxView, TextMap,
};
use crate::text;
use vstd::prelude::*;

verus! {

// ---------------------------------------------------------------------------
// Before the start
// ---------------------------------------------------------------------------

/// A file is readable where it is a file, and executable where it may also be run.
pub proof fn law_files(
    path: Seq<char>,
    label: Seq<char>,
    facts: Result<FileFacts, Seq<char>>,
)
    ensures
        readable_verdict(path, label, facts) is Ok <==> (facts matches Ok(found) && found.is_file),
        executable_verdict(path, label, facts) is Ok <==> (facts matches Ok(found) && found.is_file
            && found.is_executable),
{
}

/// The driver starts exactly where it has an endpoint, its TLS files are set together or not
/// at all, its supervisor can be run, and the TLS files that are set can be read.
pub proof fn law_preflights(config: ConfigView, files: FilesView)
    ensures
        preflight_verdict(config, files) is Ok <==> {
            &&& text::trimmed(config.grpc_endpoint).len() > 0
            &&& (config.guest_tls_ca is Some <==> config.guest_tls_cert is Some)
            &&& (config.guest_tls_ca is Some <==> config.guest_tls_key is Some)
            &&& files.supervisor matches Ok(found) && found.is_file && found.is_executable
            &&& config.guest_tls_ca is Some ==> {
                &&& files.tls_ca matches Ok(found) && found.is_file
                &&& files.tls_cert matches Ok(found) && found.is_file
                &&& files.tls_key matches Ok(found) && found.is_file
            }
        },
        preflight_verdict(config, files) matches Err(error) ==> error is Precondition,
{
}

/// Five commands are needed, and each has to end with success.
pub proof fn law_needed_commands(config: ConfigView, program: Seq<char>, output: OutputView)
    ensures
        commands_of(config).len() == 5,
        commands_of(config).contains("sbatch"@),
        commands_of(config).contains("srun"@),
        commands_of(config).contains("squeue"@),
        commands_of(config).contains("scancel"@),
        commands_of(config).contains(config.apptainer_bin),
        command_verdict(program, output) is Ok <==> output.status == Some(0i32),
{
    let all = commands_of(config);
    assert(all[0] == "sbatch"@);
    assert(all[1] == "srun"@);
    assert(all[2] == "squeue"@);
    assert(all[3] == "scancel"@);
    assert(all[4] == config.apptainer_bin);
}

// ---------------------------------------------------------------------------
// Sandboxes
// ---------------------------------------------------------------------------

/// A sandbox is accepted exactly where it has an identity that can stand in a path, a name, a
/// template without a platform configuration, no GPU device of its own choice, an image, and
/// variables with valid names.
pub proof fn law_accepted_shapes(sandbox: SandboxView, config: ConfigView)
    ensures
        shape_problem(sandbox, config) is None <==> {
            &&& text::trimmed(sandbox.id).len() > 0
            &&& path_id_verdict(sandbox.id) is Ok
            &&& text::trimmed(sandbox.name).len() > 0
            &&& sandbox.spec matches Some(spec) && (!spec.gpu || text::trimmed(
                spec.gpu_device,
            ).len() == 0) && (forall|i: int|
                0 <= i < spec.environment.len() ==> env_name_verdict(
                    (#[trigger] spec.environment[i]).0,
                ) is Ok) && (spec.template matches Some(template) && !template.has_platform_config
                && (forall|i: int|
                0 <= i < template.environment.len() ==> env_name_verdict(
                    (#[trigger] template.environment[i]).0,
                ) is Ok))
            &&& text::trimmed(image_of(sandbox, config)).len() > 0
        },
{
    if let Some(spec) = sandbox.spec {
        lemma_bad_name(spec.environment);
        if let Some(template) = spec.template {
            lemma_bad_name(template.environment);
        }
    }
}

proof fn lemma_bad_name(env: TextMap)
    ensures
        first_bad_name(env) is None <==> (forall|i: int|
            0 <= i < env.len() ==> env_name_verdict((#[trigger] env[i]).0) is Ok),
    decreases env.len(),
{
    if env.len() > 0 {
        let rest = env.skip(1);
        lemma_bad_name(rest);
        assert forall|i: int| 1 <= i < env.len() implies rest[i - 1] == #[trigger] env[i] by {}
        if first_bad_name(env) is None {
            assert forall|i: int| 0 <= i < env.len() implies env_name_verdict(
                (#[trigger] env[i]).0,
            ) is Ok by {
                if i > 0 {
                    assert(env_name_verdict(rest[i - 1].0) is Ok);
                }
            }
        } else if env_name_verdict(env[0].0) is Ok {
            let k = choose|k: int|
                0 <= k < rest.len() && env_name_verdict((#[trigger] rest[k]).0) is Err;
            assert(env[k + 1] == rest[k]);
        }
    }
}

/// What a sandbox asks for is its template's: the limit of each resource, or else the request.
pub proof fn law_asked_resources(sandbox: SandboxView)
    ensures
        sandbox.spec is None ==> resources_of(sandbox) is None && !wants_gpu(sandbox),
        sandbox.spec matches Some(spec) ==> wants_gpu(sandbox) == spec.gpu,
        sandbox.spec matches Some(spec) ==> (spec.template matches Some(template) ==> resources_of(
            sandbox,
        ) == template.resources),
        resources_of(sandbox) matches Some(resources) ==> cpu_text(sandbox) == first_filled(
            resources.cpu_limit,
            resources.cpu_request,
        ) && memory_text(sandbox) == first_filled(
            resources.memory_limit,
            resources.memory_request,
        ),
        resources_of(sandbox) is None ==> cpu_text(sandbox) is None && memory_text(sandbox)
            is None,
{
}

/// A quantity of cores that ends with an `m` counts thousandths of a core, and any other
/// counts cores.
pub proof fn law_core_quantities(number: Seq<char>)
    requires
        number.len() > 0,
        !text::is_space(number[0]),
    ensures
        cpu_parts(number.push('m')) == (number, true),
        !text::is_space(number.last()) && number.last() != 'm' ==> cpu_parts(number) == (
            number,
            false,
        ),
{
    let thousandths = number.push('m');
    lemma_nothing_trimmed(thousandths);
    assert(thousandths.drop_last() =~= number);
    if !text::is_space(number.last()) {
        lemma_nothing_trimmed(number);
    }
}

proof fn lemma_nothing_trimmed(s: Seq<char>)
    requires
        s.len() > 0,
        !text::is_space(s[0]),
        !text::is_space(s.last()),
    ensures
        text::trimmed(s) == s,
{
    let (from, to) = text::laws::law_trimmed(s);
    assert(from == 0);
    if to < s.len() {
        assert(text::is_space(s[s.len() - 1]));
    }
    assert(s.subrange(0, s.len() as int) =~= s);
}

/// A quantity of memory is cut where its digits and dots end.
pub proof fn law_memory_quantities(value: Seq<char>)
    ensures
        ({
            let (number, suffix) = memory_parts(value);
            &&& number + suffix == text::trimmed(value)
            &&& forall|i: int|
                0 <= i < number.len() ==> ('0' <= #[trigger] number[i] && number[i] <= '9')
                    || number[i] == '.'
            &&& suffix.len() > 0 ==> !('0' <= suffix[0] && suffix[0] <= '9') && suffix[0] != '.'
        }),
{
    let content = text::trimmed(value);
    lemma_leading_number(content);
    let (number, suffix) = memory_parts(value);
    assert(number + suffix =~= content);
    let n = crate::slurm::sandbox::leading_number(content) as int;
    assert forall|i: int| 0 <= i < number.len() implies ('0' <= #[trigger] number[i] && number[i]
        <= '9') || number[i] == '.' by {
        assert(number[i] == content[i]);
    }
    if suffix.len() > 0 {
        assert(suffix[0] == content[n]);
    }
}

proof fn lemma_leading_number(s: Seq<char>)
    ensures
        ({
            let n = crate::slurm::sandbox::leading_number(s) as int;
            &&& n <= s.len()
            &&& forall|i: int| 0 <= i < n ==> text::is_digit(#[trigger] s[i]) || s[i] == '.'
            &&& n < s.len() ==> !text::is_digit(s[n]) && s[n] != '.'
        }),
    decreases s.len(),
{
    if s.len() > 0 && (text::is_digit(s[0]) || s[0] == '.') {
        let rest = s.skip(1);
        lemma_leading_number(rest);
        let n = crate::slurm::sandbox::leading_number(rest) as int;
        assert forall|i: int| 0 <= i < n + 1 implies text::is_digit(#[trigger] s[i]) || s[i]
            == '.' by {
            if i > 0 {
                assert(rest[i - 1] == s[i]);
            }
        }
        if n < rest.len() {
            assert(rest[n] == s[n + 1]);
        }
    }
}

// ---------------------------------------------------------------------------
// Jobs
// ---------------------------------------------------------------------------

/// A job is asked for by its own identity, for its state and the reason of it.
pub proof fn law_asked_jobs(job_id: Seq<char>)
    ensures
        squeue_args_of(job_id) == seq!["--noheader"@, "--jobs"@, job_id, "--format"@, "%T|%R"@],
        sacct_args_of(job_id)[3] == "--jobs"@ && sacct_args_of(job_id)[4] == job_id,
        sacct_args_of(job_id)[5] == "--format"@ && sacct_args_of(job_id)[6]
            == "JobIDRaw,State,Reason"@,
        sacct_args_of(job_id).contains("-X"@),
        sacct_args_of(job_id).contains("--parsable2"@),
        sacct_args_of(job_id).contains("--noheader"@),
{
    let args = sacct_args_of(job_id);
    assert(args[0] == "-X"@);
    assert(args[1] == "--noheader"@);
    assert(args[2] == "--parsable2"@);
}

/// The queue is asked first. Only what it does not know is looked up in the marker, and only
/// what has no marker in the accounts.
pub proof fn law_inquiries(
    queue: Option<Option<SnapshotView>>,
    marker: Option<Option<LocalStatusMarker>>,
    account: Option<Option<SnapshotView>>,
)
    ensures
        inquiry_of(queue, marker, account) is Queue <==> queue is None,
        inquiry_of(queue, marker, account) is Marker <==> queue == Some(None::<SnapshotView>)
            && marker is None,
        inquiry_of(queue, marker, account) is Account <==> queue == Some(None::<SnapshotView>)
            && marker == Some(None::<LocalStatusMarker>) && account is None,
        queue matches Some(Some(snapshot)) ==> inquiry_of(queue, marker, account)
            == InquiryView::Known(known(Some(snapshot), None, None)),
{
}

/// A number is digits behind an optional sign, and counts where it fits.
pub proof fn law_exit_numbers(digits: Seq<char>)
    requires
        digits.len() > 0,
        text::all_digits(digits),
    ensures
        number_of(digits) is Some <==> text::digits_value(digits) <= i32::MAX,
        number_of(digits) matches Some(value) ==> value == text::digits_value(digits),
        number_of(seq!['-'] + digits) is Some <==> text::digits_value(digits) <= i32::MAX + 1,
        number_of(seq!['-'] + digits) matches Some(value) ==> value == -(text::digits_value(
            digits,
        ) as int),
        number_of(seq!['+'] + digits) == number_of(digits),
        number_of(Seq::empty()) is None,
{
    assert(text::is_digit(digits[0]));
    assert((seq!['-'] + digits).skip(1) =~= digits);
    assert((seq!['+'] + digits).skip(1) =~= digits);
}

/// What happened to a job is told of its sandbox, with the identity of the job.
pub proof fn law_job_events(
    sandbox_id: Seq<char>,
    reason: Seq<char>,
    message: Seq<char>,
    job_id: Seq<char>,
    now_ms: i64,
)
    ensures
        job_event(sandbox_id, reason, message, job_id, now_ms) matches WatchView::PlatformEvent {
            sandbox_id: told,
            event,
        } && told == sandbox_id && event.reason == reason && event.message == message
            && event.timestamp_ms == now_ms && event.source == "slurm"@ && event.event_type
            == "Normal"@ && event.metadata == seq![("job_id"@, job_id)],
{
}

/// A sandbox is found by its name, the first one if there are several.
pub proof fn law_found_by_name(states: Seq<StateView>, name: Seq<char>)
    ensures
        match first_named(states, name) {
            Some(found) => found.sandbox_name == name && states.contains(found),
            None => forall|i: int|
                0 <= i < states.len() ==> (#[trigger] states[i]).sandbox_name != name,
        },
        states.len() > 0 && states[0].sandbox_name == name ==> first_named(states, name) == Some(
            states[0],
        ),
    decreases states.len(),
{
    if states.len() > 0 {
        let rest = states.skip(1);
        law_found_by_name(rest, name);
        if states[0].sandbox_name == name {
            assert(states.contains(states[0]));
        } else if let Some(found) = first_named(rest, name) {
            let k = choose|k: int| 0 <= k < rest.len() && rest[k] == found;
            assert(states[k + 1] == found);
        } else {
            assert forall|i: int| 0 <= i < states.len() implies (#[trigger] states[i]).sandbox_name
                != name by {
                if i > 0 {
                    assert(rest[i - 1] == states[i]);
                }
            }
        }
    }
}

/// The first line that is not blank is taken.
pub proof fn law_first_lines(line: Seq<char>, lines: Seq<Seq<char>>)
    ensures
        text::trimmed(line).len() > 0 ==> first_line(seq![line] + lines) == Some(line),
        text::trimmed(line).len() == 0 ==> first_line(seq![line] + lines) == first_line(lines),
        first_line(Seq::empty()) is None,
{
    assert((seq![line] + lines)[0] == line);
    assert((seq![line] + lines).skip(1) =~= lines);
}

} // verus!
