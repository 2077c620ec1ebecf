//! The batch script of a sandbox, and the arguments that submit it.

use crate::paths::{join_path, joined_path};
use crate::slurm::config::{has_tls, ConfigView, SlurmComputeConfig};
use crate::slurm::environment::{TLS_CA_MOUNT_PATH, TLS_CERT_MOUNT_PATH, TLS_KEY_MOUNT_PATH};
use crate::slurm::sandbox::{JobResourcesView, SlurmResources};
use crate::text;
use crate::text::{cat2, cat3, cat5, cat7};
use vstd::prelude::*;

verus! {

pub const SLURM_JOB_PREFIX: &'static str = "openshell";

pub const SUPERVISOR_MOUNT_PATH: &'static str = "/opt/openshell/bin/openshell-sandbox";

/// The batch script, up to the path of the status file.
pub const SCRIPT_HEAD: &'static str = "#!/usr/bin/env bash\nset -euo pipefail\n\nSTATUS_FILE=";

/// The batch script between the path of the status file and its directory.
pub const SCRIPT_MIDDLE: &'static str = "\nwrite_status() {\n  printf '%s\\n' \"$*\" > \"${STATUS_FILE}\"\n}\nfinish() {\n  code=$?\n  write_status \"state=exited exit_code=${code} ended_at_ms=$(date +%s%3N)\"\n  exit \"${code}\"\n}\ntrap finish EXIT\n\nwrite_status \"state=starting started_at_ms=$(date +%s%3N)\"\ncd ";

/// The batch script between its directory and the arguments of the job step.
pub const SCRIPT_TAIL: &'static str = "\nwrite_status \"state=running started_at_ms=$(date +%s%3N)\"\nsrun ";

// ---------------------------------------------------------------------------
// Quoting
// ---------------------------------------------------------------------------

/// A text as one word of a shell: in single quotes, with the single quotes in it
/// in double quotes.
pub open spec fn quoted(value: Seq<char>) -> Seq<char> {
    "'"@ + text::replaced(value, '\'', "'\"'\"'"@) + "'"@
}

/// Texts as words of a shell.
pub open spec fn words_of(values: Seq<Seq<char>>) -> Seq<char> {
    text::join(Seq::new(values.len(), |i: int| quoted(values[i])), " "@)
}

/// A text as one word of a shell.
pub fn sh_single_quote(value: &str) -> (r: String)
    ensures
        r@ == quoted(value@),
{
    let inner = text::replace_char(value, '\'', "'\"'\"'");
    cat3("'", inner.as_str(), "'")
}

/// Texts as words of a shell.
pub fn shell_array(values: &Vec<String>) -> (r: String)
    ensures
        r@ == words_of(values.deep_view()),
{
    let ghost list = values.deep_view();
    let mut words: Vec<String> = Vec::new();
    let mut i: usize = 0;
    while i < values.len()
        invariant
            i <= values.len(),
            words.len() == i,
            list == values.deep_view(),
            forall|j: int| 0 <= j < i ==> #[trigger] words.deep_view()[j] == quoted(list[j]),
        decreases values.len() - i,
    {
        let ghost before = words.deep_view();
        assert(list[i as int] == values@[i as int]@);
        words.push(sh_single_quote(values[i].as_str()));
        proof {
            assert forall|j: int| 0 <= j < i + 1 implies #[trigger] words.deep_view()[j] == quoted(
                list[j],
            ) by {
                if j < i {
                    assert(words.deep_view()[j] == before[j]);
                }
            }
        }
        i += 1;
    }
    proof {
        assert(words.deep_view() =~= Seq::new(list.len(), |i: int| quoted(list[i])));
    }
    text::join_with(&words, " ")
}

/// What a shell makes of a word that consists of parts in single and double
/// quotes, none of them with a character that is special in double quotes:
/// reading goes on in the quote that is open, or outside of quotes.
pub open spec fn unquoted(word: Seq<char>, open: Option<char>) -> Option<Seq<char>>
    decreases word.len(),
{
    if word.len() == 0 {
        if open is None {
            Some(Seq::empty())
        } else {
            None
        }
    } else {
        let c = word[0];
        let rest = word.skip(1);
        match open {
            None => if c == '\'' || c == '"' {
                unquoted(rest, Some(c))
            } else {
                None
            },
            Some(quote) => if c == quote {
                unquoted(rest, None)
            } else {
                match unquoted(rest, open) {
                    Some(tail) => Some(seq![c] + tail),
                    None => None,
                }
            },
        }
    }
}

/// A shell reads a quoted text back as the text, whatever it holds.
pub proof fn law_quoting_is_undone(value: Seq<char>)
    ensures
        unquoted(quoted(value), None) == Some(value),
{
    reveal_strlit("'");
    let inner = text::replaced(value, '\'', "'\"'\"'"@);
    let word = quoted(value);
    assert(word[0] == '\'');
    assert(word.skip(1) =~= inner + "'"@);
    lemma_inner_is_undone(value);
}

proof fn lemma_inner_is_undone(value: Seq<char>)
    ensures
        unquoted(text::replaced(value, '\'', "'\"'\"'"@) + "'"@, Some('\'')) == Some(value),
    decreases value.len(),
{
    reveal_strlit("'");
    reveal_strlit("'\"'\"'");
    let by = "'\"'\"'"@;
    let end = "'"@;
    if value.len() == 0 {
        let word = text::replaced(value, '\'', by) + end;
        assert(word =~= seq!['\'']);
        assert(word.skip(1) =~= Seq::<char>::empty());
        reveal_with_fuel(unquoted, 3);
        assert(value =~= Seq::empty());
    } else {
        let rest = value.skip(1);
        lemma_inner_is_undone(rest);
        lemma_replaced_first(value, '\'', by);
        let tail = text::replaced(rest, '\'', by) + end;
        let word = text::replaced(value, '\'', by) + end;
        if value[0] == '\'' {
            assert(word =~= by + tail);
            assert(word[0] == '\'' && word[1] == '"' && word[2] == '\'' && word[3] == '"'
                && word[4] == '\'');
            let w1 = word.skip(1);
            let w2 = w1.skip(1);
            let w3 = w2.skip(1);
            let w4 = w3.skip(1);
            let w5 = w4.skip(1);
            assert(w1[0] == '"');
            assert(w2[0] == '\'');
            assert(w3[0] == '"');
            assert(w4[0] == '\'');
            assert(w5 =~= tail);
            assert(unquoted(w4, None) == unquoted(tail, Some('\'')));
            assert(unquoted(w3, Some('"')) == unquoted(w4, None));
            assert(unquoted(w2, Some('"')) == Some(seq!['\''] + rest));
            assert(unquoted(w1, None) == unquoted(w2, Some('"')));
            assert(unquoted(word, Some('\'')) == unquoted(w1, None));
            assert(seq!['\''] + rest =~= value);
        } else {
            assert(word =~= seq![value[0]] + tail);
            assert(word.skip(1) =~= tail);
            assert(seq![value[0]] + rest =~= value);
        }
    }
}

/// Replacing in a text replaces its first character and the rest.
proof fn lemma_replaced_first(s: Seq<char>, c: char, by: Seq<char>)
    requires
        s.len() > 0,
    ensures
        text::replaced(s, c, by) == (if s[0] == c {
            by
        } else {
            seq![s[0]]
        }) + text::replaced(s.skip(1), c, by),
    decreases s.len(),
{
    if s.len() == 1 {
        assert(s.skip(1) =~= Seq::<char>::empty());
        assert(s.drop_last() =~= Seq::<char>::empty());
        reveal_with_fuel(text::replaced, 3);
        assert(text::replaced(s, c, by) =~= (if s[0] == c {
            by
        } else {
            seq![s[0]]
        }) + text::replaced(s.skip(1), c, by));
    } else {
        reveal_with_fuel(text::replaced, 2);
        lemma_replaced_first(s.drop_last(), c, by);
        assert(s.skip(1).drop_last() =~= s.drop_last().skip(1));
        assert(text::replaced(s, c, by) =~= (if s[0] == c {
            by
        } else {
            seq![s[0]]
        }) + text::replaced(s.skip(1), c, by));
    }
}

// ---------------------------------------------------------------------------
// The script
// ---------------------------------------------------------------------------

/// A file that is mounted read-only.
pub open spec fn mounted(source: Seq<char>, target: Seq<char>) -> Seq<char> {
    source + ":"@ + target + ":ro"@
}

/// The arguments that mount the TLS files.
pub open spec fn tls_mounts(config: ConfigView) -> Seq<Seq<char>> {
    if has_tls(config) {
        seq![
            "--bind"@,
            mounted(config.guest_tls_ca->0, TLS_CA_MOUNT_PATH@),
            "--bind"@,
            mounted(config.guest_tls_cert->0, TLS_CERT_MOUNT_PATH@),
            "--bind"@,
            mounted(config.guest_tls_key->0, TLS_KEY_MOUNT_PATH@),
        ]
    } else {
        Seq::empty()
    }
}

/// The arguments of Apptainer.
pub open spec fn apptainer_args(env_path: Seq<char>, image: Seq<char>, config: ConfigView) -> Seq<
    Seq<char>,
> {
    seq![
        "exec"@,
        "--cleanenv"@,
        "--env-file"@,
        env_path,
        "--bind"@,
        mounted(config.supervisor_bin, SUPERVISOR_MOUNT_PATH@),
    ] + tls_mounts(config) + config.extra_apptainer_args + seq![image, SUPERVISOR_MOUNT_PATH@]
}

/// The arguments of the job step.
pub open spec fn srun_args(config: ConfigView) -> Seq<Seq<char>> {
    seq!["--ntasks=1"@] + config.extra_srun_args
}

/// The batch script of a sandbox.
pub open spec fn script_of(
    script_dir: Seq<char>,
    env_path: Seq<char>,
    status_path: Seq<char>,
    image: Seq<char>,
    config: ConfigView,
) -> Seq<char> {
    SCRIPT_HEAD@ + quoted(status_path) + SCRIPT_MIDDLE@ + quoted(script_dir) + SCRIPT_TAIL@
        + words_of(srun_args(config)) + " "@ + quoted(config.apptainer_bin) + " "@ + words_of(
        apptainer_args(env_path, image, config),
    ) + "\n"@
}

fn mount(source: &str, target: &str) -> (r: String)
    ensures
        r@ == mounted(source@, target@),
{
    text::cat4(source, ":", target, ":ro")
}

fn add_all(list: &mut Vec<String>, more: &Vec<String>)
    ensures
        final(list).deep_view() == old(list).deep_view() + more.deep_view(),
{
    let ghost before = list.deep_view();
    let mut copy = more.clone();
    list.append(&mut copy);
    assert(list.deep_view() =~= before + more.deep_view());
}

fn tls_arguments(config: &SlurmComputeConfig) -> (r: Vec<String>)
    ensures
        r.deep_view() == tls_mounts(config.deep_view()),
{
    let mut args: Vec<String> = Vec::new();
    match (&config.guest_tls_ca, &config.guest_tls_cert, &config.guest_tls_key) {
        (Some(ca), Some(cert), Some(key)) => {
            args.push("--bind".to_owned());
            args.push(mount(ca.as_str(), TLS_CA_MOUNT_PATH));
            args.push("--bind".to_owned());
            args.push(mount(cert.as_str(), TLS_CERT_MOUNT_PATH));
            args.push("--bind".to_owned());
            args.push(mount(key.as_str(), TLS_KEY_MOUNT_PATH));
        },
        _ => {},
    }
    assert(args.deep_view() =~= tls_mounts(config.deep_view()));
    args
}

fn apptainer_arguments(env_path: &str, image: &str, config: &SlurmComputeConfig) -> (r: Vec<String>)
    ensures
        r.deep_view() == apptainer_args(env_path@, image@, config.deep_view()),
{
    let mut args: Vec<String> = Vec::new();
    args.push("exec".to_owned());
    args.push("--cleanenv".to_owned());
    args.push("--env-file".to_owned());
    args.push(env_path.to_owned());
    args.push("--bind".to_owned());
    args.push(mount(config.supervisor_bin.as_str(), SUPERVISOR_MOUNT_PATH));
    proof {
        assert(args.deep_view() =~= seq![
            "exec"@,
            "--cleanenv"@,
            "--env-file"@,
            env_path@,
            "--bind"@,
            mounted(config.supervisor_bin@, SUPERVISOR_MOUNT_PATH@),
        ]);
    }
    let tls = tls_arguments(config);
    add_all(&mut args, &tls);
    add_all(&mut args, &config.extra_apptainer_args);
    let ghost before = args.deep_view();
    args.push(image.to_owned());
    args.push(SUPERVISOR_MOUNT_PATH.to_owned());
    assert(args.deep_view() =~= before + seq![image@, SUPERVISOR_MOUNT_PATH@]);
    args
}

/// The batch script of a sandbox. `script_dir` is the directory of the script.
pub fn batch_script(
    script_dir: &str,
    env_path: &str,
    status_path: &str,
    image: &str,
    config: &SlurmComputeConfig,
) -> (r: String)
    ensures
        r@ == script_of(script_dir@, env_path@, status_path@, image@, config.deep_view()),
{
    let mut steps: Vec<String> = Vec::new();
    steps.push("--ntasks=1".to_owned());
    assert(steps.deep_view() =~= seq!["--ntasks=1"@]);
    add_all(&mut steps, &config.extra_srun_args);
    let containers = apptainer_arguments(env_path, image, config);
    let status_file = sh_single_quote(status_path);
    let directory = sh_single_quote(script_dir);
    let step_words = shell_array(&steps);
    let binary = sh_single_quote(config.apptainer_bin.as_str());
    let container_words = shell_array(&containers);
    let first = cat5(
        SCRIPT_HEAD,
        status_file.as_str(),
        SCRIPT_MIDDLE,
        directory.as_str(),
        SCRIPT_TAIL,
    );
    cat7(
        first.as_str(),
        step_words.as_str(),
        " ",
        binary.as_str(),
        " ",
        container_words.as_str(),
        "\n",
    )
}

// ---------------------------------------------------------------------------
// Submission
// ---------------------------------------------------------------------------

/// An optional argument: its name and its value, unless the value is blank.
pub open spec fn optional_arg(name: Seq<char>, value: Option<Seq<char>>) -> Seq<Seq<char>> {
    match value {
        Some(value) if text::trimmed(value).len() > 0 => seq![name, value],
        _ => Seq::empty(),
    }
}

/// The arguments that submit a job.
pub open spec fn submission(
    job_name: Seq<char>,
    sandbox_dir: Seq<char>,
    script_path: Seq<char>,
    resources: JobResourcesView,
    gpu: bool,
    config: ConfigView,
) -> Seq<Seq<char>> {
    seq![
        "--parsable"@,
        "--job-name"@,
        job_name,
        "--output"@,
        joined_path(sandbox_dir, "slurm-%j.out"@),
        "--error"@,
        joined_path(sandbox_dir, "slurm-%j.err"@),
        "--ntasks"@,
        "1"@,
        "--nodes"@,
        "1"@,
    ] + optional_arg("--partition"@, config.partition) + optional_arg("--account"@, config.account)
        + optional_arg("--qos"@, config.qos) + optional_arg("--time"@, config.time_limit) + (
    match resources.cpus_per_task {
        Some(cpus) => seq!["--cpus-per-task"@, text::decimal(cpus as nat)],
        None => Seq::empty(),
    }) + (match resources.mem {
        Some(mem) => seq!["--mem"@, mem],
        None => Seq::empty(),
    }) + (if gpu {
        seq!["--gres"@, config.gpu_resource + ":1"@]
    } else {
        Seq::empty()
    }) + config.extra_sbatch_args + seq![script_path]
}

/// Appends an optional argument, unless its value is blank.
pub fn push_optional_sbatch_arg(args: &mut Vec<String>, name: &str, value: &Option<String>)
    ensures
        final(args).deep_view() == old(args).deep_view() + optional_arg(name@, value.deep_view()),
{
    let ghost before = args.deep_view();
    if let Some(value) = value {
        if !text::is_blank(value.as_str()) {
            args.push(name.to_owned());
            args.push(value.clone());
        }
    }
    assert(args.deep_view() =~= before + optional_arg(name@, value.deep_view()));
}

fn first_arguments(job_name: &str, sandbox_dir: &str) -> (r: Vec<String>)
    ensures
        r.deep_view() == seq![
            "--parsable"@,
            "--job-name"@,
            job_name@,
            "--output"@,
            joined_path(sandbox_dir@, "slurm-%j.out"@),
            "--error"@,
            joined_path(sandbox_dir@, "slurm-%j.err"@),
            "--ntasks"@,
            "1"@,
            "--nodes"@,
            "1"@,
        ],
{
    let mut args: Vec<String> = Vec::new();
    args.push("--parsable".to_owned());
    args.push("--job-name".to_owned());
    args.push(job_name.to_owned());
    args.push("--output".to_owned());
    args.push(join_path(sandbox_dir, "slurm-%j.out"));
    args.push("--error".to_owned());
    args.push(join_path(sandbox_dir, "slurm-%j.err"));
    args.push("--ntasks".to_owned());
    args.push("1".to_owned());
    args.push("--nodes".to_owned());
    args.push("1".to_owned());
    assert(args.deep_view() =~= seq![
        "--parsable"@,
        "--job-name"@,
        job_name@,
        "--output"@,
        joined_path(sandbox_dir@, "slurm-%j.out"@),
        "--error"@,
        joined_path(sandbox_dir@, "slurm-%j.err"@),
        "--ntasks"@,
        "1"@,
        "--nodes"@,
        "1"@,
    ]);
    args
}

fn push_two(args: &mut Vec<String>, name: &str, value: String)
    ensures
        final(args).deep_view() == old(args).deep_view() + seq![name@, value@],
{
    let ghost before = args.deep_view();
    let ghost shown = value@;
    args.push(name.to_owned());
    args.push(value);
    assert(args.deep_view() =~= before + seq![name@, shown]);
}

/// The arguments that submit a job.
pub fn sbatch_args(
    job_name: &str,
    sandbox_dir: &str,
    script_path: &str,
    resources: &SlurmResources,
    gpu: bool,
    config: &SlurmComputeConfig,
) -> (r: Vec<String>)
    ensures
        r.deep_view() == submission(
            job_name@,
            sandbox_dir@,
            script_path@,
            resources.deep_view(),
            gpu,
            config.deep_view(),
        ),
{
    let mut args = first_arguments(job_name, sandbox_dir);
    push_optional_sbatch_arg(&mut args, "--partition", &config.partition);
    push_optional_sbatch_arg(&mut args, "--account", &config.account);
    push_optional_sbatch_arg(&mut args, "--qos", &config.qos);
    push_optional_sbatch_arg(&mut args, "--time", &config.time_limit);
    let ghost first = args.deep_view();
    if let Some(cpus) = resources.cpus_per_task {
        push_two(&mut args, "--cpus-per-task", text::decimal_of(cpus as u64));
    } else {
        assert(args.deep_view() =~= first + Seq::empty());
    }
    let ghost second = args.deep_view();
    if let Some(mem) = &resources.mem {
        push_two(&mut args, "--mem", mem.clone());
    } else {
        assert(args.deep_view() =~= second + Seq::empty());
    }
    let ghost third = args.deep_view();
    if gpu {
        push_two(&mut args, "--gres", cat2(config.gpu_resource.as_str(), ":1"));
    } else {
        assert(args.deep_view() =~= third + Seq::empty());
    }
    add_all(&mut args, &config.extra_sbatch_args);
    let ghost last = args.deep_view();
    args.push(script_path.to_owned());
    assert(args.deep_view() =~= last + seq![script_path@]);
    args
}

/// A character of a job's name.
pub open spec fn job_char(c: char) -> char {
    if text::is_alphanumeric(c) || c == '-' || c == '_' || c == '.' {
        c
    } else {
        '-'
    }
}

/// The first `n` characters of a text, or all of it.
pub open spec fn at_most(s: Seq<char>, n: int) -> Seq<char> {
    if s.len() <= n {
        s
    } else {
        s.take(n)
    }
}

/// The name of a sandbox's job.
pub open spec fn job_name_of(sandbox_name: Seq<char>, sandbox_id: Seq<char>) -> Seq<char> {
    SLURM_JOB_PREFIX@ + "-"@ + at_most(
        Seq::new(sandbox_name.len(), |i: int| job_char(sandbox_name[i])),
        48,
    ) + "-"@ + at_most(sandbox_id, 12)
}

fn take_chars(chars: &Vec<char>, n: usize) -> (r: String)
    ensures
        r@ == at_most(chars@, n as int),
{
    let end: usize = if chars.len() <= n {
        chars.len()
    } else {
        n
    };
    let r = text::string_of(chars, 0, end);
    assert(chars@.subrange(0, end as int) =~= at_most(chars@, n as int));
    r
}

/// The name of a sandbox's job.
pub fn slurm_job_name(sandbox_name: &str, sandbox_id: &str) -> (r: String)
    ensures
        r@ == job_name_of(sandbox_name@, sandbox_id@),
{
    let chars = text::chars_of(sandbox_name);
    let ghost mapped = Seq::new(sandbox_name@.len(), |i: int| job_char(sandbox_name@[i]));
    let mut safe: Vec<char> = Vec::new();
    let mut i: usize = 0;
    while i < chars.len()
        invariant
            i <= chars.len(),
            chars@ == sandbox_name@,
            mapped == Seq::new(sandbox_name@.len(), |i: int| job_char(sandbox_name@[i])),
            safe@ == mapped.take(i as int),
        decreases chars.len() - i,
    {
        let c = chars[i];
        let kept = if text::char_is_alphanumeric(c) || c == '-' || c == '_' || c == '.' {
            c
        } else {
            '-'
        };
        let ghost before = safe@;
        safe.push(kept);
        proof {
            assert(mapped[i as int] == kept);
            assert(safe@ =~= mapped.take(i + 1));
        }
        i += 1;
    }
    proof {
        assert(mapped.take(i as int) =~= mapped);
    }
    let name = take_chars(&safe, 48);
    let id_chars = text::chars_of(sandbox_id);
    let short_id = take_chars(&id_chars, 12);
    cat5(SLURM_JOB_PREFIX, "-", name.as_str(), "-", short_id.as_str())
}

} // verus!
