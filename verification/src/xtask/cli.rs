//! The command line of the task runner.

use crate::digest::{lossy_decoded, utf8_lossy};
use crate::outcome::shown;
use crate::text;
use crate::text::cat2;
use vstd::prelude::*;

verus! {

/// An argument of the command line.
#[derive(Debug, Clone, PartialEq, Eq)]
pub enum CliArgument {
    /// One that is text.
    Text(String),
    /// One that is not.
    Raw(Vec<u8>),
}

/// The content of an argument.
pub enum ArgumentView {
    Text(Seq<char>),
    Raw(Seq<u8>),
}

impl DeepView for CliArgument {
    type V = ArgumentView;

    open spec fn deep_view(&self) -> ArgumentView {
        match self {
            CliArgument::Text(text) => ArgumentView::Text(text@),
            CliArgument::Raw(bytes) => ArgumentView::Raw(bytes@),
        }
    }
}

/// An argument is a given text.
pub open spec fn says(argument: ArgumentView, word: Seq<char>) -> bool {
    argument matches ArgumentView::Text(text) && text == word
}

/// An argument as it is shown.
pub open spec fn display_of(argument: ArgumentView) -> Seq<char> {
    match argument {
        ArgumentView::Text(text) => text,
        ArgumentView::Raw(bytes) => lossy_decoded(bytes),
    }
}

impl CliArgument {
    /// Tells whether the argument is a given text.
    pub fn is(&self, word: &str) -> (r: bool)
        ensures
            r == says(self.deep_view(), word@),
    {
        match self {
            CliArgument::Text(text) => text::same(text.as_str(), word),
            CliArgument::Raw(_) => false,
        }
    }

    /// The argument as it is shown.
    pub fn display(&self) -> (r: String)
        ensures
            r@ == display_of(self.deep_view()),
    {
        match self {
            CliArgument::Text(text) => text.clone(),
            CliArgument::Raw(bytes) => utf8_lossy(bytes),
        }
    }

    /// The same argument once more.
    pub fn copy(&self) -> (r: CliArgument)
        ensures
            r.deep_view() == self.deep_view(),
    {
        match self {
            CliArgument::Text(text) => CliArgument::Text(text.clone()),
            CliArgument::Raw(bytes) => {
                let copy = bytes.clone();
                assert(copy@ =~= bytes@);
                CliArgument::Raw(copy)
            },
        }
    }
}

/// A task to run.
#[derive(Debug, Clone, PartialEq, Eq)]
pub struct RunCommand {
    pub mise_options: Vec<CliArgument>,
    pub task: CliArgument,
    pub task_args: Vec<CliArgument>,
}

/// The content of a task to run.
#[verifier::ext_equal]
pub struct RunView {
    pub mise_options: Seq<ArgumentView>,
    pub task: ArgumentView,
    pub task_args: Seq<ArgumentView>,
}

impl DeepView for RunCommand {
    type V = RunView;

    open spec fn deep_view(&self) -> RunView {
        RunView {
            mise_options: self.mise_options.deep_view(),
            task: self.task.deep_view(),
            task_args: self.task_args.deep_view(),
        }
    }
}

/// An option that stands before a task.
pub open spec fn is_option(argument: ArgumentView) -> bool {
    says(argument, "--no-deps"@) || says(argument, "--skip-deps"@)
}

/// How many options arguments start with.
pub open spec fn option_count(args: Seq<ArgumentView>) -> nat
    decreases args.len(),
{
    if args.len() > 0 && is_option(args[0]) {
        1 + option_count(args.skip(1))
    } else {
        0
    }
}

/// The task that arguments name.
pub open spec fn run_command(args: Seq<ArgumentView>) -> Result<RunView, Seq<char>> {
    if args.len() == 0 {
        Err("missing xtask command"@)
    } else if !says(args[0], "run"@) {
        Err("unknown xtask command: "@ + display_of(args[0]))
    } else {
        let n = option_count(args.skip(1)) as int;
        let rest = args.skip(1 + n);
        if rest.len() == 0 {
            Err("missing task name"@)
        } else if says(rest[0], "--"@) {
            Err("missing task name before `--`"@)
        } else {
            Ok(
                RunView {
                    mise_options: args.subrange(1, 1 + n),
                    task: rest[0],
                    task_args: if rest.len() > 1 && says(rest[1], "--"@) {
                        rest.skip(2)
                    } else {
                        rest.skip(1)
                    },
                },
            )
        }
    }
}

fn copy_range(args: &Vec<CliArgument>, from: usize, to: usize) -> (r: Vec<CliArgument>)
    requires
        from <= to <= args.len(),
    ensures
        r.deep_view() == args.deep_view().subrange(from as int, to as int),
{
    let ghost list = args.deep_view();
    let mut out: Vec<CliArgument> = Vec::new();
    let mut i: usize = from;
    proof {
        assert(out.deep_view() =~= list.subrange(from as int, from as int));
    }
    while i < to
        invariant
            from <= i <= to,
            to <= args.len(),
            list == args.deep_view(),
            out.deep_view() == list.subrange(from as int, i as int),
        decreases to - i,
    {
        let ghost before = out.deep_view();
        out.push(args[i].copy());
        proof {
            assert(out.deep_view() =~= before.push(list[i as int]));
            assert(before.push(list[i as int]) =~= list.subrange(from as int, i + 1));
        }
        i += 1;
    }
    out
}

fn count_options(args: &Vec<CliArgument>) -> (r: usize)
    requires
        args.len() > 0,
    ensures
        r == option_count(args.deep_view().skip(1)),
        1 + r <= args.len(),
{
    let ghost list = args.deep_view();
    let mut n: usize = 0;
    while 1 + n < args.len() && (args[1 + n].is("--no-deps") || args[1 + n].is("--skip-deps"))
        invariant
            1 + n <= args.len(),
            list == args.deep_view(),
            option_count(list.skip(1)) == n + option_count(list.skip(1 + n)),
        decreases args.len() - n,
    {
        proof {
            assert(list.skip(1 + n)[0] == args@[1 + n].deep_view());
            assert(list.skip(1 + n).skip(1) =~= list.skip(1 + (n + 1)));
        }
        n += 1;
    }
    proof {
        if 1 + n < args.len() {
            assert(list.skip(1 + n)[0] == args@[1 + n].deep_view());
        }
        assert(option_count(list.skip(1 + n)) == 0);
    }
    n
}

impl RunCommand {
    /// The task that arguments name.
    pub fn parse(args: &Vec<CliArgument>) -> (r: Result<RunCommand, String>)
        ensures
            shown(r) == run_command(args.deep_view()),
    {
        let ghost list = args.deep_view();
        proof {
            assert(list.len() == args.len());
        }
        if args.len() == 0 {
            return Err("missing xtask command".to_owned());
        }
        proof {
            assert(list[0] == args@[0].deep_view());
        }
        if !args[0].is("run") {
            let shown_command = args[0].display();
            return Err(cat2("unknown xtask command: ", shown_command.as_str()));
        }
        let n = count_options(args);
        let start: usize = 1 + n;
        let ghost rest = list.skip(start as int);
        proof {
            assert(rest.len() == args.len() - start);
        }
        if start >= args.len() {
            return Err("missing task name".to_owned());
        }
        proof {
            assert(rest[0] == args@[start as int].deep_view());
        }
        if args[start].is("--") {
            return Err("missing task name before `--`".to_owned());
        }
        let mise_options = copy_range(args, 1, start);
        let task = args[start].copy();
        let mut from: usize = start + 1;
        if from < args.len() {
            proof {
                assert(rest[1] == args@[from as int].deep_view());
            }
            if args[from].is("--") {
                from += 1;
            }
        }
        let task_args = copy_range(args, from, args.len());
        proof {
            assert(task_args.deep_view() =~= (if rest.len() > 1 && says(rest[1], "--"@) {
                rest.skip(2)
            } else {
                rest.skip(1)
            }));
        }
        Ok(RunCommand { mise_options, task, task_args })
    }
}

/// What a command line asks for.
#[derive(Debug, Clone, PartialEq, Eq)]
pub enum XtaskCommand {
    /// The release smoke test, with its arguments.
    ReleaseSmokeTest(Vec<CliArgument>),
    /// A task.
    Run(RunCommand),
}

/// The content of what a command line asks for.
pub enum XtaskView {
    ReleaseSmokeTest(Seq<ArgumentView>),
    Run(RunView),
}

impl DeepView for XtaskCommand {
    type V = XtaskView;

    open spec fn deep_view(&self) -> XtaskView {
        match self {
            XtaskCommand::ReleaseSmokeTest(args) => XtaskView::ReleaseSmokeTest(args.deep_view()),
            XtaskCommand::Run(command) => XtaskView::Run(command.deep_view()),
        }
    }
}

/// What a command line asks for.
pub open spec fn xtask_command(args: Seq<ArgumentView>) -> Result<XtaskView, Seq<char>> {
    if args.len() > 0 && says(args[0], "release-smoke-test"@) {
        Ok(XtaskView::ReleaseSmokeTest(args.skip(1)))
    } else {
        match run_command(args) {
            Ok(command) => Ok(XtaskView::Run(command)),
            Err(message) => Err(message),
        }
    }
}

/// What a command line asks for.
pub fn run(args: &Vec<CliArgument>) -> (r: Result<XtaskCommand, String>)
    ensures
        shown(r) == xtask_command(args.deep_view()),
{
    if args.len() > 0 {
        proof {
            assert(args.deep_view()[0] == args@[0].deep_view());
        }
        if args[0].is("release-smoke-test") {
            let rest = copy_range(args, 1, args.len());
            assert(rest.deep_view() =~= args.deep_view().skip(1));
            return Ok(XtaskCommand::ReleaseSmokeTest(rest));
        }
    }
    match RunCommand::parse(args) {
        Ok(command) => Ok(XtaskCommand::Run(command)),
        Err(message) => Err(message),
    }
}

/// A process that runs a task.
#[derive(Debug, Clone, PartialEq, Eq)]
pub enum TaskProcess {
    /// The formatter of the workspace's own toolchain.
    CargoFormat(Vec<CliArgument>),
    /// The task runner that tasks are left to.
    Mise(Vec<CliArgument>),
}

/// The content of a process.
pub enum ProcessView {
    CargoFormat(Seq<ArgumentView>),
    Mise(Seq<ArgumentView>),
}

impl DeepView for TaskProcess {
    type V = ProcessView;

    open spec fn deep_view(&self) -> ProcessView {
        match self {
            TaskProcess::CargoFormat(args) => ProcessView::CargoFormat(args.deep_view()),
            TaskProcess::Mise(args) => ProcessView::Mise(args.deep_view()),
        }
    }
}

/// An argument that is text.
pub open spec fn word(text: Seq<char>) -> ArgumentView {
    ArgumentView::Text(text)
}

/// The process that runs a task.
pub open spec fn process_of(command: RunView) -> ProcessView {
    if says(command.task, "rust:format:check"@) {
        ProcessView::CargoFormat(
            seq![word("fmt"@), word("--all"@), word("--"@), word("--check"@)] + command.task_args,
        )
    } else {
        ProcessView::Mise(
            seq![word("run"@)] + command.mise_options + seq![command.task] + (
            if command.task_args.len() > 0 {
                seq![word("--"@)] + command.task_args
            } else {
                Seq::empty()
            }),
        )
    }
}

fn text_argument(text: &str) -> (r: CliArgument)
    ensures
        r.deep_view() == word(text@),
{
    CliArgument::Text(text.to_owned())
}

fn extend(args: &mut Vec<CliArgument>, more: &Vec<CliArgument>)
    ensures
        final(args).deep_view() == old(args).deep_view() + more.deep_view(),
{
    let ghost before = args.deep_view();
    let mut copy = copy_range(more, 0, more.len());
    assert(copy.deep_view() =~= more.deep_view());
    args.append(&mut copy);
    assert(args.deep_view() =~= before + more.deep_view());
}

/// The process that runs a task.
pub fn run_task(command: &RunCommand) -> (r: TaskProcess)
    ensures
        r.deep_view() == process_of(command.deep_view()),
{
    if command.task.is("rust:format:check") {
        let mut args: Vec<CliArgument> = Vec::new();
        args.push(text_argument("fmt"));
        args.push(text_argument("--all"));
        args.push(text_argument("--"));
        args.push(text_argument("--check"));
        assert(args.deep_view() =~= seq![
            word("fmt"@),
            word("--all"@),
            word("--"@),
            word("--check"@),
        ]);
        extend(&mut args, &command.task_args);
        return TaskProcess::CargoFormat(args);
    }
    let mut args: Vec<CliArgument> = Vec::new();
    args.push(text_argument("run"));
    assert(args.deep_view() =~= seq![word("run"@)]);
    extend(&mut args, &command.mise_options);
    let ghost first = args.deep_view();
    args.push(command.task.copy());
    assert(args.deep_view() =~= first + seq![command.task.deep_view()]);
    let ghost second = args.deep_view();
    if command.task_args.len() > 0 {
        args.push(text_argument("--"));
        extend(&mut args, &command.task_args);
        assert(args.deep_view() =~= second + (seq![word("--"@)]
            + command.task_args.deep_view()));
    } else {
        assert(args.deep_view() =~= second + Seq::empty());
    }
    TaskProcess::Mise(args)
}

/// The exit code of the task runner, from that of the process that it ran: the
/// same where it is one, and otherwise that of a failure.
pub fn exit_code(status: Option<i32>) -> (r: u8)
    ensures
        r == (match status {
            Some(code) => if 0 <= code <= 255 {
                code as u8
            } else {
                1u8
            },
            None => 1u8,
        }),
{
    match status {
        Some(code) => {
            if 0 <= code && code <= 255 {
                code as u8
            } else {
                1
            }
        },
        None => 1,
    }
}

/// Every argument behind the first separator reaches the task, unchanged and in
/// order.
pub proof fn law_task_arguments_are_kept(
    options: Seq<ArgumentView>,
    task: ArgumentView,
    task_args: Seq<ArgumentView>,
)
    requires
        forall|i: int| 0 <= i < options.len() ==> is_option(#[trigger] options[i]),
        !is_option(task),
        !says(task, "--"@),
    ensures
        run_command(
            seq![word("run"@)] + options + seq![task, word("--"@)] + task_args,
        ) == Ok::<RunView, Seq<char>>(
            RunView { mise_options: options, task, task_args },
        ),
{
    let args = seq![word("run"@)] + options + seq![task, word("--"@)] + task_args;
    let tail = seq![task, word("--"@)] + task_args;
    assert(args.skip(1) =~= options + tail);
    lemma_option_count(options, tail);
    let n = options.len() as int;
    assert(args.skip(1 + n) =~= tail);
    assert(args.subrange(1, 1 + n) =~= options);
    assert(tail.skip(2) =~= task_args);
}

proof fn lemma_option_count(options: Seq<ArgumentView>, tail: Seq<ArgumentView>)
    requires
        forall|i: int| 0 <= i < options.len() ==> is_option(#[trigger] options[i]),
        tail.len() > 0,
        !is_option(tail[0]),
    ensures
        option_count(options + tail) == options.len(),
    decreases options.len(),
{
    let whole = options + tail;
    if options.len() == 0 {
        assert(whole =~= tail);
    } else {
        assert(whole[0] == options[0]);
        assert(whole.skip(1) =~= options.skip(1) + tail);
        assert forall|i: int| 0 <= i < options.skip(1).len() implies is_option(
            #[trigger] options.skip(1)[i],
        ) by {
            assert(options.skip(1)[i] == options[i + 1]);
        }
        lemma_option_count(options.skip(1), tail);
    }
}

} // verus!
