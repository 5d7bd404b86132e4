//! The verification pipeline: which commands judge an exercise, how the
//! outcome of each run decides what happens next, and what the final outcome
//! does to the progress records. Running the commands is left to the caller.
use vstd::prelude::*;

use crate::collection::ExerciseCollection;
use crate::config::{steps_view, strings_view, Verification};
use crate::definition::{DefinitionView, ExerciseDefinition};
use crate::progress::{marked, records_view, OpenedExercise};

verus! {

/// The stage a command belongs to.
#[derive(Clone, Copy, Debug, PartialEq, Eq, Structural)]
pub enum Stage {
    /// Building the exercise with all its targets.
    Build,
    /// One of the verification commands.
    Check,
}

/// One external command to run: the program, its arguments, and the
/// directory to run it from (the current one when `None`).
pub struct Invocation {
    pub stage: Stage,
    pub program: String,
    pub args: Vec<String>,
    pub current_dir: Option<String>,
}

/// An invocation as plain values.
pub struct InvocationView {
    pub stage: Stage,
    pub program: Seq<char>,
    pub args: Seq<Seq<char>>,
    pub current_dir: Option<Seq<char>>,
}

impl View for Invocation {
    type V = InvocationView;

    open spec fn view(&self) -> InvocationView {
        InvocationView {
            stage: self.stage,
            program: self.program@,
            args: strings_view(self.args@),
            current_dir: match self.current_dir {
                Some(d) => Some(d@),
                None => None,
            },
        }
    }
}

/// A list of invocations as plain values.
pub open spec fn invocations_view(v: Seq<Invocation>) -> Seq<InvocationView> {
    v.map_values(|i: Invocation| i@)
}

/// The value of the `--color` flag.
pub open spec fn color_flag(color: bool) -> Seq<char> {
    if color {
        "always"@
    } else {
        "never"@
    }
}

/// `-q` unless the output is verbose.
pub open spec fn quiet_flags(verbose: bool) -> Seq<Seq<char>> {
    if verbose {
        seq![]
    } else {
        seq!["-q"@]
    }
}

/// `cargo build` of the manifest, with all its targets.
pub open spec fn build_invocation(manifest: Seq<char>, verbose: bool, color: bool) -> InvocationView {
    InvocationView {
        stage: Stage::Build,
        program: "cargo"@,
        args: seq!["build"@, "--manifest-path"@, manifest, "--all-targets"@, "--color"@, color_flag(color)]
            + quiet_flags(verbose),
        current_dir: None,
    }
}

/// `cargo test`, run from the exercise's directory.
pub open spec fn default_check(dir: Seq<char>, verbose: bool, color: bool) -> InvocationView {
    InvocationView {
        stage: Stage::Check,
        program: "cargo"@,
        args: seq!["test"@, "--color"@, color_flag(color)] + quiet_flags(verbose),
        current_dir: Some(dir),
    }
}

/// A configured verification command, run from the exercise's directory.
pub open spec fn configured_check(step: (Seq<char>, Seq<Seq<char>>), dir: Seq<char>) -> InvocationView {
    InvocationView { stage: Stage::Check, program: step.0, args: step.1, current_dir: Some(dir) }
}

/// The commands that judge an exercise whose manifest is `manifest` in the
/// directory `dir`: the build unless it is skipped, then each configured
/// verification command, or `cargo test` when none is configured.
pub open spec fn plan_of(
    manifest: Seq<char>,
    dir: Seq<char>,
    steps: Seq<(Seq<char>, Seq<Seq<char>>)>,
    skip_build: bool,
    verbose: bool,
    color: bool,
) -> Seq<InvocationView> {
    (if skip_build {
        seq![]
    } else {
        seq![build_invocation(manifest, verbose, color)]
    }) + (if steps.len() == 0 {
        seq![default_check(dir, verbose, color)]
    } else {
        steps.map_values(|s: (Seq<char>, Seq<Seq<char>>)| configured_check(s, dir))
    })
}

/// Words separated by single spaces.
pub open spec fn words_line(words: Seq<Seq<char>>) -> Seq<char>
    decreases words.len(),
{
    if words.len() == 0 {
        seq![]
    } else if words.len() == 1 {
        words[0]
    } else {
        words_line(words.drop_last()) + " "@ + words.last()
    }
}

/// The command line of an invocation: the program and its arguments,
/// separated by spaces.
pub open spec fn command_line(inv: InvocationView) -> Seq<char> {
    words_line(seq![inv.program] + inv.args)
}

/// An owned copy of a string.
fn literal(s: &str) -> (r: String)
    ensures
        r@ == s@,
{
    String::from_str(s)
}

/// An owned copy of a list of strings.
fn clone_strings(v: &Vec<String>) -> (r: Vec<String>)
    ensures
        strings_view(r@) == strings_view(v@),
{
    let mut r: Vec<String> = Vec::new();
    let mut i: usize = 0;
    while i < v.len()
        invariant
            i <= v@.len(),
            r@.len() == i,
            forall|k: int| 0 <= k < i ==> (#[trigger] r@[k])@ == v@[k]@,
        decreases v@.len() - i,
    {
        r.push(v[i].clone());
        i = i + 1;
    }
    assert(strings_view(r@) =~= strings_view(v@));
    r
}

/// Append the `--color` flag and, unless verbose, `-q`.
fn push_presentation_flags(args: &mut Vec<String>, verbose: bool, color: bool)
    ensures
        strings_view(final(args)@) == strings_view(old(args)@) + seq!["--color"@, color_flag(color)]
            + quiet_flags(verbose),
{
    let ghost before = strings_view(args@);
    args.push(literal("--color"));
    if color {
        args.push(literal("always"));
    } else {
        args.push(literal("never"));
    }
    if !verbose {
        args.push(literal("-q"));
    }
    assert(strings_view(args@) =~= before + seq!["--color"@, color_flag(color)] + quiet_flags(
        verbose,
    ));
}

/// The arguments of the build command.
fn build_args(manifest: String, verbose: bool, color: bool) -> (r: Vec<String>)
    ensures
        strings_view(r@) == build_invocation(manifest@, verbose, color).args,
{
    let ghost m = manifest@;
    let mut args: Vec<String> = Vec::new();
    args.push(literal("build"));
    args.push(literal("--manifest-path"));
    args.push(manifest);
    args.push(literal("--all-targets"));
    assert(strings_view(args@) =~= seq!["build"@, "--manifest-path"@, m, "--all-targets"@]);
    push_presentation_flags(&mut args, verbose, color);
    assert(strings_view(args@) =~= build_invocation(m, verbose, color).args);
    args
}

/// The arguments of the default test command.
fn default_check_args(verbose: bool, color: bool) -> (r: Vec<String>)
    ensures
        strings_view(r@) == default_check(seq![], verbose, color).args,
{
    let mut args: Vec<String> = Vec::new();
    args.push(literal("test"));
    assert(strings_view(args@) =~= seq!["test"@]);
    push_presentation_flags(&mut args, verbose, color);
    assert(strings_view(args@) =~= default_check(seq![], verbose, color).args);
    args
}

/// The commands that judge `exercise` of the collection rooted at
/// `exercises_dir`, in the order they run: the build unless `skip_build`,
/// then the verification commands `steps`, or `cargo test` when there are
/// none. `verbose` and `color` only choose flags.
pub fn verification_plan(
    exercise: &ExerciseDefinition,
    exercises_dir: &str,
    steps: &[Verification],
    skip_build: bool,
    verbose: bool,
    color: bool,
) -> (r: Vec<Invocation>)
    ensures
        invocations_view(r@) == plan_of(
            exercise@.manifest_in(exercises_dir@),
            exercise@.folder_in(exercises_dir@),
            steps_view(steps@),
            skip_build,
            verbose,
            color,
        ),
        r@.len() > 0,
{
    let manifest = exercise.manifest_path(exercises_dir);
    let folder = exercise.manifest_folder_path(exercises_dir);
    let ghost m = manifest@;
    let ghost dir = folder@;
    let ghost head: Seq<InvocationView> = if skip_build {
        seq![]
    } else {
        seq![build_invocation(m, verbose, color)]
    };
    let ghost tail: Seq<InvocationView> = if steps@.len() == 0 {
        seq![default_check(dir, verbose, color)]
    } else {
        steps_view(steps@).map_values(|s: (Seq<char>, Seq<Seq<char>>)| configured_check(s, dir))
    };
    let mut plan: Vec<Invocation> = Vec::new();
    if !skip_build {
        let args = build_args(manifest, verbose, color);
        plan.push(Invocation { stage: Stage::Build, program: literal("cargo"), args, current_dir: None });
    }
    assert(invocations_view(plan@) =~= head);
    if steps.len() == 0 {
        let args = default_check_args(verbose, color);
        plan.push(
            Invocation {
                stage: Stage::Check,
                program: literal("cargo"),
                args,
                current_dir: Some(folder),
            },
        );
        assert(invocations_view(plan@) =~= head + tail);
    } else {
        let mut i: usize = 0;
        while i < steps.len()
            invariant
                i <= steps@.len(),
                steps@.len() > 0,
                folder@ == dir,
                plan@.len() == head.len() + i,
                tail == steps_view(steps@).map_values(
                    |s: (Seq<char>, Seq<Seq<char>>)| configured_check(s, dir),
                ),
                forall|k: int| 0 <= k < head.len() ==> (#[trigger] plan@[k])@ == head[k],
                forall|k: int| 0 <= k < i ==> (#[trigger] plan@[head.len() + k])@ == tail[k],
            decreases steps@.len() - i,
        {
            let step = &steps[i];
            let args = clone_strings(&step.args);
            plan.push(
                Invocation {
                    stage: Stage::Check,
                    program: step.command.clone(),
                    args,
                    current_dir: Some(folder.clone()),
                },
            );
            assert(plan@[head.len() + i]@ == tail[i as int]);
            i = i + 1;
        }
        assert forall|k: int| 0 <= k < plan@.len() implies invocations_view(plan@)[k] == (head
            + tail)[k] by {
            if k >= head.len() {
                let j = k - head.len();
                assert(plan@[head.len() + j]@ == tail[j]);
            }
        }
        assert(invocations_view(plan@) =~= head + tail);
    }
    plan
}

/// Render the command line of an invocation: the program and its arguments,
/// separated by spaces.
pub fn render_command_line(inv: &Invocation) -> (r: String)
    ensures
        r@ == command_line(inv@),
{
    let ghost words = seq![inv.program@] + strings_view(inv.args@);
    let mut line = inv.program.clone();
    let mut i: usize = 0;
    assert(words.subrange(0, 1) =~= seq![inv.program@]);
    while i < inv.args.len()
        invariant
            i <= inv.args@.len(),
            words == seq![inv.program@] + strings_view(inv.args@),
            line@ == words_line(words.subrange(0, i + 1)),
        decreases inv.args@.len() - i,
    {
        proof {
            reveal_strlit(" ");
        }
        line.append(" ");
        line.append(inv.args[i].as_str());
        assert(words.subrange(0, i + 2).drop_last() =~= words.subrange(0, i + 1));
        assert(line@ =~= words_line(words.subrange(0, i + 2)));
        i = i + 1;
    }
    assert(words.subrange(0, i + 1) =~= words);
    line
}

/// What one command did: whether it exited successfully, and the bytes it
/// wrote to each stream.
pub struct StepReport {
    pub success: bool,
    pub stdout: Vec<u8>,
    pub stderr: Vec<u8>,
}

/// The outcome of verifying one exercise.
pub enum TestOutcome {
    Success,
    /// The first command that failed, and what it wrote: its standard error
    /// followed by its standard output.
    Failure { command: String, details: Vec<u8> },
}

/// A run of the pipeline over a plan of commands: they run one at a time,
/// in order, and the first that fails ends the run.
pub struct PipelineRun {
    plan: Vec<Invocation>,
    next: usize,
    finished: bool,
}

impl PipelineRun {
    /// The commands of the run.
    pub closed spec fn steps(&self) -> Seq<InvocationView> {
        invocations_view(self.plan@)
    }

    /// The index of the command to run next.
    pub closed spec fn position(&self) -> nat {
        self.next as nat
    }

    /// Whether the outcome is known.
    pub closed spec fn is_finished(&self) -> bool {
        self.finished
    }

    /// Until the outcome is known, the next command exists.
    pub closed spec fn wf(&self) -> bool {
        self.finished || self.next < self.plan@.len()
    }

    /// Start a run over `plan`, at its first command.
    pub fn new(plan: Vec<Invocation>) -> (r: Self)
        requires
            plan@.len() > 0,
        ensures
            r.wf(),
            r.steps() == invocations_view(plan@),
            r.position() == 0,
            !r.is_finished(),
    {
        PipelineRun { plan, next: 0, finished: false }
    }

    /// Whether the outcome is known.
    pub fn finished(&self) -> (r: bool)
        ensures
            r == self.is_finished(),
    {
        self.finished
    }

    /// The command to run next.
    pub fn current(&self) -> (r: &Invocation)
        requires
            self.wf(),
            !self.is_finished(),
        ensures
            r@ == self.steps()[self.position() as int],
    {
        &self.plan[self.next]
    }

    /// Take the report of the command just run. A failure ends the run with
    /// that command's line and output; success of the last command ends it
    /// with success; any other success moves on to the next command.
    pub fn record(&mut self, report: StepReport) -> (r: Option<TestOutcome>)
        requires
            old(self).wf(),
            !old(self).is_finished(),
        ensures
            final(self).wf(),
            final(self).steps() == old(self).steps(),
            !report.success ==> final(self).is_finished() && match r {
                Some(TestOutcome::Failure { command, details }) => command@ == command_line(
                    old(self).steps()[old(self).position() as int],
                ) && details@ == report.stderr@ + report.stdout@,
                _ => false,
            },
            report.success && old(self).position() + 1 == old(self).steps().len()
                ==> final(self).is_finished() && r matches Some(TestOutcome::Success),
            report.success && old(self).position() + 1 < old(self).steps().len()
                ==> !final(self).is_finished() && r is None && final(self).position() == old(
                self).position() + 1,
    {
        let StepReport { success, stdout, stderr } = report;
        if !success {
            let command = render_command_line(&self.plan[self.next]);
            let mut details = stderr;
            let mut out = stdout;
            details.append(&mut out);
            self.finished = true;
            return Some(TestOutcome::Failure { command, details });
        }
        if self.next == self.plan.len() - 1 {
            self.finished = true;
            Some(TestOutcome::Success)
        } else {
            self.next = self.next + 1;
            None
        }
    }
}

/// Persist the outcome of verifying `exercise`: success marks it solved,
/// failure marks it unsolved, whatever it was before.
pub fn record_outcome(
    collection: &mut ExerciseCollection,
    exercise: &ExerciseDefinition,
    outcome: &TestOutcome,
)
    requires
        old(collection).wf(),
    ensures
        final(collection).wf(),
        final(collection).dir() == old(collection).dir(),
        final(collection).exercises() == old(collection).exercises(),
        final(collection).records() == marked(
            old(collection).records(),
            exercise@,
            outcome is Success,
        ),
{
    match outcome {
        TestOutcome::Success => collection.mark_as_solved(exercise),
        TestOutcome::Failure { .. } => collection.mark_as_unsolved(exercise),
    }
}

/// The opened exercises to verify, in order: all of them on a recheck,
/// otherwise those not solved yet.
pub open spec fn to_verify(records: Seq<(DefinitionView, bool)>, recheck: bool) -> Seq<
    DefinitionView,
>
    decreases records.len(),
{
    if records.len() == 0 {
        seq![]
    } else {
        let rest = to_verify(records.drop_last(), recheck);
        if recheck || !records.last().1 {
            rest.push(records.last().0)
        } else {
            rest
        }
    }
}

/// Select the opened exercises to verify, keeping their order: every one
/// when `recheck`, otherwise those whose last verification did not pass.
pub fn exercises_to_verify(opened: &Vec<OpenedExercise>, recheck: bool) -> (r: Vec<
    ExerciseDefinition,
>)
    ensures
        r@.map_values(|d: ExerciseDefinition| d@) == to_verify(records_view(opened@), recheck),
{
    let mut r: Vec<ExerciseDefinition> = Vec::new();
    let mut i: usize = 0;
    while i < opened.len()
        invariant
            i <= opened@.len(),
            r@.map_values(|d: ExerciseDefinition| d@) == to_verify(
                records_view(opened@.subrange(0, i as int)),
                recheck,
            ),
        decreases opened@.len() - i,
    {
        let ghost before = r@;
        if recheck || !opened[i].solved {
            r.push(opened[i].definition.clone());
            assert(r@.map_values(|d: ExerciseDefinition| d@) =~= before.map_values(
                |d: ExerciseDefinition| d@,
            ).push(opened@[i as int].definition@));
        }
        assert(records_view(opened@.subrange(0, i + 1)).drop_last() =~= records_view(
            opened@.subrange(0, i as int),
        ));
        i = i + 1;
    }
    assert(opened@.subrange(0, i as int) =~= opened@);
    r
}

} // verus!
