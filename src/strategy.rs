//! The two execution strategies, as a state machine over the steps of one
//! execution.
//!
//! An [`Execution`] is advanced with the outcome of the action it handed out
//! last, and answers with the next [`Action`]. The host performs each action and
//! reports its outcome: for `WriteSource`, `Ok` with the written file's path; for
//! `Spawn`, the classified process outcome; for `Remove`, anything (a failed
//! removal is the host's to log and changes nothing).

use vstd::prelude::*;
use crate::artifact::{exec_path_for, exec_path_of};

verus! {

/// How a language's code is turned into output.
pub enum LanguageExecution {
    /// Compile the source with `compile_command` (program and fixed flags), then
    /// run the produced executable.
    Compile { compile_command: Vec<String> },
    /// Hand the source to `command` (program and fixed flags).
    Interpret { command: Vec<String> },
}

/// The characters of each string in `v`.
pub open spec fn texts(v: Seq<String>) -> Seq<Seq<char>> {
    v.map_values(|s: String| s@)
}

/// Outcome of a step: captured output, or a failure message.
pub type OutcomeView = Result<Seq<char>, Seq<char>>;

pub open spec fn outcome_view(o: Result<String, String>) -> OutcomeView {
    match o {
        Ok(s) => Ok(s@),
        Err(s) => Err(s@),
    }
}

pub enum StrategyView {
    Compile(Seq<Seq<char>>),
    Interpret(Seq<Seq<char>>),
}

impl StrategyView {
    /// The command that the strategy starts.
    pub open spec fn command(self) -> Seq<Seq<char>> {
        match self {
            StrategyView::Compile(c) => c,
            StrategyView::Interpret(c) => c,
        }
    }

    /// A strategy names at least the program it starts.
    pub open spec fn wf(self) -> bool {
        self.command().len() >= 1
    }
}

impl View for LanguageExecution {
    type V = StrategyView;

    open spec fn view(&self) -> StrategyView {
        match self {
            LanguageExecution::Compile { compile_command } => StrategyView::Compile(
                texts(compile_command@),
            ),
            LanguageExecution::Interpret { command } => StrategyView::Interpret(texts(command@)),
        }
    }
}

/// Where an execution stands.
pub enum Phase {
    /// Waiting for the source artifact to be written.
    Source,
    /// Waiting for the compiler.
    Compile,
    /// Waiting for the compiled executable.
    Run,
    /// Waiting for the interpreter.
    Interpret,
    /// Waiting for the executable's removal; `outcome` is what will be reported.
    Cleanup { outcome: Result<String, String> },
    /// Finished with `outcome`.
    Done { outcome: Result<String, String> },
}

pub enum PhaseView {
    Source,
    Compile,
    Run,
    Interpret,
    Cleanup(OutcomeView),
    Done(OutcomeView),
}

impl View for Phase {
    type V = PhaseView;

    open spec fn view(&self) -> PhaseView {
        match self {
            Phase::Source => PhaseView::Source,
            Phase::Compile => PhaseView::Compile,
            Phase::Run => PhaseView::Run,
            Phase::Interpret => PhaseView::Interpret,
            Phase::Cleanup { outcome } => PhaseView::Cleanup(outcome_view(*outcome)),
            Phase::Done { outcome } => PhaseView::Done(outcome_view(*outcome)),
        }
    }
}

/// What the host is asked to do next.
pub enum Action {
    /// Write `code` to a fresh file with extension `extension`; report its path.
    WriteSource { code: String, extension: String },
    /// Start `program` with the argument vector `args` (no shell) and report the
    /// classified outcome.
    Spawn { program: String, args: Vec<String> },
    /// Remove the file at `path`.
    Remove { path: String },
    /// The execution is over with `outcome`.
    Finish { outcome: Result<String, String> },
}

pub enum ActionView {
    WriteSource { code: Seq<char>, extension: Seq<char> },
    Spawn { program: Seq<char>, args: Seq<Seq<char>> },
    Remove { path: Seq<char> },
    Finish { outcome: OutcomeView },
}

impl View for Action {
    type V = ActionView;

    open spec fn view(&self) -> ActionView {
        match self {
            Action::WriteSource { code, extension } => ActionView::WriteSource {
                code: code@,
                extension: extension@,
            },
            Action::Spawn { program, args } => ActionView::Spawn {
                program: program@,
                args: texts(args@),
            },
            Action::Remove { path } => ActionView::Remove { path: path@ },
            Action::Finish { outcome } => ActionView::Finish { outcome: outcome_view(*outcome) },
        }
    }
}

/// One execution of a strategy for one request.
pub struct Execution {
    pub strategy: LanguageExecution,
    /// Path reserved for the compiled executable (unused by `Interpret`).
    pub exec_path: String,
    pub phase: Phase,
}

pub struct ExecutionView {
    pub strategy: StrategyView,
    pub exec_path: Seq<char>,
    pub phase: PhaseView,
}

impl View for Execution {
    type V = ExecutionView;

    open spec fn view(&self) -> ExecutionView {
        ExecutionView { strategy: self.strategy@, exec_path: self.exec_path@, phase: self.phase@ }
    }
}

/// Starts `command`'s program with its fixed flags followed by `extra`.
pub open spec fn spawn_with(command: Seq<Seq<char>>, extra: Seq<Seq<char>>) -> ActionView {
    ActionView::Spawn { program: command[0], args: command.drop_first() + extra }
}

/// Arguments appended to the compiler's fixed command: the source, then the
/// output flag and the executable's path.
pub open spec fn compile_extra(source: Seq<char>, exec_path: Seq<char>) -> Seq<Seq<char>> {
    seq![source, "-o"@, exec_path]
}

pub open spec fn with_phase(e: ExecutionView, p: PhaseView) -> ExecutionView {
    ExecutionView { phase: p, ..e }
}

/// The execution's state and first action for `code`, with extension
/// `extension` and artifact name `name`.
pub open spec fn start(s: StrategyView, code: Seq<char>, name: Seq<char>, extension: Seq<char>) -> (
    ExecutionView,
    ActionView,
) {
    (
        ExecutionView { strategy: s, exec_path: exec_path_of(name), phase: PhaseView::Source },
        ActionView::WriteSource { code, extension },
    )
}

/// The next state and action, once the last action came out with `outcome`.
pub open spec fn step(e: ExecutionView, outcome: OutcomeView) -> (ExecutionView, ActionView) {
    let cleanup = ActionView::Remove { path: e.exec_path };
    match e.phase {
        PhaseView::Source => match (outcome, e.strategy) {
            (Ok(source), StrategyView::Compile(c)) => (
                with_phase(e, PhaseView::Compile),
                spawn_with(c, compile_extra(source, e.exec_path)),
            ),
            (Ok(source), StrategyView::Interpret(c)) => (
                with_phase(e, PhaseView::Interpret),
                spawn_with(c, seq![source]),
            ),
            (Err(m), StrategyView::Compile(_)) => (
                with_phase(e, PhaseView::Cleanup(Err(m))),
                cleanup,
            ),
            (Err(m), StrategyView::Interpret(_)) => (
                with_phase(e, PhaseView::Done(Err(m))),
                ActionView::Finish { outcome: Err(m) },
            ),
        },
        PhaseView::Compile => match outcome {
            Ok(_) => (
                with_phase(e, PhaseView::Run),
                ActionView::Spawn { program: e.exec_path, args: seq![] },
            ),
            Err(m) => (with_phase(e, PhaseView::Cleanup(Err(m))), cleanup),
        },
        PhaseView::Run => (with_phase(e, PhaseView::Cleanup(outcome)), cleanup),
        PhaseView::Interpret => (
            with_phase(e, PhaseView::Done(outcome)),
            ActionView::Finish { outcome },
        ),
        PhaseView::Cleanup(o) => (with_phase(e, PhaseView::Done(o)), ActionView::Finish { outcome: o }),
        PhaseView::Done(o) => (with_phase(e, PhaseView::Done(o)), ActionView::Finish { outcome: o }),
    }
}

/// Pushing a string pushes its characters.
pub proof fn lemma_texts_push(v: Seq<String>, s: String)
    ensures
        texts(v.push(s)) == texts(v).push(s@),
{
    assert(texts(v.push(s)) =~= texts(v).push(s@));
}

/// The actions an execution hands out when its actions come out with
/// `outcomes`, one after the other.
pub open spec fn trace(e: ExecutionView, outcomes: Seq<OutcomeView>) -> Seq<ActionView>
    decreases outcomes.len(),
{
    if outcomes.len() == 0 {
        seq![]
    } else {
        let (next, a) = step(e, outcomes[0]);
        seq![a] + trace(next, outcomes.drop_first())
    }
}

/// A phase after the executable's removal was requested.
pub open spec fn past_cleanup(p: PhaseView) -> bool {
    p is Cleanup || p is Done
}

/// The cleanup facts of [`lemma_executable_removed`], for a compile execution in
/// any phase it can reach.
proof fn lemma_cleanup_from(e: ExecutionView, outcomes: Seq<OutcomeView>)
    requires
        e.strategy is Compile,
        e.strategy.wf(),
        !(e.phase is Interpret),
    ensures
        forall|i: int|
            0 <= i < trace(e, outcomes).len() && #[trigger] trace(e, outcomes)[i] is Finish ==> (
            past_cleanup(e.phase) || exists|j: int|
                0 <= j < i && trace(e, outcomes)[j] == (ActionView::Remove { path: e.exec_path })),
        forall|j: int, k: int|
            0 <= j < k < trace(e, outcomes).len() && #[trigger] trace(e, outcomes)[j] is Remove
                ==> !(#[trigger] trace(e, outcomes)[k] is Spawn),
        past_cleanup(e.phase) ==> forall|k: int|
            0 <= k < trace(e, outcomes).len() ==> !(#[trigger] trace(e, outcomes)[k] is Spawn),
        forall|j: int|
            0 <= j < trace(e, outcomes).len() && #[trigger] trace(e, outcomes)[j] is Remove ==> trace(
                e,
                outcomes,
            )[j] == (ActionView::Remove { path: e.exec_path }),
    decreases outcomes.len(),
{
    if outcomes.len() > 0 {
        let (next, a) = step(e, outcomes[0]);
        let rest = outcomes.drop_first();
        lemma_cleanup_from(next, rest);
        let t = trace(e, outcomes);
        let u = trace(next, rest);
        assert(t == seq![a] + u);
        assert(next.exec_path == e.exec_path);
        assert forall|i: int| 0 <= i < t.len() && #[trigger] t[i] is Finish implies (past_cleanup(
            e.phase,
        ) || exists|j: int| 0 <= j < i && t[j] == (ActionView::Remove { path: e.exec_path })) by {
            if i > 0 && !past_cleanup(e.phase) {
                assert(u[i - 1] is Finish);
                if !past_cleanup(next.phase) {
                    let j = choose|j: int|
                        0 <= j < i - 1 && u[j] == (ActionView::Remove { path: e.exec_path });
                    assert(t[j + 1] == u[j]);
                } else {
                    assert(t[0] == (ActionView::Remove { path: e.exec_path }));
                }
            }
        }
        assert forall|j: int, k: int|
            0 <= j < k < t.len() && #[trigger] t[j] is Remove implies !(#[trigger] t[k] is Spawn) by {
            assert(t[k] == u[k - 1]);
            if j > 0 {
                assert(t[j] == u[j - 1]);
            } else {
                assert(past_cleanup(next.phase));
            }
        }
        assert forall|k: int| past_cleanup(e.phase) && 0 <= k < t.len() implies !(
        #[trigger] t[k] is Spawn) by {
            if k > 0 {
                assert(t[k] == u[k - 1]);
            }
        }
        assert forall|j: int| 0 <= j < t.len() && #[trigger] t[j] is Remove implies t[j] == (
        ActionView::Remove { path: e.exec_path }) by {
            if j > 0 {
                assert(t[j] == u[j - 1]);
            }
        }
    }
}

/// Cleanup: whatever the outcomes of its steps, a compile execution asks for the
/// removal of its executable before it finishes, starts no process once it has
/// asked for it, and removes no other file.
pub proof fn lemma_executable_removed(e: ExecutionView, outcomes: Seq<OutcomeView>)
    requires
        e.strategy is Compile,
        e.strategy.wf(),
        e.phase is Source,
    ensures
        forall|i: int|
            0 <= i < trace(e, outcomes).len() && #[trigger] trace(e, outcomes)[i] is Finish
                ==> exists|j: int|
                0 <= j < i && trace(e, outcomes)[j] == (ActionView::Remove { path: e.exec_path }),
        forall|j: int, k: int|
            0 <= j < k < trace(e, outcomes).len() && #[trigger] trace(e, outcomes)[j] is Remove
                ==> !(#[trigger] trace(e, outcomes)[k] is Spawn),
        forall|j: int|
            0 <= j < trace(e, outcomes).len() && #[trigger] trace(e, outcomes)[j] is Remove ==> trace(
                e,
                outcomes,
            )[j] == (ActionView::Remove { path: e.exec_path }),
{
    lemma_cleanup_from(e, outcomes);
}

/// Two executions that differ in their executable's path alone, fed the same
/// outcomes, hand out actions of the same kinds and finish alike.
proof fn lemma_same_finish(e1: ExecutionView, e2: ExecutionView, outcomes: Seq<OutcomeView>)
    requires
        e1.strategy == e2.strategy,
        e1.phase == e2.phase,
    ensures
        trace(e1, outcomes).len() == outcomes.len(),
        trace(e2, outcomes).len() == outcomes.len(),
        forall|i: int|
            0 <= i < outcomes.len() ==> (#[trigger] trace(e1, outcomes)[i] is Finish <==> trace(
                e2,
                outcomes,
            )[i] is Finish),
        forall|i: int|
            0 <= i < outcomes.len() && #[trigger] trace(e1, outcomes)[i] is Finish ==> trace(
                e1,
                outcomes,
            )[i] == trace(e2, outcomes)[i],
    decreases outcomes.len(),
{
    if outcomes.len() > 0 {
        let (n1, a1) = step(e1, outcomes[0]);
        let (n2, a2) = step(e2, outcomes[0]);
        let rest = outcomes.drop_first();
        lemma_same_finish(n1, n2, rest);
        let t1 = trace(e1, outcomes);
        let t2 = trace(e2, outcomes);
        assert(t1 == seq![a1] + trace(n1, rest));
        assert(t2 == seq![a2] + trace(n2, rest));
        assert forall|i: int| 0 <= i < outcomes.len() implies (#[trigger] t1[i] is Finish <==> t2[i] is Finish)
            && (t1[i] is Finish ==> t1[i] == t2[i]) by {
            if i > 0 {
                assert(t1[i] == trace(n1, rest)[i - 1]);
                assert(t2[i] == trace(n2, rest)[i - 1]);
            }
        }
    }
}

/// Idempotence: the same submission started twice, under two artifact names, and
/// whose steps come out the same way both times, first writes the same source,
/// finishes at the same step with the same outcome, and each run removes its own
/// executable (distinct when the names are) before it finishes.
pub proof fn lemma_repeated_submission(
    s: StrategyView,
    code: Seq<char>,
    name1: Seq<char>,
    name2: Seq<char>,
    extension: Seq<char>,
    outcomes: Seq<OutcomeView>,
)
    requires
        s.wf(),
    ensures
        start(s, code, name1, extension).1 == start(s, code, name2, extension).1,
        name1 != name2 ==> start(s, code, name1, extension).0.exec_path != start(
            s,
            code,
            name2,
            extension,
        ).0.exec_path,
        forall|i: int|
            0 <= i < outcomes.len() ==> (#[trigger] trace(start(s, code, name1, extension).0, outcomes)[i] is Finish
                <==> trace(start(s, code, name2, extension).0, outcomes)[i] is Finish),
        forall|i: int|
            0 <= i < outcomes.len() && #[trigger] trace(start(s, code, name1, extension).0, outcomes)[i] is Finish
                ==> trace(start(s, code, name1, extension).0, outcomes)[i] == trace(
                start(s, code, name2, extension).0,
                outcomes,
            )[i],
        s is Compile ==> forall|i: int|
            0 <= i < outcomes.len() && #[trigger] trace(start(s, code, name1, extension).0, outcomes)[i] is Finish
                ==> exists|j: int|
                0 <= j < i && trace(start(s, code, name1, extension).0, outcomes)[j] == (ActionView::Remove {
                    path: exec_path_of(name1),
                }),
        s is Compile ==> forall|i: int|
            0 <= i < outcomes.len() && #[trigger] trace(start(s, code, name2, extension).0, outcomes)[i] is Finish
                ==> exists|j: int|
                0 <= j < i && trace(start(s, code, name2, extension).0, outcomes)[j] == (ActionView::Remove {
                    path: exec_path_of(name2),
                }),
{
    let e1 = start(s, code, name1, extension).0;
    let e2 = start(s, code, name2, extension).0;
    lemma_same_finish(e1, e2, outcomes);
    if name1 != name2 {
        crate::artifact::lemma_exec_paths_distinct(name1, name2);
    }
    if s is Compile {
        lemma_executable_removed(e1, outcomes);
        lemma_executable_removed(e2, outcomes);
    }
}

/// An interpreted execution whose source was written to `source` starts the
/// interpreter on it and finishes with the interpreter's outcome `run`.
pub proof fn lemma_interpret_reports_run(
    e: ExecutionView,
    source: Seq<char>,
    run: OutcomeView,
    rest: Seq<OutcomeView>,
)
    requires
        e.strategy is Interpret,
        e.phase is Source,
    ensures
        trace(e, seq![Ok(source), run] + rest)[0] == spawn_with(e.strategy.command(), seq![source]),
        trace(e, seq![Ok(source), run] + rest)[1] == (ActionView::Finish { outcome: run }),
{
    let os = seq![Ok(source), run] + rest;
    let os1 = os.drop_first();
    assert(os1 =~= seq![run] + rest);
    let (e1, a0) = step(e, os[0]);
    let (e2, a1) = step(e1, os1[0]);
    assert(trace(e, os) == seq![a0] + trace(e1, os1));
    assert(trace(e1, os1) == seq![a1] + trace(e2, os1.drop_first()));
}

/// A compiled execution whose compiler succeeds starts the compiler on the
/// source, then the executable with no arguments, then removes the executable
/// and finishes with the executable's outcome `run`.
pub proof fn lemma_compile_reports_run(
    e: ExecutionView,
    source: Seq<char>,
    compiled: Seq<char>,
    run: OutcomeView,
    removed: OutcomeView,
    rest: Seq<OutcomeView>,
)
    requires
        e.strategy is Compile,
        e.phase is Source,
    ensures
        trace(e, seq![Ok(source), Ok(compiled), run, removed] + rest)[0] == spawn_with(
            e.strategy.command(),
            compile_extra(source, e.exec_path),
        ),
        trace(e, seq![Ok(source), Ok(compiled), run, removed] + rest)[1] == (ActionView::Spawn {
            program: e.exec_path,
            args: seq![],
        }),
        trace(e, seq![Ok(source), Ok(compiled), run, removed] + rest)[2] == (ActionView::Remove {
            path: e.exec_path,
        }),
        trace(e, seq![Ok(source), Ok(compiled), run, removed] + rest)[3] == (ActionView::Finish {
            outcome: run,
        }),
{
    let os = seq![Ok(source), Ok(compiled), run, removed] + rest;
    let os1 = os.drop_first();
    let os2 = os1.drop_first();
    let os3 = os2.drop_first();
    assert(os1 =~= seq![Ok(compiled), run, removed] + rest);
    assert(os2 =~= seq![run, removed] + rest);
    assert(os3 =~= seq![removed] + rest);
    let (e1, a0) = step(e, os[0]);
    let (e2, a1) = step(e1, os1[0]);
    let (e3, a2) = step(e2, os2[0]);
    let (e4, a3) = step(e3, os3[0]);
    assert(trace(e, os) == seq![a0] + trace(e1, os1));
    assert(trace(e1, os1) == seq![a1] + trace(e2, os2));
    assert(trace(e2, os2) == seq![a2] + trace(e3, os3));
    assert(trace(e3, os3) == seq![a3] + trace(e4, os3.drop_first()));
}

/// A compiled execution whose compiler fails with `message` never starts the
/// executable: it removes the executable's path and finishes with `message`.
pub proof fn lemma_compile_failure_skips_run(
    e: ExecutionView,
    source: Seq<char>,
    message: Seq<char>,
    removed: OutcomeView,
    rest: Seq<OutcomeView>,
)
    requires
        e.strategy is Compile,
        e.phase is Source,
    ensures
        trace(e, seq![Ok(source), Err(message), removed] + rest)[1] == (ActionView::Remove {
            path: e.exec_path,
        }),
        trace(e, seq![Ok(source), Err(message), removed] + rest)[2] == (ActionView::Finish {
            outcome: Err(message),
        }),
{
    let os = seq![Ok(source), Err(message), removed] + rest;
    let os1 = os.drop_first();
    let os2 = os1.drop_first();
    assert(os1 =~= seq![Err(message), removed] + rest);
    assert(os2 =~= seq![removed] + rest);
    let (e1, a0) = step(e, os[0]);
    let (e2, a1) = step(e1, os1[0]);
    let (e3, a2) = step(e2, os2[0]);
    assert(trace(e, os) == seq![a0] + trace(e1, os1));
    assert(trace(e1, os1) == seq![a1] + trace(e2, os2));
    assert(trace(e2, os2) == seq![a2] + trace(e3, os2.drop_first()));
}

fn copy_outcome(o: &Result<String, String>) -> (r: Result<String, String>)
    ensures
        outcome_view(r) == outcome_view(*o),
{
    match o {
        Ok(s) => Ok(s.clone()),
        Err(s) => Err(s.clone()),
    }
}

/// The command's fixed flags: all of it but the program.
fn command_tail(command: &Vec<String>) -> (r: Vec<String>)
    requires
        command@.len() >= 1,
    ensures
        texts(r@) == texts(command@).drop_first(),
{
    let mut r: Vec<String> = Vec::new();
    let mut i: usize = 1;
    while i < command.len()
        invariant
            1 <= i <= command@.len(),
            texts(r@) == texts(command@).subrange(1, i as int),
        decreases command@.len() - i,
    {
        let ghost prev = r@;
        r.push(command[i].clone());
        proof {
            lemma_texts_push(prev, command@[i as int]);
            assert(texts(command@).subrange(1, i + 1) =~= texts(command@).subrange(1, i as int).push(
                command@[i as int]@,
            ));
        }
        i = i + 1;
    }
    assert(texts(command@).drop_first() =~= texts(command@).subrange(1, i as int));
    r
}

impl LanguageExecution {
    /// Begins an execution of `code`: the executable (if any) goes to the path
    /// reserved for `exec_name`, and the first action writes the source artifact.
    pub fn execute(&self, code: &str, exec_name: &str, file_extension: &str) -> (r: (
        Execution,
        Action,
    ))
        requires
            self@.wf(),
        ensures
            (r.0@, r.1@) == start(self@, code@, exec_name@, file_extension@),
    {
        let strategy = match self {
            LanguageExecution::Compile { compile_command } => LanguageExecution::Compile {
                compile_command: compile_command.clone(),
            },
            LanguageExecution::Interpret { command } => LanguageExecution::Interpret {
                command: command.clone(),
            },
        };
        let e = Execution { strategy, exec_path: exec_path_for(exec_name), phase: Phase::Source };
        let a = Action::WriteSource {
            code: String::from_str(code),
            extension: String::from_str(file_extension),
        };
        (e, a)
    }
}

impl Execution {
    /// Advances the execution with the outcome of the last action.
    pub fn advance(&mut self, outcome: Result<String, String>) -> (r: Action)
        requires
            old(self)@.strategy.wf(),
        ensures
            (final(self)@, r@) == step(old(self)@, outcome_view(outcome)),
    {
        let cleanup_path = self.exec_path.clone();
        let (phase, action) = match &self.phase {
            Phase::Source => match (outcome, &self.strategy) {
                (Ok(source), LanguageExecution::Compile { compile_command }) => {
                    let mut args = command_tail(compile_command);
                    let ghost a0 = args@;
                    args.push(source);
                    let ghost a1 = args@;
                    args.push(String::from_str("-o"));
                    let ghost a2 = args@;
                    args.push(self.exec_path.clone());
                    proof {
                        lemma_texts_push(a0, a1.last());
                        lemma_texts_push(a1, a2.last());
                        lemma_texts_push(a2, args@.last());
                        assert(texts(args@) =~= texts(a0) + compile_extra(
                            a1.last()@,
                            self.exec_path@,
                        ));
                    }
                    (Phase::Compile, Action::Spawn { program: compile_command[0].clone(), args })
                },
                (Ok(source), LanguageExecution::Interpret { command }) => {
                    let mut args = command_tail(command);
                    let ghost a0 = args@;
                    args.push(source);
                    proof {
                        lemma_texts_push(a0, args@.last());
                        assert(texts(args@) =~= texts(a0) + seq![args@.last()@]);
                    }
                    (Phase::Interpret, Action::Spawn { program: command[0].clone(), args })
                },
                (Err(m), LanguageExecution::Compile { .. }) => (
                    Phase::Cleanup { outcome: Err(m) },
                    Action::Remove { path: cleanup_path },
                ),
                (Err(m), LanguageExecution::Interpret { .. }) => (
                    Phase::Done { outcome: Err(m.clone()) },
                    Action::Finish { outcome: Err(m) },
                ),
            },
            Phase::Compile => match outcome {
                Ok(_) => {
                    let args: Vec<String> = Vec::new();
                    assert(texts(args@) =~= seq![]);
                    (Phase::Run, Action::Spawn { program: cleanup_path, args })
                },
                Err(m) => (Phase::Cleanup { outcome: Err(m) }, Action::Remove { path: cleanup_path }),
            },
            Phase::Run => (Phase::Cleanup { outcome }, Action::Remove { path: cleanup_path }),
            Phase::Interpret => (
                Phase::Done { outcome: copy_outcome(&outcome) },
                Action::Finish { outcome },
            ),
            Phase::Cleanup { outcome: o } | Phase::Done { outcome: o } => (
                Phase::Done { outcome: copy_outcome(o) },
                Action::Finish { outcome: copy_outcome(o) },
            ),
        };
        self.phase = phase;
        action
    }
}

} // verus!
