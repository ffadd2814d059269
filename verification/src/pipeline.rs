//! The pipeline executor, as a state machine.
//!
//! The executor walks the stages of one parsed line from left to right. It
//! never touches a process or the file system itself: it says what is to be
//! done next (an [`Action`]), the caller does it and reports how it went (an
//! [`Outcome`]), and the executor moves on. At most one spawned process is
//! pending at any time: the one whose output the next stage reads, or which
//! is waited for when the walk ends.

use vstd::prelude::*;
use vstd::string::*;
use crate::cmd::{parses_to, segments, CommandSpec, ShellCommand};
use crate::text::same_text;

verus! {

/// What the shell does with a stage.
#[derive(Debug, Clone, Copy, PartialEq, Eq, Structural)]
pub enum StageKind {
    /// The builtin `exit`.
    Exit,
    /// The builtin `cd`.
    ChangeDirectory,
    /// Any other name: a program to run.
    External,
}

/// Where a spawned process reads its input from.
#[derive(Debug, Clone, Copy, PartialEq, Eq, Structural)]
pub enum StdinSource {
    /// The shell's own input.
    Inherit,
    /// The output of the pending process, which passes to the new one.
    PreviousOutput,
}

/// Where a spawned process writes its output to.
#[derive(Debug, Clone, Copy, PartialEq, Eq, Structural)]
pub enum StdoutSink {
    /// The shell's own output.
    Inherit,
    /// A new pipe, kept for the stage that follows.
    Pipe,
}

/// The kind of the stage with this name.
pub open spec fn stage_kind(name: Seq<char>) -> StageKind {
    if name == "exit"@ {
        StageKind::Exit
    } else if name == "cd"@ {
        StageKind::ChangeDirectory
    } else {
        StageKind::External
    }
}

/// The directory that a `cd` with these arguments asks for: its first
/// argument, or the root directory if it has none.
pub open spec fn cd_target_of(arguments: Seq<Seq<char>>) -> Seq<char> {
    if arguments.len() > 0 {
        arguments[0]
    } else {
        "/"@
    }
}

/// The kind of the stage `command`.
pub fn kind_of(command: &ShellCommand) -> (kind: StageKind)
    ensures
        kind == stage_kind(command@.name),
{
    if same_text(command.name.as_str(), "exit") {
        StageKind::Exit
    } else if same_text(command.name.as_str(), "cd") {
        StageKind::ChangeDirectory
    } else {
        StageKind::External
    }
}

/// The directory that the `cd` stage `command` asks for.
pub fn cd_target<'a>(command: &'a ShellCommand) -> (target: &'a str)
    ensures
        target@ == cd_target_of(command@.arguments),
{
    if command.arguments.len() > 0 {
        command.arguments[0].as_str()
    } else {
        "/"
    }
}

/// What the executor asks its caller to do next, in the model.
pub enum ActionSpec {
    Exit,
    ChangeDirectory { target: Seq<char> },
    Spawn { name: Seq<char>, arguments: Seq<Seq<char>>, stdin: StdinSource, stdout: StdoutSink },
    Finish { wait: bool },
}

/// What the executor asks its caller to do next.
#[derive(Debug, Clone, Copy, PartialEq, Eq)]
pub enum Action<'a> {
    /// Leave the shell at once: spawn nothing more and wait for nothing, not
    /// even for a process that an earlier stage of this line has started.
    Exit,
    /// Make `target` the working directory and report whether that worked.
    ChangeDirectory { target: &'a str },
    /// Start `command` with its input and output connected as given, and
    /// report whether that worked.
    Spawn { command: &'a ShellCommand, stdin: StdinSource, stdout: StdoutSink },
    /// The walk is over. If `wait` is set, a process is pending: wait for it
    /// before the next line is read.
    Finish { wait: bool },
}

impl View for Action<'_> {
    type V = ActionSpec;

    open spec fn view(&self) -> ActionSpec {
        match *self {
            Action::Exit => ActionSpec::Exit,
            Action::ChangeDirectory { target } => ActionSpec::ChangeDirectory { target: target@ },
            Action::Spawn { command, stdin, stdout } => ActionSpec::Spawn {
                name: command@.name,
                arguments: command@.arguments,
                stdin,
                stdout,
            },
            Action::Finish { wait } => ActionSpec::Finish { wait },
        }
    }
}

/// How the action that the executor asked for went.
#[derive(Debug, Clone, PartialEq, Eq)]
pub enum Outcome {
    /// The process was started.
    Spawned,
    /// The process could not be started.
    SpawnFailed,
    /// The working directory is now `path`.
    DirectoryChanged { path: String },
    /// The directory is missing or cannot be entered.
    DirectoryFailed,
}

/// The executor's state in the model: the stages of the line, and how far
/// the walk has come.
pub struct Walk {
    /// The stages, from left to right.
    pub stages: Seq<CommandSpec>,
    /// How many stages the walk has left behind.
    pub position: nat,
    /// Whether a spawned process is pending: one whose output no later stage
    /// has taken over, and which nobody has waited for.
    pub pending: bool,
    /// Whether a failed `cd` has ended the walk.
    pub aborted: bool,
}

impl Walk {
    /// The walk at the beginning of a line.
    pub open spec fn start(stages: Seq<CommandSpec>) -> Walk {
        Walk { stages, position: 0, pending: false, aborted: false }
    }

    /// The walk has not run past the end of its line.
    pub open spec fn wf(self) -> bool {
        self.position <= self.stages.len()
    }

    /// Whether a stage is still to be dealt with.
    pub open spec fn running(self) -> bool {
        !self.aborted && self.position < self.stages.len()
    }

    /// The stage that the walk has reached.
    pub open spec fn current(self) -> CommandSpec
        recommends
            self.running(),
    {
        self.stages[self.position as int]
    }

    /// What is to be done next.
    pub open spec fn next_action(self) -> ActionSpec {
        if !self.running() {
            ActionSpec::Finish { wait: self.pending }
        } else {
            match stage_kind(self.current().name) {
                StageKind::Exit => ActionSpec::Exit,
                StageKind::ChangeDirectory => ActionSpec::ChangeDirectory {
                    target: cd_target_of(self.current().arguments),
                },
                StageKind::External => ActionSpec::Spawn {
                    name: self.current().name,
                    arguments: self.current().arguments,
                    stdin: if self.pending {
                        StdinSource::PreviousOutput
                    } else {
                        StdinSource::Inherit
                    },
                    stdout: if self.position + 1 < self.stages.len() {
                        StdoutSink::Pipe
                    } else {
                        StdoutSink::Inherit
                    },
                },
            }
        }
    }

    /// Whether `outcome` answers the action that the walk asks for.
    pub open spec fn accepts(self, outcome: Outcome) -> bool {
        match self.next_action() {
            ActionSpec::Spawn { .. } => outcome is Spawned || outcome is SpawnFailed,
            ActionSpec::ChangeDirectory { .. } => outcome is DirectoryChanged
                || outcome is DirectoryFailed,
            _ => false,
        }
    }

    /// The walk after `outcome`. An outcome that does not answer the pending
    /// action changes nothing.
    pub open spec fn step(self, outcome: Outcome) -> Walk {
        if !self.accepts(outcome) {
            self
        } else {
            match outcome {
                Outcome::Spawned => Walk { position: self.position + 1, pending: true, ..self },
                Outcome::SpawnFailed => Walk {
                    position: self.position + 1,
                    pending: false,
                    ..self
                },
                Outcome::DirectoryChanged { .. } => Walk {
                    position: self.position + 1,
                    pending: false,
                    ..self
                },
                Outcome::DirectoryFailed => Walk { aborted: true, ..self },
            }
        }
    }

    /// The working directory after `outcome`, where it was `directory` before.
    pub open spec fn directory_after(self, outcome: Outcome, directory: Seq<char>) -> Seq<char> {
        match outcome {
            Outcome::DirectoryChanged { path } if self.accepts(outcome) => path@,
            _ => directory,
        }
    }
}

impl Walk {
    /// The walk after the outcomes `outcomes`, taken in from left to right.
    pub open spec fn run(self, outcomes: Seq<Outcome>) -> Walk
        decreases outcomes.len(),
    {
        if outcomes.len() == 0 {
            self
        } else {
            self.step(outcomes[0]).run(outcomes.drop_first())
        }
    }

    /// The working directory after the outcomes `outcomes`, where it was
    /// `directory` before.
    pub open spec fn directory_run(self, outcomes: Seq<Outcome>, directory: Seq<char>) -> Seq<
        char,
    >
        decreases outcomes.len(),
    {
        if outcomes.len() == 0 {
            directory
        } else {
            self.step(outcomes[0]).directory_run(
                outcomes.drop_first(),
                self.directory_after(outcomes[0], directory),
            )
        }
    }

    /// How many processes the caller was asked to spawn, and tried to, while
    /// the outcomes `outcomes` were taken in.
    pub open spec fn spawn_attempts(self, outcomes: Seq<Outcome>) -> nat
        decreases outcomes.len(),
    {
        if outcomes.len() == 0 {
            0
        } else {
            let here: nat = if self.next_action() is Spawn && self.accepts(outcomes[0]) {
                1
            } else {
                0
            };
            here + self.step(outcomes[0]).spawn_attempts(outcomes.drop_first())
        }
    }
}

/// How many of `stages` are programs to run, and no builtins.
pub open spec fn externals(stages: Seq<CommandSpec>) -> nat
    decreases stages.len(),
{
    if stages.len() == 0 {
        0
    } else {
        let last: nat = if stage_kind(stages.last().name) == StageKind::External {
            1
        } else {
            0
        };
        externals(stages.drop_last()) + last
    }
}

/// Of the first `n` stages no more are external than of all of them, and no
/// more than `n`.
pub proof fn lemma_externals_of_prefix(stages: Seq<CommandSpec>, n: int)
    requires
        0 <= n <= stages.len(),
    ensures
        externals(stages.take(n)) <= externals(stages),
        externals(stages.take(n)) <= n,
    decreases stages.len() - n,
{
    if n == stages.len() {
        assert(stages.take(n) =~= stages);
        lemma_externals_at_most_len(stages);
    } else {
        lemma_externals_of_prefix(stages, n + 1);
        assert(stages.take(n + 1).drop_last() =~= stages.take(n));
        lemma_externals_at_most_len(stages.take(n));
    }
}

/// No more stages are external than there are stages.
pub proof fn lemma_externals_at_most_len(stages: Seq<CommandSpec>)
    ensures
        externals(stages) <= stages.len(),
    decreases stages.len(),
{
    if stages.len() > 0 {
        lemma_externals_at_most_len(stages.drop_last());
    }
}

/// A step never leads past the end of the line, and never back.
pub proof fn lemma_step_in_line(walk: Walk, outcome: Outcome)
    requires
        walk.wf(),
    ensures
        walk.step(outcome).wf(),
        walk.step(outcome).stages == walk.stages,
        walk.position <= walk.step(outcome).position <= walk.position + 1,
{
}

/// Every spawn belongs to a stage of its own: while any outcomes are taken
/// in, the caller is asked to spawn exactly once for each external stage that
/// the walk leaves behind.
pub proof fn lemma_spawns_counted(walk: Walk, outcomes: Seq<Outcome>)
    requires
        walk.wf(),
    ensures
        walk.run(outcomes).wf(),
        walk.run(outcomes).stages == walk.stages,
        walk.position <= walk.run(outcomes).position,
        externals(walk.stages.take(walk.position as int)) + walk.spawn_attempts(outcomes)
            == externals(walk.stages.take(walk.run(outcomes).position as int)),
    decreases outcomes.len(),
{
    if outcomes.len() > 0 {
        let next = walk.step(outcomes[0]);
        lemma_step_in_line(walk, outcomes[0]);
        lemma_spawns_counted(next, outcomes.drop_first());
        if next.position == walk.position + 1 {
            assert(walk.stages.take(walk.position as int + 1).drop_last() =~= walk.stages.take(
                walk.position as int,
            ));
        }
    }
}

/// A line of `k` stages has at most `k` processes spawned, whatever happens
/// on the way: no more than it has external stages, and exactly that many if
/// the walk reaches the end of the line.
pub proof fn lemma_spawns_bounded(stages: Seq<CommandSpec>, outcomes: Seq<Outcome>)
    ensures
        Walk::start(stages).spawn_attempts(outcomes) <= externals(stages) <= stages.len(),
        Walk::start(stages).run(outcomes).position == stages.len() ==> Walk::start(
            stages,
        ).spawn_attempts(outcomes) == externals(stages),
{
    let walk = Walk::start(stages);
    lemma_spawns_counted(walk, outcomes);
    assert(stages.take(0) =~= Seq::<CommandSpec>::empty());
    let end = walk.run(outcomes).position as int;
    lemma_externals_of_prefix(stages, end);
    lemma_externals_at_most_len(stages);
    if end == stages.len() {
        assert(stages.take(end) =~= stages);
    }
}

/// A line that `|` cuts into `k` segments has at most `k` processes spawned.
pub proof fn lemma_spawns_bounded_by_segments(
    line: Seq<char>,
    commands: Seq<ShellCommand>,
    outcomes: Seq<Outcome>,
)
    requires
        parses_to(segments(line), commands),
    ensures
        Walk::start(specs(commands)).spawn_attempts(outcomes) <= segments(line).len(),
{
    lemma_spawns_bounded(specs(commands), outcomes);
}

/// A `cd` without an argument asks for the root directory, wherever the
/// shell stands and whatever came before it on the line.
pub proof fn lemma_cd_defaults_to_root(walk: Walk)
    requires
        walk.running(),
        stage_kind(walk.current().name) == StageKind::ChangeDirectory,
        walk.current().arguments.len() == 0,
    ensures
        walk.next_action() == (ActionSpec::ChangeDirectory { target: "/"@ }),
{
}

/// Once a walk is over, by a failed `cd` or at the end of its line, no
/// outcome moves it: nothing more is spawned, and the working directory
/// stays.
pub proof fn lemma_finished_walk_stays(walk: Walk, outcomes: Seq<Outcome>, directory: Seq<char>)
    requires
        !walk.running(),
    ensures
        walk.run(outcomes) == walk,
        walk.spawn_attempts(outcomes) == 0,
        walk.directory_run(outcomes, directory) == directory,
    decreases outcomes.len(),
{
    if outcomes.len() > 0 {
        lemma_finished_walk_stays(walk, outcomes.drop_first(), directory);
    }
}

/// A `cd` that fails leaves the working directory as it was and ends the
/// walk: whatever is reported afterwards, no later stage is run, and the
/// caller is only asked to wait for the process that was pending before.
pub proof fn lemma_failed_cd_aborts(walk: Walk, later: Seq<Outcome>, directory: Seq<char>)
    requires
        walk.next_action() is ChangeDirectory,
    ensures
        walk.accepts(Outcome::DirectoryFailed),
        walk.directory_after(Outcome::DirectoryFailed, directory) == directory,
        walk.step(Outcome::DirectoryFailed).aborted,
        walk.step(Outcome::DirectoryFailed).next_action() == (ActionSpec::Finish {
            wait: walk.pending,
        }),
        walk.step(Outcome::DirectoryFailed).run(later) == walk.step(Outcome::DirectoryFailed),
        walk.step(Outcome::DirectoryFailed).spawn_attempts(later) == 0,
        walk.step(Outcome::DirectoryFailed).directory_run(later, directory) == directory,
{
    lemma_finished_walk_stays(walk.step(Outcome::DirectoryFailed), later, directory);
}

/// A stage that cannot be spawned does not stop the line: the walk goes on
/// to the stage after it, which gets no input from the failed one.
pub proof fn lemma_failed_spawn_goes_on(walk: Walk)
    requires
        walk.next_action() is Spawn,
        walk.position + 1 < walk.stages.len(),
    ensures
        walk.accepts(Outcome::SpawnFailed),
        walk.step(Outcome::SpawnFailed).running(),
        walk.step(Outcome::SpawnFailed).position == walk.position + 1,
        !walk.step(Outcome::SpawnFailed).pending,
        !(walk.step(Outcome::SpawnFailed).next_action() is Finish),
        stage_kind(walk.stages[walk.position as int + 1].name) == StageKind::External ==> walk.step(
            Outcome::SpawnFailed,
        ).next_action() == (ActionSpec::Spawn {
            name: walk.stages[walk.position as int + 1].name,
            arguments: walk.stages[walk.position as int + 1].arguments,
            stdin: StdinSource::Inherit,
            stdout: if walk.position + 2 < walk.stages.len() {
                StdoutSink::Pipe
            } else {
                StdoutSink::Inherit
            },
        }),
{
}

/// When the walk reaches a stage named `exit`, the caller is asked to leave
/// the shell, whether or not a process is pending; no outcome is taken in
/// any more, so nothing further is spawned.
pub proof fn lemma_exit_ends_the_walk(walk: Walk, outcomes: Seq<Outcome>, directory: Seq<char>)
    requires
        walk.running(),
        stage_kind(walk.current().name) == StageKind::Exit,
    ensures
        walk.next_action() == ActionSpec::Exit,
        walk.run(outcomes) == walk,
        walk.spawn_attempts(outcomes) == 0,
        walk.directory_run(outcomes, directory) == directory,
    decreases outcomes.len(),
{
    if outcomes.len() > 0 {
        lemma_exit_ends_the_walk(walk, outcomes.drop_first(), directory);
    }
}

/// Whether every stage is a program to run.
pub open spec fn all_external(stages: Seq<CommandSpec>) -> bool {
    forall|i: int| 0 <= i < stages.len() ==> stage_kind(#[trigger] stages[i].name) == StageKind::External
}

/// The outcomes of `n` spawns that all succeeded.
pub open spec fn all_spawned(n: nat) -> Seq<Outcome> {
    Seq::new(n, |i: int| Outcome::Spawned)
}

/// While every spawn succeeds, a walk over external stages goes one stage
/// further with each of them and has a process pending from the first on.
pub proof fn lemma_spawns_move_on(walk: Walk, n: nat)
    requires
        !walk.aborted,
        all_external(walk.stages),
        walk.position + n <= walk.stages.len(),
    ensures
        walk.run(all_spawned(n)) == (Walk {
            position: walk.position + n,
            pending: walk.pending || n > 0,
            ..walk
        }),
    decreases n,
{
    if n > 0 {
        assert(walk.accepts(Outcome::Spawned));
        assert(all_spawned(n).drop_first() =~= all_spawned((n - 1) as nat));
        lemma_spawns_move_on(walk.step(Outcome::Spawned), (n - 1) as nat);
    }
}

/// A line of programs becomes a chain: when all before it were started, the
/// stage at position `n` is spawned next. It reads the shell's input if it is
/// the first and the output of the stage before it otherwise; it writes to
/// the shell's output if it is the last and into a pipe otherwise. After the
/// last one the caller is asked to wait for it.
pub proof fn lemma_pipeline_is_chained(stages: Seq<CommandSpec>, n: nat)
    requires
        all_external(stages),
        n <= stages.len(),
    ensures
        n < stages.len() ==> Walk::start(stages).run(all_spawned(n)).next_action() == (
        ActionSpec::Spawn {
            name: stages[n as int].name,
            arguments: stages[n as int].arguments,
            stdin: if n == 0 {
                StdinSource::Inherit
            } else {
                StdinSource::PreviousOutput
            },
            stdout: if n + 1 == stages.len() {
                StdoutSink::Inherit
            } else {
                StdoutSink::Pipe
            },
        }),
        n == stages.len() ==> Walk::start(stages).run(all_spawned(n)).next_action() == (
        ActionSpec::Finish { wait: n > 0 }),
{
    lemma_spawns_move_on(Walk::start(stages), n);
}

/// The shell's working directory. It outlives the lines that are read, and
/// only a `cd` that succeeded changes it.
#[derive(Debug, Clone, PartialEq, Eq)]
pub struct WorkingDirectory {
    path: String,
}

impl View for WorkingDirectory {
    type V = Seq<char>;

    closed spec fn view(&self) -> Seq<char> {
        self.path@
    }
}

impl WorkingDirectory {
    /// The working directory at `path`.
    pub fn new(path: String) -> (directory: WorkingDirectory)
        ensures
            directory@ == path@,
    {
        WorkingDirectory { path }
    }

    /// The directory's path.
    pub fn path(&self) -> (path: &str)
        ensures
            path@ == self@,
    {
        self.path.as_str()
    }
}

/// The models of a list of commands.
pub open spec fn specs(commands: Seq<ShellCommand>) -> Seq<CommandSpec> {
    Seq::new(commands.len(), |i: int| commands[i]@)
}

/// The executor for one line.
#[derive(Debug)]
pub struct Executor {
    commands: Vec<ShellCommand>,
    position: usize,
    pending: bool,
    aborted: bool,
}

impl View for Executor {
    type V = Walk;

    closed spec fn view(&self) -> Walk {
        Walk {
            stages: specs(self.commands@),
            position: self.position as nat,
            pending: self.pending,
            aborted: self.aborted,
        }
    }
}

impl Executor {
    #[verifier::type_invariant]
    spec fn inv(&self) -> bool {
        self.position <= self.commands.len()
    }

    /// An executor at the first stage of `commands`, with no process pending.
    pub fn new(commands: Vec<ShellCommand>) -> (executor: Executor)
        ensures
            executor@ == Walk::start(specs(commands@)),
    {
        Executor { commands, position: 0, pending: false, aborted: false }
    }

    /// The stages of the line.
    pub fn commands(&self) -> (commands: &Vec<ShellCommand>)
        ensures
            specs(commands@) == self@.stages,
    {
        &self.commands
    }

    /// How many stages the walk has left behind.
    pub fn position(&self) -> (position: usize)
        ensures
            position == self@.position,
            self@.wf(),
    {
        proof {
            use_type_invariant(self);
        }
        self.position
    }

    /// Whether a spawned process is pending.
    pub fn has_pending(&self) -> (pending: bool)
        ensures
            pending == self@.pending,
    {
        self.pending
    }

    /// Whether a failed `cd` has ended the walk.
    pub fn is_aborted(&self) -> (aborted: bool)
        ensures
            aborted == self@.aborted,
    {
        self.aborted
    }

    /// What the caller is to do next.
    pub fn next_action(&self) -> (action: Action<'_>)
        ensures
            self@.wf(),
            action@ == self@.next_action(),
    {
        proof {
            use_type_invariant(self);
        }
        if self.aborted || self.position >= self.commands.len() {
            return Action::Finish { wait: self.pending };
        }
        let command = &self.commands[self.position];
        match kind_of(command) {
            StageKind::Exit => Action::Exit,
            StageKind::ChangeDirectory => Action::ChangeDirectory { target: cd_target(command) },
            StageKind::External => {
                let stdin = if self.pending {
                    StdinSource::PreviousOutput
                } else {
                    StdinSource::Inherit
                };
                let stdout = if self.position + 1 < self.commands.len() {
                    StdoutSink::Pipe
                } else {
                    StdoutSink::Inherit
                };
                Action::Spawn { command, stdin, stdout }
            },
        }
    }

    /// Takes in how the pending action went. An `outcome` that answers the
    /// action moves the walk on and is accepted; any other is refused, and
    /// nothing changes. Only an accepted `DirectoryChanged` touches
    /// `directory`.
    pub fn advance(&mut self, outcome: Outcome, directory: &mut WorkingDirectory) -> (accepted:
        bool)
        ensures
            old(self)@.wf(),
            final(self)@.wf(),
            accepted == old(self)@.accepts(outcome),
            final(self)@ == old(self)@.step(outcome),
            final(directory)@ == old(self)@.directory_after(outcome, old(directory)@),
    {
        proof {
            use_type_invariant(&*self);
        }
        if self.aborted || self.position >= self.commands.len() {
            return false;
        }
        let kind = kind_of(&self.commands[self.position]);
        match (kind, outcome) {
            (StageKind::External, Outcome::Spawned) => {
                self.position = self.position + 1;
                self.pending = true;
                true
            },
            (StageKind::External, Outcome::SpawnFailed) => {
                self.position = self.position + 1;
                self.pending = false;
                true
            },
            (StageKind::ChangeDirectory, Outcome::DirectoryChanged { path }) => {
                self.position = self.position + 1;
                self.pending = false;
                directory.path = path;
                true
            },
            (StageKind::ChangeDirectory, Outcome::DirectoryFailed) => {
                self.aborted = true;
                true
            },
            _ => false,
        }
    }
}

} // verus!
