use vstd::prelude::*;

use crate::errors::LaunchError;

verus! {

/// The actions of one run, each performed by the surrounding process when
/// the machine asks for it.
#[derive(Clone, Copy, Debug, PartialEq, Eq, Structural)]
pub enum Action {
    /// Create the unique staging directory.
    CreateStagingRoot,
    /// Resolve the command binary and copy it under the staging root.
    StageBinary,
    /// Change the process's filesystem root to the staging root.
    ChangeRoot,
    /// Change the working directory to the new root.
    SetWorkingDir,
    /// Pull the image and unpack each layer onto the new root, in order.
    PullImage,
    /// Create `/dev` and a world-writable `/dev/null` under the new root.
    CreateDevNull,
    /// Give the command its own view of process identifiers.
    IsolatePids,
    /// Spawn the command with its arguments, standard streams inherited.
    SpawnCommand,
    /// Block until the child exits.
    AwaitChild,
    /// Remove the staging directory, best-effort.
    RemoveStagingRoot,
    /// Terminate the run with the recorded exit code.
    Exit,
}

/// What the surrounding process reports back after performing an action.
#[derive(Clone, Copy, Debug)]
pub enum Event {
    /// The action succeeded.
    Succeeded,
    /// The action failed with this error.
    Failed(LaunchError),
    /// The awaited child exited with this code.
    Exited(i32),
    /// The awaited child terminated without an exit code.
    ExitedAbnormally,
}

/// Where a run stands: each phase names the action it is waiting on.
#[derive(Clone, Copy, Debug, PartialEq, Eq, Structural)]
pub enum Phase {
    Creating,
    Staging,
    ChangingRoot,
    SettingDir,
    Pulling,
    MakingDev,
    Isolating,
    Spawning,
    Awaiting,
    Cleaning,
    Exiting,
    Done,
}

/// How far along its run a phase is: transitions only ever increase it, so
/// no isolation step can be attempted twice.
pub open spec fn rank(p: Phase) -> nat {
    match p {
        Phase::Creating => 0,
        Phase::Staging => 1,
        Phase::ChangingRoot => 2,
        Phase::SettingDir => 3,
        Phase::Pulling => 4,
        Phase::MakingDev => 5,
        Phase::Isolating => 6,
        Phase::Spawning => 7,
        Phase::Awaiting => 8,
        Phase::Cleaning => 9,
        Phase::Exiting => 10,
        Phase::Done => 11,
    }
}

/// The launcher's state machine. It owns the ordering of the isolation
/// steps: the surrounding process performs `action()`, reports the outcome
/// through `step`, and never decides the order itself.
pub struct Launcher {
    pub phase: Phase,
    /// The exit code the run terminates with.
    pub code: i32,
    /// Whether the staging-root release was performed (best-effort removal,
    /// attempted on success and failure paths alike).
    pub released: bool,
}

impl Launcher {
    /// A state is well formed when it never reaches the terminating phases
    /// without having released the staging root.
    pub open spec fn wf(self) -> bool {
        (self.phase == Phase::Exiting || self.phase == Phase::Done) ==> self.released
    }

    /// A run that has not begun.
    pub fn new() -> (r: Launcher)
        ensures
            r == initial(),
            r.wf(),
    {
        Launcher { phase: Phase::Creating, code: 0, released: false }
    }

    /// The action the surrounding process must perform in this phase.
    pub open spec fn spec_action(self) -> Action {
        match self.phase {
            Phase::Creating => Action::CreateStagingRoot,
            Phase::Staging => Action::StageBinary,
            Phase::ChangingRoot => Action::ChangeRoot,
            Phase::SettingDir => Action::SetWorkingDir,
            Phase::Pulling => Action::PullImage,
            Phase::MakingDev => Action::CreateDevNull,
            Phase::Isolating => Action::IsolatePids,
            Phase::Spawning => Action::SpawnCommand,
            Phase::Awaiting => Action::AwaitChild,
            Phase::Cleaning => Action::RemoveStagingRoot,
            Phase::Exiting => Action::Exit,
            Phase::Done => Action::Exit,
        }
    }

    /// The action the surrounding process must perform next.
    pub fn action(&self) -> (a: Action)
        ensures
            a == self.spec_action(),
    {
        match self.phase {
            Phase::Creating => Action::CreateStagingRoot,
            Phase::Staging => Action::StageBinary,
            Phase::ChangingRoot => Action::ChangeRoot,
            Phase::SettingDir => Action::SetWorkingDir,
            Phase::Pulling => Action::PullImage,
            Phase::MakingDev => Action::CreateDevNull,
            Phase::Isolating => Action::IsolatePids,
            Phase::Spawning => Action::SpawnCommand,
            Phase::Awaiting => Action::AwaitChild,
            Phase::Cleaning => Action::RemoveStagingRoot,
            Phase::Exiting => Action::Exit,
            Phase::Done => Action::Exit,
        }
    }

    /// The state after the pending action's outcome is reported.
    ///
    /// A success moves to the next step in order. Any failure abandons the
    /// run and moves to the release of the staging root with exit code 1,
    /// except a failure to isolate process identifiers, which degrades
    /// silently, and a failure of the best-effort release itself. After
    /// `AwaitChild`, the child's code is recorded, 1 when it has none.
    pub open spec fn spec_step(self, ev: Event) -> Launcher {
        match self.phase {
            Phase::Awaiting => match ev {
                Event::Exited(c) => Launcher { phase: Phase::Cleaning, code: c, ..self },
                _ => Launcher { phase: Phase::Cleaning, code: 1, ..self },
            },
            Phase::Isolating => Launcher { phase: Phase::Spawning, ..self },
            Phase::Cleaning => Launcher { phase: Phase::Exiting, released: true, ..self },
            Phase::Exiting => Launcher { phase: Phase::Done, ..self },
            Phase::Done => self,
            _ => match ev {
                Event::Succeeded => Launcher { phase: next_phase(self.phase), ..self },
                _ => Launcher { phase: Phase::Cleaning, code: 1, ..self },
            },
        }
    }

    /// Reports the pending action's outcome and moves the run forward.
    pub fn step(self, ev: Event) -> (r: Launcher)
        requires
            self.wf(),
            self.phase != Phase::Done,
        ensures
            r == self.spec_step(ev),
            r.wf(),
    {
        match self.phase {
            Phase::Awaiting => match ev {
                Event::Exited(c) => Launcher { phase: Phase::Cleaning, code: c, ..self },
                _ => Launcher { phase: Phase::Cleaning, code: 1, ..self },
            },
            Phase::Isolating => Launcher { phase: Phase::Spawning, ..self },
            Phase::Cleaning => Launcher { phase: Phase::Exiting, released: true, ..self },
            Phase::Exiting => Launcher { phase: Phase::Done, ..self },
            Phase::Done => self,
            _ => match ev {
                Event::Succeeded => Launcher { phase: self.next_phase_exec(), ..self },
                _ => Launcher { phase: Phase::Cleaning, code: 1, ..self },
            },
        }
    }

    fn next_phase_exec(&self) -> (p: Phase)
        requires
            rank(self.phase) < 9,
        ensures
            p == next_phase(self.phase),
    {
        match self.phase {
            Phase::Creating => Phase::Staging,
            Phase::Staging => Phase::ChangingRoot,
            Phase::ChangingRoot => Phase::SettingDir,
            Phase::SettingDir => Phase::Pulling,
            Phase::Pulling => Phase::MakingDev,
            Phase::MakingDev => Phase::Isolating,
            Phase::Isolating => Phase::Spawning,
            Phase::Spawning => Phase::Awaiting,
            _ => Phase::Cleaning,
        }
    }
}

/// The state of a run that has not begun.
pub open spec fn initial() -> Launcher {
    Launcher { phase: Phase::Creating, code: 0, released: false }
}

/// The state a run reaches after the given outcomes, in order.
pub open spec fn run_steps(s: Launcher, evs: Seq<Event>) -> Launcher
    decreases evs.len(),
{
    if evs.len() == 0 {
        s
    } else {
        run_steps(s.spec_step(evs.first()), evs.drop_first())
    }
}

/// The phase that follows a successful step.
pub open spec fn next_phase(p: Phase) -> Phase {
    match p {
        Phase::Creating => Phase::Staging,
        Phase::Staging => Phase::ChangingRoot,
        Phase::ChangingRoot => Phase::SettingDir,
        Phase::SettingDir => Phase::Pulling,
        Phase::Pulling => Phase::MakingDev,
        Phase::MakingDev => Phase::Isolating,
        Phase::Isolating => Phase::Spawning,
        Phase::Spawning => Phase::Awaiting,
        Phase::Awaiting => Phase::Cleaning,
        Phase::Cleaning => Phase::Exiting,
        Phase::Exiting => Phase::Done,
        Phase::Done => Phase::Done,
    }
}

/// The run terminates only after the staging root was released: a
/// well-formed state whose pending action is the final exit has performed
/// the release, on success and failure paths alike.
pub proof fn lemma_cleanup_before_exit(s: Launcher)
    requires
        s.wf(),
        s.spec_action() == Action::Exit,
    ensures
        s.released,
{
}

/// Stepping preserves well-formedness, whatever the event: no event
/// sequence reaches the terminating phases without the release.
pub proof fn lemma_step_preserves_wf(s: Launcher, ev: Event)
    requires
        s.wf(),
    ensures
        s.spec_step(ev).wf(),
{
}

/// Transitions only move forward: no event can send a run back to an
/// earlier step, so no process-global isolation step is attempted twice.
pub proof fn lemma_steps_advance(s: Launcher, ev: Event)
    requires
        s.phase != Phase::Done,
    ensures
        rank(s.spec_step(ev).phase) > rank(s.phase),
{
}

/// A whole run preserves well-formedness, whatever its outcomes were.
pub proof fn lemma_run_preserves_wf(s: Launcher, evs: Seq<Event>)
    requires
        s.wf(),
    ensures
        run_steps(s, evs).wf(),
    decreases evs.len(),
{
    if evs.len() > 0 {
        lemma_step_preserves_wf(s, evs.first());
        lemma_run_preserves_wf(s.spec_step(evs.first()), evs.drop_first());
    }
}

/// However a run unfolds from the start — success, a failed pull, a killed
/// child — it can only arrive at the final exit with the staging root
/// released.
pub proof fn lemma_every_run_releases_before_exit(evs: Seq<Event>)
    requires
        run_steps(initial(), evs).spec_action() == Action::Exit,
    ensures
        run_steps(initial(), evs).released,
{
    lemma_run_preserves_wf(initial(), evs);
    lemma_cleanup_before_exit(run_steps(initial(), evs));
}

/// The root change is issued only by the state that a successful binary
/// staging reaches: the binary is staged strictly before the root moves.
pub proof fn lemma_stage_before_root_change(s: Launcher, ev: Event)
    requires
        s.spec_step(ev).spec_action() == Action::ChangeRoot,
    ensures
        s.spec_action() == Action::StageBinary,
        ev matches Event::Succeeded,
{
}

/// The image is pulled only after the root change and the working-directory
/// change both succeeded: extraction targets the confined root.
pub proof fn lemma_pull_after_root_change(s: Launcher, ev: Event)
    requires
        s.spec_step(ev).spec_action() == Action::PullImage,
    ensures
        s.spec_action() == Action::SetWorkingDir,
        ev matches Event::Succeeded,
{
}

/// The device nodes are created only after a successful image population,
/// so `/dev/null` is present even when the pulled image lacks one.
pub proof fn lemma_dev_after_pull(s: Launcher, ev: Event)
    requires
        s.spec_step(ev).spec_action() == Action::CreateDevNull,
    ensures
        s.spec_action() == Action::PullImage,
        ev matches Event::Succeeded,
{
}

/// The child's exit code is what the run terminates with: recorded when the
/// child exits, it survives the release step, whose own outcome is ignored,
/// and reaches the final exit. A child without a code yields 1.
pub proof fn lemma_exit_code_propagated(s: Launcher, c: i32, ev: Event)
    requires
        s.wf(),
        s.phase == Phase::Awaiting,
    ensures
        s.spec_step(Event::Exited(c)).code == c,
        s.spec_step(Event::Exited(c)).spec_step(ev).code == c,
        s.spec_step(Event::Exited(c)).spec_step(ev).spec_action() == Action::Exit,
        s.spec_step(Event::Exited(c)).spec_step(ev).wf(),
        s.spec_step(Event::ExitedAbnormally).code == 1,
{
}

/// `s` without its leading `/` characters.
pub open spec fn strip_leading_slashes(s: Seq<char>) -> Seq<char>
    decreases s.len(),
{
    if s.len() > 0 && s[0] == '/' {
        strip_leading_slashes(s.drop_first())
    } else {
        s
    }
}

/// The path inside the staging root at which the command binary is staged:
/// the root, a separator, and the command path relative to its own root.
pub open spec fn staging_dest_of(root: Seq<char>, command: Seq<char>) -> Seq<char> {
    root + seq!['/'] + strip_leading_slashes(command)
}

/// Where to copy the command binary: under the staging root, at the path the
/// command will be invoked with once the root has moved.
pub fn staging_dest(root: &str, command: &str) -> (r: String)
    ensures
        r@ == staging_dest_of(root@, command@),
{
    let n = command.unicode_len();
    let mut k: usize = 0;
    proof {
        assert(command@.subrange(0, n as int) =~= command@);
    }
    while k < n && command.get_char(k) == '/'
        invariant
            n == command@.len(),
            0 <= k <= n,
            strip_leading_slashes(command@) == strip_leading_slashes(
                command@.subrange(k as int, n as int),
            ),
        decreases n - k,
    {
        proof {
            let rem = command@.subrange(k as int, n as int);
            assert(rem[0] == command@[k as int]);
            assert(rem.drop_first() =~= command@.subrange(k as int + 1, n as int));
        }
        k = k + 1;
    }
    proof {
        let rem = command@.subrange(k as int, n as int);
        if k < n {
            assert(rem[0] == command@[k as int]);
        }
        assert(strip_leading_slashes(rem) == rem);
        reveal_strlit("/");
        assert("/"@ =~= seq!['/']);
    }
    let stripped = command.substring_char(k, n);
    let mut out = root.to_owned();
    out.append("/");
    out.append(stripped);
    out
}

} // verus!
