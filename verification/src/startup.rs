//! The order in which the service comes up.
//!
//! Bringing the service up is a fixed run of steps, most of which talk to the
//! outside world and may fail. The caller performs a step and reports how it
//! went; [`advance`] answers with what to do next. The order is a matter of
//! correctness: no listener may be bound before the schema is migrated.

use vstd::prelude::*;
use crate::error::StartupError;

verus! {

/// One step of the bootstrap sequence.
#[derive(Clone, Copy, Debug, PartialEq, Eq, Structural)]
pub enum Step {
    /// Install the observability sink.
    InitObservability,
    /// Install a minimal sink on standard error in place of the one that failed.
    UseStderrSink,
    /// Resolve the configuration.
    LoadConfig,
    /// Open the pooled connection to the store.
    Connect,
    /// Apply the pending schema migrations, in version order.
    Migrate,
    /// Bundle the persistence handle and the configuration.
    BuildState,
    /// Prepare the authorization instance; its keys are fetched later.
    BuildAuthorization,
    /// Assemble the router.
    AssembleRouter,
    /// Bind the listener to the configured address.
    Bind,
    /// Accept connections until the process is told to stop.
    Serve,
}

/// How a step went.
#[derive(Clone, Copy, Debug, PartialEq, Eq, Structural)]
pub enum Outcome {
    Succeeded,
    Failed,
}

/// What the process has to do now.
#[derive(Clone, Copy, Debug, PartialEq, Eq, Structural)]
pub enum Phase {
    /// Perform this step and report its outcome.
    Run(Step),
    /// Log the cause and exit with a non-zero status; nothing else is started.
    Abort(StartupError),
    /// The serve loop has returned: `clean` unless it ended with an error,
    /// which is then logged.
    Exit { clean: bool },
}

impl Step {
    /// The place of the step in the sequence.
    pub open spec fn rank(self) -> nat {
        match self {
            Step::InitObservability => 0,
            Step::UseStderrSink => 1,
            Step::LoadConfig => 2,
            Step::Connect => 3,
            Step::Migrate => 4,
            Step::BuildState => 5,
            Step::BuildAuthorization => 6,
            Step::AssembleRouter => 7,
            Step::Bind => 8,
            Step::Serve => 9,
        }
    }

    /// The error that ends the startup when the step fails, for the steps
    /// whose failure is fatal.
    pub open spec fn fatal(self) -> Option<StartupError> {
        match self {
            Step::LoadConfig => Some(StartupError::Config),
            Step::Connect => Some(StartupError::Connectivity),
            Step::Migrate => Some(StartupError::Migration),
            Step::Bind => Some(StartupError::Bind),
            _ => None,
        }
    }

    /// The step that follows when this one has done its work.
    pub open spec fn successor(self) -> Option<Step> {
        match self {
            Step::InitObservability => Some(Step::LoadConfig),
            Step::UseStderrSink => Some(Step::LoadConfig),
            Step::LoadConfig => Some(Step::Connect),
            Step::Connect => Some(Step::Migrate),
            Step::Migrate => Some(Step::BuildState),
            Step::BuildState => Some(Step::BuildAuthorization),
            Step::BuildAuthorization => Some(Step::AssembleRouter),
            Step::AssembleRouter => Some(Step::Bind),
            Step::Bind => Some(Step::Serve),
            Step::Serve => None,
        }
    }
}

impl Phase {
    pub open spec fn is_terminal(self) -> bool {
        !(self is Run)
    }

    /// The status the process exits with, once it has to exit.
    pub open spec fn exit_status(self) -> Option<u8> {
        match self {
            Phase::Run(_) => None,
            Phase::Abort(_) => Some(1u8),
            Phase::Exit { clean } => Some(if clean { 0u8 } else { 1u8 }),
        }
    }

    pub fn exit_code(self) -> (code: Option<u8>)
        ensures
            code == self.exit_status(),
    {
        match self {
            Phase::Run(_) => None,
            Phase::Abort(e) => Some(e.exit_code()),
            Phase::Exit { clean } => Some(if clean { 0 } else { 1 }),
        }
    }
}

/// What follows a step, given its outcome.
///
/// A failed observability sink is replaced, not fatal. The three steps that
/// only compose values cannot fail, so their outcome is not looked at.
pub open spec fn next_phase(step: Step, outcome: Outcome) -> Phase {
    match (step, outcome) {
        (Step::InitObservability, Outcome::Failed) => Phase::Run(Step::UseStderrSink),
        (Step::Serve, Outcome::Succeeded) => Phase::Exit { clean: true },
        (Step::Serve, Outcome::Failed) => Phase::Exit { clean: false },
        (_, Outcome::Failed) if step.fatal() is Some => Phase::Abort(step.fatal()->0),
        _ => Phase::Run(step.successor()->0),
    }
}

/// The phase reached from a cold start once the steps performed so far have
/// had the given outcomes, in order. Outcomes reported after the process was
/// told to exit change nothing.
pub open spec fn phase_after(outcomes: Seq<Outcome>) -> Phase
    decreases outcomes.len(),
{
    if outcomes.len() == 0 {
        Phase::Run(Step::InitObservability)
    } else {
        match phase_after(outcomes.drop_last()) {
            Phase::Run(step) => next_phase(step, outcomes.last()),
            done => done,
        }
    }
}

/// Whether the process is ever told to perform `step` while the outcomes come in.
pub open spec fn performs(outcomes: Seq<Outcome>, step: Step) -> bool {
    exists|k: int| 0 <= k <= outcomes.len() && #[trigger] phase_after(outcomes.take(k)) == Phase::Run(step)
}

/// The step that a cold start begins with.
pub fn first_step() -> (step: Step)
    ensures
        Phase::Run(step) == phase_after(Seq::empty()),
{
    Step::InitObservability
}

/// Decides what follows `step`, which the caller has just performed with the
/// given outcome.
pub fn advance(step: Step, outcome: Outcome) -> (phase: Phase)
    ensures
        phase == next_phase(step, outcome),
{
    match outcome {
        Outcome::Succeeded => match step {
            Step::InitObservability => Phase::Run(Step::LoadConfig),
            Step::UseStderrSink => Phase::Run(Step::LoadConfig),
            Step::LoadConfig => Phase::Run(Step::Connect),
            Step::Connect => Phase::Run(Step::Migrate),
            Step::Migrate => Phase::Run(Step::BuildState),
            Step::BuildState => Phase::Run(Step::BuildAuthorization),
            Step::BuildAuthorization => Phase::Run(Step::AssembleRouter),
            Step::AssembleRouter => Phase::Run(Step::Bind),
            Step::Bind => Phase::Run(Step::Serve),
            Step::Serve => Phase::Exit { clean: true },
        },
        Outcome::Failed => match step {
            Step::InitObservability => Phase::Run(Step::UseStderrSink),
            Step::UseStderrSink => Phase::Run(Step::LoadConfig),
            Step::LoadConfig => Phase::Abort(StartupError::Config),
            Step::Connect => Phase::Abort(StartupError::Connectivity),
            Step::Migrate => Phase::Abort(StartupError::Migration),
            Step::BuildState => Phase::Run(Step::BuildAuthorization),
            Step::BuildAuthorization => Phase::Run(Step::AssembleRouter),
            Step::AssembleRouter => Phase::Run(Step::Bind),
            Step::Bind => Phase::Abort(StartupError::Bind),
            Step::Serve => Phase::Exit { clean: false },
        },
    }
}

/// Runs the whole sequence against a list of outcomes and says where the
/// process stands afterwards.
pub fn replay(outcomes: &Vec<Outcome>) -> (phase: Phase)
    ensures
        phase == phase_after(outcomes@),
{
    let mut phase = Phase::Run(Step::InitObservability);
    let mut i: usize = 0;
    while i < outcomes.len()
        invariant
            i <= outcomes.len(),
            phase == phase_after(outcomes@.take(i as int)),
        decreases outcomes.len() - i,
    {
        proof {
            let next = outcomes@.take(i + 1);
            assert(next.drop_last() == outcomes@.take(i as int));
            assert(next.last() == outcomes@[i as int]);
        }
        if let Phase::Run(step) = phase {
            phase = advance(step, outcomes[i]);
        }
        i += 1;
    }
    assert(outcomes@.take(i as int) == outcomes@);
    phase
}

/// Once the process has been told to exit, further outcomes change nothing.
pub proof fn lemma_terminal_phase_stays(outcomes: Seq<Outcome>, k: int)
    requires
        0 <= k <= outcomes.len(),
        phase_after(outcomes.take(k)).is_terminal(),
    ensures
        phase_after(outcomes) == phase_after(outcomes.take(k)),
    decreases outcomes.len(),
{
    if k == outcomes.len() {
        assert(outcomes.take(k) == outcomes);
    } else {
        assert(outcomes.drop_last().take(k) == outcomes.take(k));
        lemma_terminal_phase_stays(outcomes.drop_last(), k);
    }
}

/// The steps are performed in their fixed order: a step told later stands
/// later in the sequence than any step told before it.
pub proof fn lemma_steps_in_order(outcomes: Seq<Outcome>, j: int, k: int)
    requires
        0 <= j < k <= outcomes.len(),
        phase_after(outcomes.take(j)) is Run,
        phase_after(outcomes.take(k)) is Run,
    ensures
        phase_after(outcomes.take(j))->Run_0.rank() < phase_after(outcomes.take(k))->Run_0.rank(),
    decreases k - j,
{
    let before = outcomes.take(k - 1);
    assert(outcomes.take(k).drop_last() == before);
    if phase_after(before).is_terminal() {
        // a terminal phase would have stayed
    } else if j < k - 1 {
        lemma_steps_in_order(outcomes, j, k - 1);
    }
}

/// The listener is bound only after the migrations have been applied: if the
/// process is told to bind, the migration step was performed earlier and
/// reported success.
pub proof fn lemma_bind_follows_migration(outcomes: Seq<Outcome>)
    requires
        phase_after(outcomes) == Phase::Run(Step::Bind),
    ensures
        outcomes.len() >= 4,
        phase_after(outcomes.take(outcomes.len() - 4)) == Phase::Run(Step::Migrate),
        outcomes[outcomes.len() - 4] == Outcome::Succeeded,
{
    let n = outcomes.len() as int;
    let s1 = outcomes.drop_last();
    assert(phase_after(s1) == Phase::Run(Step::AssembleRouter));
    let s2 = s1.drop_last();
    assert(phase_after(s2) == Phase::Run(Step::BuildAuthorization));
    let s3 = s2.drop_last();
    assert(phase_after(s3) == Phase::Run(Step::BuildState));
    let s4 = s3.drop_last();
    assert(phase_after(s4) == Phase::Run(Step::Migrate));
    assert(s4 == outcomes.take(n - 4));
    assert(s3.last() == outcomes[n - 4]);
}

/// A failed migration ends the startup: the process is told to abort with
/// the migration error, and at no point, before or after, to bind a
/// listener or to serve.
pub proof fn lemma_failed_migration_never_binds(outcomes: Seq<Outcome>, m: int)
    requires
        0 <= m < outcomes.len(),
        phase_after(outcomes.take(m)) == Phase::Run(Step::Migrate),
        outcomes[m] == Outcome::Failed,
    ensures
        phase_after(outcomes) == Phase::Abort(StartupError::Migration),
        !performs(outcomes, Step::Bind),
        !performs(outcomes, Step::Serve),
{
    let failed = outcomes.take(m + 1);
    assert(failed.drop_last() == outcomes.take(m));
    assert(failed.last() == outcomes[m]);
    assert(phase_after(failed) == Phase::Abort(StartupError::Migration));
    lemma_terminal_phase_stays(outcomes, m + 1);
    assert forall|k: int| 0 <= k <= outcomes.len() implies {
        &&& #[trigger] phase_after(outcomes.take(k)) != Phase::Run(Step::Bind)
        &&& phase_after(outcomes.take(k)) != Phase::Run(Step::Serve)
    } by {
        if k > m {
            assert(outcomes.take(k).take(m + 1) == failed);
            lemma_terminal_phase_stays(outcomes.take(k), m + 1);
        } else if k < m {
            if phase_after(outcomes.take(k)) is Run {
                lemma_steps_in_order(outcomes, k, m);
            }
        }
    }
}

/// Any fatal failure ends the startup with the error of the step that
/// failed, whatever is reported afterwards.
pub proof fn lemma_fatal_failure_aborts(outcomes: Seq<Outcome>, k: int, step: Step)
    requires
        0 <= k < outcomes.len(),
        phase_after(outcomes.take(k)) == Phase::Run(step),
        outcomes[k] == Outcome::Failed,
        step.fatal() is Some,
    ensures
        phase_after(outcomes) == Phase::Abort(step.fatal()->0),
{
    let failed = outcomes.take(k + 1);
    assert(failed.drop_last() == outcomes.take(k));
    assert(failed.last() == outcomes[k]);
    lemma_terminal_phase_stays(outcomes, k + 1);
}

} // verus!
