//! The scratch-directory lifecycle of one extraction run, as a state
//! machine: the caller performs each commanded step and reports how it
//! went; the machine decides what comes next.
//!
//! The point of the machine is the cleanup guarantee: whatever the staging
//! or the tool reported, the run's outcome is only handed out from the
//! phase whose command removes the scratch directory, so the scratch
//! directory of a run never outlives it on any path the machine allows.

use vstd::prelude::*;

verus! {

/// Where one scratch run stands.
#[derive(Clone, Copy, Debug, PartialEq, Eq, Structural)]
pub enum ScratchPhase {
    /// The scratch directory is being created and the mirrored tree staged.
    Staging,
    /// The external tool is being run against the mirrored tree.
    Running,
    /// The scratch directory is being removed; `ok` is what the run will
    /// report once removal has been attempted.
    Cleaning { ok: bool },
    /// The run is over and reports `ok`.
    Done { ok: bool },
}

/// What the caller must do in each phase.
#[derive(Clone, Copy, Debug, PartialEq, Eq, Structural)]
pub enum ScratchStep {
    /// Create the scratch directory and write the mirrored manifests and
    /// the driver package into it.
    StageTree,
    /// Invoke the external tool and capture its output.
    RunTool,
    /// Remove the scratch directory, recursively.
    RemoveScratchDir,
    /// Hand the outcome to the caller.
    Report { ok: bool },
}

/// The step owed in a phase.
pub open spec fn step_of_spec(p: ScratchPhase) -> ScratchStep {
    match p {
        ScratchPhase::Staging => ScratchStep::StageTree,
        ScratchPhase::Running => ScratchStep::RunTool,
        ScratchPhase::Cleaning { ok } => ScratchStep::RemoveScratchDir,
        ScratchPhase::Done { ok } => ScratchStep::Report { ok },
    }
}

/// The phase after a step, given whether the step succeeded: a failed
/// staging skips the tool but still cleans up; the tool's result is carried
/// through the cleanup phase; removal is attempted exactly once, whatever
/// it reports.
pub open spec fn advance_spec(p: ScratchPhase, step_ok: bool) -> ScratchPhase {
    match p {
        ScratchPhase::Staging => if step_ok {
            ScratchPhase::Running
        } else {
            ScratchPhase::Cleaning { ok: false }
        },
        ScratchPhase::Running => ScratchPhase::Cleaning { ok: step_ok },
        ScratchPhase::Cleaning { ok } => ScratchPhase::Done { ok },
        ScratchPhase::Done { ok } => ScratchPhase::Done { ok },
    }
}

/// The step owed in a phase, as `step_of_spec` gives it.
pub fn step_of(p: ScratchPhase) -> (r: ScratchStep)
    ensures
        r == step_of_spec(p),
{
    match p {
        ScratchPhase::Staging => ScratchStep::StageTree,
        ScratchPhase::Running => ScratchStep::RunTool,
        ScratchPhase::Cleaning { ok: _ } => ScratchStep::RemoveScratchDir,
        ScratchPhase::Done { ok } => ScratchStep::Report { ok },
    }
}

/// The next phase, as `advance_spec` gives it.
pub fn advance(p: ScratchPhase, step_ok: bool) -> (r: ScratchPhase)
    ensures
        r == advance_spec(p, step_ok),
{
    match p {
        ScratchPhase::Staging => {
            if step_ok {
                ScratchPhase::Running
            } else {
                ScratchPhase::Cleaning { ok: false }
            }
        },
        ScratchPhase::Running => ScratchPhase::Cleaning { ok: step_ok },
        ScratchPhase::Cleaning { ok } => ScratchPhase::Done { ok },
        ScratchPhase::Done { ok } => ScratchPhase::Done { ok },
    }
}

/// Cleanup happens on every path: the machine reaches `Done` only from the
/// phase whose step removes the scratch directory, whatever the staging or
/// the tool reported, so an outcome is never handed out before the scratch
/// directory's removal was attempted.
pub proof fn lemma_cleanup_before_done(p: ScratchPhase, step_ok: bool)
    ensures
        advance_spec(p, step_ok) is Done && !(p is Done) ==> p is Cleaning,
        p is Cleaning ==> step_of_spec(p) == ScratchStep::RemoveScratchDir,
{
}

/// The tool's failure does not skip the cleanup: from `Running`, either
/// report moves the machine into `Cleaning`, and the outcome it will
/// report is the tool's.
pub proof fn lemma_tool_failure_still_cleans(step_ok: bool)
    ensures
        advance_spec(ScratchPhase::Running, step_ok) == (ScratchPhase::Cleaning { ok: step_ok }),
        step_of_spec(advance_spec(ScratchPhase::Running, step_ok))
            == ScratchStep::RemoveScratchDir,
{
}

} // verus!
