use vstd::prelude::*;

use crate::ingest::IngestionPlan;

verus! {

// The transaction protocol around one staged plan. The store itself —
// transactions, inserts, commit, rollback — is an outside collaborator
// that the caller drives; every decision about what to ask of it next
// lives here. The session walks the staged records in order, then the
// dataset summary, then the commit; the first failure turns the attempt
// around, and from then on the only thing ever asked of the store is the
// rollback. There is no partial-commit state.

/// Where one ingestion attempt stands.
#[derive(PartialEq, Eq, Structural, Clone, Copy, Debug)]
pub enum SessionPhase {
    /// Staging inserts: the records before `next` are staged; when
    /// `next` reaches the record count, the dataset summary is staged.
    Writing { next: usize },
    /// Everything is staged; the commit is outstanding.
    Committing,
    /// The attempt succeeded; the store holds the whole unit.
    Done,
    /// Something failed; the rollback is outstanding.
    RollingBack,
    /// The attempt is over and nothing of it is in the store.
    Failed,
}

/// What the caller must ask of the store next.
#[derive(PartialEq, Eq, Structural, Clone, Copy, Debug)]
pub enum StoreAction {
    /// Stage the record at this index of the plan.
    InsertRecord(usize),
    /// Stage the dataset summary row.
    InsertDataset,
    /// Commit the whole staged unit.
    Commit,
    /// Discard everything staged in this attempt.
    Rollback,
    /// Nothing: the attempt is over.
    Idle,
}

/// How one store call went.
#[derive(PartialEq, Eq, Structural, Clone, Copy, Debug)]
pub enum StoreEvent {
    Succeeded,
    Failed,
}

/// The action owed in a phase, for a plan of `n` records.
pub open spec fn action_of(phase: SessionPhase, n: int) -> StoreAction {
    match phase {
        SessionPhase::Writing { next } => if next < n {
            StoreAction::InsertRecord(next)
        } else {
            StoreAction::InsertDataset
        },
        SessionPhase::Committing => StoreAction::Commit,
        SessionPhase::RollingBack => StoreAction::Rollback,
        SessionPhase::Done => StoreAction::Idle,
        SessionPhase::Failed => StoreAction::Idle,
    }
}

/// The next phase once the store has answered, for a plan of `n`
/// records.
pub open spec fn step(phase: SessionPhase, n: int, ev: StoreEvent) -> SessionPhase {
    match phase {
        SessionPhase::Writing { next } => match ev {
            StoreEvent::Succeeded => if next < n {
                SessionPhase::Writing { next: (next + 1) as usize }
            } else {
                SessionPhase::Committing
            },
            StoreEvent::Failed => SessionPhase::RollingBack,
        },
        SessionPhase::Committing => match ev {
            StoreEvent::Succeeded => SessionPhase::Done,
            StoreEvent::Failed => SessionPhase::RollingBack,
        },
        SessionPhase::RollingBack => SessionPhase::Failed,
        SessionPhase::Done => SessionPhase::Done,
        SessionPhase::Failed => SessionPhase::Failed,
    }
}

/// One ingestion attempt: the staged plan and where the attempt stands.
pub struct IngestSession {
    pub plan: IngestionPlan,
    pub phase: SessionPhase,
}

impl IngestSession {
    /// A phase never points past the staged records.
    pub open spec fn wf(&self) -> bool {
        match self.phase {
            SessionPhase::Writing { next } => next <= self.plan.records.len(),
            _ => true,
        }
    }

    /// Opens the attempt: nothing staged yet.
    pub fn start(plan: IngestionPlan) -> (s: IngestSession)
        ensures
            s.plan == plan,
            s.phase == (SessionPhase::Writing { next: 0usize }),
            s.wf(),
    {
        IngestSession { plan, phase: SessionPhase::Writing { next: 0 } }
    }

    /// What the store must be asked next.
    pub fn next_action(&self) -> (a: StoreAction)
        requires
            self.wf(),
        ensures
            a == action_of(self.phase, self.plan.records.len() as int),
            a matches StoreAction::InsertRecord(k) ==> k < self.plan.records.len(),
    {
        let n = self.plan.records.len();
        match self.phase {
            SessionPhase::Writing { next } => if next < n {
                StoreAction::InsertRecord(next)
            } else {
                StoreAction::InsertDataset
            },
            SessionPhase::Committing => StoreAction::Commit,
            SessionPhase::RollingBack => StoreAction::Rollback,
            SessionPhase::Done => StoreAction::Idle,
            SessionPhase::Failed => StoreAction::Idle,
        }
    }

    /// Advances on the store's answer; the plan itself never changes.
    pub fn on_event(&mut self, ev: StoreEvent)
        requires
            old(self).wf(),
        ensures
            final(self).plan == old(self).plan,
            final(self).phase == step(
                old(self).phase,
                old(self).plan.records.len() as int,
                ev,
            ),
            final(self).wf(),
    {
        let n = self.plan.records.len();
        let phase = self.phase;
        self.phase = match phase {
            SessionPhase::Writing { next } => match ev {
                StoreEvent::Succeeded => if next < n {
                    SessionPhase::Writing { next: next + 1 }
                } else {
                    SessionPhase::Committing
                },
                StoreEvent::Failed => SessionPhase::RollingBack,
            },
            SessionPhase::Committing => match ev {
                StoreEvent::Succeeded => SessionPhase::Done,
                StoreEvent::Failed => SessionPhase::RollingBack,
            },
            SessionPhase::RollingBack => SessionPhase::Failed,
            SessionPhase::Done => SessionPhase::Done,
            SessionPhase::Failed => SessionPhase::Failed,
        };
    }
}

/// All-or-nothing, the deciding side: the moment any staged insert or the
/// commit itself fails, the session turns to rolling back — the only
/// thing it will ever ask of the store again is the rollback, and then
/// nothing. In particular no commit is ever issued after a failure, so an
/// attempt whose store failed leaves zero rows once the store discards
/// the open transaction.
pub proof fn lemma_failure_never_commits(phase: SessionPhase, n: int)
    requires
        !(phase is Done),
    ensures
        step(phase, n, StoreEvent::Failed) is RollingBack || step(
            phase,
            n,
            StoreEvent::Failed,
        ) is Failed,
        action_of(step(phase, n, StoreEvent::Failed), n) == StoreAction::Rollback || action_of(
            step(phase, n, StoreEvent::Failed),
            n,
        ) == StoreAction::Idle,
{
}

/// The commit is owed only once every staged record and the dataset
/// summary have been written: the session reaches `Committing` from
/// `Writing` only with nothing left to stage.
pub proof fn lemma_commit_only_after_all(next: usize, n: int, ev: StoreEvent)
    requires
        step(SessionPhase::Writing { next }, n, ev) is Committing,
    ensures
        ev == StoreEvent::Succeeded,
        next >= n,
{
}

/// A finished attempt is final: once `Done` or `Failed`, no event moves
/// the session and no further store work is asked.
pub proof fn lemma_terminal_phases_absorb(phase: SessionPhase, n: int, ev: StoreEvent)
    requires
        phase is Done || phase is Failed,
    ensures
        step(phase, n, ev) == phase,
        action_of(phase, n) == StoreAction::Idle,
{
}

} // verus!
