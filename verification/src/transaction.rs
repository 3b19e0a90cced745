//! The replacement of one file on disk, as a sequence of states, and the run
//! over a batch of files.
//!
//! The library touches no file. It says which step comes next; its caller
//! performs the step and reports how it went.

use crate::error::Error;
use vstd::prelude::*;

verus! {

/// Where the work on one file stands.
#[derive(Clone, Copy, Debug, PartialEq, Eq, Structural)]
pub enum State {
    /// The file is being read in full.
    Read,
    /// The file was read, and its columns are being redacted.
    Scanned,
    /// No term was found: the file is left alone. Final.
    CleanSkip,
    /// A term was found, and the safety copy of the original is being made.
    DirtyBackup,
    /// The safety copy exists, and the file is being written anew.
    Rewriting,
    /// The file was written anew, and the safety copy is being removed.
    Committing,
    /// The file was replaced and the safety copy is gone. Final.
    Committed,
    /// Writing failed, and the original is being restored from the safety
    /// copy, which is then removed.
    RollingBack,
    /// Writing failed and the original is back in its place. Final.
    RolledBack,
    /// The work stopped with a failure, with the original untouched or, after
    /// a failed rollback, in doubt. Final.
    Failed(Error),
}

/// What the caller has to do in a state.
#[derive(Clone, Copy, Debug, PartialEq, Eq, Structural)]
pub enum Action {
    /// Read and decode the whole file.
    ReadFile,
    /// Redact the file that was read.
    Redact,
    /// Copy the original file to its backup path.
    CopyToBackup,
    /// Encode every row group and every column to the original path, and
    /// finalize the output.
    Rewrite,
    /// Delete the backup.
    RemoveBackup,
    /// Copy the backup over the original path, then delete the backup.
    Restore,
    /// Nothing: the work on the file has ended.
    Nothing,
}

/// How a step went.
#[derive(Clone, Copy, Debug, PartialEq, Eq, Structural)]
pub enum Event {
    /// The file was read in full.
    ReadOk,
    /// The file could not be read.
    ReadFailed(Error),
    /// Redaction found no term.
    ScanClean,
    /// Redaction found a term and left the file dirty.
    ScanDirty,
    /// The backup was made.
    BackupOk,
    /// The backup could not be made.
    BackupFailed,
    /// The file was written anew and finalized.
    RewriteOk,
    /// Writing the file anew failed at some step.
    RewriteFailed,
    /// The backup was dealt with after a successful rewrite.
    BackupRemoved,
    /// The original was restored and the backup removed.
    RestoreOk,
    /// The original could not be restored.
    RestoreFailed,
}

/// How the work on one file ended.
#[derive(Clone, Copy, Debug, PartialEq, Eq, Structural)]
pub enum Outcome {
    /// No term was found and nothing was written.
    Skipped,
    /// The file was replaced by its redacted form.
    Redacted,
    /// The work failed.
    Failed(Error),
}

/// The failure that is reported for a file that could not be read: a type
/// without a typed column where that was the cause, a failed decode for
/// every other cause.
pub open spec fn read_failure(cause: Error) -> Error {
    if cause == Error::UnsupportedType {
        Error::UnsupportedType
    } else {
        Error::DecodeFailed
    }
}

impl State {
    /// What the caller has to do in this state.
    pub open spec fn spec_action(self) -> Action {
        match self {
            State::Read => Action::ReadFile,
            State::Scanned => Action::Redact,
            State::DirtyBackup => Action::CopyToBackup,
            State::Rewriting => Action::Rewrite,
            State::Committing => Action::RemoveBackup,
            State::RollingBack => Action::Restore,
            _ => Action::Nothing,
        }
    }

    /// How the work ended, in a final state.
    pub open spec fn spec_outcome(self) -> Option<Outcome> {
        match self {
            State::CleanSkip => Some(Outcome::Skipped),
            State::Committed => Some(Outcome::Redacted),
            State::RolledBack => Some(Outcome::Failed(Error::WriteFailed)),
            State::Failed(e) => Some(Outcome::Failed(e)),
            _ => None,
        }
    }

    /// Whether `event` reports on the step of this state.
    pub open spec fn expects(self, event: Event) -> bool {
        match (self, event) {
            (State::Read, Event::ReadOk) => true,
            (State::Read, Event::ReadFailed(_)) => true,
            (State::Scanned, Event::ScanClean) => true,
            (State::Scanned, Event::ScanDirty) => true,
            (State::DirtyBackup, Event::BackupOk) => true,
            (State::DirtyBackup, Event::BackupFailed) => true,
            (State::Rewriting, Event::RewriteOk) => true,
            (State::Rewriting, Event::RewriteFailed) => true,
            (State::Committing, Event::BackupRemoved) => true,
            (State::RollingBack, Event::RestoreOk) => true,
            (State::RollingBack, Event::RestoreFailed) => true,
            _ => false,
        }
    }

    /// The state after `event`. An event that does not report on the step of
    /// this state changes nothing.
    pub open spec fn after(self, event: Event) -> State {
        match (self, event) {
            (State::Read, Event::ReadOk) => State::Scanned,
            (State::Read, Event::ReadFailed(cause)) => State::Failed(read_failure(cause)),
            (State::Scanned, Event::ScanClean) => State::CleanSkip,
            (State::Scanned, Event::ScanDirty) => State::DirtyBackup,
            (State::DirtyBackup, Event::BackupOk) => State::Rewriting,
            (State::DirtyBackup, Event::BackupFailed) => State::Failed(Error::BackupFailed),
            (State::Rewriting, Event::RewriteOk) => State::Committing,
            (State::Rewriting, Event::RewriteFailed) => State::RollingBack,
            (State::Committing, Event::BackupRemoved) => State::Committed,
            (State::RollingBack, Event::RestoreOk) => State::RolledBack,
            (State::RollingBack, Event::RestoreFailed) => State::Failed(Error::RollbackFailed),
            _ => self,
        }
    }

    /// The state after each of `events` in turn.
    pub open spec fn after_all(self, events: Seq<Event>) -> State
        decreases events.len(),
    {
        if events.len() == 0 {
            self
        } else {
            self.after_all(events.drop_last()).after(events.last())
        }
    }
}

impl Event {
    /// The report on the redaction of a file: whether it left the file
    /// dirty, so that the file has to be rewritten.
    pub fn scanned(dirty: bool) -> (event: Event)
        ensures
            event == if dirty {
                Event::ScanDirty
            } else {
                Event::ScanClean
            },
    {
        if dirty {
            Event::ScanDirty
        } else {
            Event::ScanClean
        }
    }
}

impl Action {
    /// Whether the action writes to the file system.
    pub open spec fn spec_touches_disk(self) -> bool {
        match self {
            Action::CopyToBackup => true,
            Action::Rewrite => true,
            Action::RemoveBackup => true,
            Action::Restore => true,
            _ => false,
        }
    }

    /// Whether the action writes to the file system.
    #[verifier::when_used_as_spec(spec_touches_disk)]
    pub fn touches_disk(self) -> (touches: bool)
        ensures
            touches == self.spec_touches_disk(),
    {
        match self {
            Action::CopyToBackup => true,
            Action::Rewrite => true,
            Action::RemoveBackup => true,
            Action::Restore => true,
            _ => false,
        }
    }
}

impl Outcome {
    /// Whether the work on the file failed.
    pub open spec fn spec_is_failure(self) -> bool {
        self is Failed
    }

    /// Whether the work on the file failed.
    #[verifier::when_used_as_spec(spec_is_failure)]
    pub fn is_failure(self) -> (failed: bool)
        ensures
            failed == self.spec_is_failure(),
    {
        match self {
            Outcome::Failed(_) => true,
            _ => false,
        }
    }

    /// Whether the batch has to stop after this outcome: only after a
    /// rollback that failed.
    pub open spec fn spec_halts_batch(self) -> bool {
        self == Outcome::Failed(Error::RollbackFailed)
    }

    /// Whether the batch has to stop after this outcome.
    #[verifier::when_used_as_spec(spec_halts_batch)]
    pub fn halts_batch(self) -> (halts: bool)
        ensures
            halts == self.spec_halts_batch(),
    {
        match self {
            Outcome::Failed(e) => e.halts_batch(),
            _ => false,
        }
    }
}

/// The work on one file.
#[derive(Clone, Copy, Debug, PartialEq, Eq)]
pub struct FileTransaction {
    state: State,
}

impl View for FileTransaction {
    type V = State;

    closed spec fn view(&self) -> State {
        self.state
    }
}

impl FileTransaction {
    /// The work on a file, before its first step.
    pub fn new() -> (transaction: FileTransaction)
        ensures
            transaction@ == State::Read,
    {
        FileTransaction { state: State::Read }
    }

    /// Where the work stands.
    pub fn state(&self) -> (state: State)
        ensures
            state == self@,
    {
        self.state
    }

    /// What the caller has to do next.
    pub fn action(&self) -> (action: Action)
        ensures
            action == self@.spec_action(),
    {
        match self.state {
            State::Read => Action::ReadFile,
            State::Scanned => Action::Redact,
            State::DirtyBackup => Action::CopyToBackup,
            State::Rewriting => Action::Rewrite,
            State::Committing => Action::RemoveBackup,
            State::RollingBack => Action::Restore,
            _ => Action::Nothing,
        }
    }

    /// How the work ended, or `None` while a step is still to be done.
    pub fn outcome(&self) -> (outcome: Option<Outcome>)
        ensures
            outcome == self@.spec_outcome(),
    {
        match self.state {
            State::CleanSkip => Some(Outcome::Skipped),
            State::Committed => Some(Outcome::Redacted),
            State::RolledBack => Some(Outcome::Failed(Error::WriteFailed)),
            State::Failed(e) => Some(Outcome::Failed(e)),
            _ => None,
        }
    }

    /// Takes the report on the step that was to be done, and moves on. A
    /// report on another step is not taken, and the state stays.
    pub fn advance(&mut self, event: Event) -> (taken: bool)
        ensures
            taken == old(self)@.expects(event),
            final(self)@ == old(self)@.after(event),
    {
        let next = match (self.state, event) {
            (State::Read, Event::ReadOk) => Some(State::Scanned),
            (State::Read, Event::ReadFailed(cause)) => match cause {
                Error::UnsupportedType => Some(State::Failed(Error::UnsupportedType)),
                _ => Some(State::Failed(Error::DecodeFailed)),
            },
            (State::Scanned, Event::ScanClean) => Some(State::CleanSkip),
            (State::Scanned, Event::ScanDirty) => Some(State::DirtyBackup),
            (State::DirtyBackup, Event::BackupOk) => Some(State::Rewriting),
            (State::DirtyBackup, Event::BackupFailed) => Some(State::Failed(Error::BackupFailed)),
            (State::Rewriting, Event::RewriteOk) => Some(State::Committing),
            (State::Rewriting, Event::RewriteFailed) => Some(State::RollingBack),
            (State::Committing, Event::BackupRemoved) => Some(State::Committed),
            (State::RollingBack, Event::RestoreOk) => Some(State::RolledBack),
            (State::RollingBack, Event::RestoreFailed) => Some(
                State::Failed(Error::RollbackFailed),
            ),
            _ => None,
        };
        match next {
            Some(state) => {
                self.state = state;
                true
            },
            None => false,
        }
    }
}

/// How far a run over a batch of files has come.
#[derive(Clone, Copy, Debug, PartialEq, Eq)]
pub struct BatchRun {
    failed: bool,
    halted: bool,
}

/// What a [`BatchRun`] holds.
pub ghost struct RunModel {
    /// Whether the work on a file has failed.
    pub failed: bool,
    /// Whether the run had to stop.
    pub halted: bool,
}

impl RunModel {
    /// The run before its first file.
    pub open spec fn start() -> RunModel {
        RunModel { failed: false, halted: false }
    }

    /// The run after a file that ended with `outcome`.
    pub open spec fn after(self, outcome: Outcome) -> RunModel {
        RunModel {
            failed: self.failed || outcome.is_failure(),
            halted: self.halted || outcome.halts_batch(),
        }
    }

    /// The run after files that ended with `outcomes`, in their order.
    pub open spec fn after_all(self, outcomes: Seq<Outcome>) -> RunModel
        decreases outcomes.len(),
    {
        if outcomes.len() == 0 {
            self
        } else {
            self.after_all(outcomes.drop_last()).after(outcomes.last())
        }
    }
}

impl View for BatchRun {
    type V = RunModel;

    closed spec fn view(&self) -> RunModel {
        RunModel { failed: self.failed, halted: self.halted }
    }
}

impl BatchRun {
    /// A run before its first file.
    pub fn new() -> (run: BatchRun)
        ensures
            run@ == RunModel::start(),
    {
        BatchRun { failed: false, halted: false }
    }

    /// Notes how the work on one file ended.
    pub fn record(&mut self, outcome: Outcome)
        ensures
            final(self)@ == old(self)@.after(outcome),
    {
        if outcome.is_failure() {
            self.failed = true;
        }
        if outcome.halts_batch() {
            self.halted = true;
        }
    }

    /// Whether the next file may be taken up: always, unless a rollback has
    /// failed.
    pub fn may_continue(&self) -> (go_on: bool)
        ensures
            go_on == !self@.halted,
    {
        !self.halted
    }

    /// The exit code of the run: zero where no file failed, one otherwise.
    pub fn exit_code(&self) -> (code: i32)
        ensures
            code == if self@.failed {
                1i32
            } else {
                0i32
            },
    {
        if self.failed {
            1
        } else {
            0
        }
    }
}

} // verus!
