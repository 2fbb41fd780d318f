//! The installation transaction: a state machine that decides, from the
//! result of each operation on the machine, which operation comes next.
//!
//! The machine performs nothing itself. The caller performs the action it is
//! handed (a query, a dialog, a rename, the extraction) and reports the result
//! as an event; the transaction answers with the next action, until it hands
//! out a report with the outcome. Module `rollback` states what this guarantees
//! of the file system.

use crate::quarantine::{
    all_alphanumeric, fresh_quarantine_path, quarantine_name, quarantine_path,
    QUARANTINE_SUFFIX_LENGTH,
};
use vstd::prelude::*;

verus! {

/// How a transaction ended.
#[derive(Debug, Clone, Copy, PartialEq, Eq, Structural)]
pub enum Outcome {
    /// The application is installed.
    Success,
    /// The user declined to overwrite an existing installation. Nothing was
    /// changed.
    UserDeclined,
    /// The destination volume has too little free space. Nothing was changed.
    InsufficientSpace,
    /// The existing installation could not be moved aside. Nothing was changed.
    QuarantineFailed,
    /// Extraction failed and the previous state was restored.
    ExtractionFailed,
    /// Extraction failed and the previous state could not be restored.
    RollbackFailed,
}

/// The phases of a transaction.
#[derive(Debug, Clone, Copy, PartialEq, Eq, Structural)]
pub enum Phase {
    Init,
    SpacePreflight,
    ConflictCheck,
    Quarantine,
    Extract,
    Commit,
    Rollback,
    Success,
    Failed,
}

/// What the caller is to do next.
#[derive(Debug, Clone, Copy, PartialEq, Eq, Structural)]
pub enum Action {
    /// Nothing yet: the transaction waits for `Event::Begin`.
    Idle,
    /// Query the free space on the destination's volume; answer with
    /// `Event::FreeSpace`.
    QueryFreeSpace,
    /// Test whether the destination exists and is non-empty; answer with
    /// `Event::Inspected`.
    InspectDestination,
    /// Ask the user whether to overwrite the existing installation; answer
    /// with `Event::Answered`.
    ConfirmOverwrite,
    /// Terminate the processes that run from the destination.
    ReapProcesses,
    /// Rename the destination to the quarantine path.
    MoveAside,
    /// Recreate the destination as an empty directory and write the
    /// application into it.
    Extract,
    /// Delete the quarantine directory.
    DeleteBackup,
    /// Launch the installed application as a detached process.
    Launch,
    /// Persist the uninstall record.
    PersistRecord,
    /// Remove whatever the failed extraction left at the destination.
    RemovePartial,
    /// Rename the quarantine directory back to the destination.
    RestoreBackup,
    /// The transaction is over: report the outcome.
    Report(Outcome),
}

/// What the caller reports back.
#[derive(Debug, Clone, Copy)]
pub enum Event {
    /// Start the transaction.
    Begin,
    /// The free space in bytes, or `None` where the query failed.
    FreeSpace(Option<u64>),
    /// Whether the destination exists and is non-empty.
    Inspected(bool),
    /// Whether the user agreed.
    Answered(bool),
    /// The action was performed.
    Completed,
    /// The action failed.
    Failed,
}

/// A failure that is reported but does not change the course of the
/// transaction.
#[derive(Debug, Clone, Copy, PartialEq, Eq, Structural)]
pub enum Warning {
    /// Processes that run from the destination could not be terminated.
    ProcessTermination,
    /// The quarantine directory could not be deleted and is left behind.
    BackupNotDeleted,
    /// The installed application could not be launched.
    LaunchFailed,
    /// The uninstall record could not be persisted.
    UninstallRecord,
}

/// The warning that `event` gives rise to when it answers `action`.
pub open spec fn warning_of(action: Action, event: Event) -> Option<Warning> {
    match (action, event) {
        (Action::ReapProcesses, Event::Failed) => Some(Warning::ProcessTermination),
        (Action::DeleteBackup, Event::Failed) => Some(Warning::BackupNotDeleted),
        (Action::Launch, Event::Failed) => Some(Warning::LaunchFailed),
        (Action::PersistRecord, Event::Failed) => Some(Warning::UninstallRecord),
        _ => None,
    }
}

/// Exit code of the installer for each outcome. Success is zero; the others
/// are distinct and not zero.
pub open spec fn exit_code_of(outcome: Outcome) -> i32 {
    match outcome {
        Outcome::Success => 0,
        Outcome::ExtractionFailed => 1,
        Outcome::UserDeclined => 2,
        Outcome::InsufficientSpace => 3,
        Outcome::RollbackFailed => 4,
        Outcome::QuarantineFailed => 5,
    }
}

/// The phase in which `action` is pending.
pub open spec fn phase_of(action: Action) -> Phase {
    match action {
        Action::Idle => Phase::Init,
        Action::QueryFreeSpace => Phase::SpacePreflight,
        Action::InspectDestination => Phase::ConflictCheck,
        Action::ConfirmOverwrite => Phase::ConflictCheck,
        Action::ReapProcesses => Phase::Quarantine,
        Action::MoveAside => Phase::Quarantine,
        Action::Extract => Phase::Extract,
        Action::DeleteBackup => Phase::Commit,
        Action::Launch => Phase::Commit,
        Action::PersistRecord => Phase::Commit,
        Action::RemovePartial => Phase::Rollback,
        Action::RestoreBackup => Phase::Rollback,
        Action::Report(Outcome::Success) => Phase::Success,
        Action::Report(_) => Phase::Failed,
    }
}

/// Mathematical model of an [`InstallTransaction`].
pub struct TxView {
    /// Where the application is installed.
    pub destination: Seq<char>,
    /// Where an existing installation is moved aside.
    pub backup: Seq<char>,
    /// Whether an existing installation lies at `backup`.
    pub quarantined: bool,
    /// The action that the caller is to perform.
    pub pending: Action,
    /// Size of the application in bytes.
    pub required_space: u64,
    /// Whether to overwrite without asking.
    pub silent: bool,
    /// Whether to launch the application once installed.
    pub launch: bool,
}

/// A transaction that has not begun.
pub open spec fn initial(
    destination: Seq<char>,
    suffix: Seq<char>,
    required_space: u64,
    silent: bool,
    launch: bool,
) -> TxView {
    TxView {
        destination,
        backup: quarantine_name(destination, suffix),
        quarantined: false,
        pending: Action::Idle,
        required_space,
        silent,
        launch,
    }
}

/// The first action of the commit phase once no backup is left to delete.
pub open spec fn after_backup(tx: TxView) -> Action {
    if tx.launch {
        Action::Launch
    } else {
        Action::PersistRecord
    }
}

/// The state after `event` is reported in state `tx`. An event that does not
/// answer the pending action changes nothing.
pub open spec fn advance(tx: TxView, event: Event) -> TxView {
    match (tx.pending, event) {
        (Action::Idle, Event::Begin) => TxView { pending: Action::QueryFreeSpace, ..tx },
        (Action::QueryFreeSpace, Event::FreeSpace(Some(free))) => if free < tx.required_space {
            TxView { pending: Action::Report(Outcome::InsufficientSpace), ..tx }
        } else {
            TxView { pending: Action::InspectDestination, ..tx }
        },
        (Action::QueryFreeSpace, Event::FreeSpace(None)) => TxView {
            pending: Action::InspectDestination,
            ..tx
        },
        (Action::InspectDestination, Event::Inspected(occupied)) => if !occupied {
            TxView { pending: Action::Extract, ..tx }
        } else if tx.silent {
            TxView { pending: Action::ReapProcesses, ..tx }
        } else {
            TxView { pending: Action::ConfirmOverwrite, ..tx }
        },
        (Action::ConfirmOverwrite, Event::Answered(yes)) => if yes {
            TxView { pending: Action::ReapProcesses, ..tx }
        } else {
            TxView { pending: Action::Report(Outcome::UserDeclined), ..tx }
        },
        (Action::ReapProcesses, Event::Completed) => TxView { pending: Action::MoveAside, ..tx },
        (Action::ReapProcesses, Event::Failed) => TxView { pending: Action::MoveAside, ..tx },
        (Action::MoveAside, Event::Completed) => TxView {
            pending: Action::Extract,
            quarantined: true,
            ..tx
        },
        (Action::MoveAside, Event::Failed) => TxView {
            pending: Action::Report(Outcome::QuarantineFailed),
            ..tx
        },
        (Action::Extract, Event::Completed) => if tx.quarantined {
            TxView { pending: Action::DeleteBackup, ..tx }
        } else {
            TxView { pending: after_backup(tx), ..tx }
        },
        (Action::Extract, Event::Failed) => TxView { pending: Action::RemovePartial, ..tx },
        (Action::DeleteBackup, Event::Completed) => TxView {
            pending: after_backup(tx),
            quarantined: false,
            ..tx
        },
        (Action::DeleteBackup, Event::Failed) => TxView { pending: after_backup(tx), ..tx },
        (Action::Launch, Event::Completed) => TxView { pending: Action::PersistRecord, ..tx },
        (Action::Launch, Event::Failed) => TxView { pending: Action::PersistRecord, ..tx },
        (Action::PersistRecord, Event::Completed) => TxView {
            pending: Action::Report(Outcome::Success),
            ..tx
        },
        (Action::PersistRecord, Event::Failed) => TxView {
            pending: Action::Report(Outcome::Success),
            ..tx
        },
        (Action::RemovePartial, Event::Completed) => if tx.quarantined {
            TxView { pending: Action::RestoreBackup, ..tx }
        } else {
            TxView { pending: Action::Report(Outcome::ExtractionFailed), ..tx }
        },
        (Action::RemovePartial, Event::Failed) => if tx.quarantined {
            TxView { pending: Action::RestoreBackup, ..tx }
        } else {
            TxView { pending: Action::Report(Outcome::RollbackFailed), ..tx }
        },
        (Action::RestoreBackup, Event::Completed) => TxView {
            pending: Action::Report(Outcome::ExtractionFailed),
            quarantined: false,
            ..tx
        },
        (Action::RestoreBackup, Event::Failed) => TxView {
            pending: Action::Report(Outcome::RollbackFailed),
            ..tx
        },
        _ => tx,
    }
}

/// Exit code of the installer for `outcome`.
pub fn exit_code(outcome: Outcome) -> (code: i32)
    ensures
        code == exit_code_of(outcome),
        code == 0 <==> outcome == Outcome::Success,
{
    match outcome {
        Outcome::Success => 0,
        Outcome::ExtractionFailed => 1,
        Outcome::UserDeclined => 2,
        Outcome::InsufficientSpace => 3,
        Outcome::RollbackFailed => 4,
        Outcome::QuarantineFailed => 5,
    }
}

/// The warning, if any, that `event` gives rise to when it answers `action`.
pub fn warning(action: Action, event: Event) -> (w: Option<Warning>)
    ensures
        w == warning_of(action, event),
{
    match (action, event) {
        (Action::ReapProcesses, Event::Failed) => Some(Warning::ProcessTermination),
        (Action::DeleteBackup, Event::Failed) => Some(Warning::BackupNotDeleted),
        (Action::Launch, Event::Failed) => Some(Warning::LaunchFailed),
        (Action::PersistRecord, Event::Failed) => Some(Warning::UninstallRecord),
        _ => None,
    }
}

/// A failure that is only a warning does not block the transaction: the next
/// action is the one that follows success.
pub proof fn lemma_warnings_do_not_block(tx: TxView)
    ensures
        warning_of(tx.pending, Event::Failed) is Some ==> advance(tx, Event::Failed).pending
            == advance(tx, Event::Completed).pending,
        warning_of(tx.pending, Event::Failed) is Some && tx.pending != Action::DeleteBackup
            ==> advance(tx, Event::Failed) == advance(tx, Event::Completed),
{
}

/// Exit codes tell the outcomes apart.
pub proof fn lemma_exit_codes_distinct(a: Outcome, b: Outcome)
    ensures
        exit_code_of(a) == exit_code_of(b) <==> a == b,
{
}

/// The phase in which `action` is pending.
pub fn phase_of_action(action: Action) -> (phase: Phase)
    ensures
        phase == phase_of(action),
{
    match action {
        Action::Idle => Phase::Init,
        Action::QueryFreeSpace => Phase::SpacePreflight,
        Action::InspectDestination => Phase::ConflictCheck,
        Action::ConfirmOverwrite => Phase::ConflictCheck,
        Action::ReapProcesses => Phase::Quarantine,
        Action::MoveAside => Phase::Quarantine,
        Action::Extract => Phase::Extract,
        Action::DeleteBackup => Phase::Commit,
        Action::Launch => Phase::Commit,
        Action::PersistRecord => Phase::Commit,
        Action::RemovePartial => Phase::Rollback,
        Action::RestoreBackup => Phase::Rollback,
        Action::Report(Outcome::Success) => Phase::Success,
        Action::Report(_) => Phase::Failed,
    }
}

/// One attempt to install the application at a destination.
pub struct InstallTransaction {
    destination: String,
    backup: String,
    quarantined: bool,
    pending: Action,
    required_space: u64,
    silent: bool,
    launch: bool,
}

impl View for InstallTransaction {
    type V = TxView;

    closed spec fn view(&self) -> TxView {
        TxView {
            destination: self.destination@,
            backup: self.backup@,
            quarantined: self.quarantined,
            pending: self.pending,
            required_space: self.required_space,
            silent: self.silent,
            launch: self.launch,
        }
    }
}

impl InstallTransaction {
    /// A transaction that installs an application of `required_space` bytes at
    /// `destination`, and moves an existing installation aside to `destination`,
    /// an underscore and `suffix`. It has not begun.
    pub fn new(
        destination: &str,
        suffix: &str,
        required_space: u64,
        silent: bool,
        launch: bool,
    ) -> (tx: InstallTransaction)
        ensures
            tx@ == initial(destination@, suffix@, required_space, silent, launch),
    {
        InstallTransaction {
            destination: destination.to_owned(),
            backup: quarantine_path(destination, suffix),
            quarantined: false,
            pending: Action::Idle,
            required_space,
            silent,
            launch,
        }
    }

    /// As [`InstallTransaction::new`], with a random suffix of eight letters
    /// and digits.
    pub fn begin(destination: &str, required_space: u64, silent: bool, launch: bool) -> (tx:
        InstallTransaction)
        ensures
            exists|suffix: Seq<char>|
                #![trigger quarantine_name(destination@, suffix)]
                suffix.len() == QUARANTINE_SUFFIX_LENGTH && all_alphanumeric(suffix) && tx@
                    == initial(destination@, suffix, required_space, silent, launch),
    {
        let backup = fresh_quarantine_path(destination);
        let tx = InstallTransaction {
            destination: destination.to_owned(),
            backup,
            quarantined: false,
            pending: Action::Idle,
            required_space,
            silent,
            launch,
        };
        proof {
            let suffix = choose|suffix: Seq<char>|
                #![trigger quarantine_name(destination@, suffix)]
                suffix.len() == QUARANTINE_SUFFIX_LENGTH && all_alphanumeric(suffix) && backup@
                    == quarantine_name(destination@, suffix);
            assert(tx@ == initial(destination@, suffix, required_space, silent, launch));
        }
        tx
    }

    /// Takes the result of the pending action and hands out the next one.
    pub fn step(&mut self, event: Event) -> (next: Action)
        ensures
            final(self)@ == advance(old(self)@, event),
            next == final(self)@.pending,
    {
        let launch_or_record = if self.launch {
            Action::Launch
        } else {
            Action::PersistRecord
        };
        match (self.pending, event) {
            (Action::Idle, Event::Begin) => {
                self.pending = Action::QueryFreeSpace;
            },
            (Action::QueryFreeSpace, Event::FreeSpace(Some(free))) => {
                if free < self.required_space {
                    self.pending = Action::Report(Outcome::InsufficientSpace);
                } else {
                    self.pending = Action::InspectDestination;
                }
            },
            (Action::QueryFreeSpace, Event::FreeSpace(None)) => {
                self.pending = Action::InspectDestination;
            },
            (Action::InspectDestination, Event::Inspected(occupied)) => {
                if !occupied {
                    self.pending = Action::Extract;
                } else if self.silent {
                    self.pending = Action::ReapProcesses;
                } else {
                    self.pending = Action::ConfirmOverwrite;
                }
            },
            (Action::ConfirmOverwrite, Event::Answered(yes)) => {
                if yes {
                    self.pending = Action::ReapProcesses;
                } else {
                    self.pending = Action::Report(Outcome::UserDeclined);
                }
            },
            (Action::ReapProcesses, Event::Completed) => {
                self.pending = Action::MoveAside;
            },
            (Action::ReapProcesses, Event::Failed) => {
                self.pending = Action::MoveAside;
            },
            (Action::MoveAside, Event::Completed) => {
                self.pending = Action::Extract;
                self.quarantined = true;
            },
            (Action::MoveAside, Event::Failed) => {
                self.pending = Action::Report(Outcome::QuarantineFailed);
            },
            (Action::Extract, Event::Completed) => {
                if self.quarantined {
                    self.pending = Action::DeleteBackup;
                } else {
                    self.pending = launch_or_record;
                }
            },
            (Action::Extract, Event::Failed) => {
                self.pending = Action::RemovePartial;
            },
            (Action::DeleteBackup, Event::Completed) => {
                self.pending = launch_or_record;
                self.quarantined = false;
            },
            (Action::DeleteBackup, Event::Failed) => {
                self.pending = launch_or_record;
            },
            (Action::Launch, Event::Completed) => {
                self.pending = Action::PersistRecord;
            },
            (Action::Launch, Event::Failed) => {
                self.pending = Action::PersistRecord;
            },
            (Action::PersistRecord, Event::Completed) => {
                self.pending = Action::Report(Outcome::Success);
            },
            (Action::PersistRecord, Event::Failed) => {
                self.pending = Action::Report(Outcome::Success);
            },
            (Action::RemovePartial, Event::Completed) => {
                if self.quarantined {
                    self.pending = Action::RestoreBackup;
                } else {
                    self.pending = Action::Report(Outcome::ExtractionFailed);
                }
            },
            (Action::RemovePartial, Event::Failed) => {
                if self.quarantined {
                    self.pending = Action::RestoreBackup;
                } else {
                    self.pending = Action::Report(Outcome::RollbackFailed);
                }
            },
            (Action::RestoreBackup, Event::Completed) => {
                self.pending = Action::Report(Outcome::ExtractionFailed);
                self.quarantined = false;
            },
            (Action::RestoreBackup, Event::Failed) => {
                self.pending = Action::Report(Outcome::RollbackFailed);
            },
            _ => {},
        }
        self.pending
    }

    /// The action that the caller is to perform.
    pub fn pending(&self) -> (action: Action)
        ensures
            action == self@.pending,
    {
        self.pending
    }

    /// The phase that the transaction is in.
    pub fn phase(&self) -> (phase: Phase)
        ensures
            phase == phase_of(self@.pending),
    {
        phase_of_action(self.pending)
    }

    /// The outcome, once the transaction is over.
    pub fn outcome(&self) -> (r: Option<Outcome>)
        ensures
            r == (match self@.pending {
                Action::Report(outcome) => Some(outcome),
                _ => None,
            }),
    {
        match self.pending {
            Action::Report(outcome) => Some(outcome),
            _ => None,
        }
    }

    /// Where the application is installed.
    pub fn destination(&self) -> (path: String)
        ensures
            path@ == self@.destination,
    {
        self.destination.clone()
    }

    /// Where an existing installation is moved aside.
    pub fn backup_path(&self) -> (path: String)
        ensures
            path@ == self@.backup,
    {
        self.backup.clone()
    }

    /// Where the previous installation lies at present, if it was moved aside
    /// and neither restored nor deleted since.
    pub fn quarantine(&self) -> (r: Option<String>)
        ensures
            match r {
                Some(path) => self@.quarantined && path@ == self@.backup,
                None => !self@.quarantined,
            },
    {
        if self.quarantined {
            Some(self.backup.clone())
        } else {
            None
        }
    }

    /// Size of the application in bytes, which is what the space preflight
    /// compares with the free space.
    pub fn required_space(&self) -> (bytes: u64)
        ensures
            bytes == self@.required_space,
    {
        self.required_space
    }
}

} // verus!
