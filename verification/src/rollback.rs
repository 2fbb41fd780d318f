//! What the installation transaction guarantees of the file system.
//!
//! The file system is modelled as a map from directory paths to what each
//! directory holds. The model says what each action of the transaction does
//! to it when it succeeds and what it may leave when it fails; the laws below
//! then hold of every run of the state machine in module `transaction`,
//! whatever the caller reports.

use crate::quarantine::quarantine_name;
use crate::transaction::{advance, initial, Action, Event, Outcome, TxView};
use vstd::prelude::*;

verus! {

/// What a directory holds: the contents of each file by its name relative to
/// the directory. The empty tree stands for a directory that is absent or
/// empty.
pub type Tree = Map<Seq<char>, Seq<u8>>;

/// The directories of the machine by path.
pub type Disk = Map<Seq<char>, Tree>;

/// What the caller reports of one action: the event, and what the action left
/// at the path it worked on where it failed half way.
pub struct Reply {
    pub event: Event,
    pub debris: Tree,
}

/// What `disk` holds at `path`.
pub open spec fn tree_at(disk: Disk, path: Seq<char>) -> Tree {
    if disk.dom().contains(path) {
        disk[path]
    } else {
        Map::empty()
    }
}

/// Whether two disks hold the same at every path.
pub open spec fn same(a: Disk, b: Disk) -> bool {
    forall|path: Seq<char>| #[trigger] tree_at(a, path) == tree_at(b, path)
}

/// Whether two disks hold the same at every path but the destination and the
/// quarantine path of `tx`.
pub open spec fn same_elsewhere(tx: TxView, a: Disk, b: Disk) -> bool {
    forall|path: Seq<char>|
        path != tx.destination && path != tx.backup ==> #[trigger] tree_at(a, path) == tree_at(
            b,
            path,
        )
}

/// What the pending action of `tx` does to `disk` when the caller reports
/// `reply`. A rename moves a whole tree or, failing, moves nothing; a failed
/// extraction or removal leaves `reply.debris`; `installed` is what a
/// successful extraction leaves at the destination. Queries, dialogs, process
/// termination, the launch and the uninstall record leave the directories as
/// they are.
pub open spec fn effect(tx: TxView, reply: Reply, disk: Disk, installed: Tree) -> Disk {
    match (tx.pending, reply.event) {
        (Action::MoveAside, Event::Completed) => disk.insert(
            tx.backup,
            tree_at(disk, tx.destination),
        ).insert(tx.destination, Map::empty()),
        (Action::Extract, Event::Completed) => disk.insert(tx.destination, installed),
        (Action::Extract, Event::Failed) => disk.insert(tx.destination, reply.debris),
        (Action::RemovePartial, Event::Completed) => disk.insert(tx.destination, Map::empty()),
        (Action::RemovePartial, Event::Failed) => disk.insert(tx.destination, reply.debris),
        (Action::RestoreBackup, Event::Completed) => disk.insert(
            tx.destination,
            tree_at(disk, tx.backup),
        ).insert(tx.backup, Map::empty()),
        (Action::DeleteBackup, Event::Completed) => disk.insert(tx.backup, Map::empty()),
        (Action::DeleteBackup, Event::Failed) => disk.insert(tx.backup, reply.debris),
        _ => disk,
    }
}

/// Whether `reply` reports the truth about `disk`: the one report that the
/// transaction relies on is whether the destination is occupied.
pub open spec fn truthful(tx: TxView, reply: Reply, disk: Disk) -> bool {
    match (tx.pending, reply.event) {
        (Action::InspectDestination, Event::Inspected(occupied)) => occupied == (tree_at(
            disk,
            tx.destination,
        ) != Map::<Seq<char>, Seq<u8>>::empty()),
        _ => true,
    }
}

/// Whether the quarantine path of `tx` is another path than the destination
/// and is unused on `disk`.
pub open spec fn prepared(tx: TxView, disk: Disk) -> bool {
    &&& tx.destination != tx.backup
    &&& tree_at(disk, tx.backup) == Map::<Seq<char>, Seq<u8>>::empty()
}

/// Whether the previous installation is kept safe: it lies at the quarantine
/// path where it was moved aside, and there was none otherwise.
pub open spec fn kept(tx: TxView, disk: Disk, before: Disk) -> bool {
    if tx.quarantined {
        tree_at(disk, tx.backup) == tree_at(before, tx.destination)
    } else {
        &&& tree_at(disk, tx.backup) == Map::<Seq<char>, Seq<u8>>::empty()
        &&& tree_at(before, tx.destination) == Map::<Seq<char>, Seq<u8>>::empty()
    }
}

/// How `disk` relates to `before`, the disk on which the transaction `tx`
/// began, in each state of `tx`.
pub open spec fn consistent(tx: TxView, disk: Disk, before: Disk, installed: Tree) -> bool {
    &&& prepared(tx, before)
    &&& match tx.pending {
        Action::Idle
        | Action::QueryFreeSpace
        | Action::InspectDestination
        | Action::ConfirmOverwrite
        | Action::ReapProcesses
        | Action::MoveAside
        | Action::Report(Outcome::UserDeclined)
        | Action::Report(Outcome::InsufficientSpace)
        | Action::Report(Outcome::QuarantineFailed)
        | Action::Report(Outcome::ExtractionFailed) => same(disk, before) && !tx.quarantined,
        Action::Extract => {
            &&& same_elsewhere(tx, disk, before)
            &&& tree_at(disk, tx.destination) == Map::<Seq<char>, Seq<u8>>::empty()
            &&& kept(tx, disk, before)
        },
        Action::RemovePartial => same_elsewhere(tx, disk, before) && kept(tx, disk, before),
        Action::RestoreBackup => {
            &&& same_elsewhere(tx, disk, before)
            &&& kept(tx, disk, before)
            &&& tx.quarantined
        },
        Action::DeleteBackup => {
            &&& same_elsewhere(tx, disk, before)
            &&& tree_at(disk, tx.destination) == installed
            &&& tx.quarantined
        },
        Action::Launch | Action::PersistRecord | Action::Report(Outcome::Success) => {
            &&& same_elsewhere(tx, disk, before)
            &&& tree_at(disk, tx.destination) == installed
            &&& (!tx.quarantined ==> tree_at(disk, tx.backup) == Map::<
                Seq<char>,
                Seq<u8>,
            >::empty())
        },
        Action::Report(Outcome::RollbackFailed) => {
            &&& same_elsewhere(tx, disk, before)
            &&& (tx.quarantined ==> tree_at(disk, tx.backup) == tree_at(before, tx.destination))
        },
    }
}

/// The state of the transaction after the caller made `replies` in turn.
pub open spec fn run_tx(tx: TxView, replies: Seq<Reply>) -> TxView
    decreases replies.len(),
{
    if replies.len() == 0 {
        tx
    } else {
        advance(run_tx(tx, replies.drop_last()), replies.last().event)
    }
}

/// The disk after the caller performed the actions it was handed and made
/// `replies` in turn.
pub open spec fn run_disk(tx: TxView, disk: Disk, installed: Tree, replies: Seq<Reply>) -> Disk
    decreases replies.len(),
{
    if replies.len() == 0 {
        disk
    } else {
        effect(
            run_tx(tx, replies.drop_last()),
            replies.last(),
            run_disk(tx, disk, installed, replies.drop_last()),
            installed,
        )
    }
}

/// Whether each of `replies` was truthful when it was made.
pub open spec fn truthful_run(tx: TxView, disk: Disk, installed: Tree, replies: Seq<Reply>) -> bool
    decreases replies.len(),
{
    if replies.len() == 0 {
        true
    } else {
        &&& truthful_run(tx, disk, installed, replies.drop_last())
        &&& truthful(
            run_tx(tx, replies.drop_last()),
            replies.last(),
            run_disk(tx, disk, installed, replies.drop_last()),
        )
    }
}

/// A new transaction has not begun, holds nothing in quarantine, and names a
/// quarantine path that is another path than its destination. The laws of
/// this module therefore hold of it on every disk on which that path is
/// unused.
pub proof fn lemma_initial_is_ready(
    destination: Seq<char>,
    suffix: Seq<char>,
    required_space: u64,
    silent: bool,
    launch: bool,
    disk: Disk,
)
    ensures
        initial(destination, suffix, required_space, silent, launch).pending == Action::Idle,
        !initial(destination, suffix, required_space, silent, launch).quarantined,
        initial(destination, suffix, required_space, silent, launch).destination
            != initial(destination, suffix, required_space, silent, launch).backup,
        tree_at(disk, quarantine_name(destination, suffix)) == Map::<Seq<char>, Seq<u8>>::empty()
            ==> prepared(initial(destination, suffix, required_space, silent, launch), disk),
{
    assert(quarantine_name(destination, suffix).len() == destination.len() + 1 + suffix.len());
}

/// A transaction that has not begun is consistent with the disk it is about to
/// work on.
pub proof fn lemma_consistent_at_start(tx: TxView, disk: Disk, installed: Tree)
    requires
        tx.pending == Action::Idle,
        !tx.quarantined,
        prepared(tx, disk),
    ensures
        consistent(tx, disk, disk, installed),
{
}

/// Every step keeps the disk consistent with the state of the transaction.
pub proof fn lemma_step_consistent(
    tx: TxView,
    reply: Reply,
    disk: Disk,
    before: Disk,
    installed: Tree,
)
    requires
        consistent(tx, disk, before, installed),
        truthful(tx, reply, disk),
    ensures
        consistent(advance(tx, reply.event), effect(tx, reply, disk, installed), before, installed),
{
    let next = advance(tx, reply.event);
    let after = effect(tx, reply, disk, installed);
    assert(next.destination == tx.destination && next.backup == tx.backup);
    assert forall|path: Seq<char>|
        path != tx.destination && path != tx.backup implies #[trigger] tree_at(after, path)
        == tree_at(disk, path) by {}
    match (tx.pending, reply.event) {
        (Action::MoveAside, Event::Completed) => {
            assert(tree_at(after, tx.backup) == tree_at(disk, tx.destination));
            assert(tree_at(disk, tx.destination) == tree_at(before, tx.destination));
            assert forall|path: Seq<char>|
                path != next.destination && path != next.backup implies #[trigger] tree_at(
                after,
                path,
            ) == tree_at(before, path) by {
                assert(tree_at(disk, path) == tree_at(before, path));
            }
        },
        (Action::InspectDestination, Event::Inspected(occupied)) => {
            if !occupied {
                assert(tree_at(disk, tx.backup) == tree_at(before, tx.backup));
                assert(tree_at(disk, tx.destination) == tree_at(before, tx.destination));
                assert forall|path: Seq<char>|
                    path != next.destination && path != next.backup implies #[trigger] tree_at(
                    after,
                    path,
                ) == tree_at(before, path) by {
                    assert(tree_at(disk, path) == tree_at(before, path));
                }
            }
        },
        (Action::RemovePartial, Event::Completed) => {
            if !tx.quarantined {
                assert forall|path: Seq<char>| #[trigger] tree_at(after, path) == tree_at(
                    before,
                    path,
                ) by {
                    if path != tx.destination && path != tx.backup {
                        assert(tree_at(disk, path) == tree_at(before, path));
                    }
                }
            }
        },
        (Action::RestoreBackup, Event::Completed) => {
            assert forall|path: Seq<char>| #[trigger] tree_at(after, path) == tree_at(
                before,
                path,
            ) by {
                if path != tx.destination && path != tx.backup {
                    assert(tree_at(disk, path) == tree_at(before, path));
                }
            }
        },
        _ => {
            assert forall|path: Seq<char>|
                path != next.destination && path != next.backup implies #[trigger] tree_at(
                after,
                path,
            ) == tree_at(before, path) by {
                assert(tree_at(disk, path) == tree_at(before, path));
            }
        },
    }
}

/// Every run that begins on a prepared disk, with truthful replies, keeps the
/// disk consistent with the state of the transaction.
pub proof fn lemma_run_consistent(tx: TxView, disk: Disk, installed: Tree, replies: Seq<Reply>)
    requires
        tx.pending == Action::Idle,
        !tx.quarantined,
        prepared(tx, disk),
        truthful_run(tx, disk, installed, replies),
    ensures
        consistent(run_tx(tx, replies), run_disk(tx, disk, installed, replies), disk, installed),
    decreases replies.len(),
{
    if replies.len() == 0 {
        lemma_consistent_at_start(tx, disk, installed);
    } else {
        let earlier = replies.drop_last();
        lemma_run_consistent(tx, disk, installed, earlier);
        lemma_step_consistent(
            run_tx(tx, earlier),
            replies.last(),
            run_disk(tx, disk, installed, earlier),
            disk,
            installed,
        );
    }
}

/// Whenever a transaction ends with a failed extraction that was rolled
/// back, every directory holds exactly what it held before the transaction
/// began: the destination has its previous contents, path for path and byte
/// for byte, and nothing lies at the quarantine path.
pub proof fn lemma_rollback_fidelity(
    tx: TxView,
    disk: Disk,
    installed: Tree,
    replies: Seq<Reply>,
)
    requires
        tx.pending == Action::Idle,
        !tx.quarantined,
        prepared(tx, disk),
        truthful_run(tx, disk, installed, replies),
        run_tx(tx, replies).pending == Action::Report(Outcome::ExtractionFailed),
    ensures
        same(run_disk(tx, disk, installed, replies), disk),
        tree_at(run_disk(tx, disk, installed, replies), tx.destination) == tree_at(
            disk,
            tx.destination,
        ),
        tree_at(run_disk(tx, disk, installed, replies), run_tx(tx, replies).backup) == Map::<
            Seq<char>,
            Seq<u8>,
        >::empty(),
        !run_tx(tx, replies).quarantined,
{
    lemma_run_consistent(tx, disk, installed, replies);
    let end = run_disk(tx, disk, installed, replies);
    assert(tree_at(end, tx.destination) == tree_at(disk, tx.destination));
    assert(tree_at(end, run_tx(tx, replies).backup) == tree_at(disk, run_tx(tx, replies).backup));
}

/// Whenever a transaction ends because the user declined to overwrite, every
/// directory holds exactly what it held before: the destination is untouched,
/// nothing was moved aside and nothing was extracted.
pub proof fn lemma_decline_safety(tx: TxView, disk: Disk, installed: Tree, replies: Seq<Reply>)
    requires
        tx.pending == Action::Idle,
        !tx.quarantined,
        prepared(tx, disk),
        truthful_run(tx, disk, installed, replies),
        run_tx(tx, replies).pending == Action::Report(Outcome::UserDeclined),
    ensures
        same(run_disk(tx, disk, installed, replies), disk),
        !run_tx(tx, replies).quarantined,
{
    lemma_run_consistent(tx, disk, installed, replies);
}

/// A transaction that ends in any other way than a failed rollback either
/// installed the application, and then the destination holds
/// exactly the application and every other directory but the quarantine path
/// is as before, or left every directory as it was. Where it installed the
/// application and reports no quarantine path, nothing lies there.
pub proof fn lemma_all_or_nothing(
    tx: TxView,
    disk: Disk,
    installed: Tree,
    replies: Seq<Reply>,
    outcome: Outcome,
)
    requires
        tx.pending == Action::Idle,
        !tx.quarantined,
        prepared(tx, disk),
        truthful_run(tx, disk, installed, replies),
        run_tx(tx, replies).pending == Action::Report(outcome),
        outcome != Outcome::RollbackFailed,
    ensures
        outcome == Outcome::Success ==> {
            &&& tree_at(run_disk(tx, disk, installed, replies), run_tx(tx, replies).destination)
                == installed
            &&& same_elsewhere(run_tx(tx, replies), run_disk(tx, disk, installed, replies), disk)
            &&& (!run_tx(tx, replies).quarantined ==> tree_at(
                run_disk(tx, disk, installed, replies),
                run_tx(tx, replies).backup,
            ) == Map::<Seq<char>, Seq<u8>>::empty())
        },
        outcome != Outcome::Success ==> same(run_disk(tx, disk, installed, replies), disk),
{
    lemma_run_consistent(tx, disk, installed, replies);
}

/// Even where the rollback fails, the previous installation is not lost while
/// the transaction reports a quarantine path: it lies there, whole.
pub proof fn lemma_failed_rollback_keeps_backup(
    tx: TxView,
    disk: Disk,
    installed: Tree,
    replies: Seq<Reply>,
)
    requires
        tx.pending == Action::Idle,
        !tx.quarantined,
        prepared(tx, disk),
        truthful_run(tx, disk, installed, replies),
        run_tx(tx, replies).pending == Action::Report(Outcome::RollbackFailed),
        run_tx(tx, replies).quarantined,
    ensures
        tree_at(run_disk(tx, disk, installed, replies), run_tx(tx, replies).backup) == tree_at(
            disk,
            tx.destination,
        ),
{
    lemma_run_consistent(tx, disk, installed, replies);
    lemma_run_keeps_paths(tx, replies);
}

/// A run changes neither the destination nor the quarantine path, nor what
/// the transaction was set up with.
pub proof fn lemma_run_keeps_paths(tx: TxView, replies: Seq<Reply>)
    ensures
        run_tx(tx, replies).destination == tx.destination,
        run_tx(tx, replies).backup == tx.backup,
        run_tx(tx, replies).required_space == tx.required_space,
        run_tx(tx, replies).silent == tx.silent,
        run_tx(tx, replies).launch == tx.launch,
    decreases replies.len(),
{
    if replies.len() > 0 {
        lemma_run_keeps_paths(tx, replies.drop_last());
    }
}

/// Once a transaction has handed out its report, no event changes it.
pub proof fn lemma_report_is_final(tx: TxView, event: Event, outcome: Outcome)
    requires
        tx.pending == Action::Report(outcome),
    ensures
        advance(tx, event) == tx,
{
}

/// One more reply takes the transaction one step further.
pub proof fn lemma_run_push(
    tx: TxView,
    disk: Disk,
    installed: Tree,
    replies: Seq<Reply>,
    reply: Reply,
)
    ensures
        run_tx(tx, replies.push(reply)) == advance(run_tx(tx, replies), reply.event),
        run_disk(tx, disk, installed, replies.push(reply)) == effect(
            run_tx(tx, replies),
            reply,
            run_disk(tx, disk, installed, replies),
            installed,
        ),
        truthful_run(tx, disk, installed, replies.push(reply)) == (truthful_run(
            tx,
            disk,
            installed,
            replies,
        ) && truthful(run_tx(tx, replies), reply, run_disk(tx, disk, installed, replies))),
{
    assert(replies.push(reply).drop_last() =~= replies);
}

/// A reply that leaves nothing behind.
pub open spec fn clean(event: Event) -> Reply {
    Reply { event, debris: Map::empty() }
}

/// The replies of a run in which the destination is occupied, the overwrite
/// is agreed to (or not asked for, where the transaction is silent), the
/// installation is moved aside, the extraction fails leaving `debris`, and the
/// rollback succeeds.
pub open spec fn failed_extraction_replies(silent: bool, free: u64, debris: Tree) -> Seq<Reply> {
    let ask = if silent {
        Seq::<Reply>::empty()
    } else {
        seq![clean(Event::Answered(true))]
    };
    seq![clean(Event::Begin), clean(Event::FreeSpace(Some(free))), clean(Event::Inspected(true))]
        + ask + seq![
        clean(Event::Completed),
        clean(Event::Completed),
        Reply { event: Event::Failed, debris },
        clean(Event::Completed),
        clean(Event::Completed),
    ]
}

/// The replies of a run in which the destination is occupied and the user
/// declines the overwrite.
pub open spec fn declined_replies(free: u64) -> Seq<Reply> {
    seq![
        clean(Event::Begin),
        clean(Event::FreeSpace(Some(free))),
        clean(Event::Inspected(true)),
        clean(Event::Answered(false)),
    ]
}

/// The replies of a run in which the destination is vacant and every action
/// succeeds.
pub open spec fn fresh_install_replies(launch: bool, free: u64) -> Seq<Reply> {
    let started = if launch {
        seq![clean(Event::Completed)]
    } else {
        Seq::<Reply>::empty()
    };
    seq![
        clean(Event::Begin),
        clean(Event::FreeSpace(Some(free))),
        clean(Event::Inspected(false)),
        clean(Event::Completed),
    ] + started + seq![clean(Event::Completed)]
}

/// Where an occupied destination is moved aside and the extraction then
/// fails, the transaction rolls back: it ends as a failed extraction, with
/// every directory as it was before and no quarantine directory left.
pub proof fn lemma_failed_extraction_rolls_back(
    tx: TxView,
    disk: Disk,
    installed: Tree,
    free: u64,
    debris: Tree,
)
    requires
        tx.pending == Action::Idle,
        !tx.quarantined,
        prepared(tx, disk),
        free >= tx.required_space,
        tree_at(disk, tx.destination) != Map::<Seq<char>, Seq<u8>>::empty(),
    ensures
        ({
            let replies = failed_extraction_replies(tx.silent, free, debris);
            &&& truthful_run(tx, disk, installed, replies)
            &&& run_tx(tx, replies).pending == Action::Report(Outcome::ExtractionFailed)
            &&& same(run_disk(tx, disk, installed, replies), disk)
            &&& !run_tx(tx, replies).quarantined
        }),
{
    let e = Seq::<Reply>::empty();
    let r1 = e.push(clean(Event::Begin));
    let r2 = r1.push(clean(Event::FreeSpace(Some(free))));
    let r3 = r2.push(clean(Event::Inspected(true)));
    let r4 = if tx.silent {
        r3
    } else {
        r3.push(clean(Event::Answered(true)))
    };
    let r5 = r4.push(clean(Event::Completed));
    let r6 = r5.push(clean(Event::Completed));
    let r7 = r6.push(Reply { event: Event::Failed, debris });
    let r8 = r7.push(clean(Event::Completed));
    let r9 = r8.push(clean(Event::Completed));
    lemma_run_push(tx, disk, installed, e, clean(Event::Begin));
    lemma_run_push(tx, disk, installed, r1, clean(Event::FreeSpace(Some(free))));
    lemma_run_push(tx, disk, installed, r2, clean(Event::Inspected(true)));
    if !tx.silent {
        lemma_run_push(tx, disk, installed, r3, clean(Event::Answered(true)));
    }
    assert(run_tx(tx, r4).pending == Action::ReapProcesses);
    assert(run_disk(tx, disk, installed, r4) == disk);
    lemma_run_push(tx, disk, installed, r4, clean(Event::Completed));
    lemma_run_push(tx, disk, installed, r5, clean(Event::Completed));
    lemma_run_push(tx, disk, installed, r6, Reply { event: Event::Failed, debris });
    lemma_run_push(tx, disk, installed, r7, clean(Event::Completed));
    lemma_run_push(tx, disk, installed, r8, clean(Event::Completed));
    assert(r9 =~= failed_extraction_replies(tx.silent, free, debris));
    assert(truthful_run(tx, disk, installed, r9));
    assert(run_tx(tx, r9).pending == Action::Report(Outcome::ExtractionFailed));
    lemma_rollback_fidelity(tx, disk, installed, r9);
}

/// Where the destination is occupied and the user declines, the transaction
/// ends as declined with every directory as it was before.
pub proof fn lemma_declined_changes_nothing(tx: TxView, disk: Disk, installed: Tree, free: u64)
    requires
        tx.pending == Action::Idle,
        !tx.quarantined,
        !tx.silent,
        prepared(tx, disk),
        free >= tx.required_space,
        tree_at(disk, tx.destination) != Map::<Seq<char>, Seq<u8>>::empty(),
    ensures
        ({
            let replies = declined_replies(free);
            &&& truthful_run(tx, disk, installed, replies)
            &&& run_tx(tx, replies).pending == Action::Report(Outcome::UserDeclined)
            &&& run_disk(tx, disk, installed, replies) == disk
        }),
{
    let e = Seq::<Reply>::empty();
    let r1 = e.push(clean(Event::Begin));
    let r2 = r1.push(clean(Event::FreeSpace(Some(free))));
    let r3 = r2.push(clean(Event::Inspected(true)));
    let r4 = r3.push(clean(Event::Answered(false)));
    lemma_run_push(tx, disk, installed, e, clean(Event::Begin));
    lemma_run_push(tx, disk, installed, r1, clean(Event::FreeSpace(Some(free))));
    lemma_run_push(tx, disk, installed, r2, clean(Event::Inspected(true)));
    lemma_run_push(tx, disk, installed, r3, clean(Event::Answered(false)));
    assert(r4 =~= declined_replies(free));
}

/// Where the destination is vacant, the space suffices and every action
/// succeeds, the transaction ends in success: the destination holds exactly
/// the application, no directory was moved aside, and every other directory
/// is as it was before.
pub proof fn lemma_fresh_install_succeeds(tx: TxView, disk: Disk, installed: Tree, free: u64)
    requires
        tx.pending == Action::Idle,
        !tx.quarantined,
        prepared(tx, disk),
        free >= tx.required_space,
        tree_at(disk, tx.destination) == Map::<Seq<char>, Seq<u8>>::empty(),
    ensures
        ({
            let replies = fresh_install_replies(tx.launch, free);
            &&& truthful_run(tx, disk, installed, replies)
            &&& run_tx(tx, replies).pending == Action::Report(Outcome::Success)
            &&& !run_tx(tx, replies).quarantined
            &&& run_disk(tx, disk, installed, replies) == disk.insert(tx.destination, installed)
        }),
{
    let e = Seq::<Reply>::empty();
    let r1 = e.push(clean(Event::Begin));
    let r2 = r1.push(clean(Event::FreeSpace(Some(free))));
    let r3 = r2.push(clean(Event::Inspected(false)));
    let r4 = r3.push(clean(Event::Completed));
    let r5 = if tx.launch {
        r4.push(clean(Event::Completed))
    } else {
        r4
    };
    let r6 = r5.push(clean(Event::Completed));
    lemma_run_push(tx, disk, installed, e, clean(Event::Begin));
    lemma_run_push(tx, disk, installed, r1, clean(Event::FreeSpace(Some(free))));
    lemma_run_push(tx, disk, installed, r2, clean(Event::Inspected(false)));
    lemma_run_push(tx, disk, installed, r3, clean(Event::Completed));
    if tx.launch {
        lemma_run_push(tx, disk, installed, r4, clean(Event::Completed));
    }
    lemma_run_push(tx, disk, installed, r5, clean(Event::Completed));
    assert(r6 =~= fresh_install_replies(tx.launch, free));
}

/// Where the free space is less than the application needs, the transaction
/// ends at once with nothing changed.
pub proof fn lemma_insufficient_space_changes_nothing(
    tx: TxView,
    disk: Disk,
    installed: Tree,
    free: u64,
)
    requires
        tx.pending == Action::Idle,
        free < tx.required_space,
    ensures
        ({
            let replies = seq![clean(Event::Begin), clean(Event::FreeSpace(Some(free)))];
            &&& run_tx(tx, replies).pending == Action::Report(Outcome::InsufficientSpace)
            &&& run_disk(tx, disk, installed, replies) == disk
        }),
{
    let e = Seq::<Reply>::empty();
    let r1 = e.push(clean(Event::Begin));
    let r2 = r1.push(clean(Event::FreeSpace(Some(free))));
    lemma_run_push(tx, disk, installed, e, clean(Event::Begin));
    lemma_run_push(tx, disk, installed, r1, clean(Event::FreeSpace(Some(free))));
    assert(r2 =~= seq![clean(Event::Begin), clean(Event::FreeSpace(Some(free)))]);
}

} // verus!
