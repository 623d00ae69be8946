//! What the engine's decisions and the commands of a run guarantee, whatever
//! the manifest, the directory and the remote service hold.

use vstd::prelude::*;
use crate::engine::{
    decision,
    holds_file,
    is_disabled,
    is_settled,
    listed,
    obsolete,
    orphans,
    unlisted,
    up_to_date,
    ActionView,
    ModView,
    SkipReason,
};
use crate::error::{LookupError, SyncError};
use crate::heuristics::{logical_name, version_token};
use crate::scanner::{
    all_wf,
    existing_versions,
    is_release_name,
    lemma_scanned_wf,
    scanned,
    versions_of,
    DirEntryView,
    LocalReleaseView,
};
use crate::session::{
    lemma_settle_lists,
    lemma_step_keeps_inv,
    CommandView,
    EventView,
    Failure,
    LedgerView,
    PhaseView,
    SessionView,
};

verus! {

/// The action fetches the file `filename` into the directory.
pub open spec fn fetches(action: ActionView, filename: Seq<char>) -> bool {
    action matches ActionView::Replace { target, .. } && target.filename == filename
}

/// The action removes the file `filename` from the directory.
pub open spec fn removes(action: ActionView, filename: Seq<char>) -> bool {
    action matches ActionView::Replace { obsolete, .. } && obsolete.contains(filename)
}

/// The action leaves the directory as it is: it removes nothing and fetches
/// nothing.
pub open spec fn is_idle(action: ActionView) -> bool {
    !(action is Replace)
}

/// The directory has converged on the manifest: it holds no release that the
/// manifest does not name, and it holds the file of every entry that can be
/// acted on, that is of every entry that is not disabled and names a source.
pub open spec fn converged(manifest: Seq<ModView>, local: Seq<LocalReleaseView>) -> bool {
    &&& forall|i: int|
        0 <= i < local.len() ==> listed(manifest, (#[trigger] local[i]).filename)
    &&& forall|i: int|
        0 <= i < manifest.len() && !is_disabled((#[trigger] manifest[i]).filename)
            && manifest[i].url is Some ==> holds_file(local, manifest[i].filename)
}

/// No filename carries both the release extension and the disabled marker.
pub proof fn lemma_release_is_not_disabled(filename: Seq<char>)
    requires
        is_release_name(filename),
    ensures
        !is_disabled(filename),
{
    reveal_strlit(".jar");
    reveal_strlit(".disabled");
    let n = filename.len() as int;
    if is_disabled(filename) {
        assert(filename.subrange(n - 4, n)[3] == filename[n - 1]);
        assert(filename.subrange(n - 9, n)[8] == filename[n - 1]);
    }
}

/// Every obsolete file is a release of the directory.
pub proof fn lemma_obsolete_is_local(
    filename: Seq<char>,
    local: Seq<LocalReleaseView>,
    removed: Seq<char>,
)
    requires
        obsolete(filename, local).contains(removed),
    ensures
        holds_file(local, removed),
{
    match (logical_name(filename), version_token(filename)) {
        (Some(name), Some(_)) => {
            let kept = local.filter(versions_of(name));
            let files = obsolete(filename, local);
            let k = choose|k: int| 0 <= k < files.len() && files[k] == removed;
            assert(kept.contains(kept[k]));
            local.lemma_filter_contains_rev(versions_of(name), kept[k]);
            let j = choose|j: int| 0 <= j < local.len() && local[j] == kept[k];
            assert(local[j].filename == removed);
        },
        _ => {},
    }
}

/// The orphans are the releases of the directory that the manifest does not
/// name, no more and no fewer.
pub proof fn lemma_orphans(
    manifest: Seq<ModView>,
    local: Seq<LocalReleaseView>,
    filename: Seq<char>,
)
    ensures
        orphans(manifest, local).contains(filename) <==> holds_file(local, filename) && !listed(
            manifest,
            filename,
        ),
{
    let kept = local.filter(unlisted(manifest));
    let names = orphans(manifest, local);
    if names.contains(filename) {
        let k = choose|k: int| 0 <= k < names.len() && names[k] == filename;
        local.lemma_filter_pred(unlisted(manifest), k);
        assert(kept.contains(kept[k]));
        local.lemma_filter_contains_rev(unlisted(manifest), kept[k]);
        let j = choose|j: int| 0 <= j < local.len() && local[j] == kept[k];
        assert(local[j].filename == filename);
    }
    if holds_file(local, filename) && !listed(manifest, filename) {
        let j = choose|j: int| 0 <= j < local.len() && (#[trigger] local[j]).filename == filename;
        local.lemma_filter_contains(unlisted(manifest), j);
        let k = choose|k: int| 0 <= k < kept.len() && kept[k] == local[j];
        assert(names[k] == filename);
    }
}

/// A directory that holds the very file of an entry is up to date for it,
/// whether or not the heuristics classify the filename.
pub proof fn lemma_held_file_is_up_to_date(filename: Seq<char>, local: Seq<LocalReleaseView>)
    requires
        all_wf(local),
        holds_file(local, filename),
    ensures
        up_to_date(filename, local),
{
    match (logical_name(filename), version_token(filename)) {
        (Some(name), Some(version)) => {
            let j = choose|j: int|
                0 <= j < local.len() && (#[trigger] local[j]).filename == filename;
            assert(local[j].wf());
            let kept = local.filter(versions_of(name));
            local.lemma_filter_contains(versions_of(name), j);
            let k = choose|k: int| 0 <= k < kept.len() && kept[k] == local[j];
            let existing = existing_versions(local, name);
            assert(existing[k].1 == version);
        },
        _ => {},
    }
}

/// A fresh install is a replacement with nothing to remove: against an empty
/// directory, an entry that can be acted on replaces nothing and fetches its
/// file.
pub proof fn lemma_fresh_install(entry: ModView)
    requires
        !is_settled(entry),
    ensures
        decision(entry, Seq::empty()) == (ActionView::Replace {
            obsolete: Seq::empty(),
            target: entry,
        }),
{
    let nothing = Seq::<LocalReleaseView>::empty();
    match (logical_name(entry.filename), version_token(entry.filename)) {
        (Some(name), Some(_)) => {
            nothing.lemma_filter_len(versions_of(name));
            assert(obsolete(entry.filename, nothing) =~= Seq::<Seq<char>>::empty());
        },
        _ => {},
    }
}

/// A replacement does not remove what it fetches: no file that it supersedes
/// has the filename of its target.
pub proof fn lemma_replacement_keeps_its_target(entry: ModView, local: Seq<LocalReleaseView>)
    requires
        all_wf(local),
    ensures
        decision(entry, local) matches ActionView::Replace { obsolete, target } ==> target == entry
            && !obsolete.contains(entry.filename),
{
    if decision(entry, local) is Replace && obsolete(entry.filename, local).contains(
        entry.filename,
    ) {
        lemma_obsolete_is_local(entry.filename, local, entry.filename);
        lemma_held_file_is_up_to_date(entry.filename, local);
    }
}

/// Idempotence: on a directory that has converged on the manifest, a run
/// removes nothing and fetches nothing. Every action is idle, and there is no
/// orphan to delete.
pub proof fn lemma_converged_run_is_idle(manifest: Seq<ModView>, local: Seq<LocalReleaseView>)
    requires
        all_wf(local),
        converged(manifest, local),
    ensures
        forall|i: int|
            0 <= i < manifest.len() ==> is_idle(decision(#[trigger] manifest[i], local)),
        orphans(manifest, local).len() == 0,
{
    assert forall|i: int| 0 <= i < manifest.len() implies is_idle(
        decision(#[trigger] manifest[i], local),
    ) by {
        let entry = manifest[i];
        if !is_disabled(entry.filename) && entry.url is Some {
            lemma_held_file_is_up_to_date(entry.filename, local);
        }
    }
    let names = orphans(manifest, local);
    if names.len() > 0 {
        assert(names.contains(names[0]));
        lemma_orphans(manifest, local, names[0]);
        let j = choose|j: int|
            0 <= j < local.len() && (#[trigger] local[j]).filename == names[0];
        assert(listed(manifest, local[j].filename));
    }
}

/// A disabled entry is left alone. Its own action is to skip it; no action
/// for any entry of the manifest, against any state of the directory, fetches
/// or removes a file of its name; and its name is no orphan.
pub proof fn lemma_disabled_is_untouched(
    manifest: Seq<ModView>,
    local: Seq<LocalReleaseView>,
    i: int,
    j: int,
)
    requires
        all_wf(local),
        0 <= i < manifest.len(),
        0 <= j < manifest.len(),
        is_disabled(manifest[i].filename),
    ensures
        decision(manifest[i], local) == (ActionView::Skip { reason: SkipReason::Disabled }),
        !fetches(decision(manifest[j], local), manifest[i].filename),
        !removes(decision(manifest[j], local), manifest[i].filename),
        !orphans(manifest, local).contains(manifest[i].filename),
{
    let name = manifest[i].filename;
    if removes(decision(manifest[j], local), name) {
        lemma_obsolete_is_local(manifest[j].filename, local, name);
        let k = choose|k: int| 0 <= k < local.len() && (#[trigger] local[k]).filename == name;
        assert(local[k].wf());
        lemma_release_is_not_disabled(name);
    }
    lemma_orphans(manifest, local, name);
}

/// A release that the manifest does not name does not survive a run: it is
/// among the orphans to delete, and no action for an entry of the manifest,
/// against whatever the directory holds later, fetches a file of its name.
pub proof fn lemma_unlisted_is_removed(
    manifest: Seq<ModView>,
    local: Seq<LocalReleaseView>,
    filename: Seq<char>,
    later: Seq<LocalReleaseView>,
    j: int,
)
    requires
        holds_file(local, filename),
        !listed(manifest, filename),
        0 <= j < manifest.len(),
    ensures
        orphans(manifest, local).contains(filename),
        !fetches(decision(manifest[j], later), filename),
{
    lemma_orphans(manifest, local, filename);
}

/// Failure isolation. A run is given up only for a fatal error, and never
/// while it works on an entry: whatever the report on a removal, a page or a
/// download, the next command is not to give up, and the manifest stays as it
/// is.
pub proof fn lemma_entry_failure_is_confined(session: SessionView, event: EventView)
    requires
        session.inv(),
    ensures
        session.step(event).1 matches CommandView::Abort { error } ==> error.fatal(),
        session.phase is Removing || session.phase is Resolving || session.phase is Downloading
            ==> !(session.step(event).1 is Abort) && !(session.step(event).0.phase is Aborted)
            && session.step(event).0.ledger.manifest == session.ledger.manifest,
{
    let ledger = session.ledger;
    lemma_settle_lists(LedgerView { next: ledger.next + 1, ..ledger });
    lemma_fails_on(ledger, SyncError::Lookup(LookupError::NotFound));
    lemma_fails_on(ledger, SyncError::Lookup(LookupError::PageFailed));
    lemma_fails_on(ledger, SyncError::Download);
    match session.phase {
        PhaseView::Loading => {
            if let EventView::Manifest(manifest) = event {
                lemma_settle_lists(LedgerView { manifest, ..ledger });
            }
        },
        PhaseView::Scanning => {
            if let EventView::Listing(listing) = event {
                let action = decision(ledger.entry(), scanned(listing));
                let decided = LedgerView { actions: ledger.actions.push(action), ..ledger };
                lemma_settle_lists(LedgerView { next: decided.next + 1, ..decided });
                lemma_fails_on(decided, SyncError::Lookup(LookupError::NotFound));
                lemma_fails_on(decided, SyncError::Lookup(LookupError::PageFailed));
            }
        },
        _ => {},
    }
}

/// After a failure of the entry at hand the run goes on with a listing, for a
/// later entry or for the sweep.
proof fn lemma_fails_on(ledger: LedgerView, error: SyncError)
    ensures
        ledger.fail(error).1 == CommandView::List,
        ledger.fail(error).0.phase is Scanning || ledger.fail(error).0.phase is Sweeping,
        ledger.fail(error).0.ledger.manifest == ledger.manifest,
        ledger.fail(error).0.ledger.next > ledger.next,
{
    let failed = LedgerView {
        failures: ledger.failures.push(Failure { entry: ledger.next as usize, error }),
        ..ledger
    };
    lemma_settle_lists(LedgerView { next: failed.next + 1, ..failed });
}

/// Only releases are removed. Whatever state a run is in and whatever is
/// reported, a file that the next command removes is a release of the listing
/// that was just reported: a regular file with the release extension. What
/// else the directory holds is left alone.
pub proof fn lemma_only_releases_are_removed(
    session: SessionView,
    event: EventView,
    filename: Seq<char>,
)
    requires
        session.inv(),
        session.step(event).1 matches CommandView::Remove { filenames } && filenames.contains(
            filename,
        ),
    ensures
        is_release_name(filename),
        event matches EventView::Listing(listing) && holds_file(scanned(listing), filename),
{
    let ledger = session.ledger;
    lemma_settle_lists(LedgerView { next: ledger.next + 1, ..ledger });
    lemma_fails_on(ledger, SyncError::Lookup(LookupError::NotFound));
    lemma_fails_on(ledger, SyncError::Lookup(LookupError::PageFailed));
    lemma_fails_on(ledger, SyncError::Download);
    match session.phase {
        PhaseView::Loading => {
            if let EventView::Manifest(manifest) = event {
                lemma_settle_lists(LedgerView { manifest, ..ledger });
            }
        },
        PhaseView::Scanning => {
            if let EventView::Listing(listing) = event {
                let local = scanned(listing);
                let action = decision(ledger.entry(), local);
                let decided = LedgerView { actions: ledger.actions.push(action), ..ledger };
                lemma_settle_lists(LedgerView { next: decided.next + 1, ..decided });
                lemma_fails_on(decided, SyncError::Lookup(LookupError::NotFound));
                lemma_fails_on(decided, SyncError::Lookup(LookupError::PageFailed));
                lemma_scanned_wf(listing);
                lemma_obsolete_is_local(ledger.entry().filename, local, filename);
                lemma_local_is_release(local, filename);
            }
        },
        PhaseView::Sweeping => {
            if let EventView::Listing(listing) = event {
                let local = scanned(listing);
                lemma_scanned_wf(listing);
                lemma_orphans(ledger.manifest, local, filename);
                lemma_local_is_release(local, filename);
            }
        },
        _ => {},
    }
}

/// Every release of a directory has a name that carries the release
/// extension.
proof fn lemma_local_is_release(local: Seq<LocalReleaseView>, filename: Seq<char>)
    requires
        all_wf(local),
        holds_file(local, filename),
    ensures
        is_release_name(filename),
{
    let k = choose|k: int| 0 <= k < local.len() && (#[trigger] local[k]).filename == filename;
    assert(local[k].wf());
}

/// A disabled file is left alone by every command: whatever state a run is
/// in and whatever is reported, the next command neither removes nor
/// downloads a file of a name that carries the disabled marker.
pub proof fn lemma_commands_spare_disabled(
    session: SessionView,
    event: EventView,
    filename: Seq<char>,
)
    requires
        session.inv(),
        is_disabled(filename),
    ensures
        match session.step(event).1 {
            CommandView::Remove { filenames } => !filenames.contains(filename),
            CommandView::Download { filename: fetched, .. } => fetched != filename,
            _ => true,
        },
{
    let ledger = session.ledger;
    match session.step(event).1 {
        CommandView::Remove { filenames } => {
            if filenames.contains(filename) {
                lemma_only_releases_are_removed(session, event, filename);
                lemma_release_is_not_disabled(filename);
            }
        },
        CommandView::Download { filename: fetched, .. } => {
            lemma_settle_lists(LedgerView { next: ledger.next + 1, ..ledger });
            lemma_fails_on(ledger, SyncError::Lookup(LookupError::NotFound));
            lemma_fails_on(ledger, SyncError::Lookup(LookupError::PageFailed));
            lemma_fails_on(ledger, SyncError::Download);
            match session.phase {
                PhaseView::Loading => {
                    if let EventView::Manifest(manifest) = event {
                        lemma_settle_lists(LedgerView { manifest, ..ledger });
                    }
                },
                PhaseView::Scanning => {
                    if let EventView::Listing(listing) = event {
                        let action = decision(ledger.entry(), scanned(listing));
                        let decided = LedgerView {
                            actions: ledger.actions.push(action),
                            ..ledger
                        };
                        lemma_settle_lists(LedgerView { next: decided.next + 1, ..decided });
                        lemma_fails_on(decided, SyncError::Lookup(LookupError::NotFound));
                        lemma_fails_on(decided, SyncError::Lookup(LookupError::PageFailed));
                    }
                },
                _ => {},
            }
        },
        _ => {},
    }
}

/// Idempotence of a run. Where the directory has converged on the manifest,
/// a listing of it leads to no removal, no lookup and no download: the run
/// asks for the next listing, or ends.
pub proof fn lemma_converged_listing_is_idle(session: SessionView, listing: Seq<DirEntryView>)
    requires
        session.inv(),
        session.phase is Scanning || session.phase is Sweeping,
        converged(session.ledger.manifest, scanned(listing)),
    ensures
        session.step(EventView::Listing(listing)).1 == CommandView::List || session.step(
            EventView::Listing(listing),
        ).1 == CommandView::Finish,
{
    let ledger = session.ledger;
    let local = scanned(listing);
    lemma_scanned_wf(listing);
    lemma_converged_run_is_idle(ledger.manifest, local);
    if session.phase is Scanning {
        let action = decision(ledger.entry(), local);
        assert(is_idle(decision(ledger.manifest[ledger.next as int], local)));
        let decided = LedgerView { actions: ledger.actions.push(action), ..ledger };
        lemma_settle_lists(LedgerView { next: decided.next + 1, ..decided });
    }
}

/// The sweep removes every orphan. Where every entry is handled and the
/// directory is listed, a release of the listing that the manifest does not
/// name is among the files of the next command, which is a removal.
pub proof fn lemma_sweep_removes_unlisted(
    session: SessionView,
    listing: Seq<DirEntryView>,
    filename: Seq<char>,
)
    requires
        session.phase is Sweeping,
        holds_file(scanned(listing), filename),
        !listed(session.ledger.manifest, filename),
    ensures
        session.step(EventView::Listing(listing)).1 matches CommandView::Remove { filenames }
            && filenames.contains(filename),
{
    lemma_orphans(session.ledger.manifest, scanned(listing), filename);
}

/// A run ends. Every report brings a run that is not over nearer to its end:
/// it leaves a stage of the run behind, or an entry of the manifest, or a step
/// of the entry at hand, or a page of the lookup under way. None of these can
/// go on for ever, whatever the directory and the remote service report.
pub proof fn lemma_step_nears_the_end(session: SessionView, event: EventView)
    requires
        session.inv(),
        !session.is_over(),
    ensures
        decreases_to!(
            session.stages_left(),
            session.entries_left(),
            session.steps_left(),
            session.pages_left() =>
            session.step(event).0.stages_left(),
            session.step(event).0.entries_left(),
            session.step(event).0.steps_left(),
            session.step(event).0.pages_left()
        ),
{
    let ledger = session.ledger;
    lemma_step_keeps_inv(session, event);
    lemma_leaves_entry(ledger);
    lemma_fails_on(ledger, SyncError::Lookup(LookupError::NotFound));
    lemma_fails_on(ledger, SyncError::Lookup(LookupError::PageFailed));
    lemma_fails_on(ledger, SyncError::Download);
    match session.phase {
        PhaseView::Loading => {
            if let EventView::Manifest(manifest) = event {
                lemma_settle_lists(LedgerView { manifest, ..ledger });
            }
        },
        PhaseView::Scanning => {
            if let EventView::Listing(listing) = event {
                let action = decision(ledger.entry(), scanned(listing));
                let decided = LedgerView { actions: ledger.actions.push(action), ..ledger };
                lemma_leaves_entry(decided);
                lemma_fails_on(decided, SyncError::Lookup(LookupError::NotFound));
                lemma_fails_on(decided, SyncError::Lookup(LookupError::PageFailed));
            }
        },
        _ => {},
    }
}

/// Leaving the entry at hand leads to a later entry, or to the sweep.
proof fn lemma_leaves_entry(ledger: LedgerView)
    ensures
        ledger.advance().0.phase is Scanning || ledger.advance().0.phase is Sweeping,
        ledger.advance().0.ledger.manifest == ledger.manifest,
        ledger.advance().0.ledger.next > ledger.next,
{
    lemma_settle_lists(LedgerView { next: ledger.next + 1, ..ledger });
}

} // verus!
