//! A run, as a conversation between this crate and its caller.
//!
//! The crate cannot list a directory or fetch a page. It says what is to be
//! done next, as a [`Command`]; the caller does it and reports back, as an
//! [`Event`]; [`Session::step`] takes the report and gives the next command.
//! Everything that a run decides is decided here.

use vstd::pervasive::unreached;
use vstd::prelude::*;
use crate::credential::{header_value_accepts, is_header_value};
use crate::curse_files::{
    extract_project_id,
    project_id_of,
    CurseFile,
    CurseFileView,
    Page,
    PageView,
};
use crate::engine::{
    clean_unused_mods,
    decide,
    decision,
    is_settled,
    orphans,
    settled,
    ActionView,
    Mod,
    ModView,
    ReconciliationAction,
};
use crate::error::{ConfigError, LookupError, SyncError};
use crate::scanner::{
    all_wf,
    lemma_scanned_wf,
    scan,
    scanned,
    DirEntry,
    DirEntryView,
    LocalRelease,
    LocalReleaseView,
};
use crate::sync::{get_file_id, lookup, looked_up, Config, ConfigView, Lookup};
use crate::text::copy_strings;

verus! {

/// What the caller is to do next.
#[derive(Debug)]
pub enum Command {
    /// Create the mods directory if it does not exist.
    Stage,
    /// Read the manifest.
    Load,
    /// List the direct entries of the mods directory.
    List,
    /// Remove these files from the mods directory. A file that is not there is
    /// no error.
    Remove { filenames: Vec<String> },
    /// Fetch one page of a project's catalog.
    Fetch { project_id: String, page_index: u32, page_size: u32 },
    /// Download a file of a project into the mods directory, under this name,
    /// replacing what is there.
    Download { project_id: String, file_id: u64, filename: String },
    /// Nothing is left to do.
    Finish,
    /// Give the run up; nothing is undone.
    Abort { error: SyncError },
}

/// What a [`Command`] holds.
pub enum CommandView {
    Stage,
    Load,
    List,
    Remove { filenames: Seq<Seq<char>> },
    Fetch { project_id: Seq<char>, page_index: u32, page_size: u32 },
    Download { project_id: Seq<char>, file_id: u64, filename: Seq<char> },
    Finish,
    Abort { error: SyncError },
}

impl DeepView for Command {
    type V = CommandView;

    open spec fn deep_view(&self) -> CommandView {
        match self {
            Command::Stage => CommandView::Stage,
            Command::Load => CommandView::Load,
            Command::List => CommandView::List,
            Command::Remove { filenames } => CommandView::Remove {
                filenames: filenames.deep_view(),
            },
            Command::Fetch { project_id, page_index, page_size } => CommandView::Fetch {
                project_id: project_id@,
                page_index: *page_index,
                page_size: *page_size,
            },
            Command::Download { project_id, file_id, filename } => CommandView::Download {
                project_id: project_id@,
                file_id: *file_id,
                filename: filename@,
            },
            Command::Finish => CommandView::Finish,
            Command::Abort { error } => CommandView::Abort { error: *error },
        }
    }
}

impl View for Command {
    type V = CommandView;

    open spec fn view(&self) -> CommandView {
        self.deep_view()
    }
}

/// The caller's report on the last command.
#[derive(Debug)]
pub enum Event {
    /// The command was carried out.
    Done,
    /// The command could not be carried out.
    Failed,
    /// The manifest was read; these are its entries, in order.
    Manifest(Vec<Mod>),
    /// The directory was listed; these are its direct entries.
    Listing(Vec<DirEntry>),
    /// The page was fetched.
    Page(Page),
}

/// What an [`Event`] holds.
pub enum EventView {
    Done,
    Failed,
    Manifest(Seq<ModView>),
    Listing(Seq<DirEntryView>),
    Page(PageView),
}

impl DeepView for Event {
    type V = EventView;

    open spec fn deep_view(&self) -> EventView {
        match self {
            Event::Done => EventView::Done,
            Event::Failed => EventView::Failed,
            Event::Manifest(manifest) => EventView::Manifest(manifest.deep_view()),
            Event::Listing(listing) => EventView::Listing(listing.deep_view()),
            Event::Page(page) => EventView::Page(page@),
        }
    }
}

impl View for Event {
    type V = EventView;

    open spec fn view(&self) -> EventView {
        self.deep_view()
    }
}

/// A failure that was confined to one manifest entry.
#[derive(Clone, Copy, Debug, PartialEq, Eq, Structural)]
pub struct Failure {
    /// The position of the entry in the manifest.
    pub entry: usize,
    /// What went wrong.
    pub error: SyncError,
}

/// Where a run stands: which report it waits for.
pub enum PhaseView {
    /// The mods directory is being created.
    Staging,
    /// The manifest is being read.
    Loading,
    /// The directory is being listed for the entry at hand.
    Scanning,
    /// The files that the entry at hand supersedes are being removed.
    Removing,
    /// A page of the catalog is being fetched for the entry at hand.
    Resolving { cursor: CurseFileView },
    /// The file of the entry at hand is being downloaded.
    Downloading,
    /// Every entry is handled; the directory is being listed for its orphans.
    Sweeping,
    /// The orphans are being removed.
    Purging,
    /// The run is over.
    Finished,
    /// The run was given up.
    Aborted { error: SyncError },
}

/// What a run has worked through so far.
pub struct LedgerView {
    pub config: ConfigView,
    pub manifest: Seq<ModView>,
    /// The position of the entry at hand; the length of the manifest once
    /// every entry is handled.
    pub next: nat,
    /// The action of every entry that was decided, in manifest order.
    pub actions: Seq<ActionView>,
    /// The failures that were confined to one entry, oldest first.
    pub failures: Seq<Failure>,
}

/// The state of a [`Session`].
pub struct SessionView {
    pub ledger: LedgerView,
    pub phase: PhaseView,
}

/// The action is one that the engine gives for the entry, against some
/// directory.
pub open spec fn is_decision(action: ActionView, entry: ModView) -> bool {
    exists|local: Seq<LocalReleaseView>|
        all_wf(local) && action == #[trigger] decision(entry, local)
}

impl LedgerView {
    /// The entry at hand.
    pub open spec fn entry(self) -> ModView {
        self.manifest[self.next as int]
    }

    /// What is on record is sound: the API key can be sent, every action on
    /// record is one that the engine gives for the entry of its position, and
    /// no failure on record is fatal.
    pub open spec fn sound(self) -> bool {
        &&& is_header_value(self.config.api_key)
        &&& self.actions.len() <= self.manifest.len()
        &&& forall|k: int|
            0 <= k < self.actions.len() ==> is_decision(
                #[trigger] self.actions[k],
                self.manifest[k],
            )
        &&& forall|k: int|
            0 <= k < self.failures.len() ==> !(#[trigger] self.failures[k]).error.fatal()
    }

    /// The ledger stands before the entry at hand: every entry before it has
    /// its action, and no other has.
    pub open spec fn at_entry(self) -> bool {
        &&& self.sound()
        &&& self.next <= self.manifest.len()
        &&& self.actions.len() == self.next
    }

    /// The ledger stands inside the entry at hand: the entry has its action,
    /// and that action took a look at the directory.
    pub open spec fn in_entry(self) -> bool {
        &&& self.sound()
        &&& self.next < self.manifest.len()
        &&& self.actions.len() == self.next + 1
        &&& !is_settled(self.entry())
    }

    /// Gives the run up.
    pub open spec fn abort(self, error: SyncError) -> (SessionView, CommandView) {
        (
            SessionView { ledger: self, phase: PhaseView::Aborted { error } },
            CommandView::Abort { error },
        )
    }

    /// Moves to the next entry whose action depends on the directory, and asks
    /// for a listing. Each entry that the manifest alone decides gets its
    /// action on the way. Behind the last entry the listing is for the sweep.
    pub open spec fn settle(self) -> (SessionView, CommandView)
        decreases self.manifest.len() - self.next,
    {
        if self.next >= self.manifest.len() {
            (SessionView { ledger: self, phase: PhaseView::Sweeping }, CommandView::List)
        } else if is_settled(self.entry()) {
            (LedgerView {
                next: self.next + 1,
                actions: self.actions.push(decision(self.entry(), Seq::empty())),
                ..self
            }).settle()
        } else {
            (SessionView { ledger: self, phase: PhaseView::Scanning }, CommandView::List)
        }
    }

    /// Leaves the entry at hand.
    pub open spec fn advance(self) -> (SessionView, CommandView) {
        (LedgerView { next: self.next + 1, ..self }).settle()
    }

    /// Records a failure of the entry at hand, and leaves the entry.
    pub open spec fn fail(self, error: SyncError) -> (SessionView, CommandView) {
        (LedgerView {
            failures: self.failures.push(Failure { entry: self.next as usize, error }),
            ..self
        }).advance()
    }

    /// Goes on with the lookup of the entry's file on `cursor`.
    pub open spec fn resolve(self, cursor: CurseFileView) -> (SessionView, CommandView) {
        let filename = self.entry().filename;
        match lookup(cursor, filename) {
            Lookup::Found(file_id) => (
                SessionView { ledger: self, phase: PhaseView::Downloading },
                CommandView::Download { project_id: cursor.project_id, file_id, filename },
            ),
            Lookup::Fetch { page_index, page_size } => (
                SessionView {
                    ledger: self,
                    phase: PhaseView::Resolving { cursor: looked_up(cursor, filename) },
                },
                CommandView::Fetch { project_id: cursor.project_id, page_index, page_size },
            ),
            Lookup::NotFound => self.fail(SyncError::Lookup(LookupError::NotFound)),
            Lookup::Failed => self.fail(SyncError::Lookup(LookupError::PageFailed)),
        }
    }

    /// Opens the catalog of the entry's project and begins the lookup.
    pub open spec fn begin(self) -> (SessionView, CommandView) {
        self.resolve(
            CurseFileView::fresh(project_id_of(self.entry().url->0), self.config.api_key),
        )
    }

    /// Decides the entry at hand against the releases of the directory. A
    /// replacement removes what it supersedes first, and begins the lookup at
    /// once where there is nothing to remove.
    pub open spec fn decide(self, local: Seq<LocalReleaseView>) -> (SessionView, CommandView) {
        let action = decision(self.entry(), local);
        let ledger = LedgerView { actions: self.actions.push(action), ..self };
        match action {
            ActionView::Replace { obsolete, .. } => if obsolete.len() > 0 {
                (
                    SessionView { ledger, phase: PhaseView::Removing },
                    CommandView::Remove { filenames: obsolete },
                )
            } else {
                ledger.begin()
            },
            _ => ledger.advance(),
        }
    }

    /// Ends the run with the removal of the orphans, if there are any.
    pub open spec fn sweep(self, local: Seq<LocalReleaseView>) -> (SessionView, CommandView) {
        let unused = orphans(self.manifest, local);
        if unused.len() > 0 {
            (
                SessionView { ledger: self, phase: PhaseView::Purging },
                CommandView::Remove { filenames: unused },
            )
        } else {
            (SessionView { ledger: self, phase: PhaseView::Finished }, CommandView::Finish)
        }
    }
}

impl SessionView {
    /// The state in which a run begins, and its first command. A run whose
    /// API key cannot be sent is given up before it touches anything.
    pub open spec fn start(config: ConfigView) -> (SessionView, CommandView) {
        let ledger = LedgerView {
            config,
            manifest: Seq::empty(),
            next: 0,
            actions: Seq::empty(),
            failures: Seq::empty(),
        };
        if is_header_value(config.api_key) {
            (SessionView { ledger, phase: PhaseView::Staging }, CommandView::Stage)
        } else {
            ledger.abort(SyncError::Config(ConfigError::InvalidCredential))
        }
    }

    /// The next state and the next command, given the report on the last
    /// command.
    ///
    /// A directory that cannot be created or listed, and a manifest that
    /// cannot be read, end the run. A page or a file that cannot be fetched
    /// fails its entry only, and the run goes on with the next. A removal
    /// counts as done however it went: a file that is gone already is no
    /// error.
    pub open spec fn step(self, event: EventView) -> (SessionView, CommandView) {
        let ledger = self.ledger;
        match self.phase {
            PhaseView::Staging => match event {
                EventView::Done => (
                    SessionView { ledger, phase: PhaseView::Loading },
                    CommandView::Load,
                ),
                _ => ledger.abort(SyncError::Directory),
            },
            PhaseView::Loading => match event {
                EventView::Manifest(manifest) => (LedgerView { manifest, ..ledger }).settle(),
                _ => ledger.abort(SyncError::Manifest),
            },
            PhaseView::Scanning => match event {
                EventView::Listing(listing) => ledger.decide(scanned(listing)),
                _ => ledger.abort(SyncError::Directory),
            },
            PhaseView::Removing => ledger.begin(),
            PhaseView::Resolving { cursor } => match event {
                EventView::Page(page) => ledger.resolve(cursor.supplied(Some(page))),
                _ => ledger.fail(SyncError::Lookup(LookupError::PageFailed)),
            },
            PhaseView::Downloading => match event {
                EventView::Done => ledger.advance(),
                _ => ledger.fail(SyncError::Download),
            },
            PhaseView::Sweeping => match event {
                EventView::Listing(listing) => ledger.sweep(scanned(listing)),
                _ => ledger.abort(SyncError::Directory),
            },
            PhaseView::Purging => (
                SessionView { ledger, phase: PhaseView::Finished },
                CommandView::Finish,
            ),
            PhaseView::Finished => (self, CommandView::Finish),
            PhaseView::Aborted { error } => (self, CommandView::Abort { error }),
        }
    }

    /// The run is over, finished or given up.
    pub open spec fn is_over(self) -> bool {
        self.phase is Finished || self.phase is Aborted
    }

    /// How many stages of a run are still to come: the staging, the reading of
    /// the manifest, the work on the entries, the sweep and the purge.
    pub open spec fn stages_left(self) -> nat {
        match self.phase {
            PhaseView::Staging => 5,
            PhaseView::Loading => 4,
            PhaseView::Scanning
            | PhaseView::Removing
            | PhaseView::Resolving { .. }
            | PhaseView::Downloading => 3,
            PhaseView::Sweeping => 2,
            PhaseView::Purging => 1,
            PhaseView::Finished | PhaseView::Aborted { .. } => 0,
        }
    }

    /// How many entries of the manifest are still to be left behind.
    pub open spec fn entries_left(self) -> nat {
        (self.ledger.manifest.len() - self.ledger.next) as nat
    }

    /// How many steps the entry at hand may still take: the listing, the
    /// removal, the lookup and the download.
    pub open spec fn steps_left(self) -> nat {
        match self.phase {
            PhaseView::Scanning => 3,
            PhaseView::Removing => 2,
            PhaseView::Resolving { .. } => 1,
            _ => 0,
        }
    }

    /// How many pages the lookup under way may still ask for.
    pub open spec fn pages_left(self) -> nat {
        match self.phase {
            PhaseView::Resolving { cursor } => (u32::MAX - cursor.page) as nat,
            _ => 0,
        }
    }

    /// What holds of every state of a run: the ledger fits the phase.
    pub open spec fn inv(self) -> bool {
        let ledger = self.ledger;
        match self.phase {
            PhaseView::Staging | PhaseView::Loading => ledger.at_entry() && ledger.manifest.len()
                == 0,
            PhaseView::Scanning => ledger.at_entry() && ledger.next < ledger.manifest.len()
                && !is_settled(ledger.entry()),
            PhaseView::Removing | PhaseView::Downloading => ledger.in_entry(),
            PhaseView::Resolving { cursor } => ledger.in_entry() && cursor.page < u32::MAX,
            PhaseView::Sweeping | PhaseView::Purging | PhaseView::Finished => ledger.at_entry()
                && ledger.next == ledger.manifest.len(),
            PhaseView::Aborted { error } => error.fatal(),
        }
    }
}

/// Settling asks for a listing, goes no entry back, and changes neither the
/// manifest nor the failures on record.
pub proof fn lemma_settle_lists(ledger: LedgerView)
    ensures
        ledger.settle().1 == CommandView::List,
        ledger.settle().0.phase is Scanning || ledger.settle().0.phase is Sweeping,
        ledger.settle().0.ledger.manifest == ledger.manifest,
        ledger.settle().0.ledger.failures == ledger.failures,
        ledger.settle().0.ledger.next >= ledger.next,
    decreases ledger.manifest.len() - ledger.next,
{
    if ledger.next < ledger.manifest.len() && is_settled(ledger.entry()) {
        lemma_settle_lists(
            LedgerView {
                next: ledger.next + 1,
                actions: ledger.actions.push(decision(ledger.entry(), Seq::empty())),
                ..ledger
            },
        );
    }
}

/// Settling keeps the ledger and the phase in step.
pub proof fn lemma_settle_keeps_inv(ledger: LedgerView)
    requires
        ledger.at_entry(),
    ensures
        ledger.settle().0.inv(),
    decreases ledger.manifest.len() - ledger.next,
{
    if ledger.next < ledger.manifest.len() && is_settled(ledger.entry()) {
        let action = decision(ledger.entry(), Seq::empty());
        let settled = LedgerView {
            next: ledger.next + 1,
            actions: ledger.actions.push(action),
            ..ledger
        };
        assert(all_wf(Seq::<LocalReleaseView>::empty()));
        assert(is_decision(action, ledger.entry()));
        lemma_settle_keeps_inv(settled);
    }
}

/// A failure of the entry at hand keeps the ledger and the phase in step.
pub proof fn lemma_fail_keeps_inv(ledger: LedgerView, error: SyncError)
    requires
        ledger.in_entry(),
        !error.fatal(),
    ensures
        ledger.fail(error).0.inv(),
{
    let failed = LedgerView {
        failures: ledger.failures.push(Failure { entry: ledger.next as usize, error }),
        ..ledger
    };
    lemma_settle_keeps_inv(LedgerView { next: failed.next + 1, ..failed });
}

/// The lookup keeps the ledger and the phase in step.
pub proof fn lemma_resolve_keeps_inv(ledger: LedgerView, cursor: CurseFileView)
    requires
        ledger.in_entry(),
    ensures
        ledger.resolve(cursor).0.inv(),
{
    lemma_fail_keeps_inv(ledger, SyncError::Lookup(LookupError::NotFound));
    lemma_fail_keeps_inv(ledger, SyncError::Lookup(LookupError::PageFailed));
}

/// The decision for the entry at hand keeps the ledger and the phase in step.
pub proof fn lemma_decide_keeps_inv(ledger: LedgerView, local: Seq<LocalReleaseView>)
    requires
        ledger.at_entry(),
        ledger.next < ledger.manifest.len(),
        !is_settled(ledger.entry()),
        all_wf(local),
    ensures
        ledger.decide(local).0.inv(),
{
    let action = decision(ledger.entry(), local);
    let decided = LedgerView { actions: ledger.actions.push(action), ..ledger };
    assert(is_decision(action, ledger.entry()));
    assert(decided.in_entry());
    lemma_settle_keeps_inv(LedgerView { next: decided.next + 1, ..decided });
    lemma_resolve_keeps_inv(
        decided,
        CurseFileView::fresh(project_id_of(decided.entry().url->0), decided.config.api_key),
    );
}

/// Every state that a run reaches fits its ledger: a run starts in such a
/// state, and no report leads out of them.
pub proof fn lemma_step_keeps_inv(session: SessionView, event: EventView)
    requires
        session.inv(),
    ensures
        session.step(event).0.inv(),
{
    let ledger = session.ledger;
    match session.phase {
        PhaseView::Loading => {
            if let EventView::Manifest(manifest) = event {
                lemma_settle_keeps_inv(LedgerView { manifest, ..ledger });
            }
        },
        PhaseView::Scanning => {
            if let EventView::Listing(listing) = event {
                lemma_scanned_wf(listing);
                lemma_decide_keeps_inv(ledger, scanned(listing));
            }
        },
        PhaseView::Removing => {
            lemma_resolve_keeps_inv(
                ledger,
                CurseFileView::fresh(project_id_of(ledger.entry().url->0), ledger.config.api_key),
            );
        },
        PhaseView::Resolving { cursor } => {
            if let EventView::Page(page) = event {
                lemma_resolve_keeps_inv(ledger, cursor.supplied(Some(page)));
            }
            lemma_fail_keeps_inv(ledger, SyncError::Lookup(LookupError::PageFailed));
        },
        PhaseView::Downloading => {
            lemma_settle_keeps_inv(LedgerView { next: ledger.next + 1, ..ledger });
            lemma_fail_keeps_inv(ledger, SyncError::Download);
        },
        _ => {},
    }
}

/// A run begins in a state that fits its ledger.
pub proof fn lemma_start_has_inv(config: ConfigView)
    ensures
        SessionView::start(config).0.inv(),
{
}

/// Where a run stands, with the cursor of a lookup under way.
enum Phase {
    Staging,
    Loading,
    Scanning,
    Removing,
    Resolving { cursor: CurseFile },
    Downloading,
    Sweeping,
    Purging,
    Finished,
    Aborted { error: SyncError },
}

impl View for Phase {
    type V = PhaseView;

    closed spec fn view(&self) -> PhaseView {
        match self {
            Phase::Staging => PhaseView::Staging,
            Phase::Loading => PhaseView::Loading,
            Phase::Scanning => PhaseView::Scanning,
            Phase::Removing => PhaseView::Removing,
            Phase::Resolving { cursor } => PhaseView::Resolving { cursor: cursor@ },
            Phase::Downloading => PhaseView::Downloading,
            Phase::Sweeping => PhaseView::Sweeping,
            Phase::Purging => PhaseView::Purging,
            Phase::Finished => PhaseView::Finished,
            Phase::Aborted { error } => PhaseView::Aborted { error: *error },
        }
    }
}

/// What a run has worked through so far.
struct Ledger {
    config: Config,
    manifest: Vec<Mod>,
    next: usize,
    actions: Vec<ReconciliationAction>,
    failures: Vec<Failure>,
}

impl View for Ledger {
    type V = LedgerView;

    closed spec fn view(&self) -> LedgerView {
        LedgerView {
            config: self.config@,
            manifest: self.manifest.deep_view(),
            next: self.next as nat,
            actions: self.actions.deep_view(),
            failures: self.failures@,
        }
    }
}

/// A run in progress.
pub struct Session {
    ledger: Ledger,
    phase: Phase,
}

impl View for Session {
    type V = SessionView;

    closed spec fn view(&self) -> SessionView {
        SessionView { ledger: self.ledger@, phase: self.phase@ }
    }
}

/// Gives the run up, as [`LedgerView::abort`] says.
fn abort(ledger: Ledger, error: SyncError) -> (next: (Session, Command))
    requires
        error.fatal(),
    ensures
        (next.0@, next.1@) == ledger@.abort(error),
{
    (Session { ledger, phase: Phase::Aborted { error } }, Command::Abort { error })
}

/// Moves to the next entry that needs a listing, as [`LedgerView::settle`]
/// says.
fn settle(ledger: Ledger) -> (next: (Session, Command))
    requires
        ledger@.at_entry(),
    ensures
        (next.0@, next.1@) == ledger@.settle(),
{
    let mut book = ledger;
    let nothing: Vec<LocalRelease> = Vec::new();
    proof {
        assert(nothing.deep_view() =~= Seq::<LocalReleaseView>::empty());
    }
    while book.next < book.manifest.len()
        invariant
            book@.at_entry(),
            book@.settle() == ledger@.settle(),
            nothing.deep_view() == Seq::<LocalReleaseView>::empty(),
        decreases book.manifest.len() - book.next,
    {
        if !settled(&book.manifest[book.next]) {
            return (Session { ledger: book, phase: Phase::Scanning }, Command::List);
        }
        let ghost before = book@;
        let action = decide(&book.manifest[book.next], &nothing);
        book.actions.push(action);
        book.next = book.next + 1;
        proof {
            assert(book@.actions =~= before.actions.push(
                decision(before.entry(), Seq::empty()),
            ));
            assert(all_wf(Seq::<LocalReleaseView>::empty()));
            assert(is_decision(decision(before.entry(), Seq::empty()), before.entry()));
        }
    }
    (Session { ledger: book, phase: Phase::Sweeping }, Command::List)
}

/// Leaves the entry at hand, as [`LedgerView::advance`] says.
fn advance(ledger: Ledger) -> (next: (Session, Command))
    requires
        ledger@.in_entry(),
    ensures
        (next.0@, next.1@) == ledger@.advance(),
{
    let mut book = ledger;
    assert(book.next < book.manifest.len());
    book.next = book.next + 1;
    settle(book)
}

/// Records a failure of the entry at hand, as [`LedgerView::fail`] says.
fn fail(ledger: Ledger, error: SyncError) -> (next: (Session, Command))
    requires
        ledger@.in_entry(),
        !error.fatal(),
    ensures
        (next.0@, next.1@) == ledger@.fail(error),
{
    let mut book = ledger;
    book.failures.push(Failure { entry: book.next, error });
    proof {
        assert(book@.failures =~= ledger@.failures.push(
            Failure { entry: ledger@.next as usize, error },
        ));
    }
    advance(book)
}

/// Goes on with the lookup, as [`LedgerView::resolve`] says.
fn resolve(ledger: Ledger, cursor: CurseFile) -> (next: (Session, Command))
    requires
        ledger@.in_entry(),
    ensures
        (next.0@, next.1@) == ledger@.resolve(cursor@),
{
    let mut cursor = cursor;
    let found = get_file_id(&mut cursor, ledger.manifest[ledger.next].filename.as_str());
    match found {
        Lookup::Found(file_id) => {
            let command = Command::Download {
                project_id: cursor.project_id().to_owned(),
                file_id,
                filename: ledger.manifest[ledger.next].filename.clone(),
            };
            (Session { ledger, phase: Phase::Downloading }, command)
        },
        Lookup::Fetch { page_index, page_size } => {
            let command = Command::Fetch {
                project_id: cursor.project_id().to_owned(),
                page_index,
                page_size,
            };
            (Session { ledger, phase: Phase::Resolving { cursor } }, command)
        },
        Lookup::NotFound => fail(ledger, SyncError::Lookup(LookupError::NotFound)),
        Lookup::Failed => fail(ledger, SyncError::Lookup(LookupError::PageFailed)),
    }
}

/// Opens the catalog and begins the lookup, as [`LedgerView::begin`] says.
fn begin(ledger: Ledger) -> (next: (Session, Command))
    requires
        ledger@.in_entry(),
    ensures
        (next.0@, next.1@) == ledger@.begin(),
{
    let opened = match &ledger.manifest[ledger.next].url {
        Some(url) => CurseFile::of(
            extract_project_id(url.as_str()),
            ledger.config.api_key.as_str(),
        ),
        None => unreached(),
    };
    match opened {
        Ok(cursor) => resolve(ledger, cursor),
        Err(_) => unreached(),
    }
}

/// Decides the entry at hand, as [`LedgerView::decide`] says.
fn decided(ledger: Ledger, local: &Vec<LocalRelease>) -> (next: (Session, Command))
    requires
        ledger@.at_entry(),
        ledger@.next < ledger@.manifest.len(),
        !is_settled(ledger@.entry()),
        all_wf(local.deep_view()),
    ensures
        (next.0@, next.1@) == ledger@.decide(local.deep_view()),
{
    let ghost before = ledger@;
    let mut ledger = ledger;
    let action = decide(&ledger.manifest[ledger.next], local);
    let ghost chosen = action@;
    match action {
        ReconciliationAction::Replace { obsolete, target } => {
            let filenames = copy_strings(&obsolete);
            ledger.actions.push(ReconciliationAction::Replace { obsolete, target });
            proof {
                assert(ledger@.actions =~= before.actions.push(chosen));
                assert(is_decision(chosen, before.entry()));
            }
            if filenames.len() > 0 {
                (Session { ledger, phase: Phase::Removing }, Command::Remove { filenames })
            } else {
                begin(ledger)
            }
        },
        other => {
            ledger.actions.push(other);
            proof {
                assert(ledger@.actions =~= before.actions.push(chosen));
                assert(is_decision(chosen, before.entry()));
            }
            advance(ledger)
        },
    }
}

/// Ends the run with the removal of the orphans, as [`LedgerView::sweep`]
/// says.
fn sweep(ledger: Ledger, local: &Vec<LocalRelease>) -> (next: (Session, Command))
    requires
        ledger@.at_entry(),
        ledger@.next == ledger@.manifest.len(),
    ensures
        (next.0@, next.1@) == ledger@.sweep(local.deep_view()),
{
    let unused = clean_unused_mods(local, &ledger.manifest);
    if unused.len() > 0 {
        (Session { ledger, phase: Phase::Purging }, Command::Remove { filenames: unused })
    } else {
        (Session { ledger, phase: Phase::Finished }, Command::Finish)
    }
}

/// Begins a run.
///
/// Gives the session and the first command. The caller carries each command
/// out and hands its report to [`Session::step`], until the command is
/// `Finish` or `Abort`.
pub fn run(config: Config) -> (begun: (Session, Command))
    ensures
        (begun.0@, begun.1@) == SessionView::start(config@),
        begun.0@.inv(),
{
    let valid = header_value_accepts(config.api_key.as_str());
    let ledger = Ledger {
        config,
        manifest: Vec::new(),
        next: 0,
        actions: Vec::new(),
        failures: Vec::new(),
    };
    proof {
        assert(ledger@.manifest =~= Seq::<ModView>::empty());
        assert(ledger@.actions =~= Seq::<ActionView>::empty());
        assert(ledger@.failures =~= Seq::<Failure>::empty());
    }
    if valid {
        (Session { ledger, phase: Phase::Staging }, Command::Stage)
    } else {
        abort(ledger, SyncError::Config(ConfigError::InvalidCredential))
    }
}

impl Session {
    /// Every session fits its ledger.
    #[verifier::type_invariant]
    spec fn fits(self) -> bool {
        self@.inv()
    }

    /// The configuration of the run.
    pub fn config(&self) -> (config: &Config)
        ensures
            config@ == self@.ledger.config,
    {
        &self.ledger.config
    }

    /// The manifest; empty until it has been read.
    pub fn manifest(&self) -> (manifest: &Vec<Mod>)
        ensures
            manifest.deep_view() == self@.ledger.manifest,
    {
        &self.ledger.manifest
    }

    /// The action of every entry that was decided so far, in manifest order.
    pub fn actions(&self) -> (actions: &Vec<ReconciliationAction>)
        ensures
            actions.deep_view() == self@.ledger.actions,
    {
        &self.ledger.actions
    }

    /// The failures that were confined to one entry, oldest first.
    pub fn failures(&self) -> (failures: &Vec<Failure>)
        ensures
            failures@ == self@.ledger.failures,
    {
        &self.ledger.failures
    }

    /// Whether the run is over, finished or given up.
    pub fn is_over(&self) -> (over: bool)
        ensures
            over == self@.is_over(),
    {
        match &self.phase {
            Phase::Finished => true,
            Phase::Aborted { .. } => true,
            _ => false,
        }
    }

    /// Takes the report on the last command and gives the next command.
    pub fn step(self, event: Event) -> (next: (Session, Command))
        ensures
            (next.0@, next.1@) == self@.step(event@),
            next.0@.inv(),
    {
        proof {
            use_type_invariant(&self);
            lemma_step_keeps_inv(self@, event@);
        }
        let Session { ledger, phase } = self;
        match phase {
            Phase::Staging => match event {
                Event::Done => (Session { ledger, phase: Phase::Loading }, Command::Load),
                _ => abort(ledger, SyncError::Directory),
            },
            Phase::Loading => match event {
                Event::Manifest(manifest) => {
                    let mut ledger = ledger;
                    ledger.manifest = manifest;
                    settle(ledger)
                },
                _ => abort(ledger, SyncError::Manifest),
            },
            Phase::Scanning => match event {
                Event::Listing(listing) => {
                    let local = scan(&listing);
                    decided(ledger, &local)
                },
                _ => abort(ledger, SyncError::Directory),
            },
            Phase::Removing => begin(ledger),
            Phase::Resolving { cursor } => match event {
                Event::Page(page) => {
                    let mut cursor = cursor;
                    cursor.supply(Some(page));
                    resolve(ledger, cursor)
                },
                _ => fail(ledger, SyncError::Lookup(LookupError::PageFailed)),
            },
            Phase::Downloading => match event {
                Event::Done => advance(ledger),
                _ => fail(ledger, SyncError::Download),
            },
            Phase::Sweeping => match event {
                Event::Listing(listing) => {
                    let local = scan(&listing);
                    sweep(ledger, &local)
                },
                _ => abort(ledger, SyncError::Directory),
            },
            Phase::Purging => (Session { ledger, phase: Phase::Finished }, Command::Finish),
            Phase::Finished => (Session { ledger, phase: Phase::Finished }, Command::Finish),
            Phase::Aborted { error } => (
                Session { ledger, phase: Phase::Aborted { error } },
                Command::Abort { error },
            ),
        }
    }
}

} // verus!
