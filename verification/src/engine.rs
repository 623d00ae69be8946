//! The reconciliation engine: what has to happen to the local directory for
//! one manifest entry, and which local files the manifest no longer names.
//!
//! The engine is pure. It works on the manifest and on the releases that the
//! scanner found, and a manifest and a directory alone determine its result.

use vstd::prelude::*;
use crate::heuristics::{extract_mod_name, extract_version, logical_name, version_token};
use crate::scanner::{existing_versions, find_existing_versions, LocalRelease, LocalReleaseView};
use crate::text::{ends_with, lemma_filter_step, str_ends_with};

verus! {

/// One entry of the manifest: a release file that the directory should hold.
#[derive(Debug)]
pub struct Mod {
    /// The name of the release file, the identity of the entry.
    pub filename: String,
    /// The mod's display name.
    pub name: String,
    /// The mod's version, as the manifest gives it.
    pub version: String,
    /// Where the mod's project lives; its last path segment is the project
    /// identifier. Without it the entry cannot be acted on.
    pub url: Option<String>,
}

/// What a [`Mod`] holds.
pub struct ModView {
    pub filename: Seq<char>,
    pub name: Seq<char>,
    pub version: Seq<char>,
    pub url: Option<Seq<char>>,
}

impl DeepView for Mod {
    type V = ModView;

    open spec fn deep_view(&self) -> ModView {
        ModView {
            filename: self.filename@,
            name: self.name@,
            version: self.version@,
            url: self.url.deep_view(),
        }
    }
}

impl View for Mod {
    type V = ModView;

    open spec fn view(&self) -> ModView {
        self.deep_view()
    }
}

impl Clone for Mod {
    fn clone(&self) -> (copy: Self)
        ensures
            copy@ == self@,
    {
        Mod {
            filename: self.filename.clone(),
            name: self.name.clone(),
            version: self.version.clone(),
            url: match &self.url {
                Some(url) => Some(url.clone()),
                None => None,
            },
        }
    }
}

/// Why an entry needs nothing done.
#[derive(Clone, Copy, Debug, PartialEq, Eq, Structural)]
pub enum SkipReason {
    /// The filename carries the disabled marker: the file is inert on purpose.
    Disabled,
    /// The directory already holds the release.
    UpToDate,
}

/// What the engine decides for one manifest entry.
#[derive(Debug)]
pub enum ReconciliationAction {
    /// Nothing is done.
    Skip { reason: SkipReason },
    /// The files in `obsolete` are removed and `target` is fetched. A fresh
    /// install is a replacement with nothing to remove.
    Replace { obsolete: Vec<String>, target: Mod },
    /// The entry names no source; nothing is done but to warn.
    WarnMissingUrl { target: Mod },
}

/// What a [`ReconciliationAction`] holds.
pub enum ActionView {
    Skip { reason: SkipReason },
    Replace { obsolete: Seq<Seq<char>>, target: ModView },
    WarnMissingUrl { target: ModView },
}

impl DeepView for ReconciliationAction {
    type V = ActionView;

    open spec fn deep_view(&self) -> ActionView {
        match self {
            ReconciliationAction::Skip { reason } => ActionView::Skip { reason: *reason },
            ReconciliationAction::Replace { obsolete, target } => ActionView::Replace {
                obsolete: obsolete.deep_view(),
                target: target@,
            },
            ReconciliationAction::WarnMissingUrl { target } => ActionView::WarnMissingUrl {
                target: target@,
            },
        }
    }
}

impl View for ReconciliationAction {
    type V = ActionView;

    open spec fn view(&self) -> ActionView {
        self.deep_view()
    }
}

/// A filename that carries the disabled marker.
pub open spec fn is_disabled(filename: Seq<char>) -> bool {
    ends_with(filename, ".disabled"@)
}

/// One of the installed versions is `version`.
pub open spec fn has_version(existing: Seq<(Seq<char>, Seq<char>)>, version: Seq<char>) -> bool {
    exists|i: int| 0 <= i < existing.len() && (#[trigger] existing[i]).1 == version
}

/// The step from an installed version to its filename.
pub open spec fn to_filename() -> spec_fn((Seq<char>, Seq<char>)) -> Seq<char> {
    |p: (Seq<char>, Seq<char>)| p.0
}

/// A release in `local` has the filename `filename`.
pub open spec fn holds_file(local: Seq<LocalReleaseView>, filename: Seq<char>) -> bool {
    exists|i: int| 0 <= i < local.len() && (#[trigger] local[i]).filename == filename
}

/// The directory already satisfies the entry of this filename.
///
/// Where the heuristics classify the filename, a release of the same logical
/// name with the same version token is installed. Where they do not, the
/// comparison falls back on identity: a release of that very filename is
/// installed.
pub open spec fn up_to_date(filename: Seq<char>, local: Seq<LocalReleaseView>) -> bool {
    match (logical_name(filename), version_token(filename)) {
        (Some(name), Some(version)) => has_version(existing_versions(local, name), version),
        _ => holds_file(local, filename),
    }
}

/// The installed files that the entry of this filename supersedes: every
/// release of the same logical name. Where the heuristics do not classify the
/// filename there is none.
pub open spec fn obsolete(filename: Seq<char>, local: Seq<LocalReleaseView>) -> Seq<Seq<char>> {
    match (logical_name(filename), version_token(filename)) {
        (Some(name), Some(_)) => existing_versions(local, name).map_values(to_filename()),
        _ => Seq::empty(),
    }
}

/// The action for one manifest entry against the releases of the directory.
///
/// A disabled entry is skipped before anything else. An entry without a
/// source is warned about, whatever the directory holds. Otherwise the entry
/// is skipped where the directory is up to date, and replaces every release
/// of the same logical name where it is not.
pub open spec fn decision(entry: ModView, local: Seq<LocalReleaseView>) -> ActionView {
    if is_disabled(entry.filename) {
        ActionView::Skip { reason: SkipReason::Disabled }
    } else if entry.url is None {
        ActionView::WarnMissingUrl { target: entry }
    } else if up_to_date(entry.filename, local) {
        ActionView::Skip { reason: SkipReason::UpToDate }
    } else {
        ActionView::Replace { obsolete: obsolete(entry.filename, local), target: entry }
    }
}

/// The manifest alone decides the entry: it is disabled, or it names no
/// source. What the directory holds does not matter to its action.
pub open spec fn is_settled(entry: ModView) -> bool {
    is_disabled(entry.filename) || entry.url is None
}

/// Whether the manifest alone decides the entry.
pub fn settled(entry: &Mod) -> (settled: bool)
    ensures
        settled == is_settled(entry@),
{
    str_ends_with(entry.filename.as_str(), ".disabled") || entry.url.is_none()
}

/// Whether one of `existing` has the version `version`.
fn any_version(existing: &Vec<(String, String)>, version: &str) -> (found: bool)
    ensures
        found == has_version(existing.deep_view(), version@),
{
    let wanted = version.to_owned();
    let mut i: usize = 0;
    while i < existing.len()
        invariant
            i <= existing.len(),
            wanted@ == version@,
            forall|k: int| 0 <= k < i ==> (#[trigger] existing.deep_view()[k]).1 != version@,
        decreases existing.len() - i,
    {
        if existing[i].1 == wanted {
            assert(existing.deep_view()[i as int].1 == version@);
            return true;
        }
        i += 1;
    }
    false
}

/// The filenames of `existing`, in order.
fn filenames_of(existing: &Vec<(String, String)>) -> (names: Vec<String>)
    ensures
        names.deep_view() == existing.deep_view().map_values(to_filename()),
{
    let mut names: Vec<String> = Vec::new();
    let mut i: usize = 0;
    while i < existing.len()
        invariant
            i <= existing.len(),
            names.len() == i,
            forall|k: int| 0 <= k < i ==> (#[trigger] names[k])@ == existing[k].0@,
        decreases existing.len() - i,
    {
        names.push(existing[i].0.clone());
        i += 1;
    }
    proof {
        assert(names.deep_view() =~= existing.deep_view().map_values(to_filename()));
    }
    names
}

/// Whether a release in `local` has the filename `filename`.
fn any_file(local: &Vec<LocalRelease>, filename: &String) -> (found: bool)
    ensures
        found == holds_file(local.deep_view(), filename@),
{
    let mut i: usize = 0;
    while i < local.len()
        invariant
            i <= local.len(),
            forall|k: int| 0 <= k < i ==> (#[trigger] local.deep_view()[k]).filename != filename@,
        decreases local.len() - i,
    {
        if local[i].filename == *filename {
            assert(local.deep_view()[i as int].filename == filename@);
            return true;
        }
        i += 1;
    }
    false
}

/// Decides what to do for one manifest entry.
///
/// `local` holds the releases of the directory as the scanner found them.
pub fn decide(entry: &Mod, local: &Vec<LocalRelease>) -> (action: ReconciliationAction)
    ensures
        action@ == decision(entry@, local.deep_view()),
{
    if str_ends_with(entry.filename.as_str(), ".disabled") {
        return ReconciliationAction::Skip { reason: SkipReason::Disabled };
    }
    if entry.url.is_none() {
        return ReconciliationAction::WarnMissingUrl { target: entry.clone() };
    }
    let name = extract_mod_name(entry.filename.as_str());
    let version = extract_version(entry.filename.as_str());
    match (name, version) {
        (Some(name), Some(version)) => {
            let existing = find_existing_versions(local, name);
            if any_version(&existing, version) {
                ReconciliationAction::Skip { reason: SkipReason::UpToDate }
            } else {
                ReconciliationAction::Replace {
                    obsolete: filenames_of(&existing),
                    target: entry.clone(),
                }
            }
        },
        _ => {
            if any_file(local, &entry.filename) {
                ReconciliationAction::Skip { reason: SkipReason::UpToDate }
            } else {
                let nothing: Vec<String> = Vec::new();
                proof {
                    assert(nothing.deep_view() =~= Seq::<Seq<char>>::empty());
                }
                ReconciliationAction::Replace { obsolete: nothing, target: entry.clone() }
            }
        },
    }
}

/// The actions for a whole manifest against one state of the directory: one
/// action per entry, in manifest order.
pub open spec fn plan(manifest: Seq<ModView>, local: Seq<LocalReleaseView>) -> Seq<ActionView> {
    Seq::new(manifest.len(), |i: int| decision(manifest[i], local))
}

/// Decides what to do for every entry of the manifest, against one state of
/// the directory.
pub fn reconcile(manifest: &Vec<Mod>, local: &Vec<LocalRelease>) -> (actions: Vec<
    ReconciliationAction,
>)
    ensures
        actions.deep_view() == plan(manifest.deep_view(), local.deep_view()),
{
    let mut actions: Vec<ReconciliationAction> = Vec::new();
    let mut i: usize = 0;
    while i < manifest.len()
        invariant
            i <= manifest.len(),
            actions.len() == i,
            forall|k: int|
                0 <= k < i ==> (#[trigger] actions[k])@ == decision(
                    manifest[k]@,
                    local.deep_view(),
                ),
        decreases manifest.len() - i,
    {
        actions.push(decide(&manifest[i], local));
        i += 1;
    }
    proof {
        assert(actions.deep_view() =~= plan(manifest.deep_view(), local.deep_view()));
    }
    actions
}

/// The manifest names the file `filename`.
pub open spec fn listed(manifest: Seq<ModView>, filename: Seq<char>) -> bool {
    exists|i: int| 0 <= i < manifest.len() && (#[trigger] manifest[i]).filename == filename
}

/// The test that selects the releases that the manifest does not name.
pub open spec fn unlisted(manifest: Seq<ModView>) -> spec_fn(LocalReleaseView) -> bool {
    |r: LocalReleaseView| !listed(manifest, r.filename)
}

/// The step from a release to its filename.
pub open spec fn to_name() -> spec_fn(LocalReleaseView) -> Seq<char> {
    |r: LocalReleaseView| r.filename
}

/// The orphans of the directory: the filename of every release that the
/// manifest does not name, in the order of `local`. Only the filename counts,
/// not the logical name or the version.
pub open spec fn orphans(manifest: Seq<ModView>, local: Seq<LocalReleaseView>) -> Seq<Seq<char>> {
    local.filter(unlisted(manifest)).map_values(to_name())
}

/// Whether the manifest names the file `filename`.
fn is_listed(manifest: &Vec<Mod>, filename: &String) -> (found: bool)
    ensures
        found == listed(manifest.deep_view(), filename@),
{
    let mut i: usize = 0;
    while i < manifest.len()
        invariant
            i <= manifest.len(),
            forall|k: int|
                0 <= k < i ==> (#[trigger] manifest.deep_view()[k]).filename != filename@,
        decreases manifest.len() - i,
    {
        if manifest[i].filename == *filename {
            assert(manifest.deep_view()[i as int].filename == filename@);
            return true;
        }
        i += 1;
    }
    false
}

/// Finds the release files that the manifest no longer names.
///
/// Returns the filename of every release in `local` that equals no manifest
/// entry's filename. These are the files to delete once every entry has been
/// handled.
pub fn clean_unused_mods(local: &Vec<LocalRelease>, mods: &Vec<Mod>) -> (unused: Vec<String>)
    ensures
        unused.deep_view() == orphans(mods.deep_view(), local.deep_view()),
{
    let mut unused: Vec<String> = Vec::new();
    let ghost releases = local.deep_view();
    let ghost manifest = mods.deep_view();
    let mut i: usize = 0;
    while i < local.len()
        invariant
            i <= local.len(),
            releases == local.deep_view(),
            manifest == mods.deep_view(),
            unused.deep_view() == orphans(manifest, releases.take(i as int)),
        decreases local.len() - i,
    {
        let release = &local[i];
        proof {
            lemma_filter_step(releases, i as int, unlisted(manifest));
            releases.take(i as int).filter(unlisted(manifest)).lemma_push_map_commute(
                to_name(),
                releases[i as int],
            );
            assert(releases[i as int] == release.deep_view());
        }
        if !is_listed(mods, &release.filename) {
            let ghost before = unused.deep_view();
            unused.push(release.filename.clone());
            proof {
                assert(unused.deep_view() =~= before.push(release.filename@));
            }
        }
        i += 1;
    }
    proof {
        assert(releases.take(local.len() as int) =~= releases);
    }
    unused
}

} // verus!
