//! The local state scanner: which release files a directory holds, and what
//! the filename heuristics make of each.
//!
//! The caller lists the directory; the scanner works on that listing.

use vstd::prelude::*;
use crate::heuristics::{extract_mod_name, extract_version, logical_name, version_token};
use crate::text::{ends_with, lemma_filter_step, owned, str_ends_with, str_eq};

verus! {

/// One direct entry of a directory, as the caller found it.
#[derive(Debug)]
pub struct DirEntry {
    /// The entry's name, without the directory.
    pub name: String,
    /// Whether the entry is a regular file.
    pub is_file: bool,
}

/// What a [`DirEntry`] holds.
pub struct DirEntryView {
    pub name: Seq<char>,
    pub is_file: bool,
}

impl DeepView for DirEntry {
    type V = DirEntryView;

    open spec fn deep_view(&self) -> DirEntryView {
        DirEntryView { name: self.name@, is_file: self.is_file }
    }
}

impl View for DirEntry {
    type V = DirEntryView;

    open spec fn view(&self) -> DirEntryView {
        self.deep_view()
    }
}

/// A release file of the local directory, with what the filename heuristics
/// read off its name. The two derived fields are `None` where the filename
/// cannot be classified.
#[derive(Debug)]
pub struct LocalRelease {
    pub filename: String,
    pub logical_name: Option<String>,
    pub version_token: Option<String>,
}

/// What a [`LocalRelease`] holds.
pub struct LocalReleaseView {
    pub filename: Seq<char>,
    pub logical_name: Option<Seq<char>>,
    pub version_token: Option<Seq<char>>,
}

impl DeepView for LocalRelease {
    type V = LocalReleaseView;

    open spec fn deep_view(&self) -> LocalReleaseView {
        LocalReleaseView {
            filename: self.filename@,
            logical_name: self.logical_name.deep_view(),
            version_token: self.version_token.deep_view(),
        }
    }
}

impl View for LocalRelease {
    type V = LocalReleaseView;

    open spec fn view(&self) -> LocalReleaseView {
        self.deep_view()
    }
}

/// A filename that carries the release extension.
pub open spec fn is_release_name(name: Seq<char>) -> bool {
    ends_with(name, ".jar"@)
}

/// The release that the file of this name is.
pub open spec fn release_of(name: Seq<char>) -> LocalReleaseView {
    LocalReleaseView {
        filename: name,
        logical_name: logical_name(name),
        version_token: version_token(name),
    }
}

impl LocalReleaseView {
    /// The record is the one that the scanner derives from its filename.
    pub open spec fn wf(self) -> bool {
        is_release_name(self.filename) && self == release_of(self.filename)
    }
}

/// Every record of `local` is well formed.
pub open spec fn all_wf(local: Seq<LocalReleaseView>) -> bool {
    forall|i: int| 0 <= i < local.len() ==> (#[trigger] local[i]).wf()
}

/// A directory entry that is a release file: a regular file whose name carries
/// the release extension.
pub open spec fn is_release_entry(e: DirEntryView) -> bool {
    e.is_file && is_release_name(e.name)
}

/// The test that selects the release files of a listing.
pub open spec fn release_entries() -> spec_fn(DirEntryView) -> bool {
    |e: DirEntryView| is_release_entry(e)
}

/// The step from a release file's directory entry to its record.
pub open spec fn to_release() -> spec_fn(DirEntryView) -> LocalReleaseView {
    |e: DirEntryView| release_of(e.name)
}

/// The releases of a listing: its release files, in the order of the listing.
pub open spec fn scanned(listing: Seq<DirEntryView>) -> Seq<LocalReleaseView> {
    listing.filter(release_entries()).map_values(to_release())
}

/// Every scanned record is well formed.
pub proof fn lemma_scanned_wf(listing: Seq<DirEntryView>)
    ensures
        all_wf(scanned(listing)),
{
    let kept = listing.filter(release_entries());
    assert forall|i: int| 0 <= i < scanned(listing).len() implies (#[trigger] scanned(
        listing,
    )[i]).wf() by {
        listing.lemma_filter_pred(release_entries(), i);
        assert(is_release_entry(kept[i]));
    }
}

/// Scans a directory listing.
///
/// Keeps the regular files whose name carries the release extension, in the
/// order of the listing, and runs the filename heuristics on each. A file that
/// the heuristics cannot classify is still listed, with `None` fields.
pub fn scan(listing: &Vec<DirEntry>) -> (local: Vec<LocalRelease>)
    ensures
        local.deep_view() == scanned(listing.deep_view()),
        all_wf(local.deep_view()),
{
    let mut local: Vec<LocalRelease> = Vec::new();
    let ghost entries = listing.deep_view();
    let mut i: usize = 0;
    while i < listing.len()
        invariant
            i <= listing.len(),
            entries == listing.deep_view(),
            local.deep_view() == scanned(entries.take(i as int)),
        decreases listing.len() - i,
    {
        let entry = &listing[i];
        proof {
            lemma_filter_step(entries, i as int, release_entries());
            entries.take(i as int).filter(release_entries()).lemma_push_map_commute(
                to_release(),
                entries[i as int],
            );
            assert(entries[i as int] == entry.deep_view());
        }
        if entry.is_file && str_ends_with(entry.name.as_str(), ".jar") {
            let ghost before = local.deep_view();
            let release = LocalRelease {
                filename: entry.name.clone(),
                logical_name: owned(extract_mod_name(entry.name.as_str())),
                version_token: owned(extract_version(entry.name.as_str())),
            };
            local.push(release);
            proof {
                assert(local.deep_view() =~= before.push(release_of(entry.name@)));
            }
        }
        i += 1;
    }
    proof {
        assert(entries.take(listing.len() as int) =~= entries);
        lemma_scanned_wf(entries);
    }
    local
}

/// The test that selects the releases of the mod `name` whose version is
/// known.
pub open spec fn versions_of(name: Seq<char>) -> spec_fn(LocalReleaseView) -> bool {
    |r: LocalReleaseView| r.logical_name == Some(name) && r.version_token is Some
}

/// The step from a release to its filename and version.
pub open spec fn to_version() -> spec_fn(LocalReleaseView) -> (Seq<char>, Seq<char>) {
    |r: LocalReleaseView| (r.filename, r.version_token->0)
}

/// The installed versions of the mod `name`: filename and version token of
/// each release with that logical name, in the order of `local`.
pub open spec fn existing_versions(local: Seq<LocalReleaseView>, name: Seq<char>) -> Seq<
    (Seq<char>, Seq<char>),
> {
    local.filter(versions_of(name)).map_values(to_version())
}

/// Finds the installed versions of a mod.
///
/// Returns, for each release in `local` whose logical name is `mod_name` and
/// whose version token is known, its filename and that token.
pub fn find_existing_versions(local: &Vec<LocalRelease>, mod_name: &str) -> (found: Vec<
    (String, String),
>)
    ensures
        found.deep_view() == existing_versions(local.deep_view(), mod_name@),
{
    let mut found: Vec<(String, String)> = Vec::new();
    let ghost releases = local.deep_view();
    let mut i: usize = 0;
    while i < local.len()
        invariant
            i <= local.len(),
            releases == local.deep_view(),
            found.deep_view() == existing_versions(releases.take(i as int), mod_name@),
        decreases local.len() - i,
    {
        let release = &local[i];
        proof {
            lemma_filter_step(releases, i as int, versions_of(mod_name@));
            releases.take(i as int).filter(versions_of(mod_name@)).lemma_push_map_commute(
                to_version(),
                releases[i as int],
            );
            assert(releases[i as int] == release.deep_view());
        }
        let same_name = match &release.logical_name {
            Some(name) => str_eq(name.as_str(), mod_name),
            None => false,
        };
        if same_name {
            match &release.version_token {
                Some(version) => {
                    let ghost before = found.deep_view();
                    found.push((release.filename.clone(), version.clone()));
                    proof {
                        assert(found.deep_view() =~= before.push(
                            (release.filename@, version@),
                        ));
                    }
                },
                None => {},
            }
        }
        i += 1;
    }
    proof {
        assert(releases.take(local.len() as int) =~= releases);
    }
    found
}

} // verus!
