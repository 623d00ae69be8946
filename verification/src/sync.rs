//! The configuration of a run, and the lookup of a file's identifier in the
//! remote catalog.

use vstd::prelude::*;
use vstd::string::StringExecFns;
use crate::credential::{header_value_accepts, is_header_value};
use crate::curse_files::{CurseFile, CurseFileView, ModFileView, Pull};
use crate::error::{ConfigError, SyncError};
use crate::text::str_eq;

verus! {

/// Where a run finds its manifest and its mods, and the key it shows the
/// remote service.
#[derive(Debug)]
pub struct Config {
    /// The API key of the remote service.
    pub api_key: String,
    /// The modpack directory.
    pub base_dir: String,
    /// The directory that holds the release files.
    pub mods_dir: String,
    /// The name of the manifest inside the modpack directory.
    pub mods_file: String,
}

/// What a [`Config`] holds.
pub struct ConfigView {
    pub api_key: Seq<char>,
    pub base_dir: Seq<char>,
    pub mods_dir: Seq<char>,
    pub mods_file: Seq<char>,
}

impl DeepView for Config {
    type V = ConfigView;

    open spec fn deep_view(&self) -> ConfigView {
        ConfigView {
            api_key: self.api_key@,
            base_dir: self.base_dir@,
            mods_dir: self.mods_dir@,
            mods_file: self.mods_file@,
        }
    }
}

impl View for Config {
    type V = ConfigView;

    open spec fn view(&self) -> ConfigView {
        self.deep_view()
    }
}

/// The path of `name` inside the directory `dir`.
pub open spec fn joined(dir: Seq<char>, name: Seq<char>) -> Seq<char> {
    dir + "/"@ + name
}

/// The configuration that the program's arguments and the API key give.
///
/// The second argument is the modpack directory. The manifest is
/// `modlist.json` in it, and the release files live in `.minecraft/mods`
/// below it.
pub open spec fn configured(args: Seq<Seq<char>>, api_key: Option<Seq<char>>) -> Result<
    ConfigView,
    SyncError,
> {
    if args.len() < 2 {
        Err(SyncError::Config(ConfigError::MissingArgument))
    } else {
        match api_key {
            None => Err(SyncError::Config(ConfigError::MissingCredential)),
            Some(key) => if is_header_value(key) {
                Ok(
                    ConfigView {
                        api_key: key,
                        base_dir: args[1],
                        mods_dir: joined(args[1], ".minecraft/mods"@),
                        mods_file: "modlist.json"@,
                    },
                )
            } else {
                Err(SyncError::Config(ConfigError::InvalidCredential))
            },
        }
    }
}

/// Writes the path of `name` inside the directory `dir`.
fn join(dir: &str, name: &str) -> (path: String)
    ensures
        path@ == joined(dir@, name@),
{
    let mut path = String::from_str(dir);
    path.append("/");
    path.append(name);
    path
}

impl Config {
    /// Builds the configuration from the program's arguments and the API key
    /// that the environment holds, if it holds one.
    pub fn build(args: &[String], api_key: Option<String>) -> (config: Result<Config, SyncError>)
        ensures
            match config {
                Ok(config) => configured(args.deep_view(), api_key.deep_view()) == Ok::<
                    ConfigView,
                    SyncError,
                >(config@),
                Err(error) => configured(args.deep_view(), api_key.deep_view()) == Err::<
                    ConfigView,
                    SyncError,
                >(error),
            },
    {
        if args.len() < 2 {
            return Err(SyncError::Config(ConfigError::MissingArgument));
        }
        let api_key = match api_key {
            Some(key) => key,
            None => {
                return Err(SyncError::Config(ConfigError::MissingCredential));
            },
        };
        if !header_value_accepts(api_key.as_str()) {
            return Err(SyncError::Config(ConfigError::InvalidCredential));
        }
        let base_dir = args[1].clone();
        let mods_dir = join(base_dir.as_str(), ".minecraft/mods");
        proof {
            assert(args.deep_view()[1] == args[1]@);
        }
        Ok(Config { api_key, base_dir, mods_dir, mods_file: String::from_str("modlist.json") })
    }

    /// The path of the manifest.
    pub fn manifest_path(&self) -> (path: String)
        ensures
            path@ == joined(self@.base_dir, self@.mods_file),
    {
        join(self.base_dir.as_str(), self.mods_file.as_str())
    }

    /// The path of the release file `filename`.
    pub fn mod_path(&self, filename: &str) -> (path: String)
        ensures
            path@ == joined(self@.mods_dir, filename@),
    {
        join(self.mods_dir.as_str(), filename)
    }
}

/// How far the lookup of a file's identifier has come.
#[derive(Clone, Copy, Debug, PartialEq, Eq, Structural)]
pub enum Lookup {
    /// The catalog holds a record of the filename, with this identifier.
    Found(u64),
    /// No buffered record has the filename: the page of this index is to be
    /// fetched and supplied to the cursor, and the lookup called again.
    Fetch { page_index: u32, page_size: u32 },
    /// The catalog ended without a record of the filename.
    NotFound,
    /// A page could not be fetched.
    Failed,
}

/// A buffered record has the filename `filename`.
pub open spec fn has_match(files: Seq<ModFileView>, filename: Seq<char>) -> bool {
    exists|k: int| 0 <= k < files.len() && (#[trigger] files[k]).file_name == filename
}

/// The record at `k` is the first that has the filename `filename`. Names are
/// compared character for character.
pub open spec fn is_first_match(files: Seq<ModFileView>, filename: Seq<char>, k: int) -> bool {
    &&& 0 <= k < files.len()
    &&& files[k].file_name == filename
    &&& forall|j: int| 0 <= j < k ==> (#[trigger] files[j]).file_name != filename
}

/// The position of the first record that has the filename `filename`.
pub open spec fn first_match(files: Seq<ModFileView>, filename: Seq<char>) -> int {
    choose|k: int| is_first_match(files, filename, k)
}

/// What the lookup of `filename` gives on a cursor in this state.
pub open spec fn lookup(cursor: CurseFileView, filename: Seq<char>) -> Lookup {
    if cursor.failed {
        Lookup::Failed
    } else if has_match(cursor.buffered, filename) {
        Lookup::Found(cursor.buffered[first_match(cursor.buffered, filename)].id)
    } else if cursor.exhausted() {
        Lookup::NotFound
    } else {
        Lookup::Fetch { page_index: cursor.page, page_size: cursor.per_page }
    }
}

/// The state in which the lookup of `filename` leaves the cursor: the records
/// up to the match, or all of them where none matches, have left the buffer.
pub open spec fn looked_up(cursor: CurseFileView, filename: Seq<char>) -> CurseFileView {
    if cursor.failed {
        cursor
    } else if has_match(cursor.buffered, filename) {
        CurseFileView {
            buffered: cursor.buffered.skip(first_match(cursor.buffered, filename) + 1),
            ..cursor
        }
    } else {
        CurseFileView { buffered: Seq::empty(), ..cursor }
    }
}

/// Among the records there is one first match.
pub proof fn lemma_first_match_is(files: Seq<ModFileView>, filename: Seq<char>, k: int)
    requires
        is_first_match(files, filename, k),
    ensures
        has_match(files, filename),
        first_match(files, filename) == k,
{
    let c = choose|c: int| is_first_match(files, filename, c);
    if c < k {
        assert(files[c].file_name != filename);
    } else if k < c {
        assert(files[k].file_name != filename);
    }
}

/// Looks for the identifier of the file `filename` in the catalog.
///
/// Pulls records off the cursor and stops at the first whose name is
/// `filename`. Where the buffer runs out first, the result says whether the
/// catalog has ended or which page is needed; with that page supplied to the
/// cursor, the lookup is called again. The pages behind a match are never
/// asked for.
pub fn get_file_id(cursor: &mut CurseFile, filename: &str) -> (found: Lookup)
    ensures
        found == lookup(old(cursor)@, filename@),
        final(cursor)@ == looked_up(old(cursor)@, filename@),
{
    let ghost start = cursor@;
    let ghost mut n: int = 0;
    proof {
        assert(start.buffered.skip(0) =~= start.buffered);
    }
    loop
        invariant
            start == old(cursor)@,
            0 <= n <= start.buffered.len(),
            !start.failed ==> cursor@ == (CurseFileView {
                buffered: start.buffered.skip(n),
                ..start
            }),
            start.failed ==> cursor@ == start,
            forall|j: int| 0 <= j < n ==> (#[trigger] start.buffered[j]).file_name != filename@,
        decreases start.buffered.len() - n,
    {
        match cursor.try_next() {
            Pull::Item(file) => {
                proof {
                    assert(start.buffered.skip(n)[0] == start.buffered[n]);
                    assert(start.buffered.skip(n).drop_first() =~= start.buffered.skip(n + 1));
                }
                if str_eq(file.file_name.as_str(), filename) {
                    proof {
                        lemma_first_match_is(start.buffered, filename@, n);
                    }
                    return Lookup::Found(file.id);
                }
                proof {
                    n = n + 1;
                }
            },
            Pull::Fetch { page_index, page_size } => {
                proof {
                    assert(start.buffered.skip(n) =~= Seq::<ModFileView>::empty());
                }
                return Lookup::Fetch { page_index, page_size };
            },
            Pull::End => {
                proof {
                    assert(start.buffered.skip(n) =~= Seq::<ModFileView>::empty());
                }
                return Lookup::NotFound;
            },
            Pull::Failed => {
                return Lookup::Failed;
            },
        }
    }
}

} // verus!
