use modpack_sync::curse_files::{ModFile, Page};
use modpack_sync::engine::{Mod, ReconciliationAction, SkipReason};
use modpack_sync::error::{ConfigError, LookupError, SyncError};
use modpack_sync::scanner::DirEntry;
use modpack_sync::session::{run, Command, Event, Failure, Session};
use modpack_sync::sync::Config;

/// A directory, a manifest and a remote service that live in memory.
struct World {
    files: Vec<String>,
    manifest: Option<Vec<Mod>>,
    catalog: Vec<(String, Vec<(u64, String)>)>,
    broken_projects: Vec<String>,
    broken_downloads: Vec<u64>,
    unlistable: bool,
    log: Vec<String>,
}

fn world(files: &[&str], manifest: Vec<Mod>) -> World {
    World {
        files: files.iter().map(|f| f.to_string()).collect(),
        manifest: Some(manifest),
        catalog: vec![
            ("12345".to_string(), vec![(1000, "foo-1.3.0.jar".to_string()), (999, "foo-1.2.0.jar".to_string())]),
            ("777".to_string(), vec![(5, "bar-2.0.jar".to_string())]),
        ],
        broken_projects: vec![],
        broken_downloads: vec![],
        unlistable: false,
        log: vec![],
    }
}

fn config() -> Config {
    Config::build(&["sync".to_string(), "/pack".to_string()], Some("secret".to_string())).unwrap()
}

fn entry(filename: &str, url: Option<&str>) -> Mod {
    Mod {
        filename: filename.to_string(),
        name: "Name".to_string(),
        version: "1".to_string(),
        url: url.map(|u| u.to_string()),
    }
}

fn foo() -> Mod {
    entry("foo-1.2.0.jar", Some("https://host/mods/12345"))
}

fn bar() -> Mod {
    entry("bar-2.0.jar", Some("https://host/mods/777"))
}

impl World {
    fn perform(&mut self, command: &Command) -> Event {
        match command {
            Command::Stage => {
                self.log.push("stage".to_string());
                Event::Done
            }
            Command::Load => {
                self.log.push("load".to_string());
                match self.manifest.take() {
                    Some(manifest) => Event::Manifest(manifest),
                    None => Event::Failed,
                }
            }
            Command::List => {
                self.log.push("list".to_string());
                if self.unlistable {
                    return Event::Failed;
                }
                let entries =
                    self.files.iter().map(|f| DirEntry { name: f.clone(), is_file: true });
                Event::Listing(entries.collect())
            }
            Command::Remove { filenames } => {
                self.log.push(format!("remove {}", filenames.join(",")));
                self.files.retain(|f| !filenames.contains(f));
                Event::Done
            }
            Command::Fetch { project_id, page_index, page_size } => {
                self.log.push(format!("fetch {} {} {}", project_id, page_index, page_size));
                if self.broken_projects.contains(project_id) {
                    return Event::Failed;
                }
                let records = match self.catalog.iter().find(|(id, _)| id == project_id) {
                    Some((_, records)) => records.clone(),
                    None => return Event::Failed,
                };
                let from = (*page_index as usize) * (*page_size as usize);
                let data = records
                    .iter()
                    .skip(from)
                    .take(*page_size as usize)
                    .map(|(id, name)| ModFile { id: *id, file_name: name.clone() })
                    .collect();
                Event::Page(Page { data, total_count: records.len() as u64 })
            }
            Command::Download { project_id, file_id, filename } => {
                self.log.push(format!("download {} {} {}", project_id, file_id, filename));
                if self.broken_downloads.contains(file_id) {
                    return Event::Failed;
                }
                if !self.files.contains(filename) {
                    self.files.push(filename.clone());
                }
                Event::Done
            }
            Command::Finish => {
                self.log.push("finish".to_string());
                Event::Done
            }
            Command::Abort { error } => {
                self.log.push(format!("abort {:?}", error));
                Event::Done
            }
        }
    }

    fn run(&mut self) -> Session {
        self.log.clear();
        let (mut session, mut command) = run(config());
        loop {
            let event = self.perform(&command);
            if matches!(command, Command::Finish | Command::Abort { .. }) {
                return session;
            }
            let next = session.step(event);
            session = next.0;
            command = next.1;
        }
    }
}

fn is_skip(action: &ReconciliationAction, why: SkipReason) -> bool {
    matches!(action, ReconciliationAction::Skip { reason } if *reason == why)
}

#[test]
fn fresh_install_downloads_by_the_resolved_identifier() {
    let mut world = world(&[], vec![foo()]);
    let session = world.run();
    assert_eq!(
        world.log,
        vec![
            "stage",
            "load",
            "list",
            "fetch 12345 0 50",
            "download 12345 999 foo-1.2.0.jar",
            "list",
            "finish"
        ]
    );
    assert_eq!(world.files, vec!["foo-1.2.0.jar"]);
    assert!(session.is_over());
    assert!(session.failures().is_empty());
    assert_eq!(session.actions().len(), 1);
    match &session.actions()[0] {
        ReconciliationAction::Replace { obsolete, target } => {
            assert!(obsolete.is_empty());
            assert_eq!(target.filename, "foo-1.2.0.jar");
        }
        other => panic!("expected a replacement, got {:?}", other),
    }
}

#[test]
fn installed_release_needs_no_lookup() {
    let mut world = world(&["foo-1.2.0.jar"], vec![foo()]);
    let session = world.run();
    assert_eq!(world.log, vec!["stage", "load", "list", "list", "finish"]);
    assert_eq!(world.files, vec!["foo-1.2.0.jar"]);
    assert!(is_skip(&session.actions()[0], SkipReason::UpToDate));
    assert!(session.failures().is_empty());
}

#[test]
fn older_release_is_removed_before_the_download() {
    let mut world = world(&["foo-1.1.0.jar"], vec![foo()]);
    world.run();
    assert_eq!(
        world.log,
        vec![
            "stage",
            "load",
            "list",
            "remove foo-1.1.0.jar",
            "fetch 12345 0 50",
            "download 12345 999 foo-1.2.0.jar",
            "list",
            "finish"
        ]
    );
    assert_eq!(world.files, vec!["foo-1.2.0.jar"]);
}

#[test]
fn failed_lookup_is_reported_and_the_run_goes_on() {
    let missing = entry("foo-9.9.9.jar", Some("https://host/mods/12345"));
    let mut world = world(&["keep.txt"], vec![missing, bar()]);
    let session = world.run();
    assert_eq!(
        world.log,
        vec![
            "stage",
            "load",
            "list",
            "fetch 12345 0 50",
            "list",
            "fetch 777 0 50",
            "download 777 5 bar-2.0.jar",
            "list",
            "finish"
        ]
    );
    assert_eq!(world.files, vec!["keep.txt", "bar-2.0.jar"]);
    assert_eq!(
        session.failures(),
        &vec![Failure { entry: 0, error: SyncError::Lookup(LookupError::NotFound) }]
    );
    assert_eq!(session.actions().len(), 2);
}

#[test]
fn lookup_reads_every_page_before_it_gives_up() {
    let records: Vec<(u64, String)> = (0..120).map(|k| (k, format!("other-{}.jar", k))).collect();
    let mut world = world(&[], vec![foo()]);
    world.catalog = vec![("12345".to_string(), records)];
    let session = world.run();
    assert_eq!(
        world.log,
        vec![
            "stage",
            "load",
            "list",
            "fetch 12345 0 50",
            "fetch 12345 1 50",
            "fetch 12345 2 50",
            "list",
            "finish"
        ]
    );
    assert!(world.files.is_empty());
    assert_eq!(session.failures()[0].error, SyncError::Lookup(LookupError::NotFound));
}

#[test]
fn lookup_stops_at_the_page_of_the_match() {
    let mut records: Vec<(u64, String)> = (0..120).map(|k| (k, format!("other-{}.jar", k))).collect();
    records[60] = (4242, "foo-1.2.0.jar".to_string());
    let mut world = world(&[], vec![foo()]);
    world.catalog = vec![("12345".to_string(), records)];
    world.run();
    assert_eq!(
        world.log,
        vec![
            "stage",
            "load",
            "list",
            "fetch 12345 0 50",
            "fetch 12345 1 50",
            "download 12345 4242 foo-1.2.0.jar",
            "list",
            "finish"
        ]
    );
}

#[test]
fn failed_page_fails_its_entry_only() {
    let mut world = world(&[], vec![foo(), bar()]);
    world.broken_projects = vec!["12345".to_string()];
    let session = world.run();
    assert_eq!(
        session.failures(),
        &vec![Failure { entry: 0, error: SyncError::Lookup(LookupError::PageFailed) }]
    );
    assert_eq!(world.files, vec!["bar-2.0.jar"]);
    assert!(world.log.contains(&"finish".to_string()));
}

#[test]
fn failed_download_fails_its_entry_only() {
    let mut world = world(&["foo-1.1.0.jar"], vec![foo(), bar()]);
    world.broken_downloads = vec![999];
    let session = world.run();
    assert_eq!(
        world.log,
        vec![
            "stage",
            "load",
            "list",
            "remove foo-1.1.0.jar",
            "fetch 12345 0 50",
            "download 12345 999 foo-1.2.0.jar",
            "list",
            "fetch 777 0 50",
            "download 777 5 bar-2.0.jar",
            "list",
            "finish"
        ]
    );
    assert_eq!(session.failures(), &vec![Failure { entry: 0, error: SyncError::Download }]);
    assert_eq!(world.files, vec!["bar-2.0.jar"]);
}

#[test]
fn second_run_on_a_converged_directory_does_nothing() {
    let manifest = || {
        vec![
            foo(),
            entry("off-1.0.jar.disabled", Some("https://host/mods/1")),
            bar(),
            entry("nourl-1.0.jar", None),
        ]
    };
    let mut world = world(&["foo-1.1.0.jar", "stray-0.1.jar", "notes.txt"], manifest());
    world.run();
    assert_eq!(world.files, vec!["notes.txt", "foo-1.2.0.jar", "bar-2.0.jar"]);
    world.manifest = Some(manifest());
    let session = world.run();
    assert_eq!(world.log, vec!["stage", "load", "list", "list", "list", "finish"]);
    assert_eq!(world.files, vec!["notes.txt", "foo-1.2.0.jar", "bar-2.0.jar"]);
    assert!(session.failures().is_empty());
    assert_eq!(session.actions().len(), 4);
}

#[test]
fn orphans_are_removed_at_the_end() {
    let mut world = world(&["stray-0.1.jar", "foo-1.2.0.jar", "old-3.jar", "notes.txt"], vec![foo()]);
    world.run();
    assert_eq!(
        world.log,
        vec!["stage", "load", "list", "list", "remove stray-0.1.jar,old-3.jar", "finish"]
    );
    assert_eq!(world.files, vec!["foo-1.2.0.jar", "notes.txt"]);
}

#[test]
fn disabled_entry_is_decided_without_a_listing() {
    let disabled = entry("foo-1.2.0.jar.disabled", Some("https://host/mods/12345"));
    let mut world = world(&["foo-1.2.0.jar.disabled"], vec![disabled]);
    let session = world.run();
    assert_eq!(world.log, vec!["stage", "load", "list", "finish"]);
    assert_eq!(world.files, vec!["foo-1.2.0.jar.disabled"]);
    assert!(is_skip(&session.actions()[0], SkipReason::Disabled));
}

#[test]
fn entry_without_url_is_warned_about_and_removes_nothing_itself() {
    let mut world = world(&["foo-1.2.0.jar", "foo-1.1.0.jar"], vec![entry("foo-1.2.0.jar", None)]);
    let session = world.run();
    assert_eq!(world.log, vec!["stage", "load", "list", "remove foo-1.1.0.jar", "finish"]);
    assert_eq!(world.files, vec!["foo-1.2.0.jar"]);
    assert!(matches!(session.actions()[0], ReconciliationAction::WarnMissingUrl { .. }));
    assert!(session.failures().is_empty());
}

#[test]
fn empty_manifest_sweeps_the_directory() {
    let mut world = world(&["a-1.0.jar", "b.txt"], vec![]);
    let session = world.run();
    assert_eq!(world.log, vec!["stage", "load", "list", "remove a-1.0.jar", "finish"]);
    assert_eq!(world.files, vec!["b.txt"]);
    assert!(session.actions().is_empty());
    assert!(session.manifest().is_empty());
}

#[test]
fn later_entry_sees_what_an_earlier_one_installed() {
    let first = entry("foo-1.2.0.jar", Some("https://host/mods/12345"));
    let second = entry("foo-1.3.0.jar", Some("https://host/mods/12345"));
    let mut world = world(&[], vec![first, second]);
    world.run();
    assert_eq!(
        world.log,
        vec![
            "stage",
            "load",
            "list",
            "fetch 12345 0 50",
            "download 12345 999 foo-1.2.0.jar",
            "list",
            "remove foo-1.2.0.jar",
            "fetch 12345 0 50",
            "download 12345 1000 foo-1.3.0.jar",
            "list",
            "finish"
        ]
    );
    assert_eq!(world.files, vec!["foo-1.3.0.jar"]);
}

#[test]
fn run_with_an_unsendable_key_is_given_up_at_once() {
    let config = Config {
        api_key: "bad\nkey".to_string(),
        base_dir: "/pack".to_string(),
        mods_dir: "/pack/.minecraft/mods".to_string(),
        mods_file: "modlist.json".to_string(),
    };
    let (session, command) = run(config);
    assert!(matches!(
        command,
        Command::Abort { error: SyncError::Config(ConfigError::InvalidCredential) }
    ));
    assert!(session.is_over());
    let (session, command) = session.step(Event::Done);
    assert!(matches!(
        command,
        Command::Abort { error: SyncError::Config(ConfigError::InvalidCredential) }
    ));
    assert!(session.is_over());
}

#[test]
fn run_begins_with_the_staging_of_the_directory() {
    let (session, command) = run(config());
    assert!(matches!(command, Command::Stage));
    assert!(!session.is_over());
    assert_eq!(session.config().mods_dir, "/pack/.minecraft/mods");
    assert_eq!(session.config().api_key, "secret");
}

#[test]
fn directory_that_cannot_be_created_ends_the_run() {
    let (session, _) = run(config());
    let (session, command) = session.step(Event::Failed);
    assert!(matches!(command, Command::Abort { error: SyncError::Directory }));
    assert!(session.is_over());
}

#[test]
fn manifest_that_cannot_be_read_ends_the_run() {
    let mut world = world(&["a-1.0.jar"], vec![]);
    world.manifest = None;
    let session = world.run();
    assert_eq!(world.log, vec!["stage", "load", "abort Manifest"]);
    assert_eq!(world.files, vec!["a-1.0.jar"]);
    assert!(session.is_over());
}

#[test]
fn directory_that_cannot_be_listed_ends_the_run() {
    let mut world = world(&["a-1.0.jar"], vec![foo()]);
    world.unlistable = true;
    world.run();
    assert_eq!(world.log, vec!["stage", "load", "list", "abort Directory"]);
    assert_eq!(world.files, vec!["a-1.0.jar"]);
}

#[test]
fn report_of_the_wrong_kind_counts_as_a_failure() {
    let (session, _) = run(config());
    let (_, command) = session.step(Event::Listing(vec![]));
    assert!(matches!(command, Command::Abort { error: SyncError::Directory }));

    let (session, _) = run(config());
    let (session, _) = session.step(Event::Done);
    let (_, command) = session.step(Event::Done);
    assert!(matches!(command, Command::Abort { error: SyncError::Manifest }));

    let (session, _) = run(config());
    let (session, _) = session.step(Event::Done);
    let (session, command) = session.step(Event::Manifest(vec![foo(), bar()]));
    assert!(matches!(command, Command::List));
    let (session, command) = session.step(Event::Listing(vec![]));
    assert!(matches!(command, Command::Fetch { .. }));
    let (session, command) = session.step(Event::Done);
    assert!(matches!(command, Command::List));
    assert_eq!(
        session.failures(),
        &vec![Failure { entry: 0, error: SyncError::Lookup(LookupError::PageFailed) }]
    );
}

#[test]
fn finished_run_stays_finished() {
    let mut world = world(&[], vec![]);
    let session = world.run();
    let (session, command) = session.step(Event::Failed);
    assert!(matches!(command, Command::Finish));
    let (session, command) = session.step(Event::Listing(vec![]));
    assert!(matches!(command, Command::Finish));
    assert!(session.is_over());
}

#[test]
fn removal_counts_as_done_however_it_went() {
    let (session, _) = run(config());
    let (session, _) = session.step(Event::Done);
    let (session, _) = session.step(Event::Manifest(vec![foo()]));
    let listing = vec![DirEntry { name: "foo-1.1.0.jar".to_string(), is_file: true }];
    let (session, command) = session.step(Event::Listing(listing));
    match command {
        Command::Remove { filenames } => assert_eq!(filenames, vec!["foo-1.1.0.jar"]),
        other => panic!("expected a removal, got {:?}", other),
    }
    let (session, command) = session.step(Event::Failed);
    match command {
        Command::Fetch { project_id, page_index, page_size } => {
            assert_eq!(project_id, "12345");
            assert_eq!(page_index, 0);
            assert_eq!(page_size, 50);
        }
        other => panic!("expected a page request, got {:?}", other),
    }
    assert!(session.failures().is_empty());
}
