use modpack_sync::scanner::{find_existing_versions, scan, DirEntry, LocalRelease};

fn file(name: &str) -> DirEntry {
    DirEntry { name: name.to_string(), is_file: true }
}

fn directory(name: &str) -> DirEntry {
    DirEntry { name: name.to_string(), is_file: false }
}

fn names(local: &Vec<LocalRelease>) -> Vec<&str> {
    local.iter().map(|r| r.filename.as_str()).collect()
}

#[test]
fn scan_of_an_empty_listing_is_empty() {
    assert!(scan(&vec![]).is_empty());
}

#[test]
fn scan_keeps_regular_release_files_in_order() {
    let listing = vec![
        file("zeta-2.0.jar"),
        file("notes.txt"),
        directory("nested.jar"),
        file("alpha-1.0.jar"),
        file("alpha-1.0.jar.disabled"),
        file("jar"),
        file("UPPER-1.0.JAR"),
    ];
    let local = scan(&listing);
    assert_eq!(names(&local), vec!["zeta-2.0.jar", "alpha-1.0.jar"]);
}

#[test]
fn scan_runs_the_heuristics_on_each_release() {
    let local = scan(&vec![file("jei-forge-1.20.1-15.2.0.jar")]);
    assert_eq!(local.len(), 1);
    assert_eq!(local[0].filename, "jei-forge-1.20.1-15.2.0.jar");
    assert_eq!(local[0].logical_name.as_deref(), Some("jei"));
    assert_eq!(local[0].version_token.as_deref(), Some("15.2.0"));
}

#[test]
fn scan_lists_what_the_heuristics_cannot_classify() {
    let local = scan(&vec![file("readme.jar"), file("foo1.jar")]);
    assert_eq!(names(&local), vec!["readme.jar", "foo1.jar"]);
    assert_eq!(local[0].logical_name, None);
    assert_eq!(local[0].version_token, None);
    assert_eq!(local[1].logical_name, None);
    assert_eq!(local[1].version_token.as_deref(), Some("foo1"));
}

#[test]
fn scan_keeps_files_of_the_same_name_apart_from_directories() {
    let local = scan(&vec![directory("foo-1.0.jar"), file("foo-1.0.jar")]);
    assert_eq!(names(&local), vec!["foo-1.0.jar"]);
}

#[test]
fn existing_versions_are_the_releases_of_that_name() {
    let local = scan(&vec![
        file("foo-1.1.0.jar"),
        file("bar-2.0.jar"),
        file("foo-forge-1.2.0.jar"),
        file("foobar-1.0.jar"),
        file("readme.jar"),
    ]);
    let found = find_existing_versions(&local, "foo");
    assert_eq!(
        found,
        vec![
            ("foo-1.1.0.jar".to_string(), "1.1.0".to_string()),
            ("foo-forge-1.2.0.jar".to_string(), "1.2.0".to_string()),
        ]
    );
    assert!(find_existing_versions(&local, "Foo").is_empty());
    assert!(find_existing_versions(&local, "").is_empty());
    assert!(find_existing_versions(&vec![], "foo").is_empty());
}
