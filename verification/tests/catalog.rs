use modpack_sync::curse_files::{
    extract_project_id, format_download_url, format_page_url, CurseFile, ModFile, Page, Pull,
    PAGE_SIZE,
};
use modpack_sync::error::{ConfigError, SyncError};
use modpack_sync::sync::{get_file_id, Lookup};

fn record(id: u64, name: &str) -> ModFile {
    ModFile { id, file_name: name.to_string() }
}

fn page(first_id: u64, count: u64, total_count: u64) -> Page {
    let data = (0..count).map(|k| record(first_id + k, &format!("file-{}.jar", first_id + k)));
    Page { data: data.collect(), total_count }
}

fn cursor() -> CurseFile {
    CurseFile::of("12345", "secret").unwrap()
}

fn item(pull: Pull) -> (u64, String) {
    match pull {
        Pull::Item(file) => (file.id, file.file_name),
        other => panic!("expected a record, got {:?}", other),
    }
}

fn wants(pull: Pull, index: u32) {
    match pull {
        Pull::Fetch { page_index, page_size } => {
            assert_eq!(page_index, index);
            assert_eq!(page_size, 50);
        }
        other => panic!("expected a request for page {}, got {:?}", index, other),
    }
}

#[test]
fn page_size_is_fifty() {
    assert_eq!(PAGE_SIZE, 50);
}

#[test]
fn cursor_keeps_project_and_key() {
    let cursor = CurseFile::of("12345", "secret").unwrap();
    assert_eq!(cursor.project_id(), "12345");
    assert_eq!(cursor.api_key(), "secret");
}

#[test]
fn cursor_refuses_a_key_that_is_no_header_value() {
    for key in ["bad\nkey", "bad\rkey", "nul\0", "del\x7f", "\x1f"] {
        match CurseFile::of("12345", key) {
            Err(error) => assert_eq!(error, SyncError::Config(ConfigError::InvalidCredential)),
            Ok(_) => panic!("accepted {:?}", key),
        }
    }
}

#[test]
fn cursor_accepts_every_header_value() {
    for key in ["", "plain", "with space", "tab\tinside", "$2a$10$abc/def.+=", "clé-ключ-鍵", "~"] {
        assert!(CurseFile::of("12345", key).is_ok(), "refused {:?}", key);
    }
}

#[test]
fn fresh_cursor_asks_for_the_first_page() {
    let mut cursor = cursor();
    wants(cursor.try_next(), 0);
    wants(cursor.try_next(), 0);
}

#[test]
fn records_come_in_the_order_of_the_page() {
    let mut cursor = cursor();
    cursor.supply(Some(Page {
        data: vec![record(3, "c.jar"), record(1, "a.jar"), record(2, "b.jar")],
        total_count: 3,
    }));
    assert_eq!(item(cursor.try_next()), (3, "c.jar".to_string()));
    assert_eq!(item(cursor.try_next()), (1, "a.jar".to_string()));
    assert_eq!(item(cursor.try_next()), (2, "b.jar".to_string()));
    assert!(matches!(cursor.try_next(), Pull::End));
    assert!(matches!(cursor.try_next(), Pull::End));
}

#[test]
fn catalog_ends_when_the_pages_cover_the_total() {
    let mut cursor = cursor();
    wants(cursor.try_next(), 0);
    cursor.supply(Some(page(0, 50, 120)));
    for k in 0..50 {
        assert_eq!(item(cursor.try_next()).0, k);
    }
    wants(cursor.try_next(), 1);
    cursor.supply(Some(page(50, 50, 120)));
    for k in 50..100 {
        assert_eq!(item(cursor.try_next()).0, k);
    }
    wants(cursor.try_next(), 2);
    cursor.supply(Some(page(100, 20, 120)));
    for k in 100..120 {
        assert_eq!(item(cursor.try_next()).0, k);
    }
    assert!(matches!(cursor.try_next(), Pull::End));
}

#[test]
fn catalog_of_exactly_one_page_ends_after_it() {
    let mut cursor = cursor();
    cursor.supply(Some(page(0, 50, 50)));
    for _ in 0..50 {
        item(cursor.try_next());
    }
    assert!(matches!(cursor.try_next(), Pull::End));
}

#[test]
fn catalog_one_record_over_a_page_needs_a_second_page() {
    let mut cursor = cursor();
    cursor.supply(Some(page(0, 50, 51)));
    for _ in 0..50 {
        item(cursor.try_next());
    }
    wants(cursor.try_next(), 1);
}

#[test]
fn empty_catalog_ends_after_its_first_page() {
    let mut cursor = cursor();
    wants(cursor.try_next(), 0);
    cursor.supply(Some(page(0, 0, 0)));
    assert!(matches!(cursor.try_next(), Pull::End));
}

#[test]
fn empty_page_before_the_total_asks_for_the_next() {
    let mut cursor = cursor();
    cursor.supply(Some(page(0, 0, 60)));
    wants(cursor.try_next(), 1);
    cursor.supply(Some(page(0, 0, 60)));
    assert!(matches!(cursor.try_next(), Pull::End));
}

#[test]
fn last_reported_total_counts() {
    let mut cursor = cursor();
    cursor.supply(Some(page(0, 1, 500)));
    item(cursor.try_next());
    wants(cursor.try_next(), 1);
    cursor.supply(Some(page(1, 1, 2)));
    item(cursor.try_next());
    assert!(matches!(cursor.try_next(), Pull::End));
}

#[test]
fn failed_fetch_is_final() {
    let mut cursor = cursor();
    cursor.supply(Some(page(0, 2, 200)));
    item(cursor.try_next());
    cursor.supply(None);
    assert!(matches!(cursor.try_next(), Pull::Failed));
    assert!(matches!(cursor.try_next(), Pull::Failed));
    cursor.supply(Some(page(0, 2, 2)));
    assert!(matches!(cursor.try_next(), Pull::Failed));
}

#[test]
fn page_counter_stops_at_its_limit() {
    let mut cursor = cursor();
    cursor.supply(Some(page(0, 0, u64::MAX)));
    wants(cursor.try_next(), 1);
}

#[test]
fn lookup_finds_the_first_record_of_that_name() {
    let mut cursor = cursor();
    assert_eq!(
        get_file_id(&mut cursor, "foo-1.2.0.jar"),
        Lookup::Fetch { page_index: 0, page_size: 50 }
    );
    cursor.supply(Some(Page {
        data: vec![
            record(1000, "foo-1.3.0.jar"),
            record(999, "foo-1.2.0.jar"),
            record(998, "foo-1.2.0.jar"),
        ],
        total_count: 300,
    }));
    assert_eq!(get_file_id(&mut cursor, "foo-1.2.0.jar"), Lookup::Found(999));
}

#[test]
fn lookup_stops_at_the_match_and_leaves_the_rest_buffered() {
    let mut cursor = cursor();
    cursor.supply(Some(Page {
        data: vec![record(1, "a.jar"), record(2, "b.jar"), record(3, "c.jar")],
        total_count: 300,
    }));
    assert_eq!(get_file_id(&mut cursor, "b.jar"), Lookup::Found(2));
    assert_eq!(item(cursor.try_next()), (3, "c.jar".to_string()));
}

#[test]
fn lookup_compares_names_exactly() {
    let mut cursor = cursor();
    cursor.supply(Some(Page {
        data: vec![
            record(1, "Foo-1.2.0.jar"),
            record(2, "foo-1.2.0.jar "),
            record(3, "foo-1.2.0"),
            record(4, "xfoo-1.2.0.jar"),
        ],
        total_count: 4,
    }));
    assert_eq!(get_file_id(&mut cursor, "foo-1.2.0.jar"), Lookup::NotFound);
}

#[test]
fn lookup_goes_through_the_pages_until_the_match() {
    let mut cursor = cursor();
    let mut fetched = Vec::new();
    let found = loop {
        match get_file_id(&mut cursor, "file-120.jar") {
            Lookup::Fetch { page_index, page_size } => {
                assert_eq!(page_size, 50);
                fetched.push(page_index);
                cursor.supply(Some(page(50 * page_index as u64, 50, 1000)));
            }
            other => break other,
        }
    };
    assert_eq!(found, Lookup::Found(120));
    assert_eq!(fetched, vec![0, 1, 2]);
}

#[test]
fn lookup_is_not_found_once_the_catalog_is_exhausted() {
    let mut cursor = cursor();
    let mut fetched = Vec::new();
    let found = loop {
        match get_file_id(&mut cursor, "missing.jar") {
            Lookup::Fetch { page_index, .. } => {
                fetched.push(page_index);
                let left = 120 - 50 * page_index as u64;
                cursor.supply(Some(page(50 * page_index as u64, left.min(50), 120)));
            }
            other => break other,
        }
    };
    assert_eq!(found, Lookup::NotFound);
    assert_eq!(fetched, vec![0, 1, 2]);
    assert_eq!(get_file_id(&mut cursor, "missing.jar"), Lookup::NotFound);
}

#[test]
fn lookup_fails_when_a_page_cannot_be_fetched() {
    let mut cursor = cursor();
    cursor.supply(Some(page(0, 50, 1000)));
    assert_eq!(
        get_file_id(&mut cursor, "missing.jar"),
        Lookup::Fetch { page_index: 1, page_size: 50 }
    );
    cursor.supply(None);
    assert_eq!(get_file_id(&mut cursor, "missing.jar"), Lookup::Failed);
    assert_eq!(get_file_id(&mut cursor, "file-3.jar"), Lookup::Failed);
}

#[test]
fn page_address() {
    assert_eq!(
        format_page_url("12345", 0, 50),
        "https://www.curseforge.com/api/v1/mods/12345/files?pageIndex=0&pageSize=50&sort=dateCreated&sortDescending=true&removeAlphas=false"
    );
    assert_eq!(
        format_page_url("jei", 17, 100),
        "https://www.curseforge.com/api/v1/mods/jei/files?pageIndex=17&pageSize=100&sort=dateCreated&sortDescending=true&removeAlphas=false"
    );
}

#[test]
fn download_address() {
    assert_eq!(
        format_download_url("12345", 999),
        "https://www.curseforge.com/api/v1/mods/12345/files/999/download"
    );
    assert_eq!(
        format_download_url("", 0),
        "https://www.curseforge.com/api/v1/mods//files/0/download"
    );
}

#[test]
fn project_is_the_last_path_segment() {
    assert_eq!(extract_project_id("https://host/mods/12345"), "12345");
    assert_eq!(extract_project_id("https://www.curseforge.com/minecraft/mc-mods/jei"), "jei");
    assert_eq!(extract_project_id("12345"), "12345");
    assert_eq!(extract_project_id("https://host/mods/12345/"), "");
    assert_eq!(extract_project_id(""), "");
    assert_eq!(extract_project_id("/"), "");
    assert_eq!(extract_project_id("https://host/módulos/número"), "número");
}
