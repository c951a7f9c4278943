use mcfetch::errors::status_ok;
use mcfetch::errors::FetchError;
use mcfetch::filter::applicable;
use mcfetch::filter::lib_included;
use mcfetch::listing::list_files;
use mcfetch::listing::FsTree;
use mcfetch::paths::asset_dest;
use mcfetch::paths::asset_url;
use mcfetch::paths::client_dest;
use mcfetch::paths::hash_prefix;
use mcfetch::paths::index_file;
use mcfetch::paths::library_dest;
use mcfetch::paths::manifest_cache_file;
use mcfetch::paths::store_rel_path;
use mcfetch::store::ContentStore;
use mcfetch::types::LibraryEntry;
use mcfetch::types::PlatformRule;

fn lib_entry(path: &str, url: &str, rules: Option<Vec<Option<&str>>>) -> LibraryEntry {
    LibraryEntry {
        path: path.to_string(),
        url: url.to_string(),
        rules: rules.map(|rs| {
            rs.into_iter()
                .map(|os| PlatformRule { os_name: os.map(|s| s.to_string()) })
                .collect()
        }),
    }
}

#[test]
fn status_ranges() {
    assert!(status_ok(200));
    assert!(status_ok(204));
    assert!(status_ok(299));
    assert!(!status_ok(199));
    assert!(!status_ok(300));
    assert!(!status_ok(404));
    assert!(!status_ok(500));
}

#[test]
fn error_labels() {
    assert_eq!(FetchError::NetworkError.describe(), "network error");
    assert_eq!(FetchError::ParseError.describe(), "parse error");
    assert_eq!(FetchError::FilesystemError.describe(), "filesystem error");
}

#[test]
fn path_layout() {
    assert_eq!(hash_prefix("abcdef"), "ab");
    assert_eq!(store_rel_path("abcdef"), "objects/ab/abcdef");
    assert_eq!(asset_dest("abcdef"), "assets/objects/ab/abcdef");
    assert_eq!(
        asset_url("abcdef"),
        "https://resources.download.minecraft.net/ab/abcdef"
    );
    assert_eq!(library_dest("org/x/x.jar"), "libraries/org/x/x.jar");
    assert_eq!(client_dest(), "client.jar");
    assert_eq!(manifest_cache_file("1.20.4"), "1.20.4.json");
    assert_eq!(index_file("12"), "assets/indexes/12.json");
}

#[test]
fn store_records_and_answers() {
    let mut store = ContentStore::new();
    assert!(!store.has("aabbcc"));
    store.record("aabbcc");
    assert!(store.has("aabbcc"));
    assert!(!store.has("aabbcd"));
    // recording again never overwrites or forgets
    store.record("aabbcc");
    assert!(store.has("aabbcc"));
}

#[test]
fn filter_no_rules_included() {
    let e = lib_entry("a.jar", "https://x/a.jar", None);
    assert!(lib_included(&e, "windows"));
    assert!(lib_included(&e, "osx"));
}

#[test]
fn filter_empty_rule_list_included() {
    let e = lib_entry("a.jar", "https://x/a.jar", Some(vec![]));
    assert!(lib_included(&e, "windows"));
}

#[test]
fn filter_first_rule_matches_target() {
    let e = lib_entry("a.jar", "https://x/a.jar", Some(vec![Some("windows")]));
    assert!(lib_included(&e, "windows"));
    assert!(!lib_included(&e, "linux"));
}

#[test]
fn filter_ignores_later_rules() {
    // first rule names another OS: excluded even though a later rule matches
    let e = lib_entry(
        "a.jar",
        "https://x/a.jar",
        Some(vec![Some("osx"), Some("windows")]),
    );
    assert!(!lib_included(&e, "windows"));
    // first rule matches: included even though a later rule names another OS
    let e2 = lib_entry(
        "b.jar",
        "https://x/b.jar",
        Some(vec![Some("windows"), Some("osx")]),
    );
    assert!(lib_included(&e2, "windows"));
    // a rule without an OS name never matches
    let e3 = lib_entry("c.jar", "https://x/c.jar", Some(vec![None]));
    assert!(!lib_included(&e3, "windows"));
}

#[test]
fn applicable_keeps_order() {
    let entries = vec![
        lib_entry("a.jar", "u1", None),
        lib_entry("b.jar", "u2", Some(vec![Some("osx")])),
        lib_entry("c.jar", "u3", Some(vec![Some("windows")])),
    ];
    let kept = applicable(&entries, "windows");
    assert_eq!(kept.len(), 2);
    assert_eq!(kept[0].path, "a.jar");
    assert_eq!(kept[1].path, "c.jar");
}

#[test]
fn list_files_flattens_depth_first() {
    let tree = FsTree::Dir {
        name: "libraries".to_string(),
        entries: vec![
            FsTree::File {
                name: "a.jar".to_string(),
            },
            FsTree::Dir {
                name: "org".to_string(),
                entries: vec![FsTree::File {
                    name: "b.jar".to_string(),
                }],
            },
            FsTree::File {
                name: "c.jar".to_string(),
            },
        ],
    };
    let files = list_files(&tree);
    assert_eq!(
        files,
        vec!["libraries/a.jar", "libraries/org/b.jar", "libraries/c.jar"]
    );
}

#[test]
fn list_files_single_file() {
    let tree = FsTree::File {
        name: "client.jar".to_string(),
    };
    assert_eq!(list_files(&tree), vec!["client.jar"]);
}

#[test]
fn list_files_empty_dir() {
    let tree = FsTree::Dir {
        name: "empty".to_string(),
        entries: vec![],
    };
    assert!(list_files(&tree).is_empty());
}
