use dbi_ftp::errors::FtpError;
use dbi_ftp::files::is_valid_extension;
use dbi_ftp::files::parse_game_id;
use dbi_ftp::files::FsTree;
use dbi_ftp::manager::FTPManager;

fn file(name: &str, path: &str, size: u64) -> FsTree {
    FsTree::File { name: name.to_string(), path: path.to_string(), size }
}

fn dir(name: &str, entries: Vec<FsTree>) -> FsTree {
    FsTree::Dir { name: name.to_string(), entries }
}

#[test]
fn scan_finds_game_file_and_skips_sibling() {
    let mgr = FTPManager::new();
    let root = dir(
        "games",
        vec![dir(
            "5000",
            vec![
                file("game.nsp", "/games/5000/game.nsp", 10),
                file("readme.txt", "/games/5000/readme.txt", 3),
            ],
        )],
    );
    let found = mgr.scan_game_files(&Some(root)).unwrap();
    assert_eq!(found.len(), 1);
    assert_eq!(found[0].game_id, 5000);
    assert_eq!(found[0].game_title, "5000");
    assert_eq!(found[0].file_name, "game.nsp");
    assert_eq!(found[0].file_path, "/games/5000/game.nsp");
    assert_eq!(found[0].file_size, 10);
}

#[test]
fn scan_missing_root_is_path_not_found() {
    let mgr = FTPManager::new();
    assert_eq!(mgr.scan_game_files(&None).unwrap_err(), FtpError::PathNotFound);
}

#[test]
fn scan_file_root_is_not_a_directory() {
    let mgr = FTPManager::new();
    let root = file("games.nsp", "/games.nsp", 1);
    assert_eq!(mgr.scan_game_files(&Some(root)).unwrap_err(), FtpError::NotADirectory);
}

#[test]
fn scan_skips_non_numeric_and_top_level_files() {
    let mgr = FTPManager::new();
    let root = dir(
        "games",
        vec![
            file("stray.nsp", "/games/stray.nsp", 5),
            dir("saves", vec![file("a.nsp", "/games/saves/a.nsp", 5)]),
            dir("17", vec![file("b.nsp", "/games/17/b.nsp", 6)]),
        ],
    );
    let found = mgr.scan_game_files(&Some(root)).unwrap();
    assert_eq!(found.len(), 1);
    assert_eq!(found[0].game_id, 17);
    assert_eq!(found[0].file_name, "b.nsp");
}

#[test]
fn scan_recurses_and_titles_by_parent_directory() {
    let mgr = FTPManager::new();
    let root = dir(
        "games",
        vec![dir(
            "42",
            vec![
                file("base.NSP", "/games/42/base.NSP", 7),
                dir("Updates", vec![file("patch.XCZ", "/games/42/Updates/patch.XCZ", 8)]),
            ],
        )],
    );
    let found = mgr.scan_game_files(&Some(root)).unwrap();
    assert_eq!(found.len(), 2);
    assert_eq!(found[0].file_name, "base.NSP");
    assert_eq!(found[0].game_title, "42");
    assert_eq!(found[1].file_name, "patch.XCZ");
    assert_eq!(found[1].game_title, "Updates");
    assert_eq!(found[1].game_id, 42);
}

#[test]
fn extension_allow_list_is_case_insensitive() {
    for ok in ["a.nsp", "a.nsz", "a.nsc", "a.xci", "a.xcz", "a.NSP", "b.XcI", "x.y.nsz"] {
        assert!(is_valid_extension(ok), "{ok} should match");
    }
    for bad in ["a.txt", "nsp", ".nsp", "a.nsp.txt", "a.", "a.nspp", "a.ns", ""] {
        assert!(!is_valid_extension(bad), "{bad} should not match");
    }
}

#[test]
fn game_ids_parse_as_decimal_names() {
    assert_eq!(parse_game_id("5000"), Some(5000));
    assert_eq!(parse_game_id("00123"), Some(123));
    assert_eq!(parse_game_id("0"), Some(0));
    assert_eq!(parse_game_id("4294967295"), Some(4294967295));
    assert_eq!(parse_game_id("4294967296"), None);
    assert_eq!(parse_game_id("12a"), None);
    assert_eq!(parse_game_id(""), None);
    assert_eq!(parse_game_id("-3"), None);
}
