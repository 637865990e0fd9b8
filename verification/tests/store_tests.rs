use pji::config::{PjiConfig, PjiMetadata, RootChoice};
use pji::constant::APP_METADATA_VERSION_V1;
use pji::repo::{GitProtocol, GitURI, PjiRepo, Timestamp};
use std::path::PathBuf;

fn timestamp_now() -> Timestamp {
    let now = chrono::Utc::now();
    Timestamp { secs: now.timestamp(), nanos: now.timestamp_subsec_nanos() }
}

fn at(secs: i64) -> Timestamp {
    Timestamp { secs, nanos: 0 }
}

fn repo_in(dir: &str, secs: i64) -> PjiRepo {
    PjiRepo {
        git_uri: GitURI {
            hostname: "h".to_string(),
            user: "u".to_string(),
            repo: format!("r{}", secs),
            protocol: GitProtocol::SSH,
            uri: format!("git@h:u/r{}.git", secs),
        },
        dir: dir.to_string(),
        root: "/root".to_string(),
        create_time: at(secs),
        last_open_time: at(secs),
    }
}

#[test]
fn test_has_repo_handles_different_uri_formats() {
    let mut metadata = PjiMetadata { version: APP_METADATA_VERSION_V1.to_string(), repos: vec![] };

    let root = PathBuf::from("/test/root");

    // Create a repo with SSH URI
    let ssh_repo = PjiRepo {
        git_uri: GitURI {
            hostname: "github.com".to_string(),
            user: "testuser".to_string(),
            repo: "testrepo".to_string(),
            protocol: GitProtocol::SSH,
            uri: "git@github.com:testuser/testrepo.git".to_string(),
        },
        dir: root.join("github.com/testuser/testrepo").display().to_string(),
        root: root.display().to_string(),
        create_time: timestamp_now(),
        last_open_time: timestamp_now(),
    };

    // Add the SSH repo to metadata
    metadata.repos.push(ssh_repo.clone());

    // Create an equivalent repo with HTTPS URI
    let https_repo = PjiRepo {
        git_uri: GitURI {
            hostname: "github.com".to_string(),
            user: "testuser".to_string(),
            repo: "testrepo".to_string(),
            protocol: GitProtocol::HTTP,
            uri: "https://github.com/testuser/testrepo.git".to_string(),
        },
        dir: root.join("github.com/testuser/testrepo").display().to_string(),
        root: root.display().to_string(),
        create_time: timestamp_now(),
        last_open_time: timestamp_now(),
    };

    // Test that has_repo correctly identifies them as the same repository
    assert!(metadata.has_repo(&ssh_repo), "Should find SSH repo");
    assert!(metadata.has_repo(&https_repo), "Should find HTTPS repo as duplicate of SSH repo");

    // Test remove_repo works correctly
    metadata.remove_repo(&https_repo);
    assert!(metadata.repos.is_empty(), "Remove should work regardless of URI format");
}

#[test]
fn has_repo_by_either_protocol_of_parsed_urls() {
    let by_ssh = PjiRepo::new("git@github.com:u/r.git", "/ws");
    let by_https = PjiRepo::new("https://github.com/u/r.git", "/ws");
    let mut with_ssh = PjiMetadata::default();
    with_ssh.add_repo(&by_ssh);
    assert!(with_ssh.has_repo(&by_https));
    let mut with_https = PjiMetadata::default();
    with_https.add_repo(&by_https);
    assert!(with_https.has_repo(&by_ssh));
    let same_root = PjiRepo::new("https://github.com/u/r.git", "/ws/");
    assert!(with_ssh.has_repo(&same_root));
    let elsewhere = PjiRepo::new("https://github.com/u/r.git", "/other");
    assert!(!with_ssh.has_repo(&elsewhere));
    let other_user = PjiRepo::new("https://github.com/v/r.git", "/ws");
    assert!(!with_ssh.has_repo(&other_user));
}

#[test]
fn default_store_is_empty() {
    let metadata = PjiMetadata::default();
    assert_eq!(metadata.version, "v1");
    assert!(metadata.repos.is_empty());
    assert!(!metadata.has_repo(&repo_in("/root/a", 1)));
}

#[test]
fn add_repo_appends_without_checking() {
    let mut metadata = PjiMetadata::default();
    let a = repo_in("/root/a", 1);
    metadata.add_repo(&a).add_repo(&a);
    assert_eq!(metadata.repos.len(), 2);
    assert_eq!(metadata.repos[1].dir, "/root/a");
    assert_eq!(metadata.version, "v1");
}

#[test]
fn remove_repo_keeps_the_others_in_order() {
    let mut metadata = PjiMetadata::default();
    let a = repo_in("/root/a", 1);
    let b = repo_in("/root/b", 2);
    let c = repo_in("/root/c", 3);
    metadata.add_repo(&a).add_repo(&b).add_repo(&a).add_repo(&c);
    metadata.remove_repo(&a);
    let dirs: Vec<&str> = metadata.repos.iter().map(|r| r.dir.as_str()).collect();
    assert_eq!(dirs, vec!["/root/b", "/root/c"]);
    metadata.remove_repo(&a);
    assert_eq!(metadata.repos.len(), 2);
}

#[test]
fn deduplicate_keeps_first_seen_order() {
    let mut metadata = PjiMetadata::default();
    let order = ["B", "A", "C", "B", "A"];
    for (i, dir) in order.iter().enumerate() {
        metadata.add_repo(&repo_in(dir, i as i64));
    }
    metadata.deduplicate();
    let dirs: Vec<&str> = metadata.repos.iter().map(|r| r.dir.as_str()).collect();
    assert_eq!(dirs, vec!["B", "A", "C"]);
    let kept: Vec<i64> = metadata.repos.iter().map(|r| r.create_time.secs).collect();
    assert_eq!(kept, vec![0, 1, 2]);
    assert_eq!(metadata.version, "v1");
}

#[test]
fn deduplicate_twice_is_deduplicate_once() {
    let mut metadata = PjiMetadata::default();
    for (i, dir) in ["x", "x", "y", "x", "z", "y"].iter().enumerate() {
        metadata.add_repo(&repo_in(dir, i as i64));
    }
    metadata.deduplicate();
    let once: Vec<(String, i64)> =
        metadata.repos.iter().map(|r| (r.dir.clone(), r.create_time.secs)).collect();
    metadata.deduplicate();
    let twice: Vec<(String, i64)> =
        metadata.repos.iter().map(|r| (r.dir.clone(), r.create_time.secs)).collect();
    assert_eq!(once, twice);
    assert_eq!(once, vec![("x".to_string(), 0), ("y".to_string(), 2), ("z".to_string(), 4)]);
}

#[test]
fn deduplicate_leaves_distinct_and_empty_stores() {
    let mut empty = PjiMetadata::default();
    empty.deduplicate();
    assert!(empty.repos.is_empty());
    let mut metadata = PjiMetadata::default();
    metadata.add_repo(&repo_in("a", 1)).add_repo(&repo_in("b", 2));
    metadata.deduplicate();
    assert_eq!(metadata.repos.len(), 2);
    assert_eq!(metadata.repos[0].dir, "a");
    assert_eq!(metadata.repos[1].dir, "b");
}

#[test]
fn positions_in_the_store() {
    let mut metadata = PjiMetadata::default();
    metadata
        .add_repo(&repo_in("/ws/h/u/a", 1))
        .add_repo(&repo_in("/ws/h/u/b", 2))
        .add_repo(&repo_in("/ws/h/u/a", 3));
    assert_eq!(metadata.position_of_dir("/ws/h/u/a"), Some(0));
    assert_eq!(metadata.position_of_dir("/ws/h/u/b"), Some(1));
    assert_eq!(metadata.position_of_dir("/ws/h/u"), None);
    assert_eq!(metadata.position_of_cwd("/ws/h/u/b/src/deep"), Some(1));
    assert_eq!(metadata.position_of_cwd("/ws/h/u/a"), Some(0));
    assert_eq!(metadata.position_of_cwd("/ws/h/u/abc"), None);
    assert_eq!(metadata.position_of_cwd("/ws/h/u"), None);
}

#[test]
fn config_roots() {
    assert_eq!(PjiConfig::default_root_in("/home/me"), "/home/me/pji");
    let config = PjiConfig::with_default_root("/home/me/");
    assert_eq!(config.roots, vec!["/home/me/pji"]);
    assert!(config.has_root("/home/me/pji"));
    assert!(config.has_root("/home/me//pji/"));
    assert!(!config.has_root("/home/me"));
    let none = PjiConfig { roots: vec![] };
    assert!(!none.has_root("/home/me/pji"));
}

#[test]
fn adding_roots_and_choosing_one() {
    let mut config = PjiConfig { roots: vec![] };
    assert_eq!(config.root_choice(), RootChoice::AddRoot);
    assert!(config.add_root("/ws"));
    assert_eq!(config.root_choice(), RootChoice::Only);
    assert!(!config.add_root("/ws"));
    assert_eq!(config.roots, vec!["/ws"]);
    assert!(config.add_root("/other"));
    assert_eq!(config.roots, vec!["/ws", "/other"]);
    assert_eq!(config.root_choice(), RootChoice::Select);
}

#[test]
fn deduplicate_takes_directories_as_paths() {
    let mut metadata = PjiMetadata::default();
    metadata
        .add_repo(&repo_in("/ws/h/u/a", 1))
        .add_repo(&repo_in("/ws/h/u/b", 2))
        .add_repo(&repo_in("/ws//h/u/a/", 3))
        .add_repo(&repo_in("/ws/h/u/./b", 4))
        .add_repo(&repo_in("ws/h/u/a", 5));
    metadata.deduplicate();
    let dirs: Vec<&str> = metadata.repos.iter().map(|r| r.dir.as_str()).collect();
    assert_eq!(dirs, vec!["/ws/h/u/a", "/ws/h/u/b", "ws/h/u/a"]);
}
