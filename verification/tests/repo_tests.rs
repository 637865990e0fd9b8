use pji::repo::{GitProtocol, GitURI, PjiRepo, Timestamp};
use pji::util::parse_git_url;

fn github(user: &str, repo: &str) -> PjiRepo {
    PjiRepo::new(&format!("git@github.com:{}/{}.git", user, repo), "/ws")
}

#[test]
fn protocol_names() {
    assert_eq!(GitProtocol::SSH.as_str(), "ssh");
    assert_eq!(GitProtocol::HTTP.as_str(), "https");
}

#[test]
fn new_repo_lies_under_root_host_user_repo() {
    let repo = PjiRepo::new("git@github.com:u/r.git", "/ws");
    assert_eq!(repo.dir, "/ws/github.com/u/r");
    assert_eq!(repo.root, "/ws");
    assert_eq!(repo.git_uri.hostname, "github.com");
    assert_eq!(repo.git_uri.user, "u");
    assert_eq!(repo.git_uri.repo, "r");
    assert_eq!(repo.git_uri.protocol, GitProtocol::SSH);
    assert_eq!(repo.git_uri.uri, "git@github.com:u/r.git");
    let closed = PjiRepo::new("https://gitlab.com/group/tool.git", "/ws/");
    assert_eq!(closed.dir, "/ws/gitlab.com/group/tool");
    assert_eq!(closed.git_uri.protocol, GitProtocol::HTTP);
}

#[test]
fn directory_is_the_same_for_equal_inputs() {
    let a = PjiRepo::new("git@github.com:u/r.git", "/ws");
    let b = PjiRepo::new("git@github.com:u/r.git", "/ws");
    assert_eq!(a.dir, b.dir);
    let by_https = PjiRepo::new("https://github.com/u/r.git", "/ws");
    assert_eq!(a.dir, by_https.dir);
}

#[test]
fn changing_root_changes_only_the_prefix() {
    let a = PjiRepo::new("git@github.com:u/r.git", "/one");
    let b = PjiRepo::new("git@github.com:u/r.git", "/two/deeper");
    assert_eq!(a.dir, "/one/github.com/u/r");
    assert_eq!(b.dir, "/two/deeper/github.com/u/r");
    assert_eq!(a.dir.strip_prefix("/one/"), b.dir.strip_prefix("/two/deeper/"));
    let empty = PjiRepo::new("git@github.com:u/r.git", "");
    assert_eq!(empty.dir, "github.com/u/r");
}

#[test]
fn directory_agrees_with_std_paths() {
    for root in ["/ws", "/ws/", "", "rel/root", "/"] {
        for uri in ["git@github.com:u/r.git", "https://example.org/a.b/c-d.git", "git@/srv:u/r.git", "git@a/b/:u/r.git"] {
            let id = parse_git_url(uri).unwrap();
            let expected = std::path::PathBuf::from(root).join(&id.hostname).join(&id.user).join(&id.repo);
            let repo = PjiRepo::new(uri, root);
            assert_eq!(repo.dir, expected.display().to_string());
        }
    }
}

#[test]
fn new_repo_is_created_and_opened_now() {
    let before = chrono::Utc::now().timestamp();
    let repo = github("u", "r");
    let after = chrono::Utc::now().timestamp();
    assert!(before <= repo.create_time.secs && repo.create_time.secs <= after);
    assert!(before <= repo.last_open_time.secs && repo.last_open_time.secs <= after);
    assert!(repo.create_time.secs > 1_600_000_000);
    assert!(repo.create_time.nanos < 1_000_000_000);
    assert!(repo.last_open_time.nanos < 1_000_000_000);
}

#[test]
fn with_times_keeps_the_instants() {
    let id = parse_git_url("https://github.com/u/r.git").unwrap();
    let created = Timestamp { secs: 10, nanos: 5 };
    let opened = Timestamp { secs: 20, nanos: 6 };
    let repo = PjiRepo::with_times(id, "/ws", created, opened);
    assert_eq!(repo.create_time, created);
    assert_eq!(repo.last_open_time, opened);
    assert_eq!(repo.dir, "/ws/github.com/u/r");
}

#[test]
fn opening_changes_only_the_open_time() {
    let id = parse_git_url("https://github.com/u/r.git").unwrap();
    let created = Timestamp { secs: 10, nanos: 5 };
    let mut repo = PjiRepo::with_times(id, "/ws", created, created);
    repo.opened_at(Timestamp { secs: 99, nanos: 1 });
    assert_eq!(repo.last_open_time, Timestamp { secs: 99, nanos: 1 });
    assert_eq!(repo.create_time, created);
    repo.opened_at(Timestamp { secs: -5, nanos: 1_999_999_999 });
    let before = chrono::Utc::now().timestamp();
    repo.update_open_time();
    let after = chrono::Utc::now().timestamp();
    assert!(before <= repo.last_open_time.secs && repo.last_open_time.secs <= after);
    assert!(repo.last_open_time.secs >= 0);
    assert!(repo.last_open_time.nanos < 1_000_000_000);
    assert!(repo.last_open_time.secs > 1_600_000_000);
    assert_eq!(repo.create_time, created);
    assert_eq!(repo.dir, "/ws/github.com/u/r");
    assert_eq!(repo.root, "/ws");
    assert_eq!(repo.git_uri.uri, "https://github.com/u/r.git");
}

#[test]
fn home_url_of_github() {
    let repo = PjiRepo {
        git_uri: GitURI {
            hostname: "github.com".to_string(),
            user: "u".to_string(),
            repo: "r".to_string(),
            protocol: GitProtocol::SSH,
            uri: "git@github.com:u/r.git".to_string(),
        },
        dir: "/ws/github.com/u/r".to_string(),
        root: "/ws".to_string(),
        create_time: Timestamp { secs: 0, nanos: 0 },
        last_open_time: Timestamp { secs: 0, nanos: 0 },
    };
    assert_eq!(repo.get_home_url(), Some("https://github.com/u/r".to_string()));
}

#[test]
fn home_url_of_other_hosts_is_none() {
    for uri in ["git@gitlab.com:u/r.git", "https://GitHub.com/u/r.git", "https://github.com.evil.org/u/r.git", "git@github.co:u/r.git"] {
        let repo = PjiRepo::new(uri, "/ws");
        assert_eq!(repo.get_home_url(), None);
        assert_eq!(repo.get_issue_url(Some(1)), None);
        assert_eq!(repo.get_issue_url(None), None);
        assert_eq!(repo.get_pr_url(Some(1)), None);
        assert_eq!(repo.get_pr_url(None), None);
    }
}

#[test]
fn issue_and_pr_urls() {
    let repo = github("rust-lang", "rust");
    assert_eq!(repo.get_issue_url(None), Some("https://github.com/rust-lang/rust/issues".to_string()));
    assert_eq!(repo.get_issue_url(Some(42)), Some("https://github.com/rust-lang/rust/issues/42".to_string()));
    assert_eq!(repo.get_pr_url(None), Some("https://github.com/rust-lang/rust/pull".to_string()));
    assert_eq!(repo.get_pr_url(Some(7)), Some("https://github.com/rust-lang/rust/pull/7".to_string()));
    assert_eq!(repo.get_pr_url(Some(0)), Some("https://github.com/rust-lang/rust/pull/0".to_string()));
    assert_eq!(repo.get_pr_url(Some(10)), Some("https://github.com/rust-lang/rust/pull/10".to_string()));
    assert_eq!(repo.get_issue_url(Some(1009)), Some("https://github.com/rust-lang/rust/issues/1009".to_string()));
    assert_eq!(
        repo.get_issue_url(Some(u32::MAX)),
        Some("https://github.com/rust-lang/rust/issues/4294967295".to_string())
    );
}

#[test]
fn table_row_lists_the_fields() {
    let repo = PjiRepo::new("https://github.com/u/r.git", "/ws");
    assert_eq!(
        repo.table_row(),
        vec!["/ws/github.com/u/r", "https", "github.com", "u", "r", "https://github.com/u/r.git"]
    );
    let by_ssh = PjiRepo::new("git@github.com:u/r.git", "/ws");
    assert_eq!(by_ssh.table_row()[1], "ssh");
}
