use pji::command::GitOutput;
use pji::repo::GitProtocol;
use pji::util::{parse_git_url, remote_url_args, try_get_repo_from_dir};
use regex::Regex;

fn parts(url: &str) -> Option<(String, String, String, GitProtocol)> {
    parse_git_url(url).map(|g| (g.hostname, g.user, g.repo, g.protocol))
}

fn some(h: &str, u: &str, r: &str, p: GitProtocol) -> Option<(String, String, String, GitProtocol)> {
    Some((h.to_string(), u.to_string(), r.to_string(), p))
}

#[test]
fn parses_ssh_urls() {
    assert_eq!(parts("git@github.com:u/r.git"), some("github.com", "u", "r", GitProtocol::SSH));
    assert_eq!(
        parts("git@gitlab.example.org:Some-User/my.repo.git"),
        some("gitlab.example.org", "Some-User", "my.repo", GitProtocol::SSH)
    );
    assert_eq!(parts("git@h:u:v/r.git"), some("h", "u:v", "r", GitProtocol::SSH));
    assert_eq!(parts("git@a/b:u/r.git"), some("a/b", "u", "r", GitProtocol::SSH));
    assert_eq!(parts("git@h:u/r.git.git"), some("h", "u", "r.git", GitProtocol::SSH));
    let parsed = parse_git_url("git@github.com:u/r.git").unwrap();
    assert_eq!(parsed.uri, "git@github.com:u/r.git");
}

#[test]
fn parses_http_urls() {
    assert_eq!(parts("https://github.com/u/r.git"), some("github.com", "u", "r", GitProtocol::HTTP));
    assert_eq!(parts("http://github.com/u/r.git"), some("github.com", "u", "r", GitProtocol::HTTP));
    assert_eq!(
        parts("https://user:pw@host:8080/Team/Proj.git"),
        some("user:pw@host:8080", "Team", "Proj", GitProtocol::HTTP)
    );
    assert_eq!(parts("https://h/ü/日本.git"), some("h", "ü", "日本", GitProtocol::HTTP));
    let parsed = parse_git_url("http://github.com/u/r.git").unwrap();
    assert_eq!(parsed.uri, "http://github.com/u/r.git");
}

#[test]
fn rejects_urls_without_git_suffix() {
    assert_eq!(parts("git@github.com:u/r"), None);
    assert_eq!(parts("https://github.com/u/r"), None);
    assert_eq!(parts("https://github.com/u/r.git/"), None);
    assert_eq!(parts("https://github.com/u/r.gitx"), None);
    assert_eq!(parts("git@github.com:u/r.git\n"), None);
    assert_eq!(parts("git@github.com:u/.git"), None);
    assert_eq!(parts("https://github.com/u/.git"), None);
}

#[test]
fn rejects_wrong_number_of_segments() {
    assert_eq!(parts("git@github.com:u/x/r.git"), None);
    assert_eq!(parts("https://github.com/u/x/r.git"), None);
    assert_eq!(parts("git@github.com:r.git"), None);
    assert_eq!(parts("https://github.com/r.git"), None);
    assert_eq!(parts("https://github.com//r.git"), None);
    assert_eq!(parts("https:///u/r.git"), None);
    assert_eq!(parts("git@:u/r.git"), None);
    assert_eq!(parts("git@h:/r.git"), None);
}

#[test]
fn rejects_unsupported_schemes() {
    assert_eq!(parts("ssh://git@github.com/u/r.git"), None);
    assert_eq!(parts("ftp://github.com/u/r.git"), None);
    assert_eq!(parts("github.com/u/r.git"), None);
    assert_eq!(parts(" git@github.com:u/r.git"), None);
    assert_eq!(parts("GIT@github.com:u/r.git"), None);
    assert_eq!(parts("httpss://github.com/u/r.git"), None);
    assert_eq!(parts("http:/github.com/u/r.git"), None);
    assert_eq!(parts(""), None);
    assert_eq!(parts("git@"), None);
    assert_eq!(parts("https://"), None);
}

#[test]
fn parser_agrees_with_the_patterns() {
    let ssh_re = Regex::new(r"^git@(?P<host>[^:]+):(?P<user>[^/]+)/(?P<repo>[^/]+)\.git$").unwrap();
    let http_re =
        Regex::new(r"^https?://(?P<host>[^/]+)/(?P<user>[^/]+)/(?P<repo>[^/]+)\.git$").unwrap();
    let inputs = [
        "git@github.com:u/r.git",
        "git@h:u:v/r.git",
        "git@a/b:u/r.git",
        "git@h:u/r.git.git",
        "git@h:u/r.git\n",
        "git@h\n:u\n/r\n.git",
        "git@h:u/r",
        "git@h:u/a/r.git",
        "git@h:/r.git",
        "git@:u/r.git",
        "git@h:u/.git",
        "git@h:r.git",
        "git@https://h/u/r.git",
        "https://github.com/u/r.git",
        "http://github.com/u/r.git",
        "https://h:1/u/r.git",
        "https://h/u/r.git.git",
        "https://h/u/r",
        "https://h/u/a/r.git",
        "https://h//r.git",
        "https:///u/r.git",
        "https://h/u/.git",
        "https://h/r.git",
        "httpss://h/u/r.git",
        "http//h/u/r.git",
        "https://git@h:u/r.git",
        "https://h/ü/日本.git",
        "ssh://git@h/u/r.git",
        "",
        ".git",
        "git@",
        "http://",
    ];
    for url in inputs {
        let expected = if let Some(caps) = ssh_re.captures(url) {
            some(&caps["host"], &caps["user"], &caps["repo"], GitProtocol::SSH)
        } else if let Some(caps) = http_re.captures(url) {
            some(&caps["host"], &caps["user"], &caps["repo"], GitProtocol::HTTP)
        } else {
            None
        };
        assert_eq!(parts(url), expected, "{:?}", url);
    }
}

#[test]
fn remote_of_a_directory() {
    assert_eq!(remote_url_args("/ws/r"), vec!["-C", "/ws/r", "config", "--get", "remote.origin.url"]);
    let ok = GitOutput::Exited {
        success: true,
        stdout: "  git@github.com:u/r.git\n".to_string(),
        stderr: String::new(),
    };
    assert_eq!(try_get_repo_from_dir(&ok), Some("git@github.com:u/r.git".to_string()));
    let blank = GitOutput::Exited { success: true, stdout: " \n\t".to_string(), stderr: String::new() };
    assert_eq!(try_get_repo_from_dir(&blank), None);
    let failed = GitOutput::Exited {
        success: false,
        stdout: "git@github.com:u/r.git\n".to_string(),
        stderr: String::new(),
    };
    assert_eq!(try_get_repo_from_dir(&failed), None);
    assert_eq!(try_get_repo_from_dir(&GitOutput::NotStarted { message: "no git".to_string() }), None);
}
