//! Repositories: the identity that a remote URL gives, the directory that a
//! repository has under a root, and the pages of its hosting provider.

use crate::paths::{join_path, path_join};
use crate::text::{decimal, opt_view, push_decimal, str_eq, views};
use crate::util::{parse_git_url, parse_git_url_spec};
use vstd::prelude::*;

verus! {

/// The protocol of a remote URL.
#[derive(Clone, Copy, Debug, PartialEq, Eq, Structural)]
pub enum GitProtocol {
    SSH,
    HTTP,
}

impl GitProtocol {
    /// The protocol's name: `ssh` or `https`.
    pub fn as_str(&self) -> (name: &'static str)
        ensures
            name@ == match *self {
                GitProtocol::SSH => "ssh"@,
                GitProtocol::HTTP => "https"@,
            },
    {
        match self {
            GitProtocol::SSH => "ssh",
            GitProtocol::HTTP => "https",
        }
    }
}

/// The identity that a remote URL gives.
#[derive(Debug)]
pub struct GitURI {
    pub hostname: String,
    pub user: String,
    pub repo: String,
    pub protocol: GitProtocol,
    pub uri: String,
}

/// What a `GitURI` holds, as mathematical values.
pub struct GitUriView {
    pub hostname: Seq<char>,
    pub user: Seq<char>,
    pub repo: Seq<char>,
    pub protocol: GitProtocol,
    pub uri: Seq<char>,
}

impl View for GitURI {
    type V = GitUriView;

    open spec fn view(&self) -> GitUriView {
        GitUriView {
            hostname: self.hostname@,
            user: self.user@,
            repo: self.repo@,
            protocol: self.protocol,
            uri: self.uri@,
        }
    }
}

impl Clone for GitURI {
    fn clone(&self) -> (r: Self)
        ensures
            r == *self,
    {
        GitURI {
            hostname: self.hostname.clone(),
            user: self.user.clone(),
            repo: self.repo.clone(),
            protocol: self.protocol,
            uri: self.uri.clone(),
        }
    }
}

/// An identity is valid if it names a host, a user and a repository: none of
/// the three is empty.
pub open spec fn valid_identity(id: GitUriView) -> bool {
    id.hostname.len() > 0 && id.user.len() > 0 && id.repo.len() > 0
}

/// An instant: seconds since the start of 1970 in UTC, and the nanoseconds
/// into that second.
#[derive(Clone, Copy, Debug, PartialEq, Eq, Structural)]
pub struct Timestamp {
    pub secs: i64,
    pub nanos: u32,
}

/// An instant as the system clock gives it: not before the start of 1970,
/// and less than a second into its second.
pub open spec fn clock_instant(t: Timestamp) -> bool {
    t.secs >= 0 && t.nanos < 1_000_000_000
}

/// Calls `chrono::Utc::now` and takes the instant apart with
/// `DateTime::timestamp` and `DateTime::timestamp_subsec_nanos`. Which
/// instant comes back is up to the system clock. What is claimed holds of
/// each: chrono makes the instant from the time that has passed since the
/// start of 1970, in whole seconds and in the nanoseconds of the second begun,
/// which are fewer than a billion, and the two calls hand these two numbers
/// back. Where the clock stands before 1970, chrono stops the program.
#[verifier::external_body]
pub(crate) fn now() -> (t: Timestamp)
    ensures
        clock_instant(t),
{
    let t = chrono::Utc::now();
    Timestamp { secs: t.timestamp(), nanos: t.timestamp_subsec_nanos() }
}

/// A repository under a root directory.
#[derive(Debug)]
pub struct PjiRepo {
    pub git_uri: GitURI,
    pub dir: String,
    pub root: String,
    pub create_time: Timestamp,
    pub last_open_time: Timestamp,
}

/// What a `PjiRepo` holds, as mathematical values.
pub struct RepoView {
    pub git_uri: GitUriView,
    pub dir: Seq<char>,
    pub root: Seq<char>,
    pub create_time: Timestamp,
    pub last_open_time: Timestamp,
}

impl View for PjiRepo {
    type V = RepoView;

    open spec fn view(&self) -> RepoView {
        RepoView {
            git_uri: self.git_uri@,
            dir: self.dir@,
            root: self.root@,
            create_time: self.create_time,
            last_open_time: self.last_open_time,
        }
    }
}

impl Clone for PjiRepo {
    fn clone(&self) -> (r: Self)
        ensures
            r == *self,
    {
        PjiRepo {
            git_uri: self.git_uri.clone(),
            dir: self.dir.clone(),
            root: self.root.clone(),
            create_time: self.create_time,
            last_open_time: self.last_open_time,
        }
    }
}

/// The place of a repository below a root: `hostname/user/repo`.
pub open spec fn relative_dir(hostname: Seq<char>, user: Seq<char>, repo: Seq<char>) -> Seq<char> {
    join_path(join_path(hostname, user), repo)
}

/// The directory of a repository: the root joined with the hostname, the user
/// and the repository's name, in that order.
pub open spec fn directory(root: Seq<char>, id: GitUriView) -> Seq<char> {
    join_path(join_path(join_path(root, id.hostname), id.user), id.repo)
}

/// The home page of a repository, for the hosting provider that is known.
pub open spec fn home_url_of(id: GitUriView) -> Option<Seq<char>> {
    if id.hostname == "github.com"@ {
        Some("https://github.com/"@ + id.user + "/"@ + id.repo)
    } else {
        None
    }
}

/// A page below the home page: the listing under `section`, or the item with
/// the given number in it.
pub open spec fn section_url_of(id: GitUriView, section: Seq<char>, number: Option<u32>) -> Option<
    Seq<char>,
> {
    match home_url_of(id) {
        Some(home) => Some(
            match number {
                Some(n) => home + section + "/"@ + decimal(n as nat),
                None => home + section,
            },
        ),
        None => None,
    }
}

impl PjiRepo {
    /// A record is well formed if its directory is the one that its root and
    /// its identity give.
    pub open spec fn wf(&self) -> bool {
        self@.dir == directory(self@.root, self@.git_uri)
    }

    /// The repository that `git_uri` names, under `root`, with the two
    /// instants given.
    pub fn with_times(
        git_uri: GitURI,
        root: &str,
        create_time: Timestamp,
        last_open_time: Timestamp,
    ) -> (r: Self)
        ensures
            r@ == (RepoView {
                git_uri: git_uri@,
                dir: directory(root@, git_uri@),
                root: root@,
                create_time,
                last_open_time,
            }),
            r.wf(),
    {
        let host_dir = path_join(root, git_uri.hostname.as_str());
        let user_dir = path_join(host_dir.as_str(), git_uri.user.as_str());
        let dir = path_join(user_dir.as_str(), git_uri.repo.as_str());
        PjiRepo { git_uri, dir, root: root.to_owned(), create_time, last_open_time }
    }

    /// The repository that the remote URL names, under `root`, created and
    /// last opened now: both times are instants of the system clock.
    pub fn new(repo_uri: &str, root: &str) -> (r: Self)
        requires
            parse_git_url_spec(repo_uri@) is Some,
        ensures
            Some(r@.git_uri) == parse_git_url_spec(repo_uri@),
            r@.dir == directory(root@, r@.git_uri),
            r@.root == root@,
            r.wf(),
            valid_identity(r@.git_uri),
            clock_instant(r@.create_time),
            clock_instant(r@.last_open_time),
    {
        let git_uri = parse_git_url(repo_uri).unwrap();
        let create_time = now();
        let last_open_time = now();
        Self::with_times(git_uri, root, create_time, last_open_time)
    }

    /// Records that the repository was opened at `at`.
    pub fn opened_at(&mut self, at: Timestamp)
        ensures
            final(self)@ == (RepoView { last_open_time: at, ..old(self)@ }),
    {
        self.last_open_time = at;
    }

    /// Records that the repository was opened now: the time of the last
    /// opening becomes an instant of the system clock, and nothing else
    /// changes.
    pub fn update_open_time(&mut self)
        ensures
            final(self)@ == (RepoView {
                last_open_time: final(self)@.last_open_time,
                ..old(self)@
            }),
            clock_instant(final(self)@.last_open_time),
    {
        let at = now();
        self.opened_at(at);
    }

    /// The cells under which a repository is listed: directory, protocol,
    /// host, user, repository name and URL.
    pub fn table_row(&self) -> (row: Vec<String>)
        ensures
            views(row@) == seq![
                self@.dir,
                match self.git_uri.protocol {
                    GitProtocol::SSH => "ssh"@,
                    GitProtocol::HTTP => "https"@,
                },
                self@.git_uri.hostname,
                self@.git_uri.user,
                self@.git_uri.repo,
                self@.git_uri.uri,
            ],
    {
        let mut row: Vec<String> = Vec::new();
        row.push(self.dir.clone());
        row.push(self.git_uri.protocol.as_str().to_owned());
        row.push(self.git_uri.hostname.clone());
        row.push(self.git_uri.user.clone());
        row.push(self.git_uri.repo.clone());
        row.push(self.git_uri.uri.clone());
        assert(views(row@) =~= seq![
            self@.dir,
            match self.git_uri.protocol {
                GitProtocol::SSH => "ssh"@,
                GitProtocol::HTTP => "https"@,
            },
            self@.git_uri.hostname,
            self@.git_uri.user,
            self@.git_uri.repo,
            self@.git_uri.uri,
        ]);
        row
    }

    fn section_url(&self, section: &str, number: Option<u32>) -> (url: Option<String>)
        ensures
            opt_view(url) == section_url_of(self.git_uri@, section@, number),
    {
        match self.get_home_url() {
            Some(home) => {
                let mut url = home;
                url.append(section);
                match number {
                    Some(n) => {
                        url.append("/");
                        push_decimal(&mut url, n);
                    },
                    None => {},
                }
                Some(url)
            },
            None => None,
        }
    }

    /// The repository's home page, if its host is a known provider.
    pub fn get_home_url(&self) -> (url: Option<String>)
        ensures
            opt_view(url) == home_url_of(self.git_uri@),
    {
        if str_eq(self.git_uri.hostname.as_str(), "github.com") {
            let mut url = "https://github.com/".to_owned();
            url.append(self.git_uri.user.as_str());
            url.append("/");
            url.append(self.git_uri.repo.as_str());
            Some(url)
        } else {
            None
        }
    }

    /// The page of one issue, or the list of issues when no number is given.
    pub fn get_issue_url(&self, issue: Option<u32>) -> (url: Option<String>)
        ensures
            opt_view(url) == section_url_of(self.git_uri@, "/issues"@, issue),
    {
        self.section_url("/issues", issue)
    }

    /// The page of one pull request, or the list of pull requests when no
    /// number is given.
    pub fn get_pr_url(&self, pr: Option<u32>) -> (url: Option<String>)
        ensures
            opt_view(url) == section_url_of(self.git_uri@, "/pull"@, pr),
    {
        self.section_url("/pull", pr)
    }
}

/// A root as it stands before what lies under it: closed by a separator,
/// unless it is empty.
pub open spec fn root_prefix(root: Seq<char>) -> Seq<char> {
    if root.len() == 0 || root.last() == '/' {
        root
    } else {
        root + seq!['/']
    }
}

/// A part of a directory that is not empty and does not begin at the root of
/// the file system.
pub open spec fn relative_part(part: Seq<char>) -> bool {
    part.len() > 0 && part[0] != '/'
}

/// The directory depends on the root, the host, the user and the repository
/// name alone: neither the protocol nor the spelling of the URL enters it.
pub proof fn lemma_directory_deterministic(
    root_a: Seq<char>,
    a: GitUriView,
    root_b: Seq<char>,
    b: GitUriView,
)
    requires
        root_a == root_b,
        a.hostname == b.hostname,
        a.user == b.user,
        a.repo == b.repo,
    ensures
        directory(root_a, a) == directory(root_b, b),
{
}

/// The root enters the directory as its prefix and nowhere else: the
/// directory is the root, closed by a separator, followed by the place of the
/// repository below any root.
pub proof fn lemma_directory_under_root(root: Seq<char>, id: GitUriView)
    requires
        relative_part(id.hostname),
        relative_part(id.user),
        relative_part(id.repo),
    ensures
        directory(root, id) == root_prefix(root) + relative_dir(id.hostname, id.user, id.repo),
{
    let host_dir = join_path(root, id.hostname);
    assert(host_dir =~= root_prefix(root) + id.hostname);
    let user_dir = join_path(host_dir, id.user);
    let below = join_path(id.hostname, id.user);
    assert(host_dir.last() == id.hostname.last());
    assert(user_dir =~= root_prefix(root) + below);
    assert(user_dir.last() == below.last());
    assert(directory(root, id) =~= root_prefix(root) + relative_dir(
        id.hostname,
        id.user,
        id.repo,
    ));
}

} // verus!
