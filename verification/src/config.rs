//! The configuration (the roots under which repositories live) and the
//! metadata store (the repositories that are known).

use crate::constant::{APP_METADATA_VERSION_V1, DEFAULT_WORKSPACE_NAME};
use crate::paths::{
    join_path, path_join, path_starts_with, paths_equal, same_path, starts_with,
};
use crate::repo::{PjiRepo, RepoView};
use crate::text::{str_eq, views};
use crate::util::{
    https_url, lemma_https_url_parses, lemma_ssh_url_parses, parse_git_url_spec, ssh_url,
    valid_part,
};
use vstd::prelude::*;

verus! {

/// The roots under which repositories are cloned.
#[derive(Debug)]
pub struct PjiConfig {
    pub roots: Vec<String>,
}

/// Whether one of `roots` is the same path as `root`.
pub open spec fn holds_root(roots: Seq<Seq<char>>, root: Seq<char>) -> bool {
    exists|i: int| 0 <= i < roots.len() && same_path(#[trigger] roots[i], root)
}

/// How the root to work under is found.
#[derive(Clone, Copy, Debug, PartialEq, Eq, Structural)]
pub enum RootChoice {
    /// No root is configured: one has to be added first.
    AddRoot,
    /// One root is configured: it is the one.
    Only,
    /// Several roots are configured: the user selects one.
    Select,
}

impl PjiConfig {
    /// The root that is used when none was configured: the workspace
    /// directory in the user's home.
    pub fn default_root_in(home: &str) -> (root: String)
        ensures
            root@ == join_path(home@, DEFAULT_WORKSPACE_NAME@),
    {
        path_join(home, DEFAULT_WORKSPACE_NAME)
    }

    /// The configuration with the default root alone.
    pub fn with_default_root(home: &str) -> (config: Self)
        ensures
            views(config.roots@) == seq![join_path(home@, DEFAULT_WORKSPACE_NAME@)],
    {
        let mut roots: Vec<String> = Vec::new();
        roots.push(Self::default_root_in(home));
        assert(views(roots@) =~= seq![join_path(home@, DEFAULT_WORKSPACE_NAME@)]);
        PjiConfig { roots }
    }

    /// How the root to work under is found: by adding one where there is
    /// none, at once where there is one, by selection where there are more.
    pub fn root_choice(&self) -> (choice: RootChoice)
        ensures
            choice == if self.roots@.len() == 0 {
                RootChoice::AddRoot
            } else if self.roots@.len() == 1 {
                RootChoice::Only
            } else {
                RootChoice::Select
            },
    {
        let len = self.roots.len();
        if len == 0 {
            RootChoice::AddRoot
        } else if len == 1 {
            RootChoice::Only
        } else {
            RootChoice::Select
        }
    }

    /// Adds `root` to the roots unless it is one of them already, and says
    /// whether it was added.
    pub fn add_root(&mut self, root: &str) -> (added: bool)
        ensures
            added == !holds_root(views(old(self).roots@), root@),
            views(final(self).roots@) == if added {
                views(old(self).roots@).push(root@)
            } else {
                views(old(self).roots@)
            },
    {
        if self.has_root(root) {
            false
        } else {
            let ghost before = views(self.roots@);
            self.roots.push(root.to_owned());
            assert(views(self.roots@) =~= before.push(root@));
            true
        }
    }

    /// Whether `root` is one of the roots.
    pub fn has_root(&self, root: &str) -> (found: bool)
        ensures
            found == holds_root(views(self.roots@), root@),
    {
        let mut i: usize = 0;
        while i < self.roots.len()
            invariant
                i <= self.roots.len(),
                forall|k: int| 0 <= k < i ==> !same_path(#[trigger] views(self.roots@)[k], root@),
            decreases self.roots.len() - i,
        {
            if paths_equal(self.roots[i].as_str(), root) {
                assert(same_path(views(self.roots@)[i as int], root@));
                return true;
            }
            i += 1;
        }
        false
    }
}

/// The views of a sequence of repositories.
pub open spec fn repo_views(s: Seq<PjiRepo>) -> Seq<RepoView> {
    Seq::new(s.len(), |i: int| s[i]@)
}

/// Whether two records denote the same repository: the same host, user and
/// repository name under the same root, whatever the protocol and the
/// spelling of the URL. Roots are compared as paths.
pub open spec fn same_repo(a: RepoView, b: RepoView) -> bool {
    &&& a.git_uri.hostname == b.git_uri.hostname
    &&& a.git_uri.user == b.git_uri.user
    &&& a.git_uri.repo == b.git_uri.repo
    &&& same_path(a.root, b.root)
}

/// Whether some record of `s` denotes the same repository as `target`.
pub open spec fn holds_repo(s: Seq<RepoView>, target: RepoView) -> bool {
    exists|i: int| 0 <= i < s.len() && same_repo(#[trigger] s[i], target)
}

/// The records of `s` that do not denote the same repository as `target`, in
/// their order.
pub open spec fn without_repo(s: Seq<RepoView>, target: RepoView) -> Seq<RepoView> {
    s.filter(|r: RepoView| !same_repo(r, target))
}

/// Whether some record of `s` lies in the directory `dir`. Directories are
/// compared as paths.
pub open spec fn holds_dir(s: Seq<RepoView>, dir: Seq<char>) -> bool {
    exists|i: int| 0 <= i < s.len() && same_path((#[trigger] s[i]).dir, dir)
}

/// The records of `s` that are the first of their directory, in their order.
pub open spec fn first_by_dir(s: Seq<RepoView>) -> Seq<RepoView>
    decreases s.len(),
{
    if s.len() == 0 {
        s
    } else if holds_dir(s.drop_last(), s.last().dir) {
        first_by_dir(s.drop_last())
    } else {
        first_by_dir(s.drop_last()).push(s.last())
    }
}

/// The repositories that are known.
#[derive(Debug)]
pub struct PjiMetadata {
    pub version: String,
    pub repos: Vec<PjiRepo>,
}

/// What a `PjiMetadata` holds, as mathematical values.
pub struct MetadataView {
    pub version: Seq<char>,
    pub repos: Seq<RepoView>,
}

impl View for PjiMetadata {
    type V = MetadataView;

    open spec fn view(&self) -> MetadataView {
        MetadataView { version: self.version@, repos: repo_views(self.repos@) }
    }
}

impl Default for PjiMetadata {
    /// The empty store of the current schema.
    fn default() -> (r: Self)
        ensures
            r@.version == APP_METADATA_VERSION_V1@,
            r@.repos == Seq::<RepoView>::empty(),
    {
        let r = PjiMetadata { version: APP_METADATA_VERSION_V1.to_owned(), repos: Vec::new() };
        assert(r@.repos =~= Seq::<RepoView>::empty());
        r
    }
}

fn is_same_repo(a: &PjiRepo, b: &PjiRepo) -> (same: bool)
    ensures
        same == same_repo(a@, b@),
{
    a.git_uri.hostname == b.git_uri.hostname && a.git_uri.user == b.git_uri.user && a.git_uri.repo
        == b.git_uri.repo && paths_equal(a.root.as_str(), b.root.as_str())
}

fn has_dir(repos: &Vec<PjiRepo>, dir: &str) -> (found: bool)
    ensures
        found == holds_dir(repo_views(repos@), dir@),
{
    let mut k: usize = 0;
    while k < repos.len()
        invariant
            k <= repos.len(),
            forall|j: int| 0 <= j < k ==> !same_path((#[trigger] repo_views(repos@)[j]).dir, dir@),
        decreases repos.len() - k,
    {
        if paths_equal(repos[k].dir.as_str(), dir) {
            assert(same_path(repo_views(repos@)[k as int].dir, dir@));
            return true;
        }
        k += 1;
    }
    false
}

impl PjiMetadata {
    /// Appends a record. Nothing is checked: a caller who wants no duplicate
    /// asks `has_repo` first.
    pub fn add_repo(&mut self, pj_repo: &PjiRepo) -> (store: &mut Self)
        ensures
            store@ == (MetadataView {
                version: old(self)@.version,
                repos: old(self)@.repos.push(pj_repo@),
            }),
            holds_repo(store@.repos, pj_repo@),
            *final(self) == *final(store),
    {
        let ghost before = repo_views(self.repos@);
        self.repos.push(pj_repo.clone());
        assert(repo_views(self.repos@) =~= before.push(pj_repo@));
        assert(same_repo(repo_views(self.repos@)[before.len() as int], pj_repo@));
        self
    }

    /// Removes every record that denotes the same repository as `pj_repo`; the
    /// others keep their order.
    pub fn remove_repo(&mut self, pj_repo: &PjiRepo) -> (store: &mut Self)
        ensures
            store@ == (MetadataView {
                version: old(self)@.version,
                repos: without_repo(old(self)@.repos, pj_repo@),
            }),
            !holds_repo(store@.repos, pj_repo@),
            *final(self) == *final(store),
    {
        let ghost all = repo_views(self.repos@);
        let mut kept: Vec<PjiRepo> = Vec::new();
        let mut i: usize = 0;
        proof {
            reveal(Seq::filter);
            assert(all.take(0) =~= Seq::<RepoView>::empty());
            assert(repo_views(kept@) =~= Seq::<RepoView>::empty());
        }
        while i < self.repos.len()
            invariant
                i <= self.repos.len(),
                *self == *old(self),
                all == repo_views(self.repos@),
                repo_views(kept@) == without_repo(all.take(i as int), pj_repo@),
            decreases self.repos.len() - i,
        {
            let ghost before = repo_views(kept@);
            proof {
                reveal(Seq::filter);
                assert(all.take(i + 1).drop_last() =~= all.take(i as int));
                assert(all.take(i + 1).last() == self.repos@[i as int]@);
            }
            if !is_same_repo(&self.repos[i], pj_repo) {
                kept.push(self.repos[i].clone());
                assert(repo_views(kept@) =~= before.push(self.repos@[i as int]@));
            }
            i += 1;
        }
        assert(all.take(i as int) =~= all);
        proof {
            lemma_removed_is_gone(all, pj_repo@);
        }
        self.repos = kept;
        self
    }

    /// Whether some record denotes the same repository as `pj_repo`.
    pub fn has_repo(&self, pj_repo: &PjiRepo) -> (found: bool)
        ensures
            found == holds_repo(self@.repos, pj_repo@),
    {
        let mut i: usize = 0;
        while i < self.repos.len()
            invariant
                i <= self.repos.len(),
                forall|k: int| 0 <= k < i ==> !same_repo(#[trigger] self@.repos[k], pj_repo@),
            decreases self.repos.len() - i,
        {
            if is_same_repo(&self.repos[i], pj_repo) {
                assert(same_repo(self@.repos[i as int], pj_repo@));
                return true;
            }
            i += 1;
        }
        false
    }

    /// The position of the first record in the directory `dir`.
    pub fn position_of_dir(&self, dir: &str) -> (found: Option<usize>)
        ensures
            match found {
                Some(i) => i < self@.repos.len() && self@.repos[i as int].dir == dir@ && forall|
                    k: int,
                | 0 <= k < i ==> (#[trigger] self@.repos[k]).dir != dir@,
                None => forall|k: int|
                    0 <= k < self@.repos.len() ==> (#[trigger] self@.repos[k]).dir != dir@,
            },
    {
        let mut i: usize = 0;
        while i < self.repos.len()
            invariant
                i <= self.repos.len(),
                forall|k: int| 0 <= k < i ==> (#[trigger] self@.repos[k]).dir != dir@,
            decreases self.repos.len() - i,
        {
            if str_eq(self.repos[i].dir.as_str(), dir) {
                assert(self@.repos[i as int].dir == dir@);
                return Some(i);
            }
            i += 1;
        }
        None
    }

    /// The position of the first record whose directory holds `cwd`: the
    /// repository in which `cwd` lies.
    pub fn position_of_cwd(&self, cwd: &str) -> (found: Option<usize>)
        ensures
            match found {
                Some(i) => i < self@.repos.len() && path_starts_with(
                    cwd@,
                    self@.repos[i as int].dir,
                ) && forall|k: int|
                    0 <= k < i ==> !path_starts_with(cwd@, (#[trigger] self@.repos[k]).dir),
                None => forall|k: int|
                    0 <= k < self@.repos.len() ==> !path_starts_with(
                        cwd@,
                        (#[trigger] self@.repos[k]).dir,
                    ),
            },
    {
        let mut i: usize = 0;
        while i < self.repos.len()
            invariant
                i <= self.repos.len(),
                forall|k: int|
                    0 <= k < i ==> !path_starts_with(cwd@, (#[trigger] self@.repos[k]).dir),
            decreases self.repos.len() - i,
        {
            if starts_with(cwd, self.repos[i].dir.as_str()) {
                assert(self@.repos[i as int].dir == self.repos@[i as int].dir@);
                return Some(i);
            }
            assert(self@.repos[i as int].dir == self.repos@[i as int].dir@);
            i += 1;
        }
        None
    }

    /// Keeps, of the records that share a directory, the first one; the
    /// records that stay keep their order.
    pub fn deduplicate(&mut self)
        ensures
            final(self)@ == (MetadataView {
                version: old(self)@.version,
                repos: first_by_dir(old(self)@.repos),
            }),
            distinct_dirs(final(self)@.repos),
    {
        let ghost all = repo_views(self.repos@);
        let mut kept: Vec<PjiRepo> = Vec::new();
        let mut i: usize = 0;
        proof {
            assert(all.take(0) =~= Seq::<RepoView>::empty());
            assert(repo_views(kept@) =~= Seq::<RepoView>::empty());
        }
        while i < self.repos.len()
            invariant
                i <= self.repos.len(),
                *self == *old(self),
                all == repo_views(self.repos@),
                repo_views(kept@) == first_by_dir(all.take(i as int)),
            decreases self.repos.len() - i,
        {
            let ghost before = repo_views(kept@);
            let ghost dir = self.repos@[i as int]@.dir;
            proof {
                assert(all.take(i + 1).drop_last() =~= all.take(i as int));
                assert(all.take(i + 1).last() == self.repos@[i as int]@);
                lemma_first_by_dir_holds(all.take(i as int), dir);
            }
            let seen = has_dir(&kept, self.repos[i].dir.as_str());
            if !seen {
                kept.push(self.repos[i].clone());
                assert(repo_views(kept@) =~= before.push(self.repos@[i as int]@));
            }
            i += 1;
        }
        assert(all.take(i as int) =~= all);
        proof {
            lemma_deduplicate_distinct(all);
        }
        self.repos = kept;
    }
}

/// A directory occurs among the first records of their directories exactly
/// if it occurs at all.
pub proof fn lemma_first_by_dir_holds(s: Seq<RepoView>, dir: Seq<char>)
    ensures
        holds_dir(first_by_dir(s), dir) == holds_dir(s, dir),
    decreases s.len(),
{
    if s.len() > 0 {
        let front = s.drop_last();
        let kept = first_by_dir(front);
        lemma_first_by_dir_holds(front, dir);
        lemma_first_by_dir_holds(front, s.last().dir);
        if holds_dir(first_by_dir(s), dir) {
            let k = choose|k: int|
                0 <= k < first_by_dir(s).len() && same_path(first_by_dir(s)[k].dir, dir);
            if k < kept.len() {
                assert(same_path(kept[k].dir, dir));
                let j = choose|j: int| 0 <= j < front.len() && same_path(front[j].dir, dir);
                assert(same_path(s[j].dir, dir));
            } else {
                assert(same_path(s[s.len() - 1].dir, dir));
            }
        }
        if holds_dir(s, dir) {
            let j = choose|j: int| 0 <= j < s.len() && same_path(s[j].dir, dir);
            if j < front.len() {
                assert(same_path(front[j].dir, dir));
                let k = choose|k: int| 0 <= k < kept.len() && same_path(kept[k].dir, dir);
                assert(same_path(first_by_dir(s)[k].dir, dir));
            } else if holds_dir(front, dir) {
                let k = choose|k: int| 0 <= k < kept.len() && same_path(kept[k].dir, dir);
                assert(same_path(first_by_dir(s)[k].dir, dir));
            } else {
                assert(same_path(first_by_dir(s)[kept.len() as int].dir, dir));
            }
        }
    }
}

/// After a repository was removed no record denotes it, and the records
/// that stay are records that were there.
pub proof fn lemma_removed_is_gone(s: Seq<RepoView>, target: RepoView)
    ensures
        !holds_repo(without_repo(s, target), target),
        forall|k: int|
            0 <= k < without_repo(s, target).len() ==> s.contains(
                #[trigger] without_repo(s, target)[k],
            ),
    decreases s.len(),
{
    reveal(Seq::filter);
    if s.len() > 0 {
        let front = s.drop_last();
        lemma_removed_is_gone(front, target);
        let kept = without_repo(s, target);
        assert forall|k: int| 0 <= k < kept.len() implies s.contains(#[trigger] kept[k]) by {
            if k < without_repo(front, target).len() {
                let r = without_repo(front, target)[k];
                assert(front.contains(r));
                let j = choose|j: int| 0 <= j < front.len() && front[j] == r;
                assert(s[j] == r);
            } else {
                assert(s[s.len() - 1] == kept[k]);
            }
        }
    }
}

/// No two records lie in the same directory.
pub open spec fn distinct_dirs(s: Seq<RepoView>) -> bool {
    forall|i: int, j: int|
        0 <= i < j < s.len() ==> !same_path((#[trigger] s[i]).dir, (#[trigger] s[j]).dir)
}

/// No record before position `i` lies in the directory of the record at `i`.
pub open spec fn is_first_at(s: Seq<RepoView>, i: int) -> bool {
    forall|j: int| 0 <= j < i ==> !same_path((#[trigger] s[j]).dir, s[i].dir)
}

/// After deduplication no two records lie in the same directory.
pub proof fn lemma_deduplicate_distinct(s: Seq<RepoView>)
    ensures
        distinct_dirs(first_by_dir(s)),
    decreases s.len(),
{
    if s.len() > 0 {
        let front = s.drop_last();
        lemma_deduplicate_distinct(front);
        lemma_first_by_dir_holds(front, s.last().dir);
    }
}

/// Deduplication changes nothing where no two records lie in the same
/// directory.
pub proof fn lemma_deduplicate_keeps_distinct(s: Seq<RepoView>)
    requires
        distinct_dirs(s),
    ensures
        first_by_dir(s) == s,
    decreases s.len(),
{
    if s.len() > 0 {
        let front = s.drop_last();
        assert forall|i: int, j: int| 0 <= i < j < front.len() implies !same_path(
            (#[trigger] front[i]).dir,
            (#[trigger] front[j]).dir,
        ) by {
            assert(front[i] == s[i] && front[j] == s[j]);
        }
        lemma_deduplicate_keeps_distinct(front);
        if holds_dir(front, s.last().dir) {
            let j = choose|j: int| 0 <= j < front.len() && same_path(front[j].dir, s.last().dir);
            assert(same_path(s[j].dir, s[s.len() - 1].dir));
        }
        assert(front.push(s.last()) =~= s);
    }
}

/// Deduplication is idempotent: a second pass changes nothing.
pub proof fn lemma_deduplicate_idempotent(s: Seq<RepoView>)
    ensures
        first_by_dir(first_by_dir(s)) == first_by_dir(s),
{
    lemma_deduplicate_distinct(s);
    lemma_deduplicate_keeps_distinct(first_by_dir(s));
}

/// Deduplication keeps exactly the records that are the first of their
/// directory, in the order in which they stood: the positions returned, one
/// for each record kept, ascend, each is the position of a first record, and
/// every position of a first record is among them.
pub proof fn lemma_deduplicate_first_seen(s: Seq<RepoView>) -> (at: Seq<int>)
    ensures
        at.len() == first_by_dir(s).len(),
        forall|k: int|
            0 <= k < at.len() ==> 0 <= #[trigger] at[k] < s.len() && first_by_dir(s)[k] == s[at[k]]
                && is_first_at(s, at[k]),
        forall|a: int, b: int| 0 <= a < b < at.len() ==> #[trigger] at[a] < #[trigger] at[b],
        forall|i: int| 0 <= i < s.len() && is_first_at(s, i) ==> at.contains(i),
    decreases s.len(),
{
    if s.len() == 0 {
        Seq::empty()
    } else {
        let front = s.drop_last();
        let last = s.len() - 1;
        let before = lemma_deduplicate_first_seen(front);
        assert forall|k: int| 0 <= k < before.len() implies is_first_at(s, #[trigger] before[k]) by {
            assert(is_first_at(front, before[k]));
            assert forall|j: int| 0 <= j < before[k] implies !same_path(
                (#[trigger] s[j]).dir,
                s[before[k]].dir,
            ) by {
                assert(!same_path(front[j].dir, front[before[k]].dir));
            }
        }
        assert forall|i: int| 0 <= i < last && is_first_at(s, i) implies before.contains(i) by {
            assert forall|j: int| 0 <= j < i implies !same_path(
                (#[trigger] front[j]).dir,
                front[i].dir,
            ) by {
                assert(!same_path(s[j].dir, s[i].dir));
            }
            assert(is_first_at(front, i));
        }
        if holds_dir(front, s.last().dir) {
            let j = choose|j: int| 0 <= j < front.len() && same_path(front[j].dir, s.last().dir);
            assert(same_path(s[j].dir, s[last].dir));
            assert(!is_first_at(s, last));
            before
        } else {
            let at = before.push(last);
            assert forall|j: int| 0 <= j < last implies !same_path(
                (#[trigger] s[j]).dir,
                s[last].dir,
            ) by {
                assert(front[j].dir == s[j].dir);
            }
            assert(is_first_at(s, last));
            assert forall|i: int| 0 <= i < s.len() && is_first_at(s, i) implies at.contains(i) by {
                if i < last {
                    let k = choose|k: int| 0 <= k < before.len() && before[k] == i;
                    assert(at[k] == i);
                } else {
                    assert(at[before.len() as int] == i);
                }
            }
            at
        }
    }
}

/// Two records that differ in nothing but the protocol, the spelling of the
/// URL and the timestamps are found in the same stores.
pub proof fn lemma_has_repo_ignores_protocol(s: Seq<RepoView>, a: RepoView, b: RepoView)
    requires
        same_repo(a, b),
    ensures
        holds_repo(s, a) == holds_repo(s, b),
        holds_repo(s.push(a), b),
        holds_repo(s.push(b), a),
        without_repo(s, a) == without_repo(s, b),
{
    if holds_repo(s, a) {
        let i = choose|i: int| 0 <= i < s.len() && same_repo(s[i], a);
        assert(same_repo(s[i], b));
    }
    if holds_repo(s, b) {
        let i = choose|i: int| 0 <= i < s.len() && same_repo(s[i], b);
        assert(same_repo(s[i], a));
    }
    assert(same_repo(s.push(a)[s.len() as int], b));
    assert(same_repo(s.push(b)[s.len() as int], a));
    lemma_without_repo_same(s, a, b);
}

/// A repository added by its SSH remote and the same repository named by its
/// HTTPS remote, under one root, are the same to every store.
pub proof fn lemma_same_repo_by_either_protocol(
    s: Seq<RepoView>,
    hostname: Seq<char>,
    user: Seq<char>,
    repo: Seq<char>,
    by_ssh: RepoView,
    by_https: RepoView,
)
    requires
        valid_part(hostname, ':'),
        valid_part(hostname, '/'),
        valid_part(user, '/'),
        valid_part(repo, '/'),
        Some(by_ssh.git_uri) == parse_git_url_spec(ssh_url(hostname, user, repo)),
        Some(by_https.git_uri) == parse_git_url_spec(https_url(hostname, user, repo)),
        by_ssh.root == by_https.root,
    ensures
        same_repo(by_ssh, by_https),
        holds_repo(s, by_ssh) == holds_repo(s, by_https),
        holds_repo(s.push(by_ssh), by_https),
        holds_repo(s.push(by_https), by_ssh),
{
    lemma_ssh_url_parses(hostname, user, repo);
    lemma_https_url_parses(hostname, user, repo);
    lemma_has_repo_ignores_protocol(s, by_ssh, by_https);
}

proof fn lemma_without_repo_same(s: Seq<RepoView>, a: RepoView, b: RepoView)
    requires
        same_repo(a, b),
    ensures
        without_repo(s, a) == without_repo(s, b),
    decreases s.len(),
{
    reveal(Seq::filter);
    if s.len() > 0 {
        lemma_without_repo_same(s.drop_last(), a, b);
    }
}

} // verus!
