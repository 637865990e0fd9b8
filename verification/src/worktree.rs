//! Linked worktrees: the records that git's porcelain listing describes, the
//! parser for that listing, and the decisions around adding, removing and
//! pruning worktrees. Running git and looking at the file system is left to
//! the caller, who hands in what came back.

use crate::command::{failure, failure_of, output_of, GitOutput};
use crate::paths::{
    child_path, closed_path, file_name_of, is_component, join_path, lemma_parent_of_child,
    parent_of, path_file_name, path_join, path_parent,
};
use crate::text::{
    after_prefix, equals_str, has_prefix_at, is_space, lemma_leading_spaces_is,
    lemma_trailing_spaces_is, lines, opt_view, replace, replace_char, rest_after, split_lines,
    str_eq, strip_prefix, to_chars, trim, trimmed, views,
};
use vstd::prelude::*;

verus! {

/// A single git worktree.
#[derive(Debug)]
pub struct GitWorktree {
    /// Path to the worktree directory
    pub path: String,
    /// Branch name (None for detached HEAD)
    pub branch: Option<String>,
    /// Current commit hash
    pub commit: String,
    /// Whether this is the main worktree (where .git is a directory)
    pub is_main: bool,
    /// Whether the worktree is locked
    pub locked: bool,
    /// Whether the worktree can be pruned
    pub prunable: bool,
}

/// What a `GitWorktree` holds, as mathematical values.
pub struct WorktreeView {
    pub path: Seq<char>,
    pub branch: Option<Seq<char>>,
    pub commit: Seq<char>,
    pub is_main: bool,
    pub locked: bool,
    pub prunable: bool,
}

impl View for GitWorktree {
    type V = WorktreeView;

    open spec fn view(&self) -> WorktreeView {
        WorktreeView {
            path: self.path@,
            branch: opt_view(self.branch),
            commit: self.commit@,
            is_main: self.is_main,
            locked: self.locked,
            prunable: self.prunable,
        }
    }
}

impl Clone for GitWorktree {
    fn clone(&self) -> (r: Self)
        ensures
            r == *self,
    {
        GitWorktree {
            path: self.path.clone(),
            branch: match &self.branch {
                Some(b) => Some(b.clone()),
                None => None,
            },
            commit: self.commit.clone(),
            is_main: self.is_main,
            locked: self.locked,
            prunable: self.prunable,
        }
    }
}

/// The name under which a worktree is shown: the main worktree by its branch
/// (or `detached`) followed by ` (main)`, a linked one by its branch or, when
/// detached, by the first eight characters of its commit.
pub open spec fn display_name_of(w: WorktreeView) -> Seq<char> {
    if w.is_main {
        match w.branch {
            Some(b) => b + " (main)"@,
            None => "detached"@ + " (main)"@,
        }
    } else {
        match w.branch {
            Some(b) => b,
            None => if w.commit.len() <= 8 {
                w.commit
            } else {
                w.commit.take(8)
            },
        }
    }
}

impl GitWorktree {
    /// Get a display name for this worktree
    pub fn display_name(&self) -> (name: String)
        ensures
            name@ == display_name_of(self@),
    {
        if self.is_main {
            let mut name = match &self.branch {
                Some(b) => b.clone(),
                None => "detached".to_owned(),
            };
            name.append(" (main)");
            name
        } else {
            match &self.branch {
                Some(b) => b.clone(),
                None => {
                    let n = self.commit.as_str().unicode_len();
                    if n <= 8 {
                        self.commit.clone()
                    } else {
                        let short = self.commit.as_str().substring_char(0, 8).to_owned();
                        assert(short@ =~= self.commit@.take(8));
                        short
                    }
                },
            }
        }
    }
}

/// What the parser remembers between two lines of a listing: the records
/// finished so far and the record in progress.
pub struct ParseState {
    pub done: Seq<WorktreeView>,
    pub path: Option<Seq<char>>,
    pub commit: Option<Seq<char>>,
    pub branch: Option<Seq<char>>,
    pub bare: bool,
    pub locked: bool,
    pub prunable: bool,
}

/// The state before the first line.
pub open spec fn initial_state() -> ParseState {
    ParseState {
        done: Seq::empty(),
        path: None,
        commit: None,
        branch: None,
        bare: false,
        locked: false,
        prunable: false,
    }
}

/// The finished records once the record in progress is closed. It joins them
/// only if it has a path and a commit and is not bare, and it is the main
/// worktree exactly if it is the first to join.
pub open spec fn flushed(st: ParseState) -> Seq<WorktreeView> {
    if st.path is Some && st.commit is Some && !st.bare {
        st.done.push(
            WorktreeView {
                path: st.path->0,
                branch: st.branch,
                commit: st.commit->0,
                is_main: st.done.len() == 0,
                locked: st.locked,
                prunable: st.prunable,
            },
        )
    } else {
        st.done
    }
}

/// The branch that a ref names: what follows `refs/heads/`, or the ref itself
/// when it lies elsewhere.
pub open spec fn branch_of_ref(r: Seq<char>) -> Seq<char> {
    match after_prefix(r, "refs/heads/"@) {
        Some(b) => b,
        None => r,
    }
}

/// The state after one more line.
pub open spec fn step(st: ParseState, line: Seq<char>) -> ParseState {
    if let Some(path) = after_prefix(line, "worktree "@) {
        ParseState {
            done: flushed(st),
            path: Some(path),
            commit: None,
            branch: None,
            bare: false,
            locked: false,
            prunable: false,
        }
    } else if let Some(commit) = after_prefix(line, "HEAD "@) {
        ParseState { commit: Some(commit), ..st }
    } else if let Some(r) = after_prefix(line, "branch "@) {
        ParseState { branch: Some(branch_of_ref(r)), ..st }
    } else if line == "bare"@ {
        ParseState { bare: true, ..st }
    } else if line == "locked"@ || "locked "@.is_prefix_of(line) {
        ParseState { locked: true, ..st }
    } else if line == "prunable"@ || "prunable "@.is_prefix_of(line) {
        ParseState { prunable: true, ..st }
    } else if line == "detached"@ {
        ParseState { branch: None, ..st }
    } else {
        st
    }
}

/// The state after a sequence of lines.
pub open spec fn run(st: ParseState, ls: Seq<Seq<char>>) -> ParseState
    decreases ls.len(),
{
    if ls.len() == 0 {
        st
    } else {
        step(run(st, ls.drop_last()), ls.last())
    }
}

/// The worktrees that a porcelain listing describes.
pub open spec fn parse_porcelain(text: Seq<char>) -> Seq<WorktreeView> {
    flushed(run(initial_state(), lines(text)))
}

/// The views of a sequence of worktrees.
pub open spec fn worktree_views(s: Seq<GitWorktree>) -> Seq<WorktreeView> {
    Seq::new(s.len(), |i: int| s[i]@)
}

/// In every state that lines can lead to, only the first finished record is
/// marked as the main worktree.
pub open spec fn main_is_first(done: Seq<WorktreeView>) -> bool {
    forall|i: int| 0 <= i < done.len() ==> (#[trigger] done[i]).is_main == (i == 0)
}

/// Whatever the lines are, only the first finished record is marked as the
/// main worktree, before the record in progress is closed and after.
pub proof fn lemma_main_is_first(ls: Seq<Seq<char>>)
    ensures
        main_is_first(run(initial_state(), ls).done),
        main_is_first(flushed(run(initial_state(), ls))),
    decreases ls.len(),
{
    if ls.len() > 0 {
        lemma_main_is_first(ls.drop_last());
    }
}

/// A listing without a line describes no worktree.
pub proof fn lemma_empty_listing()
    ensures
        parse_porcelain(Seq::empty()) == Seq::<WorktreeView>::empty(),
{
    assert(lines(Seq::empty()) =~= Seq::<Seq<char>>::empty());
}

/// A record in progress that is bare, or that lacks its path or its commit,
/// is dropped when it is closed.
pub proof fn lemma_bare_is_dropped(st: ParseState)
    requires
        st.bare || st.path is None || st.commit is None,
    ensures
        flushed(st) == st.done,
{
}

/// Parse the porcelain output of `git worktree list --porcelain`.
///
/// Example output:
/// ```text
/// worktree /path/to/main
/// HEAD abc123
/// branch refs/heads/main
///
/// worktree /path/to/feature
/// HEAD def456
/// branch refs/heads/feature
/// ```
pub fn parse_worktree_porcelain(output: &str) -> (worktrees: Vec<GitWorktree>)
    ensures
        worktree_views(worktrees@) == parse_porcelain(output@),
        main_is_first(worktree_views(worktrees@)),
{
    let all_lines = split_lines(output);
    let mut worktrees: Vec<GitWorktree> = Vec::new();
    let mut current_path: Option<String> = None;
    let mut current_commit: Option<String> = None;
    let mut current_branch: Option<String> = None;
    let mut is_bare = false;
    let mut is_locked = false;
    let mut is_prunable = false;
    let ghost ls = lines(output@);
    proof {
        assert(worktree_views(worktrees@) =~= Seq::<WorktreeView>::empty());
        assert(ls.take(0) =~= Seq::<Seq<char>>::empty());
    }
    let mut i: usize = 0;
    while i < all_lines.len()
        invariant
            i <= all_lines.len(),
            views(all_lines@) == ls,
            main_is_first(worktree_views(worktrees@)),
            run(initial_state(), ls.take(i as int)) == (ParseState {
                done: worktree_views(worktrees@),
                path: opt_view(current_path),
                commit: opt_view(current_commit),
                branch: opt_view(current_branch),
                bare: is_bare,
                locked: is_locked,
                prunable: is_prunable,
            }),
        decreases all_lines.len() - i,
    {
        let line = all_lines[i].as_str();
        let chars = to_chars(line);
        proof {
            assert(ls.take(i + 1).drop_last() =~= ls.take(i as int));
            assert(ls.take(i + 1).last() == line@);
            assert(chars@.skip(0) =~= chars@);
        }
        if let Some(path) = rest_after(line, &chars, "worktree ") {
            let prev_path = current_path;
            let prev_commit = current_commit;
            let prev_branch = current_branch;
            if let Some(p) = prev_path {
                if let Some(c) = prev_commit {
                    if !is_bare {
                        let ghost old_views = worktree_views(worktrees@);
                        let wt = GitWorktree {
                            path: p,
                            branch: prev_branch,
                            commit: c,
                            is_main: worktrees.len() == 0,
                            locked: is_locked,
                            prunable: is_prunable,
                        };
                        worktrees.push(wt);
                        assert(worktree_views(worktrees@) =~= old_views.push(wt@));
                    }
                }
            }
            current_path = Some(path);
            current_commit = None;
            current_branch = None;
            is_bare = false;
            is_locked = false;
            is_prunable = false;
        } else if let Some(commit) = rest_after(line, &chars, "HEAD ") {
            current_commit = Some(commit);
        } else if let Some(branch_ref) = rest_after(line, &chars, "branch ") {
            if let Some(branch) = strip_prefix(branch_ref.as_str(), "refs/heads/") {
                current_branch = Some(branch);
            } else {
                current_branch = Some(branch_ref);
            }
        } else if equals_str(&chars, "bare") {
            is_bare = true;
        } else if equals_str(&chars, "locked") || has_prefix_at(&chars, 0, "locked ") {
            is_locked = true;
        } else if equals_str(&chars, "prunable") || has_prefix_at(&chars, 0, "prunable ") {
            is_prunable = true;
        } else if equals_str(&chars, "detached") {
            current_branch = None;
        }
        i += 1;
    }
    proof {
        assert(ls.take(i as int) =~= ls);
    }
    if let Some(p) = current_path {
        if let Some(c) = current_commit {
            if !is_bare {
                let ghost old_views = worktree_views(worktrees@);
                let wt = GitWorktree {
                    path: p,
                    branch: current_branch,
                    commit: c,
                    is_main: worktrees.len() == 0,
                    locked: is_locked,
                    prunable: is_prunable,
                };
                worktrees.push(wt);
                assert(worktree_views(worktrees@) =~= old_views.push(wt@));
            }
        }
    }
    worktrees
}

/// Collection of worktrees for a repository.
#[derive(Debug)]
pub struct WorktreeList {
    /// The main worktree (where .git is a directory)
    pub main: GitWorktree,
    /// Linked worktrees
    pub linked: Vec<GitWorktree>,
}

impl View for WorktreeList {
    type V = Seq<WorktreeView>;

    /// The main worktree followed by the linked ones.
    open spec fn view(&self) -> Seq<WorktreeView> {
        seq![self.main@] + worktree_views(self.linked@)
    }
}

impl Clone for WorktreeList {
    fn clone(&self) -> (r: Self)
        ensures
            r@ == self@,
            r.main == self.main,
    {
        let mut linked: Vec<GitWorktree> = Vec::new();
        let mut i: usize = 0;
        while i < self.linked.len()
            invariant
                i <= self.linked.len(),
                linked@ == self.linked@.take(i as int),
            decreases self.linked.len() - i,
        {
            linked.push(self.linked[i].clone());
            assert(linked@ =~= self.linked@.take(i + 1));
            i += 1;
        }
        assert(linked@ =~= self.linked@);
        WorktreeList { main: self.main.clone(), linked }
    }
}

impl WorktreeList {
    /// The main worktree is marked as main and no linked one is.
    pub open spec fn wf(&self) -> bool {
        main_is_first(self@)
    }

    /// Returns all worktrees (main + linked)
    pub fn all(&self) -> (result: Vec<&GitWorktree>)
        ensures
            result@.len() == 1 + self.linked@.len(),
            *result@[0] == self.main,
            forall|i: int| 0 <= i < self.linked@.len() ==> *result@[i + 1] == self.linked@[i],
    {
        let mut result: Vec<&GitWorktree> = Vec::new();
        result.push(&self.main);
        let mut i: usize = 0;
        while i < self.linked.len()
            invariant
                i <= self.linked.len(),
                result@.len() == 1 + i,
                *result@[0] == self.main,
                forall|k: int| 0 <= k < i ==> *result@[k + 1] == self.linked@[k],
            decreases self.linked.len() - i,
        {
            result.push(&self.linked[i]);
            i += 1;
        }
        result
    }

    /// Returns true if there are any linked worktrees
    pub fn has_linked(&self) -> (result: bool)
        ensures
            result == (self.linked@.len() > 0),
    {
        self.linked.len() > 0
    }

    /// Total count of worktrees
    pub fn count(&self) -> (result: usize)
        requires
            self.linked@.len() < usize::MAX,
        ensures
            result == 1 + self.linked@.len(),
            result == self@.len(),
    {
        1 + self.linked.len()
    }
}

/// The arguments of the git run that lists the worktrees of `repo_dir`.
pub fn list_worktrees_args(repo_dir: &str) -> (args: Vec<String>)
    ensures
        views(args@) == seq!["-C"@, repo_dir@, "worktree"@, "list"@, "--porcelain"@],
{
    let mut args: Vec<String> = Vec::new();
    args.push("-C".to_owned());
    args.push(repo_dir.to_owned());
    args.push("worktree".to_owned());
    args.push("list".to_owned());
    args.push("--porcelain".to_owned());
    assert(views(args@) =~= seq!["-C"@, repo_dir@, "worktree"@, "list"@, "--porcelain"@]);
    args
}

/// The worktrees that a listing run reports: those that its output describes,
/// unless the run failed or the output describes none.
pub open spec fn listing_of(outcome: GitOutput) -> Option<Seq<WorktreeView>> {
    match output_of(outcome) {
        Some(text) => if parse_porcelain(text).len() == 0 {
            None
        } else {
            Some(parse_porcelain(text))
        },
        None => None,
    }
}

/// List all worktrees for a repository, from the outcome of the run whose
/// arguments `list_worktrees_args` gives.
///
/// # Returns
/// * `Some(WorktreeList)` if worktrees are found
/// * `None` if the command fails or no worktrees exist
pub fn list_worktrees(outcome: &GitOutput) -> (result: Option<WorktreeList>)
    ensures
        match listing_of(*outcome) {
            Some(found) => result is Some && result->0@ == found && result->0.wf(),
            None => result is None,
        },
{
    match outcome {
        GitOutput::NotStarted { message } => None,
        GitOutput::Exited { success, stdout, stderr } => {
            if !*success {
                return None;
            }
            let mut worktrees = parse_worktree_porcelain(stdout.as_str());
            if worktrees.len() == 0 {
                return None;
            }
            let ghost found = worktree_views(worktrees@);
            let main = worktrees.remove(0);
            let list = WorktreeList { main, linked: worktrees };
            assert(list@ =~= found);
            Some(list)
        },
    }
}

/// What stands at `.git` inside a directory.
#[derive(Debug)]
pub enum GitEntry {
    /// A directory: the directory around it is a main worktree.
    Directory,
    /// A regular file, with its content where it could be read.
    File { content: Option<String> },
    /// Nothing, or something else.
    Missing,
}

/// The path of the `.git` entry of a directory.
pub fn git_entry_path(dir: &str) -> (path: String)
    ensures
        path@ == join_path(dir@, ".git"@),
{
    path_join(dir, ".git")
}

/// Check if a directory is a linked worktree (not the main worktree)
///
/// A linked worktree has a `.git` file (not directory) that points to the main repo.
pub fn is_linked_worktree(entry: &GitEntry) -> (linked: bool)
    ensures
        linked == (*entry is File),
{
    match entry {
        GitEntry::File { content } => true,
        _ => false,
    }
}

/// Whether a path has the form `<main>/.git/worktrees/<name>`: it ends in a
/// name, the last component of its parent is `worktrees`, and that of its
/// grandparent is `.git`.
pub open spec fn is_worktree_gitdir(gitdir: Seq<char>) -> bool {
    &&& path_file_name(gitdir) is Some
    &&& path_parent(gitdir) is Some
    &&& path_file_name(path_parent(gitdir)->0) == Some("worktrees"@)
    &&& path_parent(path_parent(gitdir)->0) is Some
    &&& path_file_name(path_parent(path_parent(gitdir)->0)->0) == Some(".git"@)
}

/// The repository that a path of the form `<main>/.git/worktrees/<name>`
/// belongs to: the parent of its grandparent. A path of any other form
/// belongs to none.
pub open spec fn main_repo_of_gitdir(gitdir: Seq<char>) -> Option<Seq<char>> {
    if is_worktree_gitdir(gitdir) {
        path_parent(path_parent(path_parent(gitdir)->0)->0)
    } else {
        None
    }
}

/// A path belongs to a repository exactly if it has the form
/// `<main>/.git/worktrees/<name>`.
pub proof fn lemma_main_repo_iff_worktree_gitdir(gitdir: Seq<char>)
    ensures
        main_repo_of_gitdir(gitdir) is Some <==> is_worktree_gitdir(gitdir),
{
}

/// The repository that the content of a linked worktree's `.git` file points
/// to: the content, trimmed, reads `gitdir: ` and then a path of the form
/// `<main>/.git/worktrees/<name>`. Any other content points to none.
pub open spec fn main_repo_of_gitfile(content: Seq<char>) -> Option<Seq<char>> {
    match after_prefix(trimmed(content), "gitdir: "@) {
        Some(gitdir) => main_repo_of_gitdir(gitdir),
        None => None,
    }
}

/// Content that, trimmed, does not begin with `gitdir: ` points to no
/// repository.
pub proof fn lemma_other_content_points_to_none(content: Seq<char>)
    requires
        !"gitdir: "@.is_prefix_of(trimmed(content)),
    ensures
        main_repo_of_gitfile(content) is None,
{
}

/// The `.git` file of the worktree `name` of a repository resolves to that
/// repository: where the file reads `gitdir: <main>/.git/worktrees/<name>`,
/// followed by any white space, the main repository is `<main>`.
pub proof fn lemma_main_repo_round_trip(main: Seq<char>, name: Seq<char>, space: Seq<char>)
    requires
        closed_path(main),
        is_component(name),
        name != seq!['.', '.'],
        !is_space(name.last()),
        forall|k: int| 0 <= k < space.len() ==> is_space(space[k]),
    ensures
        main_repo_of_gitfile("gitdir: "@ + main + "/.git/worktrees/"@ + name + space) == Some(main),
{
    reveal_strlit("gitdir: ");
    reveal_strlit("/.git/worktrees/");
    reveal_strlit(".git");
    reveal_strlit("worktrees");
    let git = seq!['.', 'g', 'i', 't'];
    let worktrees = seq!['w', 'o', 'r', 'k', 't', 'r', 'e', 'e', 's'];
    let gitdir = main + "/.git/worktrees/"@ + name;
    let pointer = "gitdir: "@ + gitdir;
    let content = "gitdir: "@ + main + "/.git/worktrees/"@ + name + space;
    assert(content =~= pointer + space);
    assert(content[0] == 'g');
    lemma_leading_spaces_is(content, 0);
    assert(content.skip(0) =~= content);
    assert(content[pointer.len() - 1] == name.last());
    assert forall|k: int| content.len() - space.len() <= k < content.len() implies is_space(
        content[k],
    ) by {
        assert(content[k] == space[k - pointer.len()]);
    }
    lemma_trailing_spaces_is(content, space.len() as int);
    assert(content.take(content.len() - space.len()) =~= pointer);
    assert(trimmed(content) == pointer);
    assert("gitdir: "@ =~= pointer.subrange(0, 8));
    assert(pointer.skip(8) =~= gitdir);
    assert(gitdir =~= child_path(child_path(child_path(main, git), worktrees), name));
    assert(git[0] == '.' && git.len() == 4);
    assert(worktrees[0] == 'w' && worktrees.len() == 9);
    assert(git =~= ".git"@);
    assert(worktrees =~= "worktrees"@);
    lemma_parent_of_child(main, git);
    lemma_parent_of_child(child_path(main, git), worktrees);
    lemma_parent_of_child(child_path(child_path(main, git), worktrees), name);
}

/// The main repository of a worktree directory, given its `.git` entry.
pub open spec fn main_repo_of(worktree_dir: Seq<char>, entry: GitEntry) -> Option<Seq<char>> {
    match entry {
        GitEntry::Directory => Some(worktree_dir),
        GitEntry::File { content: Some(c) } => main_repo_of_gitfile(c@),
        GitEntry::File { content: None } => None,
        GitEntry::Missing => None,
    }
}

fn is_called(path: &str, name: &str) -> (r: bool)
    ensures
        r == (path_file_name(path@) == Some(name@)),
{
    match file_name_of(path) {
        Some(last) => str_eq(last.as_str(), name),
        None => false,
    }
}

/// The repository that a path of the form `<main>/.git/worktrees/<name>`
/// belongs to.
pub fn main_repo_from_gitdir(gitdir: &str) -> (result: Option<String>)
    ensures
        opt_view(result) == main_repo_of_gitdir(gitdir@),
        result is Some <==> is_worktree_gitdir(gitdir@),
{
    if file_name_of(gitdir).is_none() {
        return None;
    }
    match parent_of(gitdir) {
        Some(worktrees) => match parent_of(worktrees.as_str()) {
            Some(git) => if is_called(worktrees.as_str(), "worktrees") && is_called(
                git.as_str(),
                ".git",
            ) {
                parent_of(git.as_str())
            } else {
                None
            },
            None => None,
        },
        None => None,
    }
}

/// Get the main repository path from a worktree directory
///
/// For a linked worktree, this follows the gitdir reference of the `.git` file.
/// For a main worktree, this returns the same path.
pub fn get_main_repo_from_worktree(worktree_dir: &str, entry: &GitEntry) -> (result: Option<String>)
    ensures
        opt_view(result) == main_repo_of(worktree_dir@, *entry),
{
    match entry {
        GitEntry::Directory => Some(worktree_dir.to_owned()),
        GitEntry::File { content: Some(c) } => {
            let content = trim(c.as_str());
            match strip_prefix(content.as_str(), "gitdir: ") {
                Some(gitdir) => main_repo_from_gitdir(gitdir.as_str()),
                None => None,
            }
        },
        GitEntry::File { content: None } => None,
        GitEntry::Missing => None,
    }
}

/// A branch name as the name of a directory: every `/` is a `-`, so that a
/// branch never opens directories of its own.
pub open spec fn sanitized_branch(branch: Seq<char>) -> Seq<char> {
    replace_char(branch, '/', '-')
}

/// A branch name as the name of a directory.
pub fn sanitize_branch(branch: &str) -> (name: String)
    ensures
        name@ == sanitized_branch(branch@),
{
    proof {
        reveal_strlit("-");
    }
    replace(branch, '/', "-")
}

/// Where a worktree for `branch` goes when no path is given: below the
/// repository's parent, in `<name>.worktrees`, under the branch name with
/// every `/` turned into `-`. A repository without a name counts as `repo`.
pub open spec fn default_worktree_path_of(
    parent: Seq<char>,
    name: Option<Seq<char>>,
    branch: Seq<char>,
) -> Seq<char> {
    let repo_name = match name {
        Some(n) => n,
        None => "repo"@,
    };
    join_path(join_path(parent, repo_name + ".worktrees"@), sanitized_branch(branch))
}

/// The default place of a worktree, from the repository's parent directory
/// and name.
pub fn default_worktree_path(parent: &str, name: Option<String>, branch: &str) -> (path: String)
    ensures
        path@ == default_worktree_path_of(parent@, opt_view(name), branch@),
{
    let mut dir_name = match name {
        Some(n) => n,
        None => "repo".to_owned(),
    };
    dir_name.append(".worktrees");
    let worktrees_dir = path_join(parent, dir_name.as_str());
    let safe_branch = sanitize_branch(branch);
    path_join(worktrees_dir.as_str(), safe_branch.as_str())
}

/// The arguments of the git run that adds a worktree.
pub open spec fn add_worktree_args_of(
    repo_dir: Seq<char>,
    branch: Seq<char>,
    worktree_path: Seq<char>,
    create_branch: bool,
) -> Seq<Seq<char>> {
    if create_branch {
        seq!["-C"@, repo_dir, "worktree"@, "add"@, "-b"@, branch, worktree_path]
    } else {
        seq!["-C"@, repo_dir, "worktree"@, "add"@, worktree_path, branch]
    }
}

/// A worktree about to be added: where it goes, and the arguments of the git
/// run that adds it.
#[derive(Debug)]
pub struct WorktreePlan {
    pub path: String,
    pub args: Vec<String>,
}

/// The place of a new worktree: the path given, or the default one, which
/// needs the repository to have a parent directory.
pub open spec fn planned_path(repo_dir: Seq<char>, branch: Seq<char>, path: Option<Seq<char>>) -> Option<
    Seq<char>,
> {
    match path {
        Some(p) => Some(p),
        None => match path_parent(repo_dir) {
            Some(parent) => Some(
                default_worktree_path_of(parent, path_file_name(repo_dir), branch),
            ),
            None => None,
        },
    }
}

/// Without a path given, the worktree of `branch` for the repository `name`
/// in the directory `parent` goes to `<parent>/<name>.worktrees/<branch>`,
/// with `-` for every `/` of the branch.
pub proof fn lemma_default_worktree_path(parent: Seq<char>, name: Seq<char>, branch: Seq<char>)
    requires
        closed_path(parent),
        parent.last() != '/',
        is_component(name),
        name != seq!['.', '.'],
    ensures
        planned_path(child_path(parent, name), branch, None) == Some(
            parent + seq!['/'] + name + ".worktrees"@ + seq!['/'] + sanitized_branch(branch),
        ),
{
    reveal_strlit(".worktrees");
    lemma_parent_of_child(parent, name);
    let dir_name = name + ".worktrees"@;
    assert(dir_name[0] == name[0]);
    if name[0] == '/' {
        assert(name.contains('/'));
    }
    let dir = join_path(parent, dir_name);
    assert(dir =~= parent + seq!['/'] + name + ".worktrees"@);
    assert(dir.last() == 's');
    let safe = sanitized_branch(branch);
    assert(join_path(dir, safe) =~= dir + seq!['/'] + safe);
}

/// Plans a new worktree.
///
/// # Arguments
/// * `repo_dir` - Path to the repository
/// * `branch` - Branch name to checkout (or create with -b)
/// * `path` - Optional path for the worktree (defaults to {repo}.worktrees/{branch})
/// * `create_branch` - If true, create a new branch
pub fn plan_add_worktree(
    repo_dir: &str,
    branch: &str,
    path: Option<String>,
    create_branch: bool,
) -> (result: Result<WorktreePlan, String>)
    ensures
        match planned_path(repo_dir@, branch@, opt_view(path)) {
            Some(p) => result is Ok && result->Ok_0.path@ == p && views(result->Ok_0.args@)
                == add_worktree_args_of(repo_dir@, branch@, p, create_branch),
            None => result is Err && result->Err_0@ == "Cannot determine parent directory"@,
        },
{
    let worktree_path = match path {
        Some(p) => p,
        None => {
            let name = file_name_of(repo_dir);
            match parent_of(repo_dir) {
                Some(parent) => default_worktree_path(parent.as_str(), name, branch),
                None => {
                    return Err("Cannot determine parent directory".to_owned());
                },
            }
        },
    };
    let mut args: Vec<String> = Vec::new();
    args.push("-C".to_owned());
    args.push(repo_dir.to_owned());
    args.push("worktree".to_owned());
    args.push("add".to_owned());
    if create_branch {
        args.push("-b".to_owned());
        args.push(branch.to_owned());
    }
    args.push(worktree_path.clone());
    if !create_branch {
        args.push(branch.to_owned());
    }
    assert(views(args@) =~= add_worktree_args_of(
        repo_dir@,
        branch@,
        worktree_path@,
        create_branch,
    ));
    Ok(WorktreePlan { path: worktree_path, args })
}

/// Add a new worktree: the result of the run that `plan_add_worktree` planned.
///
/// # Returns
/// * `Ok(String)` - Path to the created worktree
/// * `Err(String)` - Error message
pub fn add_worktree(plan: &WorktreePlan, outcome: &GitOutput) -> (result: Result<String, String>)
    ensures
        match failure_of(*outcome) {
            Some(message) => result is Err && result->Err_0@ == message,
            None => result is Ok && result->Ok_0@ == plan.path@,
        },
{
    match failure(outcome) {
        Some(message) => Err(message),
        None => Ok(plan.path.clone()),
    }
}

/// The arguments of the git run that removes a worktree; `force` removes it
/// even if it is dirty.
pub open spec fn remove_worktree_args_of(
    repo_dir: Seq<char>,
    worktree_path: Seq<char>,
    force: bool,
) -> Seq<Seq<char>> {
    if force {
        seq!["-C"@, repo_dir, "worktree"@, "remove"@, "--force"@, worktree_path]
    } else {
        seq!["-C"@, repo_dir, "worktree"@, "remove"@, worktree_path]
    }
}

/// The arguments of the git run that removes a worktree.
pub fn remove_worktree_args(repo_dir: &str, worktree_path: &str, force: bool) -> (args: Vec<String>)
    ensures
        views(args@) == remove_worktree_args_of(repo_dir@, worktree_path@, force),
{
    let mut args: Vec<String> = Vec::new();
    args.push("-C".to_owned());
    args.push(repo_dir.to_owned());
    args.push("worktree".to_owned());
    args.push("remove".to_owned());
    if force {
        args.push("--force".to_owned());
    }
    args.push(worktree_path.to_owned());
    assert(views(args@) =~= remove_worktree_args_of(repo_dir@, worktree_path@, force));
    args
}

/// Remove a worktree: the result of the run whose arguments
/// `remove_worktree_args` gives.
pub fn remove_worktree(outcome: &GitOutput) -> (result: Result<(), String>)
    ensures
        match failure_of(*outcome) {
            Some(message) => result is Err && result->Err_0@ == message,
            None => result is Ok,
        },
{
    match failure(outcome) {
        Some(message) => Err(message),
        None => Ok(()),
    }
}

/// The arguments of the git run that prunes stale worktree information.
pub fn prune_worktrees_args(repo_dir: &str) -> (args: Vec<String>)
    ensures
        views(args@) == seq!["-C"@, repo_dir@, "worktree"@, "prune"@, "-v"@],
{
    let mut args: Vec<String> = Vec::new();
    args.push("-C".to_owned());
    args.push(repo_dir.to_owned());
    args.push("worktree".to_owned());
    args.push("prune".to_owned());
    args.push("-v".to_owned());
    assert(views(args@) =~= seq!["-C"@, repo_dir@, "worktree"@, "prune"@, "-v"@]);
    args
}

/// Prune stale worktree information: the result of the run whose arguments
/// `prune_worktrees_args` gives, which is what git printed.
pub fn prune_worktrees(outcome: &GitOutput) -> (result: Result<String, String>)
    ensures
        match failure_of(*outcome) {
            Some(message) => result is Err && result->Err_0@ == message,
            None => result is Ok && Some(result->Ok_0@) == output_of(*outcome),
        },
{
    match outcome {
        GitOutput::NotStarted { message } => Err(message.clone()),
        GitOutput::Exited { success, stdout, stderr } => if *success {
            Ok(stdout.clone())
        } else {
            Err(stderr.clone())
        },
    }
}

} // verus!
