//! Remote URLs: the two forms that are understood, and what git reports as a
//! repository's remote.

use crate::repo::{valid_identity, GitProtocol, GitURI, GitUriView};
use crate::command::{output_of, GitOutput};
use crate::text::{
    after_prefix, find_char, first_index, has_prefix_at, lemma_first_index, opt_view, to_chars,
    trim, trimmed, views,
};
use vstd::prelude::*;

verus! {

/// The host, the user and the repository of what follows the scheme of a
/// remote URL: `<host><sep><user>/<repo>.git`, where the host holds no `sep`,
/// the user and the repository hold no `/`, and none of the three is empty.
pub open spec fn remote_parts(rest: Seq<char>, sep: char) -> Option<
    (Seq<char>, Seq<char>, Seq<char>),
> {
    let i = first_index(rest, sep) as int;
    let after_host = rest.skip(i + 1);
    let j = first_index(after_host, '/') as int;
    let tail = after_host.skip(j + 1);
    let repo_len = tail.len() - ".git"@.len();
    if 0 < i < rest.len() && 0 < j < after_host.len() && !tail.contains('/') && repo_len > 0
        && ".git"@.is_suffix_of(tail) {
        Some((rest.take(i), after_host.take(j), tail.take(repo_len)))
    } else {
        None
    }
}

/// The parts of an SSH remote: `git@<host>:<user>/<repo>.git`.
pub open spec fn ssh_parts(url: Seq<char>) -> Option<(Seq<char>, Seq<char>, Seq<char>)> {
    match after_prefix(url, "git@"@) {
        Some(rest) => remote_parts(rest, ':'),
        None => None,
    }
}

/// The parts of an HTTP remote: `http://<host>/<user>/<repo>.git`, or the
/// same with `https`.
pub open spec fn http_parts(url: Seq<char>) -> Option<(Seq<char>, Seq<char>, Seq<char>)> {
    match after_prefix(url, "https://"@) {
        Some(rest) => remote_parts(rest, '/'),
        None => match after_prefix(url, "http://"@) {
            Some(rest) => remote_parts(rest, '/'),
            None => None,
        },
    }
}

/// The identity that a remote URL gives: the SSH form is tried first, then the
/// HTTP form, and a URL of neither form gives none.
pub open spec fn parse_git_url_spec(url: Seq<char>) -> Option<GitUriView> {
    match ssh_parts(url) {
        Some((hostname, user, repo)) => Some(
            GitUriView { hostname, user, repo, protocol: GitProtocol::SSH, uri: url },
        ),
        None => match http_parts(url) {
            Some((hostname, user, repo)) => Some(
                GitUriView { hostname, user, repo, protocol: GitProtocol::HTTP, uri: url },
            ),
            None => None,
        },
    }
}

/// The view of an optional identity.
pub open spec fn opt_uri_view(o: Option<GitURI>) -> Option<GitUriView> {
    match o {
        Some(g) => Some(g@),
        None => None,
    }
}

/// The view of three strings.
pub open spec fn parts_view(o: Option<(String, String, String)>) -> Option<
    (Seq<char>, Seq<char>, Seq<char>),
> {
    match o {
        Some((a, b, c)) => Some((a@, b@, c@)),
        None => None,
    }
}

fn split_remote(url: &str, v: &Vec<char>, start: usize, sep: char) -> (r: Option<
    (String, String, String),
>)
    requires
        v@ == url@,
        start <= v.len(),
    ensures
        parts_view(r) == remote_parts(url@.skip(start as int), sep),
{
    let ghost rest = v@.skip(start as int);
    let n = v.len();
    let host_end = find_char(v, start, sep);
    if host_end == start || host_end == n {
        return None;
    }
    let ghost after_host = rest.skip(host_end - start + 1);
    assert(after_host =~= v@.skip(host_end + 1));
    let user_end = find_char(v, host_end + 1, '/');
    if user_end == host_end + 1 || user_end == n {
        return None;
    }
    let ghost tail = after_host.skip(user_end - host_end);
    assert(tail =~= v@.skip(user_end + 1));
    let slash = find_char(v, user_end + 1, '/');
    proof {
        lemma_first_index(tail, '/');
        reveal_strlit(".git");
    }
    if slash < n {
        return None;
    }
    if n - (user_end + 1) <= 4 {
        return None;
    }
    assert(tail.skip(tail.len() - 4) =~= v@.skip(n - 4));
    assert(tail.subrange(tail.len() - 4, tail.len() as int) =~= tail.skip(tail.len() - 4));
    assert(v@.skip(n - 4).subrange(0, 4) =~= v@.skip(n - 4));
    if !has_prefix_at(v, n - 4, ".git") {
        return None;
    }
    let hostname = url.substring_char(start, host_end).to_owned();
    let user = url.substring_char(host_end + 1, user_end).to_owned();
    let repo = url.substring_char(user_end + 1, n - 4).to_owned();
    assert(hostname@ =~= rest.take(host_end - start));
    assert(user@ =~= after_host.take(user_end - host_end - 1));
    assert(repo@ =~= tail.take(tail.len() - 4));
    Some((hostname, user, repo))
}

fn split_after(url: &str, v: &Vec<char>, scheme: &str, sep: char) -> (r: Option<
    (String, String, String),
>)
    requires
        v@ == url@,
    ensures
        parts_view(r) == match after_prefix(url@, scheme@) {
            Some(rest) => remote_parts(rest, sep),
            None => None,
        },
{
    assert(v@.skip(0) =~= v@);
    if has_prefix_at(v, 0, scheme) {
        split_remote(url, v, scheme.unicode_len(), sep)
    } else {
        None
    }
}

/// Parses a remote URL of the SSH or the HTTP form into its identity.
pub fn parse_git_url(url: &str) -> (r: Option<GitURI>)
    ensures
        opt_uri_view(r) == parse_git_url_spec(url@),
        r is Some ==> valid_identity(r->0@) && r->0@.uri == url@,
{
    proof {
        if parse_git_url_spec(url@) is Some {
            lemma_parsed_url_form(url@);
        }
    }
    let v = to_chars(url);
    if let Some((hostname, user, repo)) = split_after(url, &v, "git@", ':') {
        return Some(GitURI { hostname, user, repo, protocol: GitProtocol::SSH, uri: url.to_owned() });
    }
    let parts = match split_after(url, &v, "https://", '/') {
        Some(p) => Some(p),
        None => {
            assert(v@.skip(0) =~= v@);
            if has_prefix_at(&v, 0, "https://") {
                None
            } else {
                split_after(url, &v, "http://", '/')
            }
        },
    };
    match parts {
        Some((hostname, user, repo)) => Some(
            GitURI { hostname, user, repo, protocol: GitProtocol::HTTP, uri: url.to_owned() },
        ),
        None => None,
    }
}

/// The arguments of the git run that asks for the remote of the repository
/// in `dir`.
pub fn remote_url_args(dir: &str) -> (args: Vec<String>)
    ensures
        views(args@) == seq!["-C"@, dir@, "config"@, "--get"@, "remote.origin.url"@],
{
    let mut args: Vec<String> = Vec::new();
    args.push("-C".to_owned());
    args.push(dir.to_owned());
    args.push("config".to_owned());
    args.push("--get".to_owned());
    args.push("remote.origin.url".to_owned());
    assert(views(args@) =~= seq!["-C"@, dir@, "config"@, "--get"@, "remote.origin.url"@]);
    args
}

/// The remote that a run reports: what it printed, trimmed, unless the run
/// failed or printed nothing but white space.
pub open spec fn reported_remote(outcome: GitOutput) -> Option<Seq<char>> {
    match output_of(outcome) {
        Some(text) => if trimmed(text).len() == 0 {
            None
        } else {
            Some(trimmed(text))
        },
        None => None,
    }
}

/// The remote URL of the repository in a directory, from the outcome of the
/// run whose arguments `remote_url_args` gives.
pub fn try_get_repo_from_dir(outcome: &GitOutput) -> (url: Option<String>)
    ensures
        opt_view(url) == reported_remote(*outcome),
{
    match outcome {
        GitOutput::NotStarted { message } => None,
        GitOutput::Exited { success, stdout, stderr } => {
            if *success {
                let url = trim(stdout.as_str());
                if url.as_str().unicode_len() == 0 {
                    None
                } else {
                    Some(url)
                }
            } else {
                None
            }
        },
    }
}

/// A part of a remote URL: not empty, and free of the character that ends it.
pub open spec fn valid_part(part: Seq<char>, end: char) -> bool {
    part.len() > 0 && !part.contains(end)
}

/// The SSH remote of a host, a user and a repository.
pub open spec fn ssh_url(hostname: Seq<char>, user: Seq<char>, repo: Seq<char>) -> Seq<char> {
    "git@"@ + hostname + ":"@ + user + "/"@ + repo + ".git"@
}

/// The HTTPS remote of a host, a user and a repository.
pub open spec fn https_url(hostname: Seq<char>, user: Seq<char>, repo: Seq<char>) -> Seq<char> {
    "https://"@ + hostname + "/"@ + user + "/"@ + repo + ".git"@
}

/// The HTTP remote of a host, a user and a repository.
pub open spec fn http_url(hostname: Seq<char>, user: Seq<char>, repo: Seq<char>) -> Seq<char> {
    "http://"@ + hostname + "/"@ + user + "/"@ + repo + ".git"@
}

proof fn lemma_remote_parts(h: Seq<char>, u: Seq<char>, r: Seq<char>, sep: char)
    requires
        valid_part(h, sep),
        valid_part(u, '/'),
        valid_part(r, '/'),
    ensures
        remote_parts(h + seq![sep] + u + seq!['/'] + r + ".git"@, sep) == Some((h, u, r)),
{
    reveal_strlit(".git");
    let rest = h + seq![sep] + u + seq!['/'] + r + ".git"@;
    assert forall|k: int| 0 <= k < h.len() implies rest[k] != sep by {
        assert(rest[k] == h[k]);
    }
    crate::text::lemma_first_index_is(rest, sep, h.len() as int);
    let after_host = rest.skip(h.len() as int + 1);
    assert(after_host =~= u + seq!['/'] + r + ".git"@);
    assert forall|k: int| 0 <= k < u.len() implies after_host[k] != '/' by {
        assert(after_host[k] == u[k]);
    }
    crate::text::lemma_first_index_is(after_host, '/', u.len() as int);
    let tail = after_host.skip(u.len() as int + 1);
    assert(tail =~= r + ".git"@);
    assert forall|k: int| 0 <= k < tail.len() implies tail[k] != '/' by {
        if k < r.len() {
            assert(tail[k] == r[k]);
        } else {
            assert(tail[k] == ".git"@[k - r.len()]);
        }
    }
    assert(".git"@ =~= tail.subrange(tail.len() - 4, tail.len() as int));
    assert(tail.take(tail.len() - 4) =~= r);
    assert(rest.take(h.len() as int) =~= h);
    assert(after_host.take(u.len() as int) =~= u);
}

proof fn lemma_remote_parts_form(rest: Seq<char>, sep: char)
    requires
        remote_parts(rest, sep) is Some,
    ensures
        ({
            let (h, u, r) = remote_parts(rest, sep)->0;
            &&& valid_part(h, sep)
            &&& valid_part(u, '/')
            &&& valid_part(r, '/')
            &&& rest == h + seq![sep] + u + seq!['/'] + r + ".git"@
        }),
{
    reveal_strlit(".git");
    let (h, u, r) = remote_parts(rest, sep)->0;
    let i = first_index(rest, sep) as int;
    let after_host = rest.skip(i + 1);
    let j = first_index(after_host, '/') as int;
    let tail = after_host.skip(j + 1);
    lemma_first_index(rest, sep);
    lemma_first_index(after_host, '/');
    if h.contains(sep) {
        let k = choose|k: int| 0 <= k < h.len() && h[k] == sep;
        assert(rest[k] == sep);
    }
    if u.contains('/') {
        let k = choose|k: int| 0 <= k < u.len() && u[k] == '/';
        assert(after_host[k] == '/');
    }
    if r.contains('/') {
        let k = choose|k: int| 0 <= k < r.len() && r[k] == '/';
        assert(tail[k] == '/');
    }
    assert(tail =~= r + tail.subrange(tail.len() - 4, tail.len() as int));
    assert(after_host =~= u + seq!['/'] + tail);
    assert(rest =~= h + seq![sep] + after_host);
    assert(rest =~= h + seq![sep] + u + seq!['/'] + r + ".git"@);
}

/// Every SSH remote `git@H:U/R.git` parses into `H`, `U` and `R` with the SSH
/// protocol.
pub proof fn lemma_ssh_url_parses(hostname: Seq<char>, user: Seq<char>, repo: Seq<char>)
    requires
        valid_part(hostname, ':'),
        valid_part(user, '/'),
        valid_part(repo, '/'),
    ensures
        parse_git_url_spec(ssh_url(hostname, user, repo)) == Some(
            GitUriView {
                hostname,
                user,
                repo,
                protocol: GitProtocol::SSH,
                uri: ssh_url(hostname, user, repo),
            },
        ),
{
    reveal_strlit("git@");
    reveal_strlit(":");
    reveal_strlit("/");
    let url = ssh_url(hostname, user, repo);
    let rest = hostname + seq![':'] + user + seq!['/'] + repo + ".git"@;
    assert(":"@ =~= seq![':']);
    assert("/"@ =~= seq!['/']);
    assert("git@"@ =~= url.subrange(0, 4));
    assert(url.skip(4) =~= rest);
    lemma_remote_parts(hostname, user, repo, ':');
}

/// Every HTTPS remote `https://H/U/R.git` parses into `H`, `U` and `R` with
/// the HTTP protocol.
pub proof fn lemma_https_url_parses(hostname: Seq<char>, user: Seq<char>, repo: Seq<char>)
    requires
        valid_part(hostname, '/'),
        valid_part(user, '/'),
        valid_part(repo, '/'),
    ensures
        parse_git_url_spec(https_url(hostname, user, repo)) == Some(
            GitUriView {
                hostname,
                user,
                repo,
                protocol: GitProtocol::HTTP,
                uri: https_url(hostname, user, repo),
            },
        ),
{
    reveal_strlit("git@");
    reveal_strlit("https://");
    reveal_strlit("/");
    let url = https_url(hostname, user, repo);
    let rest = hostname + seq!['/'] + user + seq!['/'] + repo + ".git"@;
    assert("/"@ =~= seq!['/']);
    assert("https://"@ =~= url.subrange(0, 8));
    assert(url.skip(8) =~= rest);
    assert(url[0] == 'h');
    if "git@"@.is_prefix_of(url) {
        assert(url.subrange(0, 4)[0] == 'g');
    }
    lemma_remote_parts(hostname, user, repo, '/');
}

/// Every HTTP remote `http://H/U/R.git` parses into `H`, `U` and `R` with the
/// HTTP protocol.
pub proof fn lemma_http_url_parses(hostname: Seq<char>, user: Seq<char>, repo: Seq<char>)
    requires
        valid_part(hostname, '/'),
        valid_part(user, '/'),
        valid_part(repo, '/'),
    ensures
        parse_git_url_spec(http_url(hostname, user, repo)) == Some(
            GitUriView {
                hostname,
                user,
                repo,
                protocol: GitProtocol::HTTP,
                uri: http_url(hostname, user, repo),
            },
        ),
{
    reveal_strlit("git@");
    reveal_strlit("https://");
    reveal_strlit("http://");
    reveal_strlit("/");
    let url = http_url(hostname, user, repo);
    let rest = hostname + seq!['/'] + user + seq!['/'] + repo + ".git"@;
    assert("/"@ =~= seq!['/']);
    assert("http://"@ =~= url.subrange(0, 7));
    assert(url.skip(7) =~= rest);
    assert(url[0] == 'h' && url[4] == ':');
    if "git@"@.is_prefix_of(url) {
        assert(url.subrange(0, 4)[0] == 'g');
    }
    if "https://"@.is_prefix_of(url) {
        assert(url.subrange(0, 8)[4] == 's');
    }
    lemma_remote_parts(hostname, user, repo, '/');
}

proof fn lemma_scheme_before_parts(
    scheme: Seq<char>,
    h: Seq<char>,
    sep: Seq<char>,
    u: Seq<char>,
    slash: Seq<char>,
    r: Seq<char>,
    ext: Seq<char>,
)
    ensures
        scheme + (h + sep + u + slash + r + ext) == scheme + h + sep + u + slash + r + ext,
{
    assert(scheme + (h + sep + u + slash + r + ext) =~= scheme + h + sep + u + slash + r + ext);
}

proof fn lemma_scheme_form(url: Seq<char>, scheme: Seq<char>, sep: char)
    requires
        after_prefix(url, scheme) is Some,
        remote_parts(after_prefix(url, scheme)->0, sep) is Some,
    ensures
        ({
            let (h, u, r) = remote_parts(after_prefix(url, scheme)->0, sep)->0;
            &&& valid_part(h, sep)
            &&& valid_part(u, '/')
            &&& valid_part(r, '/')
            &&& url == scheme + h + seq![sep] + u + seq!['/'] + r + ".git"@
        }),
{
    let rest = url.skip(scheme.len() as int);
    let (h, u, r) = remote_parts(rest, sep)->0;
    lemma_remote_parts_form(rest, sep);
    assert(url =~= scheme + rest);
    lemma_scheme_before_parts(scheme, h, seq![sep], u, seq!['/'], r, ".git"@);
}

/// Nothing but the two forms parses: a URL with an identity is the SSH, the
/// HTTPS or the HTTP remote of that identity, whose parts are valid, and the
/// identity keeps the URL as it was written.
pub proof fn lemma_parsed_url_form(url: Seq<char>)
    requires
        parse_git_url_spec(url) is Some,
    ensures
        ({
            let id = parse_git_url_spec(url)->0;
            &&& id.uri == url
            &&& valid_identity(id)
            &&& valid_part(id.user, '/')
            &&& valid_part(id.repo, '/')
            &&& match id.protocol {
                GitProtocol::SSH => valid_part(id.hostname, ':') && url == ssh_url(
                    id.hostname,
                    id.user,
                    id.repo,
                ),
                GitProtocol::HTTP => valid_part(id.hostname, '/') && (url == https_url(
                    id.hostname,
                    id.user,
                    id.repo,
                ) || url == http_url(id.hostname, id.user, id.repo)),
            }
        }),
{
    reveal_strlit(":");
    reveal_strlit("/");
    assert(":"@ =~= seq![':']);
    assert("/"@ =~= seq!['/']);
    if ssh_parts(url) is Some {
        lemma_scheme_form(url, "git@"@, ':');
    } else if "https://"@.is_prefix_of(url) {
        lemma_scheme_form(url, "https://"@, '/');
    } else {
        lemma_scheme_form(url, "http://"@, '/');
    }
}

/// A URL that does not end in `.git` has no identity.
pub proof fn lemma_url_without_git_suffix_fails(url: Seq<char>)
    requires
        !".git"@.is_suffix_of(url),
    ensures
        parse_git_url_spec(url) is None,
{
    if parse_git_url_spec(url) is Some {
        lemma_parsed_url_form(url);
        let id = parse_git_url_spec(url)->0;
        let ext = ".git"@;
        assert(ext =~= url.subrange(url.len() - ext.len(), url.len() as int));
    }
}

/// A URL that begins with none of `git@`, `https://` and `http://` has no
/// identity.
pub proof fn lemma_url_with_other_scheme_fails(url: Seq<char>)
    requires
        !"git@"@.is_prefix_of(url),
        !"https://"@.is_prefix_of(url),
        !"http://"@.is_prefix_of(url),
    ensures
        parse_git_url_spec(url) is None,
{
}

proof fn lemma_remote_extra_segment(
    h: Seq<char>,
    u: Seq<char>,
    x: Seq<char>,
    y: Seq<char>,
    sep: char,
)
    requires
        !h.contains(sep),
        !u.contains('/'),
    ensures
        remote_parts(h + seq![sep] + u + seq!['/'] + x + seq!['/'] + y, sep) is None,
{
    let rest = h + seq![sep] + u + seq!['/'] + x + seq!['/'] + y;
    assert forall|k: int| 0 <= k < h.len() implies rest[k] != sep by {
        assert(rest[k] == h[k]);
    }
    crate::text::lemma_first_index_is(rest, sep, h.len() as int);
    let after_host = rest.skip(h.len() as int + 1);
    assert(after_host =~= u + seq!['/'] + x + seq!['/'] + y);
    assert forall|k: int| 0 <= k < u.len() implies after_host[k] != '/' by {
        assert(after_host[k] == u[k]);
    }
    crate::text::lemma_first_index_is(after_host, '/', u.len() as int);
    let tail = after_host.skip(u.len() as int + 1);
    assert(tail =~= x + seq!['/'] + y);
    assert(tail[x.len() as int] == '/');
}

/// An SSH remote with a further path segment has no identity: `git@H:U/X/Y`
/// is refused whatever `X` and `Y` are.
pub proof fn lemma_ssh_url_with_extra_segment_fails(
    h: Seq<char>,
    u: Seq<char>,
    x: Seq<char>,
    y: Seq<char>,
)
    requires
        !h.contains(':'),
        !u.contains('/'),
    ensures
        parse_git_url_spec("git@"@ + h + ":"@ + u + "/"@ + x + "/"@ + y) is None,
{
    reveal_strlit("git@");
    reveal_strlit("https://");
    reveal_strlit("http://");
    reveal_strlit(":");
    reveal_strlit("/");
    assert(":"@ =~= seq![':']);
    assert("/"@ =~= seq!['/']);
    let url = "git@"@ + h + ":"@ + u + "/"@ + x + "/"@ + y;
    let rest = h + seq![':'] + u + seq!['/'] + x + seq!['/'] + y;
    assert("git@"@ =~= url.subrange(0, 4));
    assert(url.skip(4) =~= rest);
    assert(url[0] == 'g');
    if "https://"@.is_prefix_of(url) {
        assert(url.subrange(0, 8)[0] == 'h');
    }
    if "http://"@.is_prefix_of(url) {
        assert(url.subrange(0, 7)[0] == 'h');
    }
    lemma_remote_extra_segment(h, u, x, y, ':');
}

/// An HTTPS remote with a further path segment has no identity:
/// `https://H/U/X/Y` is refused whatever `X` and `Y` are.
pub proof fn lemma_https_url_with_extra_segment_fails(
    h: Seq<char>,
    u: Seq<char>,
    x: Seq<char>,
    y: Seq<char>,
)
    requires
        !h.contains('/'),
        !u.contains('/'),
    ensures
        parse_git_url_spec("https://"@ + h + "/"@ + u + "/"@ + x + "/"@ + y) is None,
{
    reveal_strlit("git@");
    reveal_strlit("https://");
    reveal_strlit("/");
    assert("/"@ =~= seq!['/']);
    let url = "https://"@ + h + "/"@ + u + "/"@ + x + "/"@ + y;
    let rest = h + seq!['/'] + u + seq!['/'] + x + seq!['/'] + y;
    assert("https://"@ =~= url.subrange(0, 8));
    assert(url.skip(8) =~= rest);
    assert(url[0] == 'h');
    if "git@"@.is_prefix_of(url) {
        assert(url.subrange(0, 4)[0] == 'g');
    }
    lemma_remote_extra_segment(h, u, x, y, '/');
}

} // verus!
