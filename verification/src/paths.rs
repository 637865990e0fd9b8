//! Unix-style paths as strings. A path is held as the text that names it,
//! and what its components, its parent, its last component and its prefixes
//! are is stated here over that text. What the library proves of a
//! repository's directory, of the default place of a worktree and of the
//! pointer in a worktree's `.git` file therefore holds down to the
//! characters. `/` is the only separator; repeated separators and `.` pieces
//! count for nothing, as in `std::path` on Unix.

use crate::text::{find_char, first_index, opt_view, to_chars, views};
use vstd::prelude::*;

verus! {

/// `base` extended by `part`, in the way of Unix paths: an absolute `part`
/// stands alone, and otherwise one separator lies between the two unless
/// `base` is empty or already ends in one.
pub open spec fn join_path(base: Seq<char>, part: Seq<char>) -> Seq<char> {
    if part.len() > 0 && part[0] == '/' {
        part
    } else if base.len() == 0 || base.last() == '/' {
        base + part
    } else {
        base + seq!['/'] + part
    }
}

/// Joins two paths.
pub fn path_join(base: &str, part: &str) -> (r: String)
    ensures
        r@ == join_path(base@, part@),
{
    let n = base.unicode_len();
    if part.unicode_len() > 0 && part.get_char(0) == '/' {
        part.to_owned()
    } else if n == 0 || base.get_char(n - 1) == '/' {
        let mut r = base.to_owned();
        r.append(part);
        r
    } else {
        let mut r = base.to_owned();
        proof {
            reveal_strlit("/");
            assert("/"@ =~= seq!['/']);
        }
        r.append("/");
        r.append(part);
        r
    }
}

/// Whether a path begins at the root of the file system.
pub open spec fn has_root(p: Seq<char>) -> bool {
    p.len() > 0 && p[0] == '/'
}

/// Whether a relative path begins with `.` as a component of its own.
pub open spec fn begins_with_cur_dir(p: Seq<char>) -> bool {
    p.len() > 0 && p[0] == '.' && (p.len() == 1 || p[1] == '/')
}

/// The length of what stands before the named components of a path: the
/// root or a leading `.`, if there is one.
pub open spec fn lead_len(p: Seq<char>) -> int {
    if has_root(p) || begins_with_cur_dir(p) {
        1
    } else {
        0
    }
}

/// Where the path `p[..end]` ends once the separators and the `.` pieces at
/// its end are dropped; what stands before `lead` is never dropped.
pub open spec fn trimmed_end(p: Seq<char>, lead: int, end: int) -> int
    decreases end - lead,
{
    if end <= lead {
        lead
    } else if p[end - 1] == '/' {
        trimmed_end(p, lead, end - 1)
    } else if p[end - 1] == '.' && (end - 1 == lead || p[end - 2] == '/') {
        trimmed_end(p, lead, end - 1)
    } else {
        end
    }
}

/// Where the last piece of `p[..end]` begins: behind the last separator, or
/// at `lead` when there is none behind `lead`.
pub open spec fn piece_start(p: Seq<char>, lead: int, end: int) -> int
    decreases end - lead,
{
    if end <= lead {
        lead
    } else if p[end - 1] == '/' {
        end
    } else {
        piece_start(p, lead, end - 1)
    }
}

/// The parent of a path: the path without its last component and without
/// the separators and `.` pieces that then end it. A path that is only a
/// leading `.` has the empty path as its parent; the empty path and the root
/// have none.
pub open spec fn path_parent(p: Seq<char>) -> Option<Seq<char>> {
    let lead = lead_len(p);
    let end = trimmed_end(p, lead, p.len() as int);
    if end > lead {
        Some(p.take(trimmed_end(p, lead, piece_start(p, lead, end))))
    } else if begins_with_cur_dir(p) {
        Some(Seq::empty())
    } else {
        None
    }
}

/// The last component of a path, unless the path ends in `..`, is only a
/// leading `.` or the root, or is empty.
pub open spec fn path_file_name(p: Seq<char>) -> Option<Seq<char>> {
    let lead = lead_len(p);
    let end = trimmed_end(p, lead, p.len() as int);
    let name = p.subrange(piece_start(p, lead, end), end);
    if end > lead && name != seq!['.', '.'] {
        Some(name)
    } else {
        None
    }
}

/// Whether a piece between two separators names something: it is neither
/// empty nor `.`.
pub open spec fn is_named(piece: Seq<char>) -> bool {
    piece.len() > 0 && piece != seq!['.']
}

/// The pieces of `s` between its separators that name something, in order.
pub open spec fn named_pieces(s: Seq<char>) -> Seq<Seq<char>>
    decreases s.len(),
{
    let n = first_index(s, '/');
    let head = if is_named(s.take(n as int)) {
        seq![s.take(n as int)]
    } else {
        Seq::empty()
    };
    if n >= s.len() {
        head
    } else {
        head + named_pieces(s.skip(n as int + 1))
    }
}

/// The components of a path: the root as `/` or a leading `.`, if there is
/// one, and then the pieces that name something.
pub open spec fn components(p: Seq<char>) -> Seq<Seq<char>> {
    let first = if has_root(p) {
        seq![seq!['/']]
    } else if begins_with_cur_dir(p) {
        seq![seq!['.']]
    } else {
        Seq::empty()
    };
    first + named_pieces(p.skip(lead_len(p)))
}

/// Whether `base` is a prefix of `path`, component by component.
pub open spec fn path_starts_with(path: Seq<char>, base: Seq<char>) -> bool {
    components(base).is_prefix_of(components(path))
}

/// Whether two paths are the same path: they have the same components,
/// however their separators and `.` pieces are written.
pub open spec fn same_path(a: Seq<char>, b: Seq<char>) -> bool {
    components(a) == components(b)
}

/// A path that ends where its last component ends: it is the root, a
/// single `.`, or ends in a component that no separator and no `.` piece
/// follows.
pub open spec fn closed_path(p: Seq<char>) -> bool {
    p.len() > 0 && trimmed_end(p, lead_len(p), p.len() as int) == p.len()
}

/// A piece that names something and holds no separator.
pub open spec fn is_component(c: Seq<char>) -> bool {
    is_named(c) && !c.contains('/')
}

/// The path of `c` inside the directory `q`.
pub open spec fn child_path(q: Seq<char>, c: Seq<char>) -> Seq<char> {
    q + seq!['/'] + c
}

proof fn lemma_trimmed_end_bounds(p: Seq<char>, lead: int, end: int)
    requires
        lead <= end,
    ensures
        lead <= trimmed_end(p, lead, end) <= end,
    decreases end - lead,
{
    if end > lead {
        lemma_trimmed_end_bounds(p, lead, end - 1);
    }
}

proof fn lemma_piece_start(p: Seq<char>, lead: int, start: int, end: int)
    requires
        0 <= lead <= start <= end <= p.len(),
        forall|k: int| start <= k < end ==> p[k] != '/',
        start == lead || p[start - 1] == '/',
    ensures
        piece_start(p, lead, end) == start,
    decreases end - start,
{
    if end > start {
        lemma_piece_start(p, lead, start, end - 1);
    }
}

/// The parent of what lies in a directory is that directory, its file name
/// is its own name, and its path ends where its last component ends.
pub proof fn lemma_parent_of_child(q: Seq<char>, c: Seq<char>)
    requires
        closed_path(q),
        is_component(c),
    ensures
        path_parent(child_path(q, c)) == Some(q),
        c != seq!['.', '.'] ==> path_file_name(child_path(q, c)) == Some(c),
        closed_path(child_path(q, c)),
{
    let p = child_path(q, c);
    let lead = lead_len(p);
    let n = q.len() as int;
    assert(p[0] == q[0]);
    assert(p[n] == '/');
    if n >= 2 {
        assert(p[1] == q[1]);
    }
    assert(lead == lead_len(q));
    assert forall|k: int| n + 1 <= k < p.len() implies p[k] != '/' by {
        assert(p[k] == c[k - n - 1]);
    }
    assert(p[p.len() - 1] == c[c.len() - 1]);
    if c.len() >= 2 {
        assert(p[p.len() - 2] == c[c.len() - 2]);
    } else {
        assert(c =~= seq![c[0]]);
    }
    assert(trimmed_end(p, lead, p.len() as int) == p.len());
    lemma_piece_start(p, lead, n + 1, p.len() as int);
    assert(trimmed_end(p, lead, n + 1) == trimmed_end(p, lead, n));
    if n > lead {
        assert(p[n - 1] == q[n - 1]);
        if n - 2 >= 0 {
            assert(p[n - 2] == q[n - 2]);
        }
        lemma_trimmed_end_bounds(q, lead, n - 1);
    }
    assert(trimmed_end(p, lead, n) == n);
    assert(p.take(n) =~= q);
    assert(p.subrange(n + 1, p.len() as int) =~= c);
}

fn lead_of(v: &Vec<char>) -> (lead: usize)
    ensures
        lead == lead_len(v@),
        lead <= v.len(),
{
    if v.len() > 0 && (v[0] == '/' || (v[0] == '.' && (v.len() == 1 || v[1] == '/'))) {
        1
    } else {
        0
    }
}

fn trim_end(v: &Vec<char>, lead: usize, end: usize) -> (r: usize)
    requires
        lead <= end <= v.len(),
    ensures
        r == trimmed_end(v@, lead as int, end as int),
        lead <= r <= end,
{
    let mut e: usize = end;
    while e > lead && (v[e - 1] == '/' || (v[e - 1] == '.' && (e - 1 == lead || v[e - 2] == '/')))
        invariant
            lead <= e <= end <= v.len(),
            trimmed_end(v@, lead as int, end as int) == trimmed_end(v@, lead as int, e as int),
        decreases e,
    {
        e -= 1;
    }
    e
}

fn start_of_piece(v: &Vec<char>, lead: usize, end: usize) -> (r: usize)
    requires
        lead <= end <= v.len(),
    ensures
        r == piece_start(v@, lead as int, end as int),
        lead <= r <= end,
{
    let mut e: usize = end;
    while e > lead && v[e - 1] != '/'
        invariant
            lead <= e <= end <= v.len(),
            piece_start(v@, lead as int, end as int) == piece_start(v@, lead as int, e as int),
        decreases e,
    {
        e -= 1;
    }
    e
}

/// The parent of a path.
pub fn parent_of(p: &str) -> (r: Option<String>)
    ensures
        opt_view(r) == path_parent(p@),
{
    let v = to_chars(p);
    let lead = lead_of(&v);
    let end = trim_end(&v, lead, v.len());
    if end > lead {
        let start = start_of_piece(&v, lead, end);
        let cut = trim_end(&v, lead, start);
        let parent = p.substring_char(0, cut).to_owned();
        assert(parent@ =~= p@.take(cut as int));
        Some(parent)
    } else if lead == 1 && v[0] == '.' {
        let parent = String::new();
        assert(parent@ =~= Seq::<char>::empty());
        Some(parent)
    } else {
        None
    }
}

/// The last component of a path.
pub fn file_name_of(p: &str) -> (r: Option<String>)
    ensures
        opt_view(r) == path_file_name(p@),
{
    let v = to_chars(p);
    let lead = lead_of(&v);
    let end = trim_end(&v, lead, v.len());
    let start = start_of_piece(&v, lead, end);
    if end > lead && !(end - start == 2 && v[start] == '.' && v[start + 1] == '.') {
        let name = p.substring_char(start, end).to_owned();
        assert(name@.len() == 2 ==> (name@ =~= seq!['.', '.']) == (name@[0] == '.' && name@[1]
            == '.'));
        Some(name)
    } else {
        proof {
            let name = p@.subrange(start as int, end as int);
            if end > lead {
                assert(name =~= seq!['.', '.']);
            }
        }
        None
    }
}

/// The components of a path.
pub fn components_of(p: &str) -> (r: Vec<String>)
    ensures
        views(r@) == components(p@),
{
    let v = to_chars(p);
    let lead = lead_of(&v);
    let mut out: Vec<String> = Vec::new();
    if lead == 1 {
        out.push(p.substring_char(0, 1).to_owned());
    }
    let ghost first = views(out@);
    let ghost body = v@.skip(lead as int);
    proof {
        if lead == 1 {
            assert(first =~= seq![p@.subrange(0, 1)]);
            assert(p@.subrange(0, 1) =~= seq![p@[0]]);
        } else {
            assert(first =~= Seq::<Seq<char>>::empty());
        }
        assert(body.skip(0) =~= body);
    }
    let mut pos: usize = lead;
    while pos < v.len()
        invariant
            lead <= pos <= v.len(),
            v@ == p@,
            body == v@.skip(lead as int),
            first + named_pieces(body) == views(out@) + named_pieces(v@.skip(pos as int)),
        decreases v.len() - pos,
    {
        let ghost rest = v@.skip(pos as int);
        let ghost before = views(out@);
        let end = find_char(&v, pos, '/');
        let ghost piece = rest.take(end - pos);
        assert(piece =~= v@.subrange(pos as int, end as int));
        let named = end > pos && !(end - pos == 1 && v[pos] == '.');
        proof {
            if end - pos == 1 {
                assert((piece =~= seq!['.']) == (piece[0] == '.'));
            }
            assert(named == is_named(piece));
        }
        if named {
            let part = p.substring_char(pos, end).to_owned();
            assert(part@ =~= piece);
            out.push(part);
            assert(views(out@) =~= before.push(piece));
        }
        proof {
            let head = if is_named(piece) {
                seq![piece]
            } else {
                Seq::<Seq<char>>::empty()
            };
            assert(views(out@) =~= before + head);
            if end < v.len() {
                assert(rest.skip(end - pos + 1) =~= v@.skip(end + 1));
                assert(before + (head + named_pieces(v@.skip(end + 1))) =~= (before + head)
                    + named_pieces(v@.skip(end + 1)));
            } else {
                let none = v@.skip(v@.len() as int);
                assert(none.take(0) =~= Seq::<char>::empty());
                assert(named_pieces(none) =~= Seq::<Seq<char>>::empty());
                assert(before + head =~= (before + head) + Seq::<Seq<char>>::empty());
            }
        }
        pos = if end < v.len() {
            end + 1
        } else {
            end
        };
    }
    proof {
        let none = v@.skip(pos as int);
        assert(none.take(0) =~= Seq::<char>::empty());
        assert(named_pieces(none) =~= Seq::<Seq<char>>::empty());
        assert(views(out@) + Seq::<Seq<char>>::empty() =~= views(out@));
    }
    out
}

/// Whether `base` is a prefix of `path`, component by component.
pub fn starts_with(path: &str, base: &str) -> (r: bool)
    ensures
        r == path_starts_with(path@, base@),
{
    let whole = components_of(path);
    let prefix = components_of(base);
    if prefix.len() > whole.len() {
        return false;
    }
    let ghost a = views(whole@);
    let ghost b = views(prefix@);
    let mut i: usize = 0;
    while i < prefix.len()
        invariant
            i <= prefix.len() <= whole.len(),
            a == views(whole@),
            b == views(prefix@),
            a == components(path@),
            b == components(base@),
            forall|k: int| 0 <= k < i ==> a[k] == b[k],
        decreases prefix.len() - i,
    {
        if whole[i] != prefix[i] {
            proof {
                let front = a.subrange(0, b.len() as int);
                assert(a[i as int] == whole@[i as int]@ && b[i as int] == prefix@[i as int]@);
                assert(front[i as int] != b[i as int]);
                assert(front != b);
            }
            return false;
        }
        i += 1;
    }
    assert(b =~= a.subrange(0, b.len() as int));
    true
}

/// Whether two paths are the same path.
pub fn paths_equal(a: &str, b: &str) -> (r: bool)
    ensures
        r == same_path(a@, b@),
{
    let r = starts_with(a, b) && starts_with(b, a);
    proof {
        let ca = components(a@);
        let cb = components(b@);
        if r {
            assert(ca =~= cb);
        }
        if ca == cb {
            assert(ca =~= cb.subrange(0, ca.len() as int));
        }
    }
    r
}

} // verus!
