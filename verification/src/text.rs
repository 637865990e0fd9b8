//! Character-level helpers shared by the parsers: searching, prefixes,
//! trimming, line splitting and decimal numbers.

use vstd::prelude::*;

verus! {

/// Position of the first `c` in `s`, or `s.len()` when `s` holds none.
pub open spec fn first_index(s: Seq<char>, c: char) -> nat
    decreases s.len(),
{
    if s.len() == 0 || s[0] == c {
        0
    } else {
        1 + first_index(s.drop_first(), c)
    }
}

/// `first_index` is within bounds, nothing before it equals `c`, and `c`
/// stands at it unless it is the length.
pub proof fn lemma_first_index(s: Seq<char>, c: char)
    ensures
        0 <= first_index(s, c) <= s.len(),
        forall|k: int| 0 <= k < first_index(s, c) ==> s[k] != c,
        first_index(s, c) < s.len() ==> s[first_index(s, c) as int] == c,
        first_index(s, c) == s.len() <==> !s.contains(c),
    decreases s.len(),
{
    if s.len() == 0 || s[0] == c {
    } else {
        let t = s.drop_first();
        lemma_first_index(t, c);
        assert forall|k: int| 0 <= k < first_index(s, c) implies s[k] != c by {
            if k > 0 {
                assert(s[k] == t[k - 1]);
            }
        }
        if first_index(s, c) < s.len() {
            assert(s[first_index(s, c) as int] == t[first_index(t, c) as int]);
        }
        if t.contains(c) {
            let j = choose|j: int| 0 <= j < t.len() && t[j] == c;
            assert(s[j + 1] == c);
        }
        if s.contains(c) {
            let j = choose|j: int| 0 <= j < s.len() && s[j] == c;
            assert(t[j - 1] == c);
        }
    }
}

/// Any position that holds the first `c` (or the length, when there is no
/// `c`) is `first_index`.
pub proof fn lemma_first_index_is(s: Seq<char>, c: char, i: int)
    requires
        0 <= i <= s.len(),
        forall|k: int| 0 <= k < i ==> s[k] != c,
        i < s.len() ==> s[i] == c,
    ensures
        first_index(s, c) == i,
{
    lemma_first_index(s, c);
    let f = first_index(s, c) as int;
    if f < i {
        assert(s[f] == c);
    } else if i < f {
        assert(s[i] == c);
    }
}

/// The characters of a string slice, in order.
pub fn to_chars(s: &str) -> (v: Vec<char>)
    ensures
        v@ == s@,
{
    let mut v: Vec<char> = Vec::new();
    for c in it: s.chars()
        invariant
            it.seq() == s@,
            v@ == it.seq().take(it.index() as int),
    {
        v.push(c);
    }
    v
}

/// Position of the first `c` at or after `from`, or the length when none
/// follows.
pub fn find_char(v: &Vec<char>, from: usize, c: char) -> (r: usize)
    requires
        from <= v.len(),
    ensures
        r == from + first_index(v@.skip(from as int), c),
        from <= r <= v.len(),
{
    let mut i: usize = from;
    while i < v.len() && v[i] != c
        invariant
            from <= i <= v.len(),
            forall|k: int| from <= k < i ==> v@[k] != c,
        decreases v.len() - i,
    {
        i += 1;
    }
    proof {
        lemma_first_index_is(v@.skip(from as int), c, i - from);
    }
    i
}

/// Whether `p` stands in `v` at position `from`.
pub fn has_prefix_at(v: &Vec<char>, from: usize, p: &str) -> (r: bool)
    requires
        from <= v.len(),
    ensures
        r == p@.is_prefix_of(v@.skip(from as int)),
{
    let pv = to_chars(p);
    if pv.len() > v.len() - from {
        return false;
    }
    let mut i: usize = 0;
    while i < pv.len()
        invariant
            i <= pv.len() <= v.len() - from,
            pv@ == p@,
            forall|k: int| 0 <= k < i ==> v@[from + k] == pv@[k],
        decreases pv.len() - i,
    {
        if v[from + i] != pv[i] {
            proof {
                let rest = v@.skip(from as int);
                assert(rest.subrange(0, pv@.len() as int)[i as int] == rest[i as int]);
            }
            return false;
        }
        i += 1;
    }
    proof {
        let rest = v@.skip(from as int);
        assert(p@ =~= rest.subrange(0, p@.len() as int));
    }
    true
}

/// Whether `v` holds exactly the characters of `p`.
pub fn equals_str(v: &Vec<char>, p: &str) -> (r: bool)
    ensures
        r == (v@ == p@),
{
    let r = has_prefix_at(v, 0, p) && p.unicode_len() == v.len();
    proof {
        assert(v@.skip(0) =~= v@);
        if r {
            assert(v@ =~= p@);
        }
    }
    r
}

/// Whether two string slices hold the same characters.
pub fn str_eq(a: &str, b: &str) -> (r: bool)
    ensures
        r == (a@ == b@),
{
    let v = to_chars(a);
    equals_str(&v, b)
}

/// What follows `p` in `s`, when `s` begins with `p`.
pub open spec fn after_prefix(s: Seq<char>, p: Seq<char>) -> Option<Seq<char>> {
    if p.is_prefix_of(s) {
        Some(s.skip(p.len() as int))
    } else {
        None
    }
}

/// The view of an optional string.
pub open spec fn opt_view(o: Option<String>) -> Option<Seq<char>> {
    match o {
        Some(s) => Some(s@),
        None => None,
    }
}

/// Removes the prefix `p` from `s`, whose characters are `v`, if `s` begins
/// with it.
pub fn rest_after(s: &str, v: &Vec<char>, p: &str) -> (r: Option<String>)
    requires
        v@ == s@,
    ensures
        opt_view(r) == after_prefix(s@, p@),
{
    proof {
        assert(v@.skip(0) =~= v@);
    }
    if has_prefix_at(v, 0, p) {
        let rest = s.substring_char(p.unicode_len(), v.len()).to_owned();
        assert(rest@ =~= s@.skip(p@.len() as int));
        Some(rest)
    } else {
        None
    }
}

/// Removes the prefix `p` from `s`, if `s` begins with it.
pub fn strip_prefix(s: &str, p: &str) -> (r: Option<String>)
    ensures
        opt_view(r) == after_prefix(s@, p@),
{
    let v = to_chars(s);
    rest_after(s, &v, p)
}

/// Whether a character is white space in Unicode's sense.
pub open spec fn is_space(c: char) -> bool {
    let n = c as u32;
    ||| 0x09 <= n <= 0x0D
    ||| n == 0x20
    ||| n == 0x85
    ||| n == 0xA0
    ||| n == 0x1680
    ||| 0x2000 <= n <= 0x200A
    ||| n == 0x2028
    ||| n == 0x2029
    ||| n == 0x202F
    ||| n == 0x205F
    ||| n == 0x3000
}

/// Whether a character is white space in Unicode's sense.
pub fn is_whitespace(c: char) -> (r: bool)
    ensures
        r == is_space(c),
{
    let n = c as u32;
    (0x09 <= n && n <= 0x0D) || n == 0x20 || n == 0x85 || n == 0xA0 || n == 0x1680 || (0x2000 <= n
        && n <= 0x200A) || n == 0x2028 || n == 0x2029 || n == 0x202F || n == 0x205F || n == 0x3000
}

/// The number of white space characters with which a text begins.
pub open spec fn leading_spaces(s: Seq<char>) -> nat
    decreases s.len(),
{
    if s.len() > 0 && is_space(s[0]) {
        1 + leading_spaces(s.drop_first())
    } else {
        0
    }
}

/// The number of white space characters with which a text ends.
pub open spec fn trailing_spaces(s: Seq<char>) -> nat
    decreases s.len(),
{
    if s.len() > 0 && is_space(s.last()) {
        1 + trailing_spaces(s.drop_last())
    } else {
        0
    }
}

/// A text without the white space at its two ends.
pub open spec fn trimmed(s: Seq<char>) -> Seq<char> {
    let rest = s.skip(leading_spaces(s) as int);
    rest.take(rest.len() - trailing_spaces(rest))
}

/// A text begins with exactly `n` white space characters if its first `n`
/// characters are white space and the next one is not.
pub proof fn lemma_leading_spaces_is(s: Seq<char>, n: int)
    requires
        0 <= n <= s.len(),
        forall|k: int| 0 <= k < n ==> is_space(s[k]),
        n < s.len() ==> !is_space(s[n]),
    ensures
        leading_spaces(s) == n,
    decreases s.len(),
{
    if n > 0 {
        let t = s.drop_first();
        assert forall|k: int| 0 <= k < n - 1 implies is_space(t[k]) by {
            assert(t[k] == s[k + 1]);
        }
        lemma_leading_spaces_is(t, n - 1);
    }
}

/// A text ends with exactly `n` white space characters if its last `n`
/// characters are white space and the one before them is not.
pub proof fn lemma_trailing_spaces_is(s: Seq<char>, n: int)
    requires
        0 <= n <= s.len(),
        forall|k: int| s.len() - n <= k < s.len() ==> is_space(s[k]),
        n < s.len() ==> !is_space(s[s.len() - n - 1]),
    ensures
        trailing_spaces(s) == n,
    decreases s.len(),
{
    if n > 0 {
        let t = s.drop_last();
        assert forall|k: int| t.len() - (n - 1) <= k < t.len() implies is_space(t[k]) by {
            assert(t[k] == s[k]);
        }
        lemma_trailing_spaces_is(t, n - 1);
    }
}

/// Removes the white space at the two ends of a text.
pub fn trim(s: &str) -> (r: String)
    ensures
        r@ == trimmed(s@),
{
    let v = to_chars(s);
    let mut start: usize = 0;
    while start < v.len() && is_whitespace(v[start])
        invariant
            start <= v.len(),
            forall|k: int| 0 <= k < start ==> is_space(v@[k]),
        decreases v.len() - start,
    {
        start += 1;
    }
    let mut end: usize = v.len();
    while end > start && is_whitespace(v[end - 1])
        invariant
            start <= end <= v.len(),
            forall|k: int| end <= k < v.len() ==> is_space(v@[k]),
        decreases end,
    {
        end -= 1;
    }
    proof {
        lemma_leading_spaces_is(v@, start as int);
        let rest = v@.skip(start as int);
        assert forall|k: int| rest.len() - (v.len() - end) <= k < rest.len() implies is_space(
            rest[k],
        ) by {
            assert(rest[k] == v@[k + start]);
        }
        lemma_trailing_spaces_is(rest, v.len() - end);
        assert(rest.take(rest.len() - (v.len() - end)) =~= v@.subrange(start as int, end as int));
    }
    s.substring_char(start, end).to_owned()
}

/// Turns every `from` in `s` into the one character of `to`.
pub(crate) fn replace(s: &str, from: char, to: &str) -> (r: String)
    requires
        to@.len() == 1,
    ensures
        r@ == replace_char(s@, from, to@[0]),
{
    let ghost to_char = to@[0];
    assert(to@ =~= seq![to_char]);
    let v = to_chars(s);
    let mut r = String::new();
    let mut pos: usize = 0;
    while pos < v.len()
        invariant
            pos <= v.len(),
            v@ == s@,
            to@ == seq![to_char],
            r@ == replace_char(s@.take(pos as int), from, to_char),
        decreases v.len() - pos,
    {
        let end = find_char(&v, pos, from);
        proof {
            lemma_first_index(v@.skip(pos as int), from);
        }
        r.append(s.substring_char(pos, end));
        if end < v.len() {
            r.append(to);
            assert(r@ =~= replace_char(s@.take(end + 1), from, to_char)) by {
                assert forall|k: int| pos <= k < end implies s@[k] != from by {
                    assert(v@.skip(pos as int)[k - pos] == v@[k]);
                }
            }
            pos = end + 1;
        } else {
            assert(r@ =~= replace_char(s@.take(end as int), from, to_char)) by {
                assert forall|k: int| pos <= k < end implies s@[k] != from by {
                    assert(v@.skip(pos as int)[k - pos] == v@[k]);
                }
            }
            pos = end;
        }
    }
    assert(s@.take(pos as int) =~= s@);
    r
}

/// The views of a sequence of strings.
pub open spec fn views(v: Seq<String>) -> Seq<Seq<char>> {
    Seq::new(v.len(), |i: int| v[i]@)
}

/// A line without the carriage return that may close it.
pub open spec fn strip_cr(line: Seq<char>) -> Seq<char> {
    if line.len() > 0 && line.last() == '\r' {
        line.drop_last()
    } else {
        line
    }
}

/// The lines of a text. A line ends at a line feed, which is dropped together
/// with a carriage return directly before it; the last line needs no line
/// feed, and an empty text has no line.
pub open spec fn lines(s: Seq<char>) -> Seq<Seq<char>>
    decreases s.len(),
{
    let n = first_index(s, '\n');
    if s.len() == 0 {
        Seq::empty()
    } else if n >= s.len() {
        seq![s]
    } else {
        seq![strip_cr(s.take(n as int))] + lines(s.skip(n as int + 1))
    }
}

/// Splits a text into its lines.
pub fn split_lines(text: &str) -> (out: Vec<String>)
    ensures
        views(out@) == lines(text@),
{
    let v = to_chars(text);
    let mut out: Vec<String> = Vec::new();
    let mut pos: usize = 0;
    proof {
        assert(v@.skip(0) =~= v@);
        assert(views(out@) + lines(v@) =~= lines(v@));
    }
    while pos < v.len()
        invariant
            pos <= v.len(),
            v@ == text@,
            lines(text@) == views(out@) + lines(v@.skip(pos as int)),
        decreases v.len() - pos,
    {
        let ghost rest = v@.skip(pos as int);
        let ghost before = views(out@);
        let end = find_char(&v, pos, '\n');
        let stop = if end < v.len() && end > pos && v[end - 1] == '\r' {
            end - 1
        } else {
            end
        };
        let line = text.substring_char(pos, stop).to_owned();
        out.push(line);
        proof {
            let n = first_index(rest, '\n') as int;
            assert(rest.take(n) =~= v@.subrange(pos as int, end as int));
            assert(views(out@) =~= before.push(line@));
            if end < v.len() {
                assert(strip_cr(rest.take(n)) =~= line@);
                assert(rest.skip(n + 1) =~= v@.skip(end + 1));
                assert(before + (seq![line@] + lines(rest.skip(n + 1))) =~= before.push(line@)
                    + lines(rest.skip(n + 1)));
            } else {
                assert(rest =~= line@);
                assert(lines(v@.skip(v@.len() as int)) =~= Seq::<Seq<char>>::empty());
                assert(before + seq![rest] =~= before.push(line@) + Seq::<Seq<char>>::empty());
            }
        }
        pos = if end < v.len() {
            end + 1
        } else {
            end
        };
    }
    proof {
        assert(lines(v@.skip(pos as int)) =~= Seq::<Seq<char>>::empty());
        assert(views(out@) + Seq::<Seq<char>>::empty() =~= views(out@));
    }
    out
}

/// `s` with every `from` turned into `to`.
pub open spec fn replace_char(s: Seq<char>, from: char, to: char) -> Seq<char> {
    Seq::new(s.len(), |i: int| if s[i] == from { to } else { s[i] })
}

/// The character of a decimal digit.
pub open spec fn digit_char(d: nat) -> char {
    if d == 0 {
        '0'
    } else if d == 1 {
        '1'
    } else if d == 2 {
        '2'
    } else if d == 3 {
        '3'
    } else if d == 4 {
        '4'
    } else if d == 5 {
        '5'
    } else if d == 6 {
        '6'
    } else if d == 7 {
        '7'
    } else if d == 8 {
        '8'
    } else {
        '9'
    }
}

/// A number in decimal, without leading zeros.
pub open spec fn decimal(n: nat) -> Seq<char>
    decreases n,
{
    if n < 10 {
        seq![digit_char(n)]
    } else {
        decimal(n / 10).push(digit_char(n % 10))
    }
}

fn digit_str(d: u32) -> (r: &'static str)
    requires
        d < 10,
    ensures
        r@ == seq![digit_char(d as nat)],
{
    proof {
        reveal_strlit("0");
        reveal_strlit("1");
        reveal_strlit("2");
        reveal_strlit("3");
        reveal_strlit("4");
        reveal_strlit("5");
        reveal_strlit("6");
        reveal_strlit("7");
        reveal_strlit("8");
        reveal_strlit("9");
    }
    let r = if d == 0 {
        "0"
    } else if d == 1 {
        "1"
    } else if d == 2 {
        "2"
    } else if d == 3 {
        "3"
    } else if d == 4 {
        "4"
    } else if d == 5 {
        "5"
    } else if d == 6 {
        "6"
    } else if d == 7 {
        "7"
    } else if d == 8 {
        "8"
    } else {
        "9"
    };
    assert(r@ =~= seq![digit_char(d as nat)]);
    r
}

/// Appends a number in decimal to `out`.
pub fn push_decimal(out: &mut String, n: u32)
    ensures
        final(out)@ == old(out)@ + decimal(n as nat),
    decreases n,
{
    if n >= 10 {
        push_decimal(out, n / 10);
    }
    out.append(digit_str(n % 10));
    proof {
        if n >= 10 {
            assert(old(out)@ + decimal((n / 10) as nat) + seq![digit_char((n % 10) as nat)]
                =~= old(out)@ + decimal(n as nat));
        }
    }
}

} // verus!
