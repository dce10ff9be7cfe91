//! Reading the lists that the user types: one entry per line or per comma.
use vstd::prelude::*;
use vstd::string::*;
use crate::text::is_prefix;

verus! {

/// The characters with the Unicode White_Space property.
pub open spec fn is_space(c: char) -> bool {
    let u = c as u32;
    ||| 0x09 <= u <= 0x0d
    ||| u == 0x20
    ||| u == 0x85
    ||| u == 0xa0
    ||| u == 0x1680
    ||| 0x2000 <= u <= 0x200a
    ||| u == 0x2028
    ||| u == 0x2029
    ||| u == 0x202f
    ||| u == 0x205f
    ||| u == 0x3000
}

/// Relies on `char::is_whitespace`: true exactly for the characters with the
/// Unicode White_Space property.
#[verifier::external_body]
fn whitespace(c: char) -> (r: bool)
    ensures
        r == is_space(c),
{
    c.is_whitespace()
}

/// The pieces of `s` between occurrences of `sep`, in order; an empty text
/// is one empty piece.
pub open spec fn pieces(s: Seq<char>, sep: char) -> Seq<Seq<char>>
    decreases s.len(),
{
    if s.len() == 0 {
        seq![Seq::empty()]
    } else {
        let r = pieces(s.drop_last(), sep);
        if s.last() == sep {
            r.push(Seq::empty())
        } else {
            r.update(r.len() - 1, r.last().push(s.last()))
        }
    }
}

/// The first index at or after `i` whose character is not white space.
pub open spec fn first_non_space(s: Seq<char>, i: int) -> int
    decreases s.len() - i,
{
    if i < 0 || i >= s.len() || !is_space(s[i]) {
        i
    } else {
        first_non_space(s, i + 1)
    }
}

/// One past the last index before `j` whose character is not white space.
pub open spec fn end_non_space(s: Seq<char>, j: int) -> int
    decreases j,
{
    if j <= 0 || j > s.len() || !is_space(s[j - 1]) {
        j
    } else {
        end_non_space(s, j - 1)
    }
}

/// `s` without leading and trailing white space.
pub open spec fn trimmed(s: Seq<char>) -> Seq<char> {
    let a = first_non_space(s, 0);
    if a >= s.len() {
        Seq::empty()
    } else {
        s.subrange(a, end_non_space(s, s.len() as int))
    }
}

/// The texts of `ps` that are not empty, in order.
pub open spec fn kept(ps: Seq<Seq<char>>) -> Seq<Seq<char>>
    decreases ps.len(),
{
    if ps.len() == 0 {
        Seq::empty()
    } else if ps.last().len() > 0 {
        kept(ps.drop_last()).push(ps.last())
    } else {
        kept(ps.drop_last())
    }
}

/// The pieces of `s` separated by `sep`, each trimmed.
pub open spec fn trimmed_pieces(s: Seq<char>, sep: char) -> Seq<Seq<char>> {
    pieces(s, sep).map_values(|p: Seq<char>| trimmed(p))
}

/// The trimmed pieces of `s` that are not empty, in order.
pub open spec fn entries(s: Seq<char>, sep: char) -> Seq<Seq<char>> {
    kept(trimmed_pieces(s, sep))
}

/// `t` occurs in `s`.
pub open spec fn contains(s: Seq<char>, t: Seq<char>) -> bool {
    exists|i: int| 0 <= i <= s.len() && #[trigger] is_prefix(t, s.subrange(i, s.len() as int))
}

/// `s` without leading and trailing white space.
pub fn trim_text(s: &str) -> (r: String)
    ensures
        r@ == trimmed(s@),
{
    let n = s.unicode_len();
    let mut a: usize = 0;
    while a < n && whitespace(s.get_char(a))
        invariant
            n == s@.len(),
            a <= n,
            first_non_space(s@, a as int) == first_non_space(s@, 0),
        decreases n - a,
    {
        a = a + 1;
    }
    assert(first_non_space(s@, a as int) == a);
    if a >= n {
        return String::new();
    }
    let mut b: usize = n;
    while b > a && whitespace(s.get_char(b - 1))
        invariant
            n == s@.len(),
            a < n,
            !is_space(s@[a as int]),
            a < b <= n,
            end_non_space(s@, b as int) == end_non_space(s@, n as int),
        decreases b,
    {
        b = b - 1;
    }
    assert(end_non_space(s@, b as int) == b);
    s.substring_char(a, b).to_owned()
}

/// Whether `t` occurs in `s`.
pub fn contains_text(s: &str, t: &str) -> (r: bool)
    ensures
        r == contains(s@, t@),
{
    let n = s.unicode_len();
    let mut i: usize = 0;
    while i <= n
        invariant
            n == s@.len(),
            forall|j: int| 0 <= j < i ==> !is_prefix(t@, #[trigger] s@.subrange(j, n as int)),
        decreases n + 1 - i,
    {
        let rest = s.substring_char(i, n);
        if crate::text::has_prefix(rest, t) {
            return true;
        }
        if i == n {
            assert forall|j: int| 0 <= j <= n implies !#[trigger] is_prefix(t@, s@.subrange(j, n as int)) by {}
            return false;
        }
        i = i + 1;
    }
    false
}

/// The pieces of `s` separated by `sep`, each trimmed.
pub fn split_trimmed(s: &str, sep: char) -> (r: Vec<String>)
    ensures
        r@.map_values(|e: String| e@) == trimmed_pieces(s@, sep),
{
    let n = s.unicode_len();
    let mut r: Vec<String> = Vec::new();
    let mut start: usize = 0;
    let mut i: usize = 0;
    let ghost mut done: Seq<Seq<char>> = Seq::empty();
    assert(s@.subrange(0, 0) =~= Seq::<char>::empty());
    assert(pieces(s@.subrange(0, 0), sep) =~= done + seq![s@.subrange(0, 0)]);
    while i < n
        invariant
            n == s@.len(),
            start <= i <= n,
            pieces(s@.subrange(0, i as int), sep) == done + seq![s@.subrange(start as int, i as int)],
            r@.map_values(|e: String| e@) == done.map_values(|p: Seq<char>| trimmed(p)),
        decreases n - i,
    {
        let c = s.get_char(i);
        let ghost prev = s@.subrange(0, i as int);
        assert(s@.subrange(0, i as int + 1).drop_last() =~= prev);
        assert(s@.subrange(0, i as int + 1).last() == c);
        if c == sep {
            let piece = trim_text(s.substring_char(start, i));
            let ghost p = s@.subrange(start as int, i as int);
            let ghost before = r@;
            r.push(piece);
            proof {
                assert(r@.map_values(|e: String| e@) =~= before.map_values(|e: String| e@).push(piece@));
                assert((done + seq![p]).map_values(|p: Seq<char>| trimmed(p)) =~= done.map_values(|p: Seq<char>| trimmed(p)).push(trimmed(p)));
                done = done + seq![p];
                assert(s@.subrange(i as int + 1, i as int + 1) =~= Seq::<char>::empty());
                assert(pieces(s@.subrange(0, i as int + 1), sep) =~= done + seq![Seq::<char>::empty()]);
            }
            start = i + 1;
        } else {
            proof {
                let q = done + seq![s@.subrange(start as int, i as int)];
                assert(q.last() == s@.subrange(start as int, i as int));
                assert(s@.subrange(start as int, i as int).push(c) =~= s@.subrange(start as int, i as int + 1));
                assert(q.update(q.len() - 1, q.last().push(c)) =~= done + seq![s@.subrange(start as int, i as int + 1)]);
            }
        }
        i = i + 1;
    }
    let piece = trim_text(s.substring_char(start, n));
    let ghost p = s@.subrange(start as int, n as int);
    let ghost before = r@;
    r.push(piece);
    proof {
        assert(s@.subrange(0, n as int) =~= s@);
        assert(r@.map_values(|e: String| e@) =~= before.map_values(|e: String| e@).push(piece@));
        assert((done + seq![p]).map_values(|p: Seq<char>| trimmed(p)) =~= done.map_values(|p: Seq<char>| trimmed(p)).push(trimmed(p)));
    }
    r
}

/// The texts of `v` that are not empty, in order.
pub fn keep_nonempty(v: &Vec<String>) -> (r: Vec<String>)
    ensures
        r@.map_values(|e: String| e@) == kept(v@.map_values(|e: String| e@)),
{
    let ghost vv = v@.map_values(|e: String| e@);
    let mut r: Vec<String> = Vec::new();
    let mut i: usize = 0;
    while i < v.len()
        invariant
            i <= v@.len(),
            vv == v@.map_values(|e: String| e@),
            r@.map_values(|e: String| e@) == kept(vv.subrange(0, i as int)),
        decreases v@.len() - i,
    {
        let e = v[i].clone();
        assert(e@ == vv[i as int]);
        assert(vv.subrange(0, i as int + 1).drop_last() =~= vv.subrange(0, i as int));
        if e.unicode_len() > 0 {
            let ghost before = r@;
            r.push(e);
            assert(r@.map_values(|e: String| e@) =~= before.map_values(|e: String| e@).push(vv[i as int]));
        }
        i = i + 1;
    }
    assert(vv.subrange(0, i as int) =~= vv);
    r
}

/// The entries of `s` separated by `sep`, trimmed, empty ones left out.
pub fn split_entries(s: &str, sep: char) -> (r: Vec<String>)
    ensures
        r@.map_values(|e: String| e@) == entries(s@, sep),
{
    keep_nonempty(&split_trimmed(s, sep))
}

} // verus!
