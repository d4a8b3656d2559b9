//! Reading one parameter out of a URL query string (`?f=active&q=nasa`).

use vstd::prelude::*;
use crate::text::{chars_of, string_from};

verus! {

/// `s` without its leading `?` characters.
pub open spec fn strip_q(s: Seq<char>) -> Seq<char>
    decreases s.len(),
{
    if s.len() > 0 && s[0] == '?' {
        strip_q(s.drop_first())
    } else {
        s
    }
}

/// `s[a..b]` is one `&`-separated piece of `s`.
pub open spec fn is_segment(s: Seq<char>, a: int, b: int) -> bool {
    &&& 0 <= a <= b <= s.len()
    &&& (a == 0 || s[a - 1] == '&')
    &&& (b == s.len() || s[b] == '&')
    &&& forall|j: int| a <= j < b ==> #[trigger] s[j] != '&'
}

/// The value a `key=value` piece gives `name`: the text after `name=`
/// when the piece's key (text before its first `=`) is `name` and the value
/// is not empty.
pub open spec fn pair_value(seg: Seq<char>, name: Seq<char>) -> Option<Seq<char>> {
    if !name.contains('=') && seg.len() > name.len() + 1 && seg.take(name.len() as int) == name
        && seg[name.len() as int] == '=' {
        Some(seg.skip(name.len() + 1int))
    } else {
        None
    }
}

/// The piece `s[a..b]` gives `name` a value.
pub open spec fn query_hit(s: Seq<char>, a: int, b: int, name: Seq<char>) -> bool {
    is_segment(s, a, b) && pair_value(s.subrange(a, b), name) is Some
}

/// `r` is the value of `name` in the query string `qs`: the value of the
/// first piece (after leading `?`s) that gives one, or `None` when none does.
pub open spec fn is_query_value(qs: Seq<char>, name: Seq<char>, r: Option<Seq<char>>) -> bool {
    let s = strip_q(qs);
    match r {
        None => forall|a: int, b: int| !#[trigger] query_hit(s, a, b, name),
        Some(v) => exists|a: int, b: int|
            #[trigger] query_hit(s, a, b, name) && pair_value(s.subrange(a, b), name) == Some(v)
                && forall|c: int, d: int| c < a ==> !#[trigger] query_hit(s, c, d, name),
    }
}

fn seq_contains_char(v: &Vec<char>, c: char) -> (r: bool)
    ensures
        r == v@.contains(c),
{
    let mut i: usize = 0;
    while i < v.len()
        invariant
            i <= v@.len(),
            forall|j: int| 0 <= j < i ==> v@[j] != c,
        decreases v@.len() - i,
    {
        if v[i] == c {
            return true;
        }
        i = i + 1;
    }
    false
}

/// Whether `s[a..b]` gives `name` a value (`name` given as characters).
fn piece_matches(s: &Vec<char>, a: usize, b: usize, name: &Vec<char>, name_has_eq: bool) -> (r:
    bool)
    requires
        a <= b <= s@.len(),
        name_has_eq == name@.contains('='),
    ensures
        r == (pair_value(s@.subrange(a as int, b as int), name@) is Some),
{
    let m = name.len();
    let ghost seg = s@.subrange(a as int, b as int);
    if name_has_eq || b - a <= m || b - a - m <= 1 {
        return false;
    }
    let mut k: usize = 0;
    while k < m
        invariant
            m == name@.len(),
            a + m + 1 < b <= s@.len(),
            k <= m,
            seg == s@.subrange(a as int, b as int),
            forall|j: int| 0 <= j < k ==> seg[j] == name@[j],
        decreases m - k,
    {
        if s[a + k] != name[k] {
            assert(seg.take(m as int)[k as int] != name@[k as int]);
            return false;
        }
        k = k + 1;
    }
    assert(seg.take(m as int) =~= name@);
    s[a + m] == '='
}

/// The value of `?name=` in a URL query string: leading `?`s are skipped,
/// pieces are separated by `&`, and the first piece whose key is `name` and
/// whose value is not empty wins.
pub fn query_value(qs: &str, name: &str) -> (r: Option<String>)
    ensures
        is_query_value(
            qs@,
            name@,
            match r {
                Some(v) => Some(v@),
                None => None,
            },
        ),
{
    let t = chars_of(qs);
    let nm = chars_of(name);
    let has_eq = seq_contains_char(&nm, '=');
    let n = t.len();
    let mut q: usize = 0;
    assert(t@.skip(0) =~= t@);
    while q < n && t[q] == '?'
        invariant
            n == t@.len(),
            q <= n,
            strip_q(t@) == strip_q(t@.skip(q as int)),
        decreases n - q,
    {
        assert(t@.skip(q as int).drop_first() =~= t@.skip(q + 1));
        q = q + 1;
    }
    let ghost s = t@.skip(q as int);
    assert(strip_q(t@) == s) by {
        if q < n {
            assert(s[0] == t@[q as int]);
        }
    }
    assert(t@ == qs@);
    let mut a: usize = q;
    let mut b: usize = q;
    loop
        invariant
            n == t@.len(),
            q <= a <= b <= n,
            s == t@.skip(q as int),
            strip_q(qs@) == s,
            nm@ == name@,
            has_eq == name@.contains('='),
            a == q || t@[a - 1] == '&',
            forall|j: int| a <= j < b ==> #[trigger] t@[j] != '&',
            forall|c: int, d: int| c < a - q ==> !#[trigger] query_hit(s, c, d, name@),
        decreases n - b, n - a,
    {
        if b == n || t[b] == '&' {
            let hit = piece_matches(&t, a, b, &nm, has_eq);
            proof {
                assert(s.subrange(a - q, b - q) =~= t@.subrange(a as int, b as int));
                assert(is_segment(s, a - q, b - q)) by {
                    if a > q {
                        assert(s[a - q - 1] == t@[a - 1]);
                    }
                    if b < n {
                        assert(s[b - q] == t@[b as int]);
                    }
                    assert forall|j: int| a - q <= j < b - q implies #[trigger] s[j] != '&' by {
                        assert(s[j] == t@[j + q]);
                    }
                }
            }
            if hit {
                let v = string_from(&t, a + nm.len() + 1, b);
                proof {
                    let seg = s.subrange(a - q, b - q);
                    assert(seg.skip(name@.len() + 1int) =~= t@.subrange(
                        a + name@.len() + 1int,
                        b as int,
                    ));
                    assert(query_hit(s, a - q, b - q, name@));
                    assert(pair_value(s.subrange(a - q, b - q), name@) == Some(v@));
                }
                return Some(v);
            }
            proof {
                assert forall|c: int, d: int| c < b + 1 - q implies !#[trigger] query_hit(
                    s,
                    c,
                    d,
                    name@,
                ) by {
                    if c >= a - q && query_hit(s, c, d, name@) {
                        if c > a - q {
                            assert(s[c - 1] == t@[c - 1 + q]);
                            assert(t@[c - 1 + q] == '&');
                        } else {
                            if d < b - q {
                                assert(s[d] == t@[d + q]);
                            } else if d > b - q {
                                assert(s[b - q] == t@[b as int]);
                            }
                        }
                    }
                }
            }
            if b == n {
                proof {
                    assert forall|c: int, d: int| !#[trigger] query_hit(s, c, d, name@) by {
                        if query_hit(s, c, d, name@) {
                            assert(c < b + 1 - q);
                        }
                    }
                }
                return None;
            }
            a = b + 1;
        }
        b = b + 1;
    }
}


/// In a string without `&` the only piece is the whole string.
pub(crate) proof fn lemma_single_piece(s: Seq<char>, a: int, b: int)
    requires
        !s.contains('&'),
        is_segment(s, a, b),
    ensures
        a == 0 && b == s.len(),
{
    if a != 0 {
        assert(s[a - 1] == '&');
    }
    if b != s.len() {
        assert(s[b] == '&');
    }
}

/// `p1 & p2`, each free of `&`, has exactly the two pieces `p1` and `p2`.
pub(crate) proof fn lemma_two_pieces(p1: Seq<char>, p2: Seq<char>, a: int, b: int)
    requires
        !p1.contains('&'),
        !p2.contains('&'),
        is_segment(p1 + seq!['&'] + p2, a, b),
    ensures
        (a == 0 && b == p1.len()) || (a == p1.len() + 1 && b == p1.len() + 1 + p2.len()),
{
    let s = p1 + seq!['&'] + p2;
    let m = p1.len() as int;
    assert(s[m] == '&');
    assert forall|j: int| 0 <= j < s.len() && j != m implies s[j] != '&' by {
        if j < m {
            assert(s[j] == p1[j]);
        } else {
            assert(s[j] == p2[j - m - 1]);
        }
    }
    if a != 0 {
        assert(s[a - 1] == '&');
        assert(a - 1 == m);
    }
    if a == 0 {
        if b > m {
            assert(s[m] != '&');
        }
        if b < m {
            assert(s[b] == '&');
        }
    } else {
        if b != s.len() {
            assert(s[b] == '&');
        }
    }
}

/// The piece `name=value` gives `name` the (non-empty) value.
pub(crate) proof fn lemma_pair_value(name: Seq<char>, v: Seq<char>)
    requires
        !name.contains('='),
        v.len() > 0,
    ensures
        pair_value(name + seq!['='] + v, name) == Some(v),
{
    let seg = name + seq!['='] + v;
    assert(seg.take(name.len() as int) =~= name);
    assert(seg[name.len() as int] == '=');
    assert(seg.skip(name.len() + 1int) =~= v);
}

/// A piece whose first character differs from `name`'s gives it nothing.
pub(crate) proof fn lemma_pair_value_other(seg: Seq<char>, name: Seq<char>)
    requires
        seg.len() > 0,
        name.len() > 0,
        seg[0] != name[0],
    ensures
        pair_value(seg, name) is None,
{
    if seg.len() > name.len() + 1 && seg.take(name.len() as int) == name {
        assert(seg.take(name.len() as int)[0] == seg[0]);
    }
}

} // verus!
