//! Text primitives the pages share: what the standard library's string
//! methods return, stated over character sequences.

use vstd::prelude::*;

verus! {

/// `haystack` contains `needle` as a contiguous run of characters.
pub open spec fn has_substring(haystack: Seq<char>, needle: Seq<char>) -> bool {
    exists|i: int|
        0 <= i <= haystack.len() - needle.len() && #[trigger] haystack.subrange(i, i + needle.len())
            == needle
}

/// A character with the Unicode `White_Space` property (what
/// `char::is_whitespace` and `str::trim` treat as whitespace).
pub open spec fn is_white_space(c: char) -> bool {
    let n = c as int;
    (9 <= n <= 13) || n == 0x20 || n == 0x85 || n == 0xA0 || n == 0x1680 || (0x2000 <= n <= 0x200A)
        || n == 0x2028 || n == 0x2029 || n == 0x202F || n == 0x205F || n == 0x3000
}

/// `s` without its leading whitespace.
pub open spec fn trim_start(s: Seq<char>) -> Seq<char>
    decreases s.len(),
{
    if s.len() > 0 && is_white_space(s[0]) {
        trim_start(s.drop_first())
    } else {
        s
    }
}

/// `s` without its trailing whitespace.
pub open spec fn trim_end(s: Seq<char>) -> Seq<char>
    decreases s.len(),
{
    if s.len() > 0 && is_white_space(s.last()) {
        trim_end(s.drop_last())
    } else {
        s
    }
}

/// What `str::trim` returns for a string: the string without leading and
/// trailing whitespace.
pub open spec fn trimmed(s: Seq<char>) -> Seq<char> {
    trim_end(trim_start(s))
}

/// What `str::to_lowercase` returns for a string.
pub uninterp spec fn lowercase(s: Seq<char>) -> Seq<char>;

/// `String::push`: appends one character.
#[verifier::external_body]
pub(crate) fn push_char(s: &mut String, c: char)
    ensures
        final(s)@ == old(s)@.push(c),
{
    s.push(c);
}

/// `str::contains` with a string pattern: whether `needle` occurs in
/// `haystack`.
#[verifier::external_body]
pub(crate) fn contains_str(haystack: &str, needle: &str) -> (r: bool)
    ensures
        r == has_substring(haystack@, needle@),
{
    haystack.contains(needle)
}

/// `str::trim`: the string without leading and trailing whitespace, as
/// its documentation defines it (the Unicode `White_Space` property).
#[verifier::external_body]
pub(crate) fn trim_str(s: &str) -> (r: &str)
    ensures
        r@ == trimmed(s@),
{
    s.trim()
}

/// `str::to_lowercase`: the Unicode lowercase of the string.
#[verifier::external_body]
pub(crate) fn to_lower(s: &str) -> (r: String)
    ensures
        r@ == lowercase(s@),
{
    s.to_lowercase()
}

/// `==` on string slices: equal character sequences.
#[verifier::external_body]
pub(crate) fn same_str(a: &str, b: &str) -> (r: bool)
    ensures
        r == (a@ == b@),
{
    a == b
}


/// The characters of a string slice, in order.
pub fn chars_of(s: &str) -> (r: Vec<char>)
    ensures
        r@ == s@,
{
    let mut out: Vec<char> = Vec::new();
    for c in it: s.chars()
        invariant
            out@ == it.seq().take(it.index() as int),
    {
        out.push(c);
    }
    out
}

/// A string holding `chars[from..to]`.
pub fn string_from(chars: &Vec<char>, from: usize, to: usize) -> (r: String)
    requires
        from <= to <= chars@.len(),
    ensures
        r@ == chars@.subrange(from as int, to as int),
{
    let mut out = String::new();
    let mut k = from;
    while k < to
        invariant
            from <= k <= to <= chars@.len(),
            out@ == chars@.subrange(from as int, k as int),
        decreases to - k,
    {
        push_char(&mut out, chars[k]);
        proof {
            assert(chars@.subrange(from as int, k + 1) =~= chars@.subrange(from as int, k as int).push(
                chars@[k as int],
            ));
        }
        k = k + 1;
    }
    out
}


/// `list` joined with `sep` between consecutive entries.
pub open spec fn join(list: Seq<Seq<char>>, sep: Seq<char>) -> Seq<char>
    decreases list.len(),
{
    if list.len() == 0 {
        Seq::empty()
    } else if list.len() == 1 {
        list[0]
    } else {
        join(list.drop_last(), sep) + sep + list.last()
    }
}

/// The present entries of `parts`, in order.
pub open spec fn present(parts: Seq<Option<String>>) -> Seq<Seq<char>>
    decreases parts.len(),
{
    if parts.len() == 0 {
        Seq::empty()
    } else {
        let rest = present(parts.drop_last());
        match parts.last() {
            Some(s) => rest.push(s@),
            None => rest,
        }
    }
}

/// The present entries of `parts` joined with `sep`.
pub fn join_present(parts: &Vec<Option<String>>, sep: &str) -> (r: String)
    ensures
        r@ == join(present(parts@), sep@),
{
    let mut out = String::new();
    let mut any = false;
    for i in 0..parts.len()
        invariant
            out@ == join(present(parts@.take(i as int)), sep@),
            any == (present(parts@.take(i as int)).len() > 0),
    {
        proof {
            assert(parts@.take(i + 1).drop_last() =~= parts@.take(i as int));
        }
        match &parts[i] {
            Some(p) => {
                let ghost before = present(parts@.take(i as int));
                if any {
                    out.append(sep);
                }
                out.append(p.as_str());
                proof {
                    let after = before.push(p@);
                    assert(after.drop_last() =~= before);
                    if before.len() == 0 {
                        assert(join(after, sep@) == p@);
                        assert(out@ =~= p@);
                    }
                }
                any = true;
            },
            None => {},
        }
    }
    assert(parts@.take(parts@.len() as int) =~= parts@);
    out
}


/// Integer division rounding toward zero, as Rust's `/` does.
pub open spec fn trunc_div(a: int, b: int) -> int {
    if a >= 0 {
        a / b
    } else {
        -((-a) / b)
    }
}

/// The character of a decimal digit.
pub open spec fn digit_char(d: int) -> char {
    if d == 0 {
        '0'
    } else if d == 1 {
        '1'
    } else if d == 2 {
        '2'
    } else if d == 3 {
        '3'
    } else if d == 4 {
        '4'
    } else if d == 5 {
        '5'
    } else if d == 6 {
        '6'
    } else if d == 7 {
        '7'
    } else if d == 8 {
        '8'
    } else {
        '9'
    }
}

/// Decimal digits of a natural number, most significant first, no leading
/// zeros ("0" for zero).
pub open spec fn digits(n: nat) -> Seq<char>
    decreases n,
{
    if n < 10 {
        seq![digit_char(n as int)]
    } else {
        digits(n / 10).push(digit_char((n % 10) as int))
    }
}

/// How `{}` formats an integer: its digits, with a leading `-` when negative.
pub open spec fn dec(n: int) -> Seq<char> {
    if n < 0 {
        seq!['-'] + digits((-n) as nat)
    } else {
        digits(n as nat)
    }
}

fn digit_of(d: u64) -> (c: char)
    requires
        d < 10,
    ensures
        c == digit_char(d as int),
{
    if d == 0 {
        '0'
    } else if d == 1 {
        '1'
    } else if d == 2 {
        '2'
    } else if d == 3 {
        '3'
    } else if d == 4 {
        '4'
    } else if d == 5 {
        '5'
    } else if d == 6 {
        '6'
    } else if d == 7 {
        '7'
    } else if d == 8 {
        '8'
    } else {
        '9'
    }
}

fn push_digits(out: &mut String, m: u64)
    ensures
        final(out)@ == old(out)@ + digits(m as nat),
    decreases m,
{
    if m >= 10 {
        push_digits(out, m / 10);
    }
    push_char(out, digit_of(m % 10));
    proof {
        if m < 10 {
            assert(old(out)@ + digits(m as nat) =~= old(out)@.push(digit_char(m as int)));
        } else {
            assert(old(out)@ + digits(m as nat) =~= (old(out)@ + digits((m / 10) as nat)).push(
                digit_char((m % 10) as int),
            ));
        }
    }
}

/// Appends the decimal form of `n` (as `{}` prints it).
pub fn push_dec(out: &mut String, n: i64)
    ensures
        final(out)@ == old(out)@ + dec(n as int),
{
    if n < 0 {
        push_char(out, '-');
        let m: u64 = ((-(n + 1)) as u64) + 1;
        assert(m as int == -(n as int));
        push_digits(out, m);
        assert(old(out)@ + dec(n as int) =~= old(out)@.push('-') + digits(m as nat));
    } else {
        push_digits(out, n as u64);
    }
}

/// The decimal form of `n` (as `{}` prints it).
pub fn dec_string(n: i64) -> (r: String)
    ensures
        r@ == dec(n as int),
{
    let mut s = String::new();
    push_dec(&mut s, n);
    assert(s@ =~= dec(n as int));
    s
}


/// The decimal form of a count (as `{}` prints it).
pub fn count_string(n: usize) -> (r: String)
    ensures
        r@ == dec(n as int),
{
    let mut s = String::new();
    push_digits(&mut s, n as u64);
    assert(s@ =~= dec(n as int));
    s
}

/// A decimal digit character.
pub open spec fn is_digit(c: char) -> bool {
    '0' <= c <= '9'
}

/// Every character is a decimal digit.
pub open spec fn all_digits(s: Seq<char>) -> bool {
    forall|i: int| 0 <= i < s.len() ==> is_digit(#[trigger] s[i])
}

/// The number a run of decimal digits spells.
pub open spec fn digits_value(s: Seq<char>) -> int
    decreases s.len(),
{
    if s.len() == 0 {
        0
    } else {
        digits_value(s.drop_last()) * 10 + (s.last() as int - '0' as int)
    }
}

/// What `str::parse::<i64>` accepts: an optional `+` or `-`, then one or
/// more decimal digits, the value fitting in `i64`.
pub open spec fn parse_i64_spec(s: Seq<char>) -> Option<int> {
    let neg = s.len() > 0 && s[0] == '-';
    let body = if s.len() > 0 && (s[0] == '-' || s[0] == '+') {
        s.drop_first()
    } else {
        s
    };
    let v = if neg {
        -digits_value(body)
    } else {
        digits_value(body)
    };
    if body.len() > 0 && all_digits(body) && i64::MIN <= v <= i64::MAX {
        Some(v)
    } else {
        None
    }
}

proof fn lemma_digits_value_nonneg(s: Seq<char>)
    requires
        all_digits(s),
    ensures
        digits_value(s) >= 0,
    decreases s.len(),
{
    if s.len() > 0 {
        assert(all_digits(s.drop_last())) by {
            assert forall|i: int| 0 <= i < s.drop_last().len() implies is_digit(#[trigger] s.drop_last()[i]) by {
                assert(s.drop_last()[i] == s[i]);
            }
        }
        lemma_digits_value_nonneg(s.drop_last());
        assert(is_digit(s[s.len() - 1]));
    }
}

proof fn lemma_digits_value_grows(s: Seq<char>, k: int)
    requires
        all_digits(s),
        0 <= k <= s.len(),
    ensures
        digits_value(s.take(k)) <= digits_value(s),
    decreases s.len(),
{
    if k < s.len() {
        let t = s.drop_last();
        assert(all_digits(t)) by {
            assert forall|i: int| 0 <= i < t.len() implies is_digit(#[trigger] t[i]) by {
                assert(t[i] == s[i]);
            }
        }
        lemma_digits_value_grows(t, k);
        assert(t.take(k) =~= s.take(k));
        lemma_digits_value_nonneg(t);
        assert(is_digit(s[s.len() - 1]));
    } else {
        assert(s.take(k) =~= s);
    }
}


proof fn lemma_digit_char_value(d: int)
    requires
        0 <= d < 10,
    ensures
        is_digit(digit_char(d)),
        digit_char(d) as int - '0' as int == d,
{
}

pub(crate) proof fn lemma_digits_spell(n: nat)
    ensures
        digits(n).len() > 0,
        all_digits(digits(n)),
        digits_value(digits(n)) == n,
    decreases n,
{
    if n < 10 {
        lemma_digit_char_value(n as int);
        assert(digits(n) == seq![digit_char(n as int)]);
        assert(seq![digit_char(n as int)].drop_last() =~= Seq::<char>::empty());
        assert(digits_value(seq![digit_char(n as int)]) == digits_value(Seq::<char>::empty()) * 10 + (digit_char(n as int) as int - '0' as int));
    } else {
        lemma_digits_spell(n / 10);
        lemma_digit_char_value((n % 10) as int);
        let d = digits(n / 10);
        let c = digit_char((n % 10) as int);
        assert(digits(n) == d.push(c));
        assert(d.push(c).drop_last() =~= d);
        assert(d.push(c).last() == c);
        assert(digits_value(d.push(c)) == digits_value(d) * 10 + (c as int - '0' as int));
        assert((n / 10) * 10 + n % 10 == n);
        assert(all_digits(d.push(c))) by {
            assert forall|i: int| 0 <= i < d.push(c).len() implies is_digit(#[trigger] d.push(c)[i]) by {
                if i < d.len() {
                    assert(d.push(c)[i] == d[i]);
                }
            }
        }
    }
}

/// Reading a number back from its decimal form gives the number: what a
/// numeric field shows parses back to its value.
pub proof fn lemma_parse_dec_roundtrip(n: i64)
    ensures
        parse_i64_spec(dec(n as int)) == Some(n as int),
{
    if n < 0 {
        let m = (-n) as nat;
        lemma_digits_spell(m);
        let s = seq!['-'] + digits(m);
        assert(s[0] == '-');
        assert(s.drop_first() =~= digits(m));
    } else {
        lemma_digits_spell(n as nat);
        let s = digits(n as nat);
        assert(is_digit(s[0]));
    }
}

/// `str::parse::<i64>`, as a total function: the value when the text is an
/// optionally signed run of decimal digits within range, else `None`.
pub fn parse_i64(s: &str) -> (r: Option<i64>)
    ensures
        match r {
            Some(v) => parse_i64_spec(s@) == Some(v as int),
            None => parse_i64_spec(s@) is None,
        },
{
    let cs = chars_of(s);
    let n = cs.len();
    let mut start: usize = 0;
    let mut neg = false;
    if n > 0 && (cs[0] == '-' || cs[0] == '+') {
        neg = cs[0] == '-';
        start = 1;
    }
    let ghost body = if s@.len() > 0 && (s@[0] == '-' || s@[0] == '+') {
        s@.drop_first()
    } else {
        s@
    };
    assert(body =~= s@.subrange(start as int, n as int));
    if start == n {
        return None;
    }
    let limit: u64 = if neg {
        9_223_372_036_854_775_808
    } else {
        9_223_372_036_854_775_807
    };
    let mut acc: u64 = 0;
    let mut over = false;
    let mut i: usize = start;
    while i < n
        invariant
            cs@ == s@,
            n == cs@.len(),
            start <= i <= n,
            body =~= s@.subrange(start as int, n as int),
            body == if s@.len() > 0 && (s@[0] == '-' || s@[0] == '+') {
                s@.drop_first()
            } else {
                s@
            },
            neg == (s@.len() > 0 && s@[0] == '-'),
            all_digits(body.take(i - start)),
            !over ==> acc as int == digits_value(body.take(i - start)) && acc <= limit,
            over ==> digits_value(body.take(i - start)) > limit,
            limit == if neg {
                9_223_372_036_854_775_808u64
            } else {
                9_223_372_036_854_775_807u64
            },
        decreases n - i,
    {
        let c = cs[i];
        let ghost k = i - start;
        assert(body.take(k + 1).drop_last() =~= body.take(k));
        assert(body.take(k + 1).last() == c);
        if !('0' <= c && c <= '9') {
            assert(!all_digits(body)) by {
                assert(body[k] == c);
            }
            return None;
        }
        assert(all_digits(body.take(k + 1))) by {
            assert forall|j: int| 0 <= j < k + 1 implies is_digit(#[trigger] body.take(k + 1)[j]) by {
                if j < k {
                    assert(body.take(k + 1)[j] == body.take(k)[j]);
                }
            }
        }
        let d: u64 = (c as u32 - '0' as u32) as u64;
        proof {
            lemma_digits_value_nonneg(body.take(k));
        }
        if !over {
            if (acc as u128) * 10 + (d as u128) > limit as u128 {
                over = true;
            } else {
                acc = acc * 10 + d;
            }
        }
        i = i + 1;
    }
    assert(body.take(n - start) =~= body);
    if over {
        return None;
    }
    if neg {
        if acc == 9_223_372_036_854_775_808 {
            Some(i64::MIN)
        } else {
            Some(-(acc as i64))
        }
    } else {
        Some(acc as i64)
    }
}

/// A count the form accepts: the text parses as an integer above zero.
pub fn positive_count(s: &str) -> (r: Option<i64>)
    ensures
        r == match parse_i64_spec(s@) {
            Some(v) => if v > 0 {
                Some(v as i64)
            } else {
                None
            },
            None => None,
        },
{
    match parse_i64(s) {
        Some(v) => if v > 0 {
            Some(v)
        } else {
            None
        },
        None => None,
    }
}

/// The lowercase hexadecimal digit of a nibble.
pub open spec fn hex_lower(n: int) -> char {
    if n < 10 {
        ((n + '0' as int) as u32) as char
    } else {
        ((n - 10 + 'a' as int) as u32) as char
    }
}

/// How a JSON string writes one character: `"` and `\` backslashed, the
/// control characters as `\b`, `\t`, `\n`, `\f`, `\r` or `\u00xx`, all
/// else as it is.
pub open spec fn json_escape_char(c: char) -> Seq<char> {
    let n = c as int;
    if c == '"' {
        seq!['\\', '"']
    } else if c == '\\' {
        seq!['\\', '\\']
    } else if n == 8 {
        seq!['\\', 'b']
    } else if n == 9 {
        seq!['\\', 't']
    } else if n == 10 {
        seq!['\\', 'n']
    } else if n == 12 {
        seq!['\\', 'f']
    } else if n == 13 {
        seq!['\\', 'r']
    } else if n < 32 {
        seq!['\\', 'u', '0', '0', hex_lower(n / 16), hex_lower(n % 16)]
    } else {
        seq![c]
    }
}

/// The escaped body of a JSON string.
pub open spec fn json_escaped(s: Seq<char>) -> Seq<char>
    decreases s.len(),
{
    if s.len() == 0 {
        Seq::empty()
    } else {
        json_escaped(s.drop_last()) + json_escape_char(s.last())
    }
}

/// A string as a JSON string literal.
pub open spec fn json_quoted(s: Seq<char>) -> Seq<char> {
    seq!['"'] + json_escaped(s) + seq!['"']
}

/// `serde_json::to_string` of a string slice: the JSON string literal.
/// Serialising a `str` into memory has no failing path.
#[verifier::external_body]
pub(crate) fn json_quote(s: &str) -> (r: String)
    ensures
        r@ == json_quoted(s@),
{
    match serde_json::to_string(s) {
        Ok(t) => t,
        Err(_) => String::new(),
    }
}

/// What `str::to_uppercase` returns for a string.
pub uninterp spec fn uppercase(s: Seq<char>) -> Seq<char>;

/// `str::to_uppercase`: the Unicode uppercase of the string.
#[verifier::external_body]
pub(crate) fn to_upper(s: &str) -> (r: String)
    ensures
        r@ == uppercase(s@),
{
    s.to_uppercase()
}

} // verus!
