//! Character-level string operations used throughout the router, stated
//! over `Seq<char>`.

use vstd::prelude::*;

verus! {

/// Unicode `White_Space`, the set that `char::is_whitespace` and `str::trim` use.
pub open spec fn is_ws(c: char) -> bool {
    ||| c == '\t'
    ||| c == '\n'
    ||| c == '\u{0B}'
    ||| c == '\u{0C}'
    ||| c == '\r'
    ||| c == ' '
    ||| c == '\u{85}'
    ||| c == '\u{A0}'
    ||| c == '\u{1680}'
    ||| ('\u{2000}' <= c && c <= '\u{200A}')
    ||| c == '\u{2028}'
    ||| c == '\u{2029}'
    ||| c == '\u{202F}'
    ||| c == '\u{205F}'
    ||| c == '\u{3000}'
}

pub fn is_ws_char(c: char) -> (r: bool)
    ensures
        r == is_ws(c),
{
    c == '\t' || c == '\n' || c == '\u{0B}' || c == '\u{0C}' || c == '\r' || c == ' ' || c
        == '\u{85}' || c == '\u{A0}' || c == '\u{1680}' || ('\u{2000}' <= c && c <= '\u{200A}')
        || c == '\u{2028}' || c == '\u{2029}' || c == '\u{202F}' || c == '\u{205F}' || c
        == '\u{3000}'
}

/// The characters of `s`.
#[verifier::external_body]
pub fn chars_of(s: &str) -> (v: Vec<char>)
    ensures
        v@ == s@,
{
    s.chars().collect()
}

/// The string made of the characters `v`.
#[verifier::external_body]
pub fn string_of(v: &[char]) -> (s: String)
    ensures
        s@ == v@,
{
    v.iter().collect()
}

/// String equality (`<str as PartialEq>::eq`).
#[verifier::external_body]
pub fn str_eq(a: &str, b: &str) -> (r: bool)
    ensures
        r == (a@ == b@),
{
    a == b
}


pub open spec fn trim_start(s: Seq<char>) -> Seq<char>
    decreases s.len(),
{
    if s.len() > 0 && is_ws(s[0]) {
        trim_start(s.drop_first())
    } else {
        s
    }
}

pub open spec fn trim_end(s: Seq<char>) -> Seq<char>
    decreases s.len(),
{
    if s.len() > 0 && is_ws(s.last()) {
        trim_end(s.drop_last())
    } else {
        s
    }
}

/// `str::trim`: the string without leading and trailing white space.
pub open spec fn trim(s: Seq<char>) -> Seq<char> {
    trim_end(trim_start(s))
}

pub fn trim_chars(s: &Vec<char>) -> (r: Vec<char>)
    ensures
        r@ == trim(s@),
{
    let n = s.len();
    let mut i: usize = 0;
    assert(s@.subrange(0, n as int) =~= s@);
    while i < n && is_ws_char(s[i])
        invariant
            n == s.len(),
            i <= n,
            trim_start(s@) == trim_start(s@.subrange(i as int, n as int)),
        decreases n - i,
    {
        assert(s@.subrange(i as int, n as int).drop_first() =~= s@.subrange(i + 1, n as int));
        i = i + 1;
    }
    assert(trim_start(s@.subrange(i as int, n as int)) == s@.subrange(i as int, n as int));
    let mut j: usize = n;
    while j > i && is_ws_char(s[j - 1])
        invariant
            n == s.len(),
            i <= j <= n,
            trim(s@) == trim_end(s@.subrange(i as int, j as int)),
        decreases j,
    {
        assert(s@.subrange(i as int, j as int).drop_last() =~= s@.subrange(i as int, j - 1));
        j = j - 1;
    }
    let mut r: Vec<char> = Vec::new();
    let mut k: usize = i;
    while k < j
        invariant
            n == s.len(),
            i <= k <= j <= n,
            r@ == s@.subrange(i as int, k as int),
        decreases j - k,
    {
        r.push(s[k]);
        assert(r@ =~= s@.subrange(i as int, k + 1));
        k = k + 1;
    }
    r
}

/// `str::trim` on a string.
pub fn trim_str(s: &str) -> (r: String)
    ensures
        r@ == trim(s@),
{
    let v = chars_of(s);
    let t = trim_chars(&v);
    string_of(t.as_slice())
}

/// `s.trim().is_empty()`.
pub fn is_blank(s: &str) -> (r: bool)
    ensures
        r == (trim(s@).len() == 0),
{
    let v = chars_of(s);
    trim_chars(&v).len() == 0
}

/// `p` occurs in `s` at position `i`.
pub open spec fn occurs_at(s: Seq<char>, p: Seq<char>, i: int) -> bool {
    0 <= i && i + p.len() <= s.len() && s.subrange(i, i + p.len()) == p
}

pub open spec fn starts_with(s: Seq<char>, p: Seq<char>) -> bool {
    occurs_at(s, p, 0)
}

pub open spec fn ends_with(s: Seq<char>, p: Seq<char>) -> bool {
    p.len() <= s.len() && occurs_at(s, p, s.len() - p.len())
}

/// The first position at or after `i` where `p` occurs in `s`.
pub open spec fn find_from(s: Seq<char>, p: Seq<char>, i: int) -> Option<int>
    decreases s.len() + 1 - i,
{
    if i < 0 || i + p.len() > s.len() {
        None
    } else if occurs_at(s, p, i) {
        Some(i)
    } else {
        find_from(s, p, i + 1)
    }
}

/// `str::find`: the first position where `p` occurs in `s`.
pub open spec fn find(s: Seq<char>, p: Seq<char>) -> Option<int> {
    find_from(s, p, 0)
}

/// `str::contains`.
pub open spec fn contains(s: Seq<char>, p: Seq<char>) -> bool {
    find(s, p) is Some
}

pub proof fn lemma_find_from_bounds(s: Seq<char>, p: Seq<char>, i: int)
    ensures
        find_from(s, p, i) matches Some(k) ==> i <= k && occurs_at(s, p, k),
    decreases s.len() + 1 - i,
{
    if i < 0 || i + p.len() > s.len() {
    } else if occurs_at(s, p, i) {
    } else {
        lemma_find_from_bounds(s, p, i + 1);
    }
}

pub fn occurs_at_exec(s: &Vec<char>, p: &Vec<char>, i: usize) -> (r: bool)
    ensures
        r == occurs_at(s@, p@, i as int),
{
    if i > s.len() || p.len() > s.len() - i {
        return false;
    }
    let mut k: usize = 0;
    while k < p.len()
        invariant
            i + p.len() <= s.len(),
            k <= p.len(),
            forall|m: int| 0 <= m < k ==> s@[i + m] == p@[m],
        decreases p.len() - k,
    {
        if s[i + k] != p[k] {
            assert(s@.subrange(i as int, i + p.len())[k as int] != p@[k as int]);
            return false;
        }
        k = k + 1;
    }
    assert(s@.subrange(i as int, i + p.len()) =~= p@);
    true
}

pub fn find_chars(s: &Vec<char>, p: &Vec<char>) -> (r: Option<usize>)
    ensures
        r matches Some(k) ==> find(s@, p@) == Some(k as int),
        r is None ==> find(s@, p@) is None,
{
    let mut i: usize = 0;
    while i <= s.len()
        invariant
            find(s@, p@) == find_from(s@, p@, i as int),
        decreases s.len() + 1 - i,
    {
        if p.len() > s.len() - i {
            return None;
        }
        if occurs_at_exec(s, p, i) {
            return Some(i);
        }
        if i == s.len() {
            assert(find_from(s@, p@, i + 1) is None);
            return None;
        }
        i = i + 1;
    }
    None
}

pub fn contains_str(s: &str, p: &str) -> (r: bool)
    ensures
        r == contains(s@, p@),
{
    let sv = chars_of(s);
    let pv = chars_of(p);
    find_chars(&sv, &pv).is_some()
}

pub fn starts_with_str(s: &str, p: &str) -> (r: bool)
    ensures
        r == starts_with(s@, p@),
{
    let sv = chars_of(s);
    let pv = chars_of(p);
    occurs_at_exec(&sv, &pv, 0)
}

pub fn ends_with_str(s: &str, p: &str) -> (r: bool)
    ensures
        r == ends_with(s@, p@),
{
    let sv = chars_of(s);
    let pv = chars_of(p);
    if pv.len() > sv.len() {
        false
    } else {
        occurs_at_exec(&sv, &pv, sv.len() - pv.len())
    }
}


/// `str::split` by a non-empty separator.
pub open spec fn split(s: Seq<char>, sep: Seq<char>) -> Seq<Seq<char>>
    decreases s.len(),
{
    if sep.len() == 0 {
        seq![s]
    } else {
        match find(s, sep) {
            Some(i) => {
                proof {
                    lemma_find_from_bounds(s, sep, 0);
                }
                seq![s.subrange(0, i)] + split(s.subrange(i + sep.len(), s.len() as int), sep)
            },
            None => seq![s],
        }
    }
}

pub fn split_chars(s: &Vec<char>, sep: &Vec<char>) -> (r: Vec<Vec<char>>)
    requires
        sep.len() > 0,
    ensures
        r@.map_values(|v: Vec<char>| v@) == split(s@, sep@),
{
    let mut out: Vec<Vec<char>> = Vec::new();
    let mut rest: Vec<char> = s.clone();
    assert(rest@ == s@);
    loop
        invariant
            sep.len() > 0,
            out@.map_values(|v: Vec<char>| v@) + split(rest@, sep@) == split(s@, sep@),
        decreases rest.len(),
    {
        match find_chars(&rest, sep) {
            Some(i) => {
                proof {
                    lemma_find_from_bounds(rest@, sep@, 0);
                }
                let mut head: Vec<char> = Vec::new();
                let mut k: usize = 0;
                while k < i
                    invariant
                        i <= rest.len(),
                        k <= i,
                        head@ == rest@.subrange(0, k as int),
                    decreases i - k,
                {
                    head.push(rest[k]);
                    assert(head@ =~= rest@.subrange(0, k + 1));
                    k = k + 1;
                }
                let mut tail: Vec<char> = Vec::new();
                let mut k: usize = i + sep.len();
                while k < rest.len()
                    invariant
                        i + sep.len() <= rest.len(),
                        i + sep.len() <= k <= rest.len(),
                        tail@ == rest@.subrange(i + sep.len(), k as int),
                    decreases rest.len() - k,
                {
                    tail.push(rest[k]);
                    assert(tail@ =~= rest@.subrange(i + sep.len(), k + 1));
                    k = k + 1;
                }
                let ghost old_out = out@.map_values(|v: Vec<char>| v@);
                out.push(head);
                assert(out@.map_values(|v: Vec<char>| v@) =~= old_out.push(rest@.subrange(0, i as int)));
                assert(split(rest@, sep@) == seq![rest@.subrange(0, i as int)] + split(tail@, sep@));
                assert(old_out.push(rest@.subrange(0, i as int)) + split(tail@, sep@) =~= old_out + (
                seq![rest@.subrange(0, i as int)] + split(tail@, sep@)));
                rest = tail;
            },
            None => {
                let ghost old_out = out@.map_values(|v: Vec<char>| v@);
                out.push(rest);
                assert(out@.map_values(|v: Vec<char>| v@) =~= old_out + split(rest@, sep@));
                return out;
            },
        }
    }
}

/// `[..].join(sep)`.
pub open spec fn join(parts: Seq<Seq<char>>, sep: Seq<char>) -> Seq<char>
    decreases parts.len(),
{
    if parts.len() == 0 {
        seq![]
    } else if parts.len() == 1 {
        parts[0]
    } else {
        join(parts.drop_last(), sep) + sep + parts.last()
    }
}

/// Joins the strings `parts` with `sep` between them.
pub fn join_strings(parts: &Vec<String>, sep: &str) -> (r: String)
    ensures
        r@ == join(parts@.map_values(|p: String| p@), sep@),
{
    let ghost views = parts@.map_values(|p: String| p@);
    let mut r = String::new();
    let mut i: usize = 0;
    while i < parts.len()
        invariant
            views == parts@.map_values(|p: String| p@),
            i <= parts.len(),
            r@ == join(views.take(i as int), sep@),
        decreases parts.len() - i,
    {
        assert(views.take(i + 1).drop_last() =~= views.take(i as int));
        if i == 0 {
            r.append(parts[i].as_str());
            assert(r@ =~= join(views.take(1), sep@));
        } else {
            r.append(sep);
            r.append(parts[i].as_str());
        }
        i = i + 1;
    }
    assert(views.take(parts.len() as int) =~= views);
    r
}

pub open spec fn is_digit(c: char) -> bool {
    '0' <= c && c <= '9'
}

pub open spec fn digit_value(c: char) -> nat {
    (c as nat - '0' as nat) as nat
}

pub open spec fn digits_value(d: Seq<char>) -> nat
    decreases d.len(),
{
    if d.len() == 0 {
        0
    } else {
        digits_value(d.drop_last()) * 10 + digit_value(d.last())
    }
}

pub open spec fn all_digits(d: Seq<char>) -> bool {
    forall|i: int| 0 <= i < d.len() ==> is_digit(#[trigger] d[i])
}

/// `usize::from_str`: an optional `+`, then one or more ASCII digits whose
/// value fits in `usize`.
pub open spec fn parse_usize(s: Seq<char>) -> Option<usize> {
    let d = if s.len() > 0 && s[0] == '+' {
        s.drop_first()
    } else {
        s
    };
    if d.len() > 0 && all_digits(d) && digits_value(d) <= usize::MAX {
        Some(digits_value(d) as usize)
    } else {
        None
    }
}

proof fn lemma_digits_monotone(d: Seq<char>, k: int)
    requires
        0 <= k <= d.len(),
    ensures
        digits_value(d.take(k)) <= digits_value(d),
    decreases d.len(),
{
    if k < d.len() {
        assert(d.drop_last().take(k) =~= d.take(k));
        lemma_digits_monotone(d.drop_last(), k);
        assert(digits_value(d) >= digits_value(d.drop_last())) by (nonlinear_arith)
            requires
                digits_value(d) == digits_value(d.drop_last()) * 10 + digit_value(d.last()),
        ;
    } else {
        assert(d.take(k) =~= d);
    }
}

pub fn parse_usize_chars(s: &Vec<char>) -> (r: Option<usize>)
    ensures
        r == parse_usize(s@),
{
    let start: usize = if s.len() > 0 && s[0] == '+' {
        1
    } else {
        0
    };
    let ghost d = if s@.len() > 0 && s@[0] == '+' {
        s@.drop_first()
    } else {
        s@
    };
    assert(d =~= s@.subrange(start as int, s.len() as int));
    if start == s.len() {
        return None;
    }
    let mut v: usize = 0;
    let mut i: usize = start;
    while i < s.len()
        invariant
            start <= i <= s.len(),
            d =~= s@.subrange(start as int, s.len() as int),
            d == (if s@.len() > 0 && s@[0] == '+' {
                s@.drop_first()
            } else {
                s@
            }),
            d.len() > 0,
            all_digits(d.take(i - start)),
            v == digits_value(d.take(i - start)),
        decreases s.len() - i,
    {
        let c = s[i];
        if !('0' <= c && c <= '9') {
            assert(d[i - start] == c);
            assert(!is_digit(d[i - start]));
            return None;
        }
        let dv: usize = (c as u32 - '0' as u32) as usize;
        assert(d.take(i - start + 1).drop_last() =~= d.take(i - start));
        assert(d.take(i - start + 1).last() == c);
        assert(digit_value(c) == dv);
        assert(digits_value(d.take(i - start + 1)) == v * 10 + dv);
        if v > (usize::MAX - dv) / 10 {
            assert(digits_value(d.take(i - start + 1)) > usize::MAX) by (nonlinear_arith)
                requires
                    v > (usize::MAX - dv) / 10,
                    digits_value(d.take(i - start + 1)) == v * 10 + dv,
                    dv <= 9,
            ;
            proof {
                lemma_digits_monotone(d, i - start + 1);
            }
            assert(digits_value(d) > usize::MAX);
            return None;
        }
        assert(v * 10 + dv <= usize::MAX) by (nonlinear_arith)
            requires
                v <= (usize::MAX - dv) / 10,
                dv <= 9,
        ;
        v = v * 10 + dv;
        i = i + 1;
    }
    assert(d.take(s.len() - start) =~= d);
    Some(v)
}

pub open spec fn digit_char(d: nat) -> char {
    (d + 48) as char
}

/// Decimal rendering of a natural number (`u64::to_string`).
pub open spec fn decimal(n: nat) -> Seq<char>
    decreases n,
{
    if n < 10 {
        seq![digit_char(n)]
    } else {
        decimal(n / 10).push(digit_char(n % 10))
    }
}

pub fn decimal_chars(n: u64) -> (r: Vec<char>)
    ensures
        r@ == decimal(n as nat),
    decreases n,
{
    let d: u8 = (n % 10) as u8;
    let c: char = (d + 48) as char;
    if n < 10 {
        let mut v: Vec<char> = Vec::new();
        v.push(c);
        assert(v@ =~= seq![c]);
        v
    } else {
        let mut v = decimal_chars(n / 10);
        v.push(c);
        v
    }
}

/// `n.to_string()`.
pub fn decimal_string(n: u64) -> (r: String)
    ensures
        r@ == decimal(n as nat),
{
    let v = decimal_chars(n);
    string_of(v.as_slice())
}

/// Splits `s` into its maximal runs of non-white-space characters, the
/// finished words and the word still open at the end.
pub open spec fn words_acc(s: Seq<char>) -> (Seq<Seq<char>>, Seq<char>)
    decreases s.len(),
{
    if s.len() == 0 {
        (seq![], seq![])
    } else {
        let (ws, cur) = words_acc(s.drop_last());
        if is_ws(s.last()) {
            if cur.len() > 0 {
                (ws.push(cur), seq![])
            } else {
                (ws, cur)
            }
        } else {
            (ws, cur.push(s.last()))
        }
    }
}

/// `str::split_whitespace`.
pub open spec fn words(s: Seq<char>) -> Seq<Seq<char>> {
    let (ws, cur) = words_acc(s);
    if cur.len() > 0 {
        ws.push(cur)
    } else {
        ws
    }
}

pub fn split_whitespace_str(s: &str) -> (r: Vec<String>)
    ensures
        r@.map_values(|w: String| w@) == words(s@),
{
    let v = chars_of(s);
    let mut out: Vec<String> = Vec::new();
    let mut cur: Vec<char> = Vec::new();
    let mut i: usize = 0;
    while i < v.len()
        invariant
            i <= v.len(),
            v@ == s@,
            (out@.map_values(|w: String| w@), cur@) == words_acc(v@.take(i as int)),
        decreases v.len() - i,
    {
        assert(v@.take(i + 1).drop_last() =~= v@.take(i as int));
        let c = v[i];
        if is_ws_char(c) {
            if cur.len() > 0 {
                let ghost before = out@.map_values(|w: String| w@);
                out.push(string_of(cur.as_slice()));
                assert(out@.map_values(|w: String| w@) =~= before.push(cur@));
                cur = Vec::new();
                assert(cur@ =~= seq![]);
            }
        } else {
            cur.push(c);
        }
        i = i + 1;
    }
    assert(v@.take(v.len() as int) =~= v@);
    if cur.len() > 0 {
        let ghost before = out@.map_values(|w: String| w@);
        out.push(string_of(cur.as_slice()));
        assert(out@.map_values(|w: String| w@) =~= before.push(cur@));
    }
    out
}

/// `str::strip_prefix`.
pub open spec fn strip_prefix(s: Seq<char>, p: Seq<char>) -> Option<Seq<char>> {
    if starts_with(s, p) {
        Some(s.subrange(p.len() as int, s.len() as int))
    } else {
        None
    }
}

/// The characters of `s` from position `from` to the end.
pub fn suffix_chars(s: &Vec<char>, from: usize) -> (r: Vec<char>)
    requires
        from <= s.len(),
    ensures
        r@ == s@.subrange(from as int, s.len() as int),
{
    let mut r: Vec<char> = Vec::new();
    let mut k: usize = from;
    while k < s.len()
        invariant
            from <= k <= s.len(),
            r@ == s@.subrange(from as int, k as int),
        decreases s.len() - k,
    {
        r.push(s[k]);
        assert(r@ =~= s@.subrange(from as int, k + 1));
        k = k + 1;
    }
    r
}

pub fn strip_prefix_str(s: &str, p: &str) -> (r: Option<String>)
    ensures
        r matches Some(t) ==> strip_prefix(s@, p@) == Some(t@),
        r is None ==> strip_prefix(s@, p@) is None,
{
    let sv = chars_of(s);
    let pv = chars_of(p);
    if occurs_at_exec(&sv, &pv, 0) {
        let t = suffix_chars(&sv, pv.len());
        Some(string_of(t.as_slice()))
    } else {
        None
    }
}

} // verus!
