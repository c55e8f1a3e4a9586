//! Character-level string operations used across the wiki: splitting on a
//! separator, joining, replacing, whitespace-separated words.

use vstd::prelude::*;

verus! {

/// The views of a sequence of strings.
pub open spec fn views(v: Seq<String>) -> Seq<Seq<char>> {
    v.map_values(|x: String| x@)
}

/// `p` occurs in `s` starting at index `i`.
pub open spec fn matches_at(s: Seq<char>, p: Seq<char>, i: int) -> bool {
    &&& 0 <= i
    &&& i + p.len() <= s.len()
    &&& s.subrange(i, i + p.len()) == p
}

/// `p` occurs somewhere in `s`.
pub open spec fn contains_seq(s: Seq<char>, p: Seq<char>) -> bool {
    exists|i: int| matches_at(s, p, i)
}

/// The first index at or after `i` where `p` occurs in `s`.
pub open spec fn first_match_from(s: Seq<char>, p: Seq<char>, i: int) -> Option<int>
    decreases s.len() - i,
{
    if i < 0 || i + p.len() > s.len() {
        None
    } else if matches_at(s, p, i) {
        Some(i)
    } else if i >= s.len() {
        None
    } else {
        first_match_from(s, p, i + 1)
    }
}

/// A match found from `i` lies at or after `i` and fits in `s`.
pub proof fn lemma_first_match_bounds(s: Seq<char>, p: Seq<char>, i: int)
    requires
        0 <= i,
    ensures
        first_match_from(s, p, i) matches Some(m) ==> {
            &&& i <= m
            &&& matches_at(s, p, m)
            &&& forall|j: int| i <= j < m ==> !matches_at(s, p, j)
        },
        first_match_from(s, p, i) is None ==> forall|j: int| i <= j ==> !matches_at(s, p, j),
    decreases s.len() - i,
{
    if i + p.len() > s.len() {
    } else if matches_at(s, p, i) {
    } else if i >= s.len() {
    } else {
        lemma_first_match_bounds(s, p, i + 1);
    }
}

/// With no match in `[i, m)` and a match at `m`, the first match from `i` is `m`.
pub proof fn lemma_first_match_is(s: Seq<char>, p: Seq<char>, i: int, m: int)
    requires
        0 <= i <= m,
        matches_at(s, p, m),
        forall|j: int| i <= j < m ==> !matches_at(s, p, j),
    ensures
        first_match_from(s, p, i) == Some(m),
    decreases m - i,
{
    if i < m {
        lemma_first_match_is(s, p, i + 1, m);
    }
}

/// With no match at or after `i`, there is no first match from `i`.
pub proof fn lemma_first_match_none(s: Seq<char>, p: Seq<char>, i: int)
    requires
        0 <= i,
        forall|j: int| i <= j ==> !matches_at(s, p, j),
    ensures
        first_match_from(s, p, i) is None,
    decreases s.len() - i,
{
    if i + p.len() > s.len() {
    } else if i >= s.len() {
    } else {
        lemma_first_match_none(s, p, i + 1);
    }
}

/// A match of a one-character pattern is an occurrence of that character.
pub proof fn lemma_char_match(s: Seq<char>, c: char, i: int)
    ensures
        matches_at(s, seq![c], i) <==> (0 <= i < s.len() && s[i] == c),
{
    if 0 <= i < s.len() && s[i] == c {
        assert(s.subrange(i, i + 1) =~= seq![c]);
    }
    if matches_at(s, seq![c], i) {
        assert(s.subrange(i, i + 1)[0] == s[i]);
    }
}

/// Text made of two parts around one separator character, neither part
/// holding it, splits into those two parts.
pub proof fn lemma_split_at_only_char(a: Seq<char>, c: char, b: Seq<char>)
    requires
        !a.contains(c),
        !b.contains(c),
    ensures
        split_seq(a + seq![c] + b, seq![c]) == seq![a, b],
{
    let p = seq![c];
    let s = a + seq![c] + b;
    let n = a.len() as int;
    assert forall|j: int| 0 <= j < n implies !matches_at(s, p, j) by {
        lemma_char_match(s, c, j);
        assert(s[j] == a[j]);
    }
    lemma_char_match(s, c, n);
    lemma_first_match_is(s, p, 0, n);
    assert forall|j: int| n + 1 <= j implies !matches_at(s, p, j) by {
        lemma_char_match(s, c, j);
        if j < s.len() {
            assert(s[j] == b[j - n - 1]);
        }
    }
    lemma_first_match_none(s, p, n + 1);
    assert(split_from(s, p, n + 1) == seq![s.subrange(n + 1, s.len() as int)]);
    assert(split_from(s, p, 0) == seq![s.subrange(0, n)] + split_from(s, p, n + 1));
    assert(s.subrange(0, n) =~= a);
    assert(s.subrange(n + 1, s.len() as int) =~= b);
    assert(split_seq(s, p) =~= seq![a, b]);
}

/// The pieces of `s` from index `start` on, cut at each leftmost
/// non-overlapping occurrence of `p` (the semantics of `str::split`).
pub open spec fn split_from(s: Seq<char>, p: Seq<char>, start: int) -> Seq<Seq<char>>
    decreases s.len() - start,
{
    if p.len() == 0 || start < 0 || start > s.len() {
        seq![]
    } else {
        match first_match_from(s, p, start) {
            Some(m) => {
                proof {
                    lemma_first_match_bounds(s, p, start);
                }
                seq![s.subrange(start, m)] + split_from(s, p, m + p.len())
            },
            None => seq![s.subrange(start, s.len() as int)],
        }
    }
}

/// `s` split at every occurrence of `p`.
pub open spec fn split_seq(s: Seq<char>, p: Seq<char>) -> Seq<Seq<char>> {
    split_from(s, p, 0)
}

/// The pieces joined with `sep` between consecutive pieces.
pub open spec fn join_seq(parts: Seq<Seq<char>>, sep: Seq<char>) -> Seq<char>
    decreases parts.len(),
{
    if parts.len() == 0 {
        seq![]
    } else if parts.len() == 1 {
        parts[0]
    } else {
        join_seq(parts.drop_last(), sep) + sep + parts.last()
    }
}

/// Every occurrence of `p` in `s` replaced by `r` (the semantics of `str::replace`).
pub open spec fn replace_seq(s: Seq<char>, p: Seq<char>, r: Seq<char>) -> Seq<char> {
    join_seq(split_seq(s, p), r)
}

/// `String::push`: appends one character to the string.
#[verifier::external_body]
fn push_char(s: &mut String, c: char)
    ensures
        final(s)@ == old(s)@.push(c),
{
    s.push(c);
}

/// The characters of `s`, in order.
pub fn to_chars(s: &str) -> (v: Vec<char>)
    ensures
        v@ == s@,
{
    broadcast use vstd::string::group_string_axioms;

    let mut v: Vec<char> = Vec::new();
    for c in it: s.chars()
        invariant
            v@ == it.seq().take(it.index() as int),
            it.seq() == s@,
    {
        v.push(c);
    }
    v
}

/// The string made of the characters `s[lo..hi]`.
pub fn string_from_range(s: &Vec<char>, lo: usize, hi: usize) -> (r: String)
    requires
        lo <= hi <= s.len(),
    ensures
        r@ == s@.subrange(lo as int, hi as int),
{
    let mut r = String::new();
    let mut i = lo;
    while i < hi
        invariant
            lo <= i <= hi <= s.len(),
            r@ == s@.subrange(lo as int, i as int),
        decreases hi - i,
    {
        push_char(&mut r, s[i]);
        i = i + 1;
        assert(r@ =~= s@.subrange(lo as int, i as int));
    }
    r
}

/// The string made of all the characters of `s`.
pub fn string_from_chars(s: &Vec<char>) -> (r: String)
    ensures
        r@ == s@,
{
    let r = string_from_range(s, 0, s.len());
    assert(s@.subrange(0, s@.len() as int) =~= s@);
    r
}

/// Whether the two strings hold the same characters.
pub fn str_eq(a: &str, b: &str) -> (r: bool)
    ensures
        r == (a@ == b@),
{
    a.to_owned() == b.to_owned()
}

/// Whether `p` occurs in `s` at index `i`.
pub fn matches_at_exec(s: &Vec<char>, p: &Vec<char>, i: usize) -> (r: bool)
    ensures
        r == matches_at(s@, p@, i as int),
{
    if p.len() > s.len() || i > s.len() - p.len() {
        return false;
    }
    let mut k: usize = 0;
    while k < p.len()
        invariant
            i + p.len() <= s.len(),
            k <= p.len(),
            forall|j: int| 0 <= j < k ==> s@[i + j] == p@[j],
        decreases p.len() - k,
    {
        if s[i + k] != p[k] {
            assert(s@.subrange(i as int, i + p.len())[k as int] != p@[k as int]);
            return false;
        }
        k = k + 1;
    }
    assert(s@.subrange(i as int, i + p.len()) =~= p@);
    true
}

/// `s` split at every leftmost non-overlapping occurrence of the non-empty `p`.
pub fn split_str(s: &str, p: &str) -> (parts: Vec<String>)
    requires
        p@.len() > 0,
    ensures
        views(parts@) == split_seq(s@, p@),
{
    let sc = to_chars(s);
    let pc = to_chars(p);
    let mut out: Vec<String> = Vec::new();
    let mut start: usize = 0;
    let mut i: usize = 0;
    loop
        invariant
            sc@ == s@,
            pc@ == p@,
            pc.len() > 0,
            start <= i <= sc.len(),
            first_match_from(sc@, pc@, start as int) == first_match_from(sc@, pc@, i as int),
            views(out@) + split_from(sc@, pc@, start as int) == split_from(sc@, pc@, 0),
        decreases sc.len() - i,
    {
        if pc.len() > sc.len() - i {
            let piece = string_from_range(&sc, start, sc.len());
            let ghost before = out@;
            out.push(piece);
            assert(views(out@) =~= views(before).push(piece@));
            assert(split_from(sc@, pc@, start as int) =~= seq![piece@]);
            assert(views(out@) =~= views(before) + split_from(sc@, pc@, start as int));
            return out;
        }
        if matches_at_exec(&sc, &pc, i) {
            let piece = string_from_range(&sc, start, i);
            let ghost before = out@;
            out.push(piece);
            assert(views(out@) =~= views(before).push(piece@));
            let ghost rest = split_from(sc@, pc@, (i + pc.len()) as int);
            assert(split_from(sc@, pc@, start as int) == seq![piece@] + rest);
            assert(views(before) + (seq![piece@] + rest) =~= views(out@) + rest);
            start = i + pc.len();
            i = start;
        } else {
            i = i + 1;
        }
    }
}

/// The strings joined with `sep` between consecutive ones.
pub fn join_strs(parts: &Vec<String>, sep: &str) -> (r: String)
    ensures
        r@ == join_seq(views(parts@), sep@),
{
    let mut r = String::new();
    let mut i: usize = 0;
    while i < parts.len()
        invariant
            i <= parts.len(),
            r@ == join_seq(views(parts@).take(i as int), sep@),
        decreases parts.len() - i,
    {
        let ghost prefix = views(parts@).take((i + 1) as int);
        assert(prefix.drop_last() =~= views(parts@).take(i as int));
        if i > 0 {
            r.append(sep);
        }
        r.append(parts[i].as_str());
        i = i + 1;
    }
    assert(views(parts@).take(parts.len() as int) =~= views(parts@));
    r
}

/// Every occurrence of the non-empty `p` in `s` replaced by `r`.
pub fn replace_all(s: &str, p: &str, r: &str) -> (out: String)
    requires
        p@.len() > 0,
    ensures
        out@ == replace_seq(s@, p@, r@),
{
    let parts = split_str(s, p);
    join_strs(&parts, r)
}

/// An ASCII decimal digit.
pub open spec fn is_digit(c: char) -> bool {
    '0' <= c <= '9'
}

/// The value of a string of decimal digits.
pub open spec fn digits_value(s: Seq<char>) -> int
    decreases s.len(),
{
    if s.len() == 0 {
        0
    } else {
        digits_value(s.drop_last()) * 10 + (s.last() as int - '0' as int)
    }
}

/// Every character of `s` is a decimal digit.
pub open spec fn all_digits(s: Seq<char>) -> bool {
    forall|i: int| 0 <= i < s.len() ==> is_digit(#[trigger] s[i])
}

/// The value that `str::parse::<usize>` reads from `s`: an optional `+`
/// followed by at least one decimal digit, within the range of `usize`.
pub open spec fn parse_usize(s: Seq<char>) -> Option<int> {
    let d = if s.len() > 0 && s[0] == '+' {
        s.drop_first()
    } else {
        s
    };
    if d.len() > 0 && all_digits(d) && digits_value(d) <= usize::MAX {
        Some(digits_value(d))
    } else {
        None
    }
}

/// The decimal digit for `d`.
pub open spec fn digit_char(d: int) -> char {
    ('0' as int + d) as char
}

/// The decimal representation of `n`, without leading zeros.
pub open spec fn decimal(n: nat) -> Seq<char>
    decreases n,
{
    if n < 10 {
        seq![digit_char(n as int)]
    } else {
        decimal(n / 10).push(digit_char((n % 10) as int))
    }
}

/// `s` padded on the left with zeros to at least `width` characters
/// (the `{:0width}` format).
pub open spec fn zero_padded(s: Seq<char>, width: nat) -> Seq<char> {
    if s.len() >= width {
        s
    } else {
        Seq::new((width - s.len()) as nat, |i: int| '0') + s
    }
}

/// A prefix of a string of digits has a value no greater than the whole.
pub proof fn lemma_digits_prefix(s: Seq<char>, k: int)
    requires
        0 <= k <= s.len(),
        forall|i: int| 0 <= i < s.len() ==> is_digit(#[trigger] s[i]),
    ensures
        0 <= digits_value(s.take(k)) <= digits_value(s),
    decreases s.len(),
{
    if s.len() > 0 {
        let t = s.drop_last();
        assert forall|i: int| 0 <= i < t.len() implies is_digit(#[trigger] t[i]) by {
            assert(t[i] == s[i]);
        }
        assert(is_digit(s[s.len() - 1]));
        if k == s.len() {
            assert(s.take(k) =~= s);
            lemma_digits_prefix(t, t.len() as int);
            assert(t.take(t.len() as int) =~= t);
        } else {
            lemma_digits_prefix(t, k);
            assert(t.take(k) =~= s.take(k));
            lemma_digits_prefix(t, t.len() as int);
            assert(t.take(t.len() as int) =~= t);
        }
    } else {
        assert(s.take(k) =~= s);
    }
}

/// The digit value of an ASCII digit.
fn digit_value(c: char) -> (d: usize)
    requires
        is_digit(c),
    ensures
        d == c as int - '0' as int,
{
    (c as u32 - '0' as u32) as usize
}

/// Reads a `usize` the way `str::parse::<usize>` does: `None` for text
/// that is not an optional `+` and decimal digits, or that overflows.
pub fn parse_usize_str(s: &str) -> (r: Option<usize>)
    ensures
        match r {
            Some(n) => parse_usize(s@) == Some(n as int),
            None => parse_usize(s@) is None,
        },
{
    let cs = to_chars(s);
    let start: usize = if cs.len() > 0 && cs[0] == '+' {
        1
    } else {
        0
    };
    let ghost d = if s@.len() > 0 && s@[0] == '+' {
        s@.drop_first()
    } else {
        s@
    };
    assert(d =~= cs@.skip(start as int));
    if start == cs.len() {
        return None;
    }
    let mut acc: usize = 0;
    let mut i: usize = start;
    while i < cs.len()
        invariant
            start <= i <= cs.len(),
            cs@ == s@,
            d =~= cs@.skip(start as int),
            d == (if s@.len() > 0 && s@[0] == '+' {
                s@.drop_first()
            } else {
                s@
            }),
            forall|j: int| 0 <= j < i - start ==> is_digit(#[trigger] d[j]),
            acc as int == digits_value(d.take(i - start)),
        decreases cs.len() - i,
    {
        let c = cs[i];
        assert(d[i - start] == c);
        if !('0' <= c && c <= '9') {
            assert(!is_digit(d[i - start]));
            return None;
        }
        let dv = digit_value(c);
        let ghost k = i - start;
        assert(d.take(k + 1).drop_last() =~= d.take(k));
        assert(d.take(k + 1).last() == c);
        assert(digits_value(d.take(k + 1)) == acc * 10 + dv);
        let next = match acc.checked_mul(10) {
            Some(m) => m.checked_add(dv),
            None => None,
        };
        match next {
            Some(v) => {
                acc = v;
            },
            None => {
                proof {
                    if all_digits(d) {
                        lemma_digits_prefix(d, k + 1);
                    }
                }
                return None;
            },
        }
        i = i + 1;
    }
    assert(d.take(d.len() as int) =~= d);
    Some(acc)
}

/// The decimal digit for `d`.
fn digit_of(d: usize) -> (c: char)
    requires
        d < 10,
    ensures
        c == digit_char(d as int),
{
    ((48 + d) as u8) as char
}

/// The decimal representation of `n`.
pub fn decimal_chars(n: usize) -> (v: Vec<char>)
    ensures
        v@ == decimal(n as nat),
    decreases n,
{
    if n < 10 {
        let mut v = Vec::new();
        v.push(digit_of(n));
        v
    } else {
        let mut v = decimal_chars(n / 10);
        v.push(digit_of(n % 10));
        v
    }
}

/// `n` in decimal, padded on the left with zeros to `width` characters.
pub fn format_zero_padded(n: usize, width: usize) -> (r: String)
    ensures
        r@ == zero_padded(decimal(n as nat), width as nat),
{
    let digits = decimal_chars(n);
    let mut v: Vec<char> = Vec::new();
    let mut k: usize = digits.len();
    while k < width
        invariant
            digits.len() <= k <= width || (k == digits.len() && k >= width),
            v@ == Seq::new((k - digits.len()) as nat, |i: int| '0'),
        decreases width - k,
    {
        v.push('0');
        k = k + 1;
        assert(v@ =~= Seq::new((k - digits.len()) as nat, |i: int| '0'));
    }
    let mut i: usize = 0;
    let ghost pad = v@;
    while i < digits.len()
        invariant
            i <= digits.len(),
            v@ == pad + digits@.take(i as int),
        decreases digits.len() - i,
    {
        v.push(digits[i]);
        i = i + 1;
        assert(v@ =~= pad + digits@.take(i as int));
    }
    assert(digits@.take(digits.len() as int) =~= digits@);
    proof {
        if digits@.len() >= width {
            assert(pad =~= Seq::<char>::empty());
            assert(v@ =~= digits@);
        }
    }
    string_from_chars(&v)
}

/// The decimal representation of `n` is made of digits and has value `n`.
pub proof fn lemma_decimal_value(n: nat)
    ensures
        decimal(n).len() > 0,
        all_digits(decimal(n)),
        digits_value(decimal(n)) == n,
    decreases n,
{
    if n < 10 {
        assert(decimal(n).drop_last() =~= Seq::<char>::empty());
        assert(digit_char(n as int) as int == '0' as int + n);
        assert(digits_value(decimal(n).drop_last()) == 0);
    } else {
        lemma_decimal_value(n / 10);
        let t = decimal(n / 10);
        let d = decimal(n);
        assert(d.drop_last() =~= t);
        assert forall|i: int| 0 <= i < d.len() implies is_digit(#[trigger] d[i]) by {
            if i < t.len() {
                assert(d[i] == t[i]);
            }
        }
        assert(digit_char((n % 10) as int) as int == '0' as int + n % 10);
        assert(d.last() == digit_char((n % 10) as int));
        assert((n / 10) * 10 + n % 10 == n) by (nonlinear_arith);
    }
}

/// Leading zeros do not change the value of a string of digits.
pub proof fn lemma_leading_zeros_value(k: nat, s: Seq<char>)
    ensures
        digits_value(Seq::new(k, |i: int| '0') + s) == digits_value(s),
    decreases s.len() + k,
{
    let z = Seq::new(k, |i: int| '0');
    if s.len() == 0 {
        assert(z + s =~= z);
        if k > 0 {
            let z1 = Seq::new((k - 1) as nat, |i: int| '0');
            assert(z.drop_last() =~= z1 + s);
            lemma_leading_zeros_value((k - 1) as nat, s);
        }
    } else {
        assert((z + s).drop_last() =~= z + s.drop_last());
        lemma_leading_zeros_value(k, s.drop_last());
    }
}

/// A number read by `parse_usize` is not negative.
pub proof fn lemma_parse_usize_nonneg(s: Seq<char>)
    ensures
        parse_usize(s) matches Some(n) ==> 0 <= n,
{
    let d = if s.len() > 0 && s[0] == '+' {
        s.drop_first()
    } else {
        s
    };
    if parse_usize(s) is Some {
        lemma_digits_prefix(d, 0);
    }
}

/// A number printed in decimal, padded with zeros, reads back as itself.
pub proof fn lemma_parse_zero_padded(n: nat, width: nat)
    requires
        n <= usize::MAX,
    ensures
        parse_usize(zero_padded(decimal(n), width)) == Some(n as int),
{
    lemma_decimal_value(n);
    let d = decimal(n);
    let p = zero_padded(d, width);
    if d.len() < width {
        let k = (width - d.len()) as nat;
        lemma_leading_zeros_value(k, d);
        let z = Seq::new(k, |i: int| '0');
        assert forall|i: int| 0 <= i < p.len() implies is_digit(#[trigger] p[i]) by {
            if i >= k {
                assert(p[i] == d[i - k]);
            }
        }
    }
    assert(is_digit(p[0]));
}

} // verus!
