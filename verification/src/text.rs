//! Character-level text utilities with exact specifications.

use vstd::prelude::*;
use vstd::string::*;

verus! {

/// Unicode `White_Space` property, which `char::is_whitespace` and `str::trim` use.
pub open spec fn is_white_space_spec(c: char) -> bool {
    let u = c as u32;
    ||| 0x09 <= u <= 0x0D
    ||| u == 0x20
    ||| u == 0x85
    ||| u == 0xA0
    ||| u == 0x1680
    ||| 0x2000 <= u <= 0x200A
    ||| u == 0x2028
    ||| u == 0x2029
    ||| u == 0x202F
    ||| u == 0x205F
    ||| u == 0x3000
}

/// Whether `c` has the Unicode `White_Space` property.
pub fn is_white_space(c: char) -> (r: bool)
    ensures
        r == is_white_space_spec(c),
{
    let u = c as u32;
    (0x09 <= u && u <= 0x0D) || u == 0x20 || u == 0x85 || u == 0xA0 || u == 0x1680
        || (0x2000 <= u && u <= 0x200A) || u == 0x2028 || u == 0x2029 || u == 0x202F
        || u == 0x205F || u == 0x3000
}

/// The characters of `s`, in order.
pub fn chars_of(s: &str) -> (r: Vec<char>)
    ensures
        r@ == s@,
{
    let mut out: Vec<char> = Vec::new();
    for c in it: s.chars()
        invariant
            out@ == it.seq().take(it.index() as int),
            it.seq() == s@,
    {
        out.push(c);
    }
    out
}


/// `p` occurs in `t` starting at index `i`.
pub open spec fn matches_at(t: Seq<char>, p: Seq<char>, i: int) -> bool {
    0 <= i && i + p.len() <= t.len() && t.subrange(i, i + p.len()) == p
}

/// The greatest index `i <= k` at which `p` occurs in `t`.
pub open spec fn rfind_upto(t: Seq<char>, p: Seq<char>, k: int) -> Option<int>
    decreases k + 1,
{
    if k < 0 {
        None
    } else if matches_at(t, p, k) {
        Some(k)
    } else {
        rfind_upto(t, p, k - 1)
    }
}

/// Start of the last occurrence of `p` in `t` (what `str::rfind` finds).
pub open spec fn rfind_spec(t: Seq<char>, p: Seq<char>) -> Option<int> {
    rfind_upto(t, p, t.len() - p.len())
}

/// What `rfind_upto` finds is the last occurrence at or below `k`.
pub proof fn lemma_rfind_upto(t: Seq<char>, p: Seq<char>, k: int)
    ensures
        match rfind_upto(t, p, k) {
            Some(i) => 0 <= i <= k && matches_at(t, p, i) && forall|j: int|
                i < j <= k ==> !#[trigger] matches_at(t, p, j),
            None => forall|j: int| j <= k ==> !#[trigger] matches_at(t, p, j),
        },
    decreases k + 1,
{
    if k >= 0 && !matches_at(t, p, k) {
        lemma_rfind_upto(t, p, k - 1);
    }
}

/// The last occurrence, stated without recursion.
pub proof fn lemma_rfind(t: Seq<char>, p: Seq<char>)
    ensures
        match rfind_spec(t, p) {
            Some(i) => 0 <= i && i + p.len() <= t.len() && matches_at(t, p, i) && forall|j: int|
                i < j ==> !#[trigger] matches_at(t, p, j),
            None => forall|j: int| !#[trigger] matches_at(t, p, j),
        },
{
    lemma_rfind_upto(t, p, t.len() - p.len());
}

/// An occurrence with none after it is what `rfind_spec` finds.
pub proof fn lemma_rfind_unique(t: Seq<char>, p: Seq<char>, i: int)
    requires
        matches_at(t, p, i),
        forall|j: int| i < j ==> !#[trigger] matches_at(t, p, j),
    ensures
        rfind_spec(t, p) == Some(i),
{
    lemma_rfind(t, p);
}

/// Occurrences in a suffix of `t` are occurrences in `t`, shifted by the suffix's start.
pub proof fn lemma_matches_in_suffix(t: Seq<char>, p: Seq<char>, off: int, j: int)
    requires
        0 <= off <= t.len(),
        off <= j,
    ensures
        matches_at(t, p, j) == matches_at(t.subrange(off, t.len() as int), p, j - off),
{
    let u = t.subrange(off, t.len() as int);
    if matches_at(t, p, j) {
        assert(u.subrange(j - off, j - off + p.len()) =~= t.subrange(j, j + p.len()));
    }
    if matches_at(u, p, j - off) {
        assert(u.subrange(j - off, j - off + p.len()) =~= t.subrange(j, j + p.len()));
    }
}

/// An occurrence that ends within a prefix of `t` is an occurrence in that prefix.
pub proof fn lemma_matches_in_prefix(t: Seq<char>, p: Seq<char>, c: int, j: int)
    requires
        0 <= c <= t.len(),
        j + p.len() <= c,
    ensures
        matches_at(t.subrange(0, c), p, j) == matches_at(t, p, j),
{
    if 0 <= j {
        assert(t.subrange(0, c).subrange(j, j + p.len()) =~= t.subrange(j, j + p.len()));
    }
}

/// Two occurrences of `p` in `t`, each with none after it, are the same one.
pub proof fn lemma_last_match_unique(t: Seq<char>, p: Seq<char>, a: int, b: int)
    requires
        matches_at(t, p, a),
        forall|j: int| a < j ==> !#[trigger] matches_at(t, p, j),
        matches_at(t, p, b),
        forall|j: int| b < j ==> !#[trigger] matches_at(t, p, j),
    ensures
        a == b,
{
}

/// Whether `p` occurs in `t` at index `i` (`i + p.len() <= t.len()`).
fn matches_at_exec(t: &Vec<char>, p: &Vec<char>, i: usize) -> (r: bool)
    requires
        i + p.len() <= t.len(),
    ensures
        r == matches_at(t@, p@, i as int),
{
    let mut k: usize = 0;
    while k < p.len()
        invariant
            i + p.len() <= t.len(),
            k <= p.len(),
            forall|m: int| 0 <= m < k ==> t@[i + m] == p@[m],
        decreases p.len() - k,
    {
        if t[i + k] != p[k] {
            assert(t@.subrange(i as int, i + p.len())[k as int] != p@[k as int]);
            return false;
        }
        k = k + 1;
    }
    assert(t@.subrange(i as int, i + p.len()) =~= p@);
    true
}

/// Start of the last occurrence of `p` inside the first `limit` characters of `t`.
pub fn rfind_before(t: &Vec<char>, p: &Vec<char>, limit: usize) -> (r: Option<usize>)
    requires
        limit <= t.len(),
    ensures
        match r {
            Some(i) => rfind_spec(t@.subrange(0, limit as int), p@) == Some(i as int),
            None => rfind_spec(t@.subrange(0, limit as int), p@) is None,
        },
{
    let ghost region = t@.subrange(0, limit as int);
    if p.len() > limit {
        assert(rfind_spec(region, p@) is None);
        return None;
    }
    let mut k: usize = limit - p.len();
    loop
        invariant
            limit <= t.len(),
            p.len() <= limit,
            k <= limit - p.len(),
            region == t@.subrange(0, limit as int),
            rfind_spec(region, p@) == rfind_upto(region, p@, k as int),
        decreases k,
    {
        let found = matches_at_exec(t, p, k);
        assert(region.subrange(k as int, k + p.len()) =~= t@.subrange(k as int, k + p.len()));
        if found {
            return Some(k);
        }
        if k == 0 {
            assert(rfind_upto(region, p@, -1) is None);
            return None;
        }
        k = k - 1;
    }
}

/// Whether `p` occurs somewhere in `t`.
pub open spec fn contains_spec(t: Seq<char>, p: Seq<char>) -> bool {
    exists|j: int| matches_at(t, p, j)
}

/// Whether `needle` occurs in `text` (what `str::contains` with a `&str` answers).
pub fn text_contains(text: &str, needle: &str) -> (r: bool)
    ensures
        r == contains_spec(text@, needle@),
{
    let t = chars_of(text);
    let p = chars_of(needle);
    assert(t@.subrange(0, t.len() as int) =~= t@);
    proof {
        lemma_rfind(t@, p@);
    }
    match rfind_before(&t, &p, t.len()) {
        Some(_) => true,
        None => false,
    }
}

/// `s` with its leading white space removed.
pub open spec fn trim_start_spec(s: Seq<char>) -> Seq<char>
    decreases s.len(),
{
    if s.len() > 0 && is_white_space_spec(s[0]) {
        trim_start_spec(s.drop_first())
    } else {
        s
    }
}

/// `s` with its trailing white space removed.
pub open spec fn trim_end_spec(s: Seq<char>) -> Seq<char>
    decreases s.len(),
{
    if s.len() > 0 && is_white_space_spec(s.last()) {
        trim_end_spec(s.drop_last())
    } else {
        s
    }
}

/// `s` with leading and trailing white space removed (what `str::trim` gives).
pub open spec fn trim_spec(s: Seq<char>) -> Seq<char> {
    trim_end_spec(trim_start_spec(s))
}

proof fn lemma_trim_start_skip(s: Seq<char>, i: int)
    requires
        0 <= i <= s.len(),
        forall|k: int| 0 <= k < i ==> is_white_space_spec(#[trigger] s[k]),
    ensures
        trim_start_spec(s) == trim_start_spec(s.subrange(i, s.len() as int)),
    decreases i,
{
    if i > 0 {
        let d = s.drop_first();
        assert forall|k: int| 0 <= k < i - 1 implies is_white_space_spec(#[trigger] d[k]) by {
            assert(d[k] == s[k + 1]);
        }
        lemma_trim_start_skip(d, i - 1);
        assert(d.subrange(i - 1, d.len() as int) =~= s.subrange(i, s.len() as int));
    } else {
        assert(s.subrange(0, s.len() as int) =~= s);
    }
}

proof fn lemma_trim_end_take(s: Seq<char>, j: int)
    requires
        0 <= j <= s.len(),
        forall|k: int| j <= k < s.len() ==> is_white_space_spec(#[trigger] s[k]),
    ensures
        trim_end_spec(s) == trim_end_spec(s.subrange(0, j)),
    decreases s.len() - j,
{
    if j < s.len() {
        let d = s.drop_last();
        assert forall|k: int| j <= k < d.len() implies is_white_space_spec(#[trigger] d[k]) by {
            assert(d[k] == s[k]);
        }
        lemma_trim_end_take(d, j);
        assert(d.subrange(0, j) =~= s.subrange(0, j));
    } else {
        assert(s.subrange(0, j) =~= s);
    }
}

/// Where the leading white space of `s` ends.
proof fn trim_start_index(s: Seq<char>) -> (i: int)
    ensures
        0 <= i <= s.len(),
        trim_start_spec(s) == s.subrange(i, s.len() as int),
        forall|k: int| 0 <= k < i ==> is_white_space_spec(#[trigger] s[k]),
        i < s.len() ==> !is_white_space_spec(s[i]),
    decreases s.len(),
{
    if s.len() > 0 && is_white_space_spec(s[0]) {
        let d = s.drop_first();
        let i = trim_start_index(d);
        assert forall|k: int| 0 <= k < i + 1 implies is_white_space_spec(#[trigger] s[k]) by {
            if k > 0 {
                assert(s[k] == d[k - 1]);
            }
        }
        assert(d.subrange(i, d.len() as int) =~= s.subrange(i + 1, s.len() as int));
        i + 1
    } else {
        assert(s.subrange(0, s.len() as int) =~= s);
        0
    }
}

/// Where the trailing white space of `s` begins.
proof fn trim_end_index(s: Seq<char>) -> (j: int)
    ensures
        0 <= j <= s.len(),
        trim_end_spec(s) == s.subrange(0, j),
        forall|k: int| j <= k < s.len() ==> is_white_space_spec(#[trigger] s[k]),
        j > 0 ==> !is_white_space_spec(s[j - 1]),
    decreases s.len(),
{
    if s.len() > 0 && is_white_space_spec(s.last()) {
        let d = s.drop_last();
        let j = trim_end_index(d);
        assert forall|k: int| j <= k < s.len() implies is_white_space_spec(#[trigger] s[k]) by {
            if k < d.len() {
                assert(s[k] == d[k]);
            }
        }
        assert(d.subrange(0, j) =~= s.subrange(0, j));
        j
    } else {
        assert(s.subrange(0, s.len() as int) =~= s);
        s.len() as int
    }
}

/// Trimming keeps the middle of `s` whole and removes only white space: the
/// result is `s[i..j]` where everything before `i` and from `j` on is white
/// space, and a non-empty result neither begins nor ends with white space.
pub proof fn law_trim_keeps_middle(s: Seq<char>)
    ensures
        exists|i: int, j: int|
            #![trigger s.subrange(i, j)]
            0 <= i <= j <= s.len() && trim_spec(s) == s.subrange(i, j) && (forall|k: int|
                (0 <= k < i || j <= k < s.len()) ==> is_white_space_spec(#[trigger] s[k])) && (i < j
                ==> !is_white_space_spec(s[i]) && !is_white_space_spec(s[j - 1])),
{
    let i = trim_start_index(s);
    let r = s.subrange(i, s.len() as int);
    let jr = trim_end_index(r);
    let j = i + jr;
    assert(r.subrange(0, jr) =~= s.subrange(i, j));
    assert forall|k: int| (0 <= k < i || j <= k < s.len()) implies is_white_space_spec(#[trigger] s[k]) by {
        if k >= j {
            assert(s[k] == r[k - i]);
        }
    }
    if i < j {
        assert(s[i] == r[0]);
        assert(s[j - 1] == r[jr - 1]);
    }
    assert(trim_spec(s) == s.subrange(i, j));
}

/// Bounds `(a, b)` such that `t[a..b]` is `t[from..to]` trimmed.
pub fn trim_bounds(t: &Vec<char>, from: usize, to: usize) -> (r: (usize, usize))
    requires
        from <= to <= t.len(),
    ensures
        from <= r.0 <= r.1 <= to,
        t@.subrange(r.0 as int, r.1 as int) == trim_spec(t@.subrange(from as int, to as int)),
{
    let ghost s = t@.subrange(from as int, to as int);
    let mut a: usize = from;
    while a < to && is_white_space(t[a])
        invariant
            from <= a <= to <= t.len(),
            forall|k: int| from <= k < a ==> is_white_space_spec(#[trigger] t@[k]),
        decreases to - a,
    {
        a = a + 1;
    }
    let mut b: usize = to;
    while b > a && is_white_space(t[b - 1])
        invariant
            from <= a <= b <= to <= t.len(),
            forall|k: int| b <= k < to ==> is_white_space_spec(#[trigger] t@[k]),
        decreases b - a,
    {
        b = b - 1;
    }
    proof {
        assert forall|k: int| 0 <= k < a - from implies is_white_space_spec(#[trigger] s[k]) by {
            assert(s[k] == t@[from + k]);
        }
        lemma_trim_start_skip(s, a - from);
        let rest = s.subrange(a - from, s.len() as int);
        assert(rest =~= t@.subrange(a as int, to as int));
        if a < to {
            assert(rest[0] == t@[a as int]);
            assert(trim_start_spec(rest) == rest);
        } else {
            assert(trim_start_spec(rest) == rest);
        }
        assert forall|k: int| b - a <= k < rest.len() implies is_white_space_spec(#[trigger] rest[k]) by {
            assert(rest[k] == t@[a + k]);
        }
        lemma_trim_end_take(rest, b - a);
        let kept = rest.subrange(0, b - a);
        assert(kept =~= t@.subrange(a as int, b as int));
        if b > a {
            assert(kept.last() == t@[b - 1]);
        }
        assert(trim_end_spec(kept) == kept);
    }
    (a, b)
}


/// The decimal digit character for `d` (`0 <= d < 10`).
pub open spec fn digit_char(d: int) -> char {
    if d == 0 { '0' } else if d == 1 { '1' } else if d == 2 { '2' } else if d == 3 { '3' }
    else if d == 4 { '4' } else if d == 5 { '5' } else if d == 6 { '6' } else if d == 7 { '7' }
    else if d == 8 { '8' } else { '9' }
}

/// Whether `c` is an ASCII decimal digit.
pub open spec fn is_digit(c: char) -> bool {
    '0' <= c && c <= '9'
}

/// The value of the ASCII digit `c`.
pub open spec fn digit_value(c: char) -> int {
    (c as u32) - ('0' as u32)
}

/// The decimal notation of `n`, without sign or leading zeros.
pub open spec fn decimal_spec(n: nat) -> Seq<char>
    decreases n,
{
    if n < 10 {
        seq![digit_char(n as int)]
    } else {
        decimal_spec(n / 10).push(digit_char((n % 10) as int))
    }
}

/// The value of a string of decimal digits.
pub open spec fn digits_value(s: Seq<char>) -> int
    decreases s.len(),
{
    if s.len() == 0 {
        0
    } else {
        digits_value(s.drop_last()) * 10 + digit_value(s.last())
    }
}

/// Whether every character of `s` is a decimal digit.
pub open spec fn all_digits(s: Seq<char>) -> bool {
    forall|i: int| 0 <= i < s.len() ==> is_digit(#[trigger] s[i])
}

/// The unsigned integer that the text `s` denotes, if it is a non-empty string of
/// digits whose value fits in a `u64`.
pub open spec fn parse_u64_spec(s: Seq<char>) -> Option<u64> {
    if s.len() > 0 && all_digits(s) && digits_value(s) <= u64::MAX {
        Some(digits_value(s) as u64)
    } else {
        None
    }
}

fn digit_str(d: u64) -> (r: &'static str)
    requires
        d < 10,
    ensures
        r@ == seq![digit_char(d as int)],
{
    if d == 0 {
        proof { reveal_strlit("0"); }
        "0"
    } else if d == 1 {
        proof { reveal_strlit("1"); }
        "1"
    } else if d == 2 {
        proof { reveal_strlit("2"); }
        "2"
    } else if d == 3 {
        proof { reveal_strlit("3"); }
        "3"
    } else if d == 4 {
        proof { reveal_strlit("4"); }
        "4"
    } else if d == 5 {
        proof { reveal_strlit("5"); }
        "5"
    } else if d == 6 {
        proof { reveal_strlit("6"); }
        "6"
    } else if d == 7 {
        proof { reveal_strlit("7"); }
        "7"
    } else if d == 8 {
        proof { reveal_strlit("8"); }
        "8"
    } else {
        proof { reveal_strlit("9"); }
        "9"
    }
}

/// Appends the decimal notation of `n` to `out`.
pub fn append_decimal(out: &mut String, n: u64)
    ensures
        final(out)@ == old(out)@ + decimal_spec(n as nat),
    decreases n,
{
    if n >= 10 {
        append_decimal(out, n / 10);
    }
    out.append(digit_str(n % 10));
    proof {
        if n >= 10 {
            assert(decimal_spec(n as nat) == decimal_spec((n / 10) as nat).push(digit_char((n % 10) as int)));
        }
    }
    assert(final(out)@ =~= old(out)@ + decimal_spec(n as nat));
}

/// The decimal notation of `n` (what `n.to_string()` gives).
pub fn decimal(n: u64) -> (r: String)
    ensures
        r@ == decimal_spec(n as nat),
{
    let mut out = String::new();
    append_decimal(&mut out, n);
    assert(out@ =~= decimal_spec(n as nat));
    out
}

proof fn lemma_digits_value_prefix(s: Seq<char>, k: int)
    requires
        all_digits(s),
        0 <= k <= s.len(),
    ensures
        0 <= digits_value(s.take(k)) <= digits_value(s),
    decreases s.len(),
{
    if s.len() > 0 {
        let d = s.drop_last();
        assert(all_digits(d)) by {
            assert forall|i: int| 0 <= i < d.len() implies is_digit(#[trigger] d[i]) by {
                assert(d[i] == s[i]);
            }
        }
        assert(is_digit(s[s.len() - 1]));
        if k < s.len() {
            lemma_digits_value_prefix(d, k);
            assert(d.take(k) =~= s.take(k));
        } else {
            lemma_digits_value_prefix(d, k - 1);
            assert(s.take(k) =~= s);
        }
    } else {
        assert(s.take(k) =~= s);
    }
}

/// Decimal notation reads back as the number it was written for.
pub proof fn lemma_decimal_roundtrip(n: nat)
    ensures
        decimal_spec(n).len() > 0,
        all_digits(decimal_spec(n)),
        digits_value(decimal_spec(n)) == n,
    decreases n,
{
    let d = decimal_spec(n);
    if n < 10 {
        assert(d.drop_last() =~= Seq::<char>::empty());
        assert(digits_value(d.drop_last()) == 0);
        assert(d.last() == digit_char(n as int));
        assert(digit_value(digit_char(n as int)) == n) by {
            assert('0' as u32 == 48);
            assert('9' as u32 == 57);
        }
        assert(digits_value(d) == digits_value(d.drop_last()) * 10 + digit_value(d.last()));
    } else {
        lemma_decimal_roundtrip(n / 10);
        let p = decimal_spec(n / 10);
        assert(d.drop_last() =~= p);
        assert(d.last() == digit_char((n % 10) as int));
        assert((n / 10) * 10 + n % 10 == n) by (nonlinear_arith);
        assert(digit_value(digit_char((n % 10) as int)) == n % 10) by {
            assert('0' as u32 == 48);
        }
        assert(digits_value(d) == digits_value(d.drop_last()) * 10 + digit_value(d.last()));
        assert(digits_value(d) == (n / 10) * 10 + n % 10);
        assert forall|i: int| 0 <= i < d.len() implies is_digit(#[trigger] d[i]) by {
            if i < p.len() {
                assert(d[i] == p[i]);
            }
        }
    }
}

/// Decimal notation begins with `0` only for zero.
pub proof fn lemma_decimal_leading(n: nat)
    ensures
        decimal_spec(n).len() > 0,
        decimal_spec(n)[0] == '0' ==> n == 0,
    decreases n,
{
    if n >= 10 {
        lemma_decimal_leading(n / 10);
        assert(decimal_spec(n)[0] == decimal_spec(n / 10)[0]);
    }
}

/// The characters of a trimmed string neither begin nor end with white space.
pub proof fn lemma_trim_ends(s: Seq<char>)
    ensures
        trim_spec(s).len() > 0 ==> !is_white_space_spec(trim_spec(s)[0]) && !is_white_space_spec(
            trim_spec(s).last(),
        ),
{
    lemma_trim_start_first(s);
    lemma_trim_end_keeps_first(trim_start_spec(s));
    lemma_trim_end_last(trim_start_spec(s));
}

proof fn lemma_trim_start_first(s: Seq<char>)
    ensures
        trim_start_spec(s).len() > 0 ==> !is_white_space_spec(trim_start_spec(s)[0]),
    decreases s.len(),
{
    if s.len() > 0 && is_white_space_spec(s[0]) {
        lemma_trim_start_first(s.drop_first());
    }
}

proof fn lemma_trim_end_last(s: Seq<char>)
    ensures
        trim_end_spec(s).len() > 0 ==> !is_white_space_spec(trim_end_spec(s).last()),
    decreases s.len(),
{
    if s.len() > 0 && is_white_space_spec(s.last()) {
        lemma_trim_end_last(s.drop_last());
    }
}

proof fn lemma_trim_end_keeps_first(s: Seq<char>)
    ensures
        trim_end_spec(s).len() > 0 ==> trim_end_spec(s)[0] == s[0],
        trim_end_spec(s).len() <= s.len(),
    decreases s.len(),
{
    if s.len() > 0 && is_white_space_spec(s.last()) {
        lemma_trim_end_keeps_first(s.drop_last());
    }
}

/// Parses a non-empty string of ASCII digits into a `u64`.
pub fn parse_u64(s: &str) -> (r: Option<u64>)
    ensures
        r == parse_u64_spec(s@),
{
    let cs = chars_of(s);
    if cs.len() == 0 {
        return None;
    }
    let mut acc: u64 = 0;
    let mut i: usize = 0;
    while i < cs.len()
        invariant
            cs@ == s@,
            i <= cs.len(),
            all_digits(cs@.take(i as int)),
            acc == digits_value(cs@.take(i as int)),
        decreases cs.len() - i,
    {
        let c = cs[i];
        if !('0' <= c && c <= '9') {
            assert(!all_digits(cs@));
            return None;
        }
        let d = (c as u32 - '0' as u32) as u64;
        assert(cs@.take(i + 1).drop_last() =~= cs@.take(i as int));
        assert(all_digits(cs@.take(i + 1))) by {
            assert forall|k: int| 0 <= k < i + 1 implies is_digit(#[trigger] cs@.take(i + 1)[k]) by {
                if k < i {
                    assert(cs@.take(i + 1)[k] == cs@.take(i as int)[k]);
                }
            }
        }
        if acc > (u64::MAX - d) / 10 {
            proof {
                assert(digits_value(cs@.take(i + 1)) == acc * 10 + d);
                assert(acc * 10 + d > u64::MAX) by (nonlinear_arith)
                    requires acc > (u64::MAX - d) / 10, d < 10;
                if all_digits(cs@) {
                    lemma_digits_value_prefix(cs@, i + 1);
                }
            }
            return None;
        }
        assert(acc * 10 + d <= u64::MAX) by (nonlinear_arith)
            requires acc <= (u64::MAX - d) / 10, d < 10;
        acc = acc * 10 + d;
        i = i + 1;
    }
    assert(cs@.take(cs.len() as int) =~= cs@);
    Some(acc)
}

/// `@f ` for each file name, in order: the file references that prefix a prompt.
pub open spec fn file_refs_spec(files: Seq<Seq<char>>) -> Seq<char>
    decreases files.len(),
{
    if files.len() == 0 {
        Seq::empty()
    } else {
        file_refs_spec(files.drop_last()) + seq!['@'] + files.last() + seq![' ']
    }
}

/// The references for one file are `@`, its name exactly as given, and a space.
pub proof fn law_file_refs_single(f: Seq<char>)
    ensures
        file_refs_spec(seq![f]) == seq!['@'] + f + seq![' '],
{
    assert(seq![f].drop_last() =~= Seq::<Seq<char>>::empty());
    assert(file_refs_spec(Seq::<Seq<char>>::empty()) == Seq::<char>::empty());
    assert(seq![f].last() == f);
    assert(Seq::<char>::empty() + seq!['@'] + f + seq![' '] =~= seq!['@'] + f + seq![' ']);
}

/// The references for two lists of files one after the other are the references
/// for the first list followed by those for the second: every file is referenced
/// in order, each on its own.
pub proof fn law_file_refs_append(a: Seq<Seq<char>>, b: Seq<Seq<char>>)
    ensures
        file_refs_spec(a + b) == file_refs_spec(a) + file_refs_spec(b),
    decreases b.len(),
{
    if b.len() == 0 {
        assert(a + b =~= a);
        assert(file_refs_spec(a) + Seq::<char>::empty() =~= file_refs_spec(a));
    } else {
        law_file_refs_append(a, b.drop_last());
        assert((a + b).drop_last() =~= a + b.drop_last());
        assert((a + b).last() == b.last());
        assert(file_refs_spec(a + b) =~= file_refs_spec(a) + file_refs_spec(b));
    }
}

/// The character views of a list of string slices.
pub open spec fn strs_view(files: Seq<&str>) -> Seq<Seq<char>> {
    files.map_values(|f: &str| f@)
}

/// Appends `@f ` to `out` for each `f` in `files`, in order.
pub fn append_file_refs(out: &mut String, files: &[&str])
    ensures
        final(out)@ == old(out)@ + file_refs_spec(strs_view(files@)),
{
    let ghost start = out@;
    let mut i: usize = 0;
    while i < files.len()
        invariant
            i <= files.len(),
            out@ == start + file_refs_spec(strs_view(files@.take(i as int))),
        decreases files.len() - i,
    {
        proof { reveal_strlit("@"); reveal_strlit(" "); }
        out.append("@");
        out.append(files[i]);
        out.append(" ");
        proof {
            let vs = strs_view(files@.take(i + 1));
            assert(vs.drop_last() =~= strs_view(files@.take(i as int)));
            assert(vs.last() == files@[i as int]@);
        }
        assert(out@ =~= start + file_refs_spec(strs_view(files@.take(i + 1))));
        i = i + 1;
    }
    assert(files@.take(files.len() as int) =~= files@);
}


/// `s` with leading and trailing white space removed (what `str::trim` gives).
pub fn trim_text(s: &str) -> (r: String)
    ensures
        r@ == trim_spec(s@),
{
    let cs = chars_of(s);
    let (a, b) = trim_bounds(&cs, 0, cs.len());
    assert(cs@.subrange(0, cs.len() as int) =~= cs@);
    s.substring_char(a, b).to_owned()
}

/// The characters of a list of strings, one after the other.
pub open spec fn concat_spec(parts: Seq<Seq<char>>) -> Seq<char>
    decreases parts.len(),
{
    if parts.len() == 0 {
        Seq::empty()
    } else {
        concat_spec(parts.drop_last()) + parts.last()
    }
}

/// Joining one string gives that string unchanged.
pub proof fn law_concat_single(x: Seq<char>)
    ensures
        concat_spec(seq![x]) == x,
{
    assert(seq![x].drop_last() =~= Seq::<Seq<char>>::empty());
    assert(concat_spec(Seq::<Seq<char>>::empty()) == Seq::<char>::empty());
    assert(seq![x].last() == x);
    assert(Seq::<char>::empty() + x =~= x);
}

/// Joining two lists one after the other gives the two joins one after the
/// other: the parts appear whole, in order, with nothing added or removed.
pub proof fn law_concat_append(a: Seq<Seq<char>>, b: Seq<Seq<char>>)
    ensures
        concat_spec(a + b) == concat_spec(a) + concat_spec(b),
    decreases b.len(),
{
    if b.len() == 0 {
        assert(a + b =~= a);
        assert(concat_spec(a) + Seq::<char>::empty() =~= concat_spec(a));
    } else {
        law_concat_append(a, b.drop_last());
        assert((a + b).drop_last() =~= a + b.drop_last());
        assert((a + b).last() == b.last());
        assert(concat_spec(a + b) =~= concat_spec(a) + concat_spec(b));
    }
}

/// The character views of a list of strings.
pub open spec fn strings_view(parts: Seq<String>) -> Seq<Seq<char>> {
    parts.map_values(|p: String| p@)
}

/// The strings of `parts` joined with nothing between them.
pub fn concat_strings(parts: &Vec<String>) -> (r: String)
    ensures
        r@ == concat_spec(strings_view(parts@)),
{
    let mut out = String::new();
    let mut i: usize = 0;
    while i < parts.len()
        invariant
            i <= parts.len(),
            out@ == concat_spec(strings_view(parts@.take(i as int))),
        decreases parts.len() - i,
    {
        out.append(parts[i].as_str());
        proof {
            let vs = strings_view(parts@.take(i + 1));
            assert(vs.drop_last() =~= strings_view(parts@.take(i as int)));
        }
        assert(out@ =~= concat_spec(strings_view(parts@.take(i + 1))));
        i = i + 1;
    }
    assert(parts@.take(parts.len() as int) =~= parts@);
    out
}

/// What `format!("{:?}", s)` writes for a string slice: the string quoted, with
/// characters escaped as `str`'s `Debug` does.
pub uninterp spec fn debug_text(s: Seq<char>) -> Seq<char>;

/// The `Debug` text of a string slice, written by std's `<str as Debug>::fmt`.
/// Claimed: the result is `debug_text` of the characters of `s`, a function of them alone.
#[verifier::external_body]
pub(crate) fn debug_quoted(s: &str) -> (r: String)
    ensures
        r@ == debug_text(s@),
{
    format!("{:?}", s)
}

} // verus!
