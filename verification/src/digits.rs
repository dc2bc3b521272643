//! Decimal representation of 64-bit integers: verified formatting and
//! parsing, used by the event codec, the ingress payload decoder and the
//! store query builder.

use vstd::prelude::*;

verus! {

pub open spec fn digit_char(d: int) -> char {
    if d == 0 {
        '0'
    } else if d == 1 {
        '1'
    } else if d == 2 {
        '2'
    } else if d == 3 {
        '3'
    } else if d == 4 {
        '4'
    } else if d == 5 {
        '5'
    } else if d == 6 {
        '6'
    } else if d == 7 {
        '7'
    } else if d == 8 {
        '8'
    } else {
        '9'
    }
}

pub open spec fn is_digit(c: char) -> bool {
    c == '0' || c == '1' || c == '2' || c == '3' || c == '4' || c == '5' || c == '6' || c == '7'
        || c == '8' || c == '9'
}

pub open spec fn digit_val(c: char) -> int {
    if c == '0' {
        0
    } else if c == '1' {
        1
    } else if c == '2' {
        2
    } else if c == '3' {
        3
    } else if c == '4' {
        4
    } else if c == '5' {
        5
    } else if c == '6' {
        6
    } else if c == '7' {
        7
    } else if c == '8' {
        8
    } else {
        9
    }
}

/// The decimal digits of `n`, most significant first.
pub open spec fn spec_udigits(n: nat) -> Seq<char>
    decreases n,
{
    if n < 10 {
        seq![digit_char(n as int)]
    } else {
        spec_udigits(n / 10).push(digit_char((n % 10) as int))
    }
}

/// The decimal representation of `v`, with a leading minus sign when
/// negative.
pub open spec fn spec_i64_str(v: int) -> Seq<char> {
    if v < 0 {
        seq!['-'] + spec_udigits((-v) as nat)
    } else {
        spec_udigits(v as nat)
    }
}

pub open spec fn all_digits(s: Seq<char>) -> bool {
    forall|i: int| 0 <= i < s.len() ==> is_digit(#[trigger] s[i])
}

/// The value of a digit sequence.
pub open spec fn spec_digits_val(s: Seq<char>) -> int
    decreases s.len(),
{
    if s.len() == 0 {
        0
    } else {
        spec_digits_val(s.drop_last()) * 10 + digit_val(s.last())
    }
}

/// The index of the first non-digit at or after `i`.
pub open spec fn digits_end(s: Seq<char>, i: int) -> int
    decreases s.len() - i,
{
    if 0 <= i < s.len() && is_digit(s[i]) {
        digits_end(s, i + 1)
    } else {
        i
    }
}

/// The digits of a number are digits, there is at least one, and they read
/// back to the number.
pub proof fn lemma_udigits_props(n: nat)
    ensures
        all_digits(spec_udigits(n)),
        spec_udigits(n).len() >= 1,
        spec_digits_val(spec_udigits(n)) == n,
    decreases n,
{
    if n < 10 {
        let s1 = seq![digit_char(n as int)];
        assert(s1.len() == 1);
        assert(s1.drop_last().len() == 0);
        assert(spec_digits_val(s1.drop_last()) == 0);
        assert(spec_digits_val(s1) == spec_digits_val(s1.drop_last()) * 10 + digit_val(s1.last()));
        assert(s1.last() == digit_char(n as int));
        assert(digit_val(digit_char(n as int)) == n);
        assert(spec_udigits(n) == s1);
    } else {
        lemma_udigits_props(n / 10);
        assert(spec_udigits(n).drop_last() =~= spec_udigits(n / 10));
    }
}

pub proof fn lemma_digits_val_nonneg(s: Seq<char>)
    requires
        all_digits(s),
    ensures
        spec_digits_val(s) >= 0,
    decreases s.len(),
{
    if s.len() > 0 {
        lemma_digits_val_nonneg(s.drop_last());
    }
}

/// The value of a digit run bounds the value of each of its prefixes.
pub proof fn lemma_digits_val_prefix(s: Seq<char>, j: int)
    requires
        all_digits(s),
        0 <= j <= s.len(),
    ensures
        spec_digits_val(s.take(j)) <= spec_digits_val(s),
    decreases s.len(),
{
    if j == s.len() {
        assert(s.take(j) =~= s);
    } else {
        let d = s.drop_last();
        assert(s.take(j) =~= d.take(j));
        lemma_digits_val_prefix(d, j);
        lemma_digits_val_nonneg(d);
    }
}

/// `digits_end` finds exactly the boundary of a digit run.
pub proof fn lemma_digits_end_of_run(s: Seq<char>, i: int, k: int)
    requires
        0 <= i,
        0 <= k,
        i + k <= s.len(),
        forall|j: int| i <= j < i + k ==> is_digit(#[trigger] s[j]),
        i + k == s.len() || !is_digit(s[i + k]),
    ensures
        digits_end(s, i) == i + k,
    decreases k,
{
    if k > 0 {
        lemma_digits_end_of_run(s, i + 1, k - 1);
    }
}

/// Basic shape of `digits_end`: it does not move backwards, everything
/// before it is a digit, and it stops at a non-digit or the end.
pub proof fn lemma_digits_end_props(s: Seq<char>, i: int)
    requires
        0 <= i <= s.len(),
    ensures
        i <= digits_end(s, i) <= s.len(),
        forall|j: int| i <= j < digits_end(s, i) ==> is_digit(#[trigger] s[j]),
        digits_end(s, i) < s.len() ==> !is_digit(s[digits_end(s, i)]),
    decreases s.len() - i,
{
    if i < s.len() && is_digit(s[i]) {
        lemma_digits_end_props(s, i + 1);
    }
}

fn digit_ch(d: u64) -> (c: char)
    requires
        d < 10,
    ensures
        c == digit_char(d as int),
{
    if d == 0 {
        '0'
    } else if d == 1 {
        '1'
    } else if d == 2 {
        '2'
    } else if d == 3 {
        '3'
    } else if d == 4 {
        '4'
    } else if d == 5 {
        '5'
    } else if d == 6 {
        '6'
    } else if d == 7 {
        '7'
    } else if d == 8 {
        '8'
    } else {
        '9'
    }
}

fn is_dig(c: char) -> (b: bool)
    ensures
        b == is_digit(c),
{
    c == '0' || c == '1' || c == '2' || c == '3' || c == '4' || c == '5' || c == '6' || c == '7'
        || c == '8' || c == '9'
}

fn digit_val_of(c: char) -> (d: u64)
    requires
        is_digit(c),
    ensures
        d == digit_val(c),
        d <= 9,
{
    if c == '0' {
        0
    } else if c == '1' {
        1
    } else if c == '2' {
        2
    } else if c == '3' {
        3
    } else if c == '4' {
        4
    } else if c == '5' {
        5
    } else if c == '6' {
        6
    } else if c == '7' {
        7
    } else if c == '8' {
        8
    } else {
        9
    }
}

/// Append the decimal digits of `n` to `out`.
pub fn push_u64(out: &mut String, n: u64)
    ensures
        final(out)@ == old(out)@ + spec_udigits(n as nat),
    decreases n,
{
    if n < 10 {
        out.push(digit_ch(n));
        proof {
            assert(final(out)@ =~= old(out)@ + spec_udigits(n as nat));
        }
    } else {
        push_u64(out, n / 10);
        out.push(digit_ch(n % 10));
        proof {
            assert(final(out)@ =~= old(out)@ + spec_udigits(n as nat));
        }
    }
}

/// Append the decimal representation of `v` to `out`.
pub fn push_i64(out: &mut String, v: i64)
    ensures
        final(out)@ == old(out)@ + spec_i64_str(v as int),
{
    if v >= 0 {
        push_u64(out, v as u64);
    } else {
        out.push('-');
        let m: u64 = ((-(v + 1)) as u64) + 1;
        assert(m as int == -(v as int));
        push_u64(out, m);
        proof {
            assert(final(out)@ =~= old(out)@ + spec_i64_str(v as int));
        }
    }
}

/// Scan the digit run beginning at `i` and return its value, or nothing
/// when there is no digit at `i` or the run's value exceeds `u64::MAX`.
pub fn scan_u64(v: &Vec<char>, i: usize) -> (r: Option<(u64, usize)>)
    requires
        i <= v@.len(),
    ensures
        r matches Some(p) ==> p.1 <= v@.len(),
        ({
            let e = digits_end(v@, i as int);
            let val = spec_digits_val(v@.subrange(i as int, e));
            &&& (e == i ==> r is None)
            &&& (e > i && val <= u64::MAX ==> (r matches Some(p) && p.0 == val && p.1 == e))
            &&& (e > i && val > u64::MAX ==> r is None)
        }),
{
    let n = v.len();
    proof {
        lemma_digits_end_props(v@, i as int);
    }
    let ghost e = digits_end(v@, i as int);
    // Find the end of the digit run.
    let mut j: usize = i;
    while j < n && is_dig(v[j])
        invariant
            i <= j <= n,
            n == v@.len(),
            digits_end(v@, i as int) == digits_end(v@, j as int),
        decreases n - j,
    {
        j += 1;
    }
    proof {
        assert(digits_end(v@, j as int) == j);
        assert(e == j);
        lemma_digits_end_props(v@, i as int);
    }
    let end = j;
    if end == i {
        return Option::None;
    }
    // Accumulate the value, watching for overflow.
    let ghost run = v@.subrange(i as int, e);
    let mut acc: u64 = 0;
    let mut k: usize = i;
    while k < end
        invariant
            i <= k <= end,
            end == e,
            e == digits_end(v@, i as int),
            i <= e <= n,
            n == v@.len(),
            run == v@.subrange(i as int, e),
            all_digits(run),
            acc == spec_digits_val(v@.subrange(i as int, k as int)),
        decreases end - k,
    {
        proof {
            assert(run[k - i] == v@[k as int]);
            assert(is_digit(v@[k as int]));
            assert(v@.subrange(i as int, k + 1 as int).drop_last() =~= v@.subrange(
                i as int,
                k as int,
            ));
        }
        let d = digit_val_of(v[k]);
        if acc > (u64::MAX - d) / 10 {
            proof {
                let part = v@.subrange(i as int, k + 1 as int);
                assert(spec_digits_val(part) == acc * 10 + d);
                assert(acc * 10 + d > u64::MAX) by (nonlinear_arith)
                    requires
                        acc > (u64::MAX - d) / 10,
                        d <= 9,
                ;
                assert(part =~= run.take(k + 1 - i as int));
                lemma_digits_val_prefix(run, k + 1 - i as int);
                assert(spec_digits_val(run) > u64::MAX);
            }
            return Option::None;
        }
        proof {
            assert(acc * 10 + d <= u64::MAX) by (nonlinear_arith)
                requires
                    acc <= (u64::MAX - d) / 10,
                    d <= 9,
            ;
        }
        acc = acc * 10 + d;
        k += 1;
    }
    proof {
        assert(v@.subrange(i as int, k as int) == run);
    }
    Option::Some((acc, end))
}

/// The integer beginning at `i`: an optional sign followed by a digit run.
pub open spec fn spec_scan_int(s: Seq<char>, i: int) -> Option<(int, int)> {
    let neg = i < s.len() && s[i] == '-';
    let signed = i < s.len() && (s[i] == '-' || s[i] == '+');
    let i2 = if signed {
        i + 1
    } else {
        i
    };
    let e = digits_end(s, i2);
    if e == i2 {
        Option::None
    } else {
        let m = spec_digits_val(s.subrange(i2, e));
        Option::Some(
            (
                if neg {
                    -m
                } else {
                    m
                },
                e,
            ),
        )
    }
}

/// Scan a signed integer at `i`, returning nothing when there is none or
/// its value does not fit an `i64`.
pub fn scan_i64_at(v: &Vec<char>, i: usize) -> (r: Option<(i64, usize)>)
    requires
        i <= v@.len(),
    ensures
        r matches Some(p) ==> p.1 <= v@.len(),
        match spec_scan_int(v@, i as int) {
            Some((w, e)) => if i64::MIN <= w <= i64::MAX {
                r matches Some(p) && p.0 == w && p.1 == e
            } else {
                r is None
            },
            Option::None => r is None,
        },
{
    let n = v.len();
    let mut neg = false;
    let mut j = i;
    if i < n && (v[i] == '-' || v[i] == '+') {
        neg = v[i] == '-';
        j = i + 1;
    }
    proof {
        lemma_digits_end_props(v@, j as int);
    }
    match scan_u64(v, j) {
        Option::None => Option::None,
        Option::Some((m, e)) => {
            proof {
                lemma_digits_val_nonneg(v@.subrange(j as int, e as int));
            }
            if neg {
                if m <= 0x7fff_ffff_ffff_ffff {
                    Option::Some((-(m as i64), e))
                } else if m == 0x8000_0000_0000_0000 {
                    Option::Some((i64::MIN, e))
                } else {
                    Option::None
                }
            } else {
                if m <= 0x7fff_ffff_ffff_ffff {
                    Option::Some((m as i64, e))
                } else {
                    Option::None
                }
            }
        },
    }
}

/// The value of `s` as a whole decimal integer, when it is one.
pub open spec fn spec_parse_i64(s: Seq<char>) -> Option<int> {
    match spec_scan_int(s, 0) {
        Some((w, e)) => if e == s.len() && i64::MIN <= w <= i64::MAX {
            Some(w)
        } else {
            Option::None
        },
        Option::None => Option::None,
    }
}

/// Parse a whole character vector as a decimal integer.
pub fn parse_i64_chars(v: &Vec<char>) -> (r: Option<i64>)
    ensures
        match spec_parse_i64(v@) {
            Some(w) => r matches Some(x) && x == w,
            Option::None => r is None,
        },
{
    match scan_i64_at(v, 0) {
        Option::None => Option::None,
        Option::Some((x, e)) => {
            if e == v.len() {
                Option::Some(x)
            } else {
                Option::None
            }
        },
    }
}

/// Scanning at the start of an embedded decimal representation yields
/// exactly the represented value and stops at its end.
pub proof fn lemma_scan_int_of_repr(s: Seq<char>, i: int, w: int)
    requires
        0 <= i,
        i + spec_i64_str(w).len() <= s.len(),
        s.subrange(i, i + spec_i64_str(w).len()) == spec_i64_str(w),
        i + spec_i64_str(w).len() == s.len() || !is_digit(s[i + spec_i64_str(w).len()]),
    ensures
        spec_scan_int(s, i) == Some((w, i + spec_i64_str(w).len())),
{
    let repr = spec_i64_str(w);
    let e0 = i + repr.len();
    if w < 0 {
        let m = (-w) as nat;
        lemma_udigits_props(m);
        let ud = spec_udigits(m);
        assert(repr[0] == '-');
        assert(s.subrange(i, e0)[0] == s[i]);
        assert(s[i] == repr[0]);
        assert forall|j: int| i + 1 <= j < e0 implies is_digit(#[trigger] s[j]) by {
            assert(s.subrange(i, e0)[j - i] == s[j]);
            assert(s[j] == repr[j - i]);
            assert(repr[j - i] == ud[j - i - 1]);
        }
        lemma_digits_end_of_run(s, i + 1, repr.len() - 1 as int);
        assert forall|k: int| 0 <= k < ud.len() implies s.subrange(i + 1, e0)[k] == ud[k] by {
            assert(s.subrange(i, e0)[k + 1] == s[k + 1 + i]);
            assert(repr[k + 1] == ud[k]);
        }
        assert(s.subrange(i + 1, e0) =~= ud);
        assert(spec_digits_val(s.subrange(i + 1, e0)) == m);
    } else {
        let m = w as nat;
        lemma_udigits_props(m);
        assert forall|j: int| i <= j < e0 implies is_digit(#[trigger] s[j]) by {
            assert(s.subrange(i, e0)[j - i] == s[j]);
            assert(s[j] == repr[j - i]);
        }
        assert(is_digit(s[i]));
        assert(s[i] != '-' && s[i] != '+');
        lemma_digits_end_of_run(s, i, repr.len() as int);
        assert(s.subrange(i, e0) =~= repr);
        assert(spec_digits_val(s.subrange(i, e0)) == m);
    }
}

} // verus!
