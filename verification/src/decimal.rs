//! Fixed-point decimals: parsing `"12.5"`-style text into integers scaled by
//! `10^places`, and rendering scaled integers back.

use vstd::prelude::*;
use crate::text::{
    accumulate_digits, all_ascii_digits, chars_of, decimal, digits_value, is_ascii_digit,
    string_push, trim_chars, trimmed, u128_to_decimal,
};

verus! {

/// Index of the first occurrence of `c`.
pub open spec fn first_index(s: Seq<char>, c: char) -> Option<int>
    decreases s.len(),
{
    if s.len() == 0 {
        None
    } else if s[0] == c {
        Some(0)
    } else {
        match first_index(s.drop_first(), c) {
            Some(k) => Some(k + 1),
            None => None,
        }
    }
}

proof fn lemma_first_index(s: Seq<char>, c: char)
    ensures
        first_index(s, c) matches Some(k) ==> 0 <= k < s.len() && s[k] == c && forall|j: int|
            0 <= j < k ==> s[j] != c,
        first_index(s, c) is None ==> forall|j: int| 0 <= j < s.len() ==> s[j] != c,
    decreases s.len(),
{
    if s.len() > 0 && s[0] != c {
        lemma_first_index(s.drop_first(), c);
        assert forall|j: int| 1 <= j < s.len() implies s[j] == s.drop_first()[j - 1] by {}
    }
}

/// Sign and digits after an optional leading `-` or `+`.
pub open spec fn sign_and_body(t: Seq<char>) -> (int, Seq<char>) {
    if t.len() > 0 && t[0] == '-' {
        (-1, t.drop_first())
    } else if t.len() > 0 && t[0] == '+' {
        (1, t.drop_first())
    } else {
        (1, t)
    }
}

/// The part before the first `.` (all of it when there is none).
pub open spec fn int_part(body: Seq<char>) -> Seq<char> {
    match first_index(body, '.') {
        Some(k) => body.take(k),
        None => body,
    }
}

/// The part after the first `.` (empty when there is none).
pub open spec fn frac_part(body: Seq<char>) -> Seq<char> {
    match first_index(body, '.') {
        Some(k) => body.skip(k + 1),
        None => Seq::empty(),
    }
}

/// The fraction cut or right-padded with `0` to exactly `places` digits.
pub open spec fn frac_scaled(frac: Seq<char>, places: nat) -> Seq<char> {
    if frac.len() < places {
        frac + Seq::new((places - frac.len()) as nat, |i: int| '0')
    } else {
        frac.take(places as int)
    }
}

/// The value of a decimal text scaled by `10^places`: surrounding white
/// space trimmed, an optional sign, at least one integer digit, an
/// optional `.` followed by digits; fraction digits past `places` are
/// cut off. `None` when the text is not such a decimal or the scaled
/// magnitude exceeds `i128::MAX`.
pub open spec fn parse_scaled(s: Seq<char>, places: nat) -> Option<int> {
    let (sign, body) = sign_and_body(trimmed(s));
    let ip = int_part(body);
    let fp = frac_part(body);
    if ip.len() == 0 || !all_ascii_digits(ip) {
        None
    } else if fp.len() > 0 && !all_ascii_digits(fp) {
        None
    } else {
        let v = digits_value(ip + frac_scaled(fp, places));
        if v > i128::MAX {
            None
        } else {
            Some(sign * v)
        }
    }
}

/// Position of the first `.` in `all[start..b]`, or `b`.
fn find_first_dot(all: &Vec<char>, start: usize, b: usize) -> (dot: usize)
    requires
        start <= b <= all@.len(),
    ensures
        start <= dot <= b,
        int_part(all@.subrange(start as int, b as int)) == all@.subrange(start as int, dot as int),
        frac_part(all@.subrange(start as int, b as int)) == all@.subrange(
            if dot < b { dot + 1 } else { b as int },
            b as int,
        ),
{
    let ghost body = all@.subrange(start as int, b as int);
    let mut dot = start;
    while dot < b && all[dot] != '.'
        invariant
            start <= dot <= b <= all@.len(),
            forall|j: int| start <= j < dot ==> all@[j] != '.',
        decreases b - dot,
    {
        dot = dot + 1;
    }
    proof {
        lemma_first_index(body, '.');
        if dot < b {
            assert(body[dot - start] == '.');
            assert(first_index(body, '.') == Some((dot - start) as int)) by {
                if first_index(body, '.') is None {
                } else {
                    let k = first_index(body, '.')->0;
                    if k < dot - start {
                        assert(body[k] == all@[k + start]);
                    }
                }
            }
            assert(int_part(body) =~= all@.subrange(start as int, dot as int));
            assert(frac_part(body) =~= all@.subrange(dot + 1, b as int));
        } else {
            assert(first_index(body, '.') is None) by {
                if first_index(body, '.') is Some {
                    let k = first_index(body, '.')->0;
                    assert(body[k] == all@[k + start]);
                }
            }
            assert(int_part(body) =~= all@.subrange(start as int, dot as int));
            assert(frac_part(body) =~= all@.subrange(b as int, b as int));
        }
    }
    dot
}

/// Parses a decimal into an integer scaled by `10^places`.
pub fn parse_decimal_to_scaled(s: &str, places: u32) -> (r: Result<i128, ()>)
    ensures
        match r {
            Ok(v) => parse_scaled(s@, places as nat) == Some(v as int),
            Err(_) => parse_scaled(s@, places as nat) is None,
        },
{
    let all = chars_of(s);
    let (a, b) = trim_chars(&all);
    let ghost t = trimmed(s@);
    assert(t =~= all@.subrange(a as int, b as int));
    let mut start = a;
    let mut negative = false;
    if start < b && all[start] == '-' {
        negative = true;
        start = start + 1;
    } else if start < b && all[start] == '+' {
        start = start + 1;
    }
    let ghost body = sign_and_body(t).1;
    assert(body =~= all@.subrange(start as int, b as int));
    assert(sign_and_body(trimmed(s@)).0 == (if negative { -1int } else { 1int }));
    let dot = find_first_dot(&all, start, b);
    proof {
        assert(body =~= all@.subrange(start as int, b as int));
    }
    let frac_start: usize = if dot < b { dot + 1 } else { b };
    let ghost ip = int_part(body);
    let ghost fp = frac_part(body);
    assert(fp =~= all@.subrange(frac_start as int, b as int));
    if dot == start {
        return Err(());
    }
    let mut combined: Vec<char> = Vec::new();
    let mut i = start;
    while i < dot
        invariant
            start <= i <= dot <= b <= all@.len(),
            ip == all@.subrange(start as int, dot as int),
            ip == int_part(sign_and_body(trimmed(s@)).1),
            ip.len() > 0,
            combined@ == ip.take(i - start),
            all_ascii_digits(combined@),
        decreases dot - i,
    {
        let c = all[i];
        if !('0' <= c && c <= '9') {
            proof {
                assert(ip[i - start] == c);
                assert(!is_ascii_digit(ip[i - start]));
            }
            return Err(());
        }
        combined.push(c);
        proof {
            assert(ip.take(i + 1 - start) =~= ip.take(i - start).push(c));
        }
        i = i + 1;
    }
    assert(ip.take(dot - start) =~= ip);
    assert(all_ascii_digits(ip));
    let mut j = frac_start;
    while j < b
        invariant
            frac_start <= j <= b <= all@.len(),
            fp == all@.subrange(frac_start as int, b as int),
            fp == frac_part(sign_and_body(trimmed(s@)).1),
            ip == int_part(sign_and_body(trimmed(s@)).1),
            ip.len() > 0,
            all_ascii_digits(ip),
            forall|k: int| frac_start <= k < j ==> is_ascii_digit(#[trigger] all@[k]),
        decreases b - j,
    {
        let c = all[j];
        if !('0' <= c && c <= '9') {
            proof {
                assert(fp[j - frac_start] == c);
                assert(!is_ascii_digit(fp[j - frac_start]));
            }
            return Err(());
        }
        j = j + 1;
    }
    assert(all_ascii_digits(fp)) by {
        assert forall|k: int| 0 <= k < fp.len() implies is_ascii_digit(#[trigger] fp[k]) by {
            assert(fp[k] == all@[k + frac_start]);
        }
    }
    let ghost fs = frac_scaled(fp, places as nat);
    let mut n: usize = 0;
    let flen = b - frac_start;
    while (n as u64) < (places as u64)
        invariant
            frac_start <= b <= all@.len(),
            flen == b - frac_start,
            fp == all@.subrange(frac_start as int, b as int),
            all_ascii_digits(fp),
            fs == frac_scaled(fp, places as nat),
            fp == frac_part(sign_and_body(trimmed(s@)).1),
            ip == int_part(sign_and_body(trimmed(s@)).1),
            ip.len() > 0,
            all_ascii_digits(ip),
            sign_and_body(trimmed(s@)).0 == (if negative { -1int } else { 1int }),
            n <= places,
            combined@ == ip + fs.take(n as int),
            all_ascii_digits(combined@),
        decreases places - n,
    {
        let c = if n < flen { all[frac_start + n] } else { '0' };
        proof {
            if n < fp.len() {
                assert(fs[n as int] == fp[n as int]);
                assert(fp[n as int] == all@[frac_start + n]);
            } else {
                assert(fs[n as int] == '0');
            }
            assert(is_ascii_digit(c));
        }
        combined.push(c);
        proof {
            assert(fs.take(n + 1) =~= fs.take(n as int).push(c));
            assert(combined@ =~= ip + fs.take(n + 1));
        }
        n = n + 1;
    }
    assert(fs.len() == places);
    assert(fs.take(places as int) =~= fs);
    assert(combined@.subrange(0, combined@.len() as int) =~= combined@);
    match accumulate_digits(&combined, 0, combined.len(), i128::MAX as u128) {
        Some(v) => {
            let m = v as i128;
            if negative {
                Ok(-m)
            } else {
                Ok(m)
            }
        },
        None => Err(()),
    }
}

/// The scaled digits of `|n|`, left-padded with `0` to at least
/// `places + 1` digits.
pub open spec fn padded_digits(n: int, places: nat) -> Seq<char> {
    let d = decimal(if n < 0 { (-n) as nat } else { n as nat });
    if d.len() <= places {
        Seq::new((places + 1 - d.len()) as nat, |i: int| '0') + d
    } else {
        d
    }
}

/// `n / 10^places` rendered with exactly `places` fraction digits and a
/// leading `-` for negatives.
pub open spec fn scaled_text(n: int, places: nat) -> Seq<char> {
    let p = padded_digits(n, places);
    let split = p.len() - places;
    (if n < 0 {
        seq!['-']
    } else {
        Seq::empty()
    }) + p.take(split) + seq!['.'] + p.skip(split)
}

/// Renders an integer scaled by `10^places` as a decimal.
pub fn format_scaled_decimal(n: i128, places: u32) -> (r: String)
    ensures
        r@ == scaled_text(n as int, places as nat),
{
    let mag: u128 = if n < 0 { ((-(n + 1)) as u128) + 1 } else { n as u128 };
    let digits_text = u128_to_decimal(mag);
    let digits = chars_of(digits_text.as_str());
    let ghost p = padded_digits(n as int, places as nat);
    let mut padded: Vec<char> = Vec::new();
    if (digits.len() as u64) <= (places as u64) {
        proof { crate::text::lemma_decimal_nonempty(mag as nat); }
        let zeros = ((places as usize) - digits.len()) + 1;
        let mut k: usize = 0;
        while k < zeros
            invariant
                k <= zeros,
                padded@ == Seq::new(k as nat, |i: int| '0'),
            decreases zeros - k,
        {
            padded.push('0');
            proof {
                assert(padded@ =~= Seq::new((k + 1) as nat, |i: int| '0'));
            }
            k = k + 1;
        }
    }
    let mut k: usize = 0;
    let ghost base = padded@;
    while k < digits.len()
        invariant
            k <= digits@.len(),
            padded@ == base + digits@.take(k as int),
        decreases digits@.len() - k,
    {
        padded.push(digits[k]);
        proof {
            assert(digits@.take(k + 1) =~= digits@.take(k as int).push(digits@[k as int]));
        }
        k = k + 1;
    }
    assert(digits@.take(digits@.len() as int) =~= digits@);
    assert(padded@ =~= p);
    let split = padded.len() - (places as usize);
    let mut out = String::new();
    if n < 0 {
        string_push(&mut out, '-');
    }
    let head = crate::text::string_of(&padded, 0, split);
    out.append(head.as_str());
    string_push(&mut out, '.');
    let tail = crate::text::string_of(&padded, split, padded.len());
    out.append(tail.as_str());
    proof {
        assert(p.take(split as int) =~= padded@.subrange(0, split as int));
        assert(p.skip(split as int) =~= padded@.subrange(split as int, padded@.len() as int));
        assert(out@ =~= scaled_text(n as int, places as nat));
    }
    out
}

// ---------------------------------------------------------------------
// Round trip
// ---------------------------------------------------------------------

proof fn lemma_decimal_digits(m: nat)
    ensures
        all_ascii_digits(decimal(m)),
        digits_value(decimal(m)) == m,
        decimal(m).len() >= 1,
    decreases m,
{
    crate::text::lemma_decimal_nonempty(m);
    if m < 10 {
        let d = decimal(m);
        assert(d.drop_last() =~= Seq::<char>::empty());
        assert(crate::text::digit_char(m) as u32 == m + 48);
        assert(d.last() == crate::text::digit_char(m));
        assert(digits_value(d.drop_last()) == 0);
    } else {
        lemma_decimal_digits(m / 10);
        let d = decimal(m);
        let r = (m % 10) as nat;
        assert(d.drop_last() =~= decimal(m / 10));
        assert(crate::text::digit_char(r) as u32 == r + 48);
        assert(d.last() == crate::text::digit_char(r));
        assert(digits_value(d) == digits_value(decimal(m / 10)) * 10 + r);
        assert((m / 10) * 10 + r == m);
        assert forall|i: int| 0 <= i < d.len() implies is_ascii_digit(#[trigger] d[i]) by {
            if i < d.len() - 1 {
                assert(d[i] == decimal(m / 10)[i]);
            }
        }
    }
}

proof fn lemma_digits_value_zero_prefix(z: Seq<char>, s: Seq<char>)
    requires
        forall|i: int| 0 <= i < z.len() ==> #[trigger] z[i] == '0',
    ensures
        digits_value(z + s) == digits_value(s),
    decreases s.len(), z.len(),
{
    if s.len() > 0 {
        assert((z + s).drop_last() =~= z + s.drop_last());
        lemma_digits_value_zero_prefix(z, s.drop_last());
    } else if z.len() > 0 {
        assert(z + s =~= z);
        assert(z.drop_last() + s =~= z.drop_last());
        lemma_digits_value_zero_prefix(z.drop_last(), s);
    } else {
        assert(z + s =~= s);
    }
}

/// Rendering a scaled integer and parsing the text back at the same scale
/// gives the integer back. (The most negative 128-bit integer is the one
/// exception: its magnitude is past the parser's range.)
#[verifier::rlimit(60)]
pub proof fn lemma_format_then_parse(n: i128, places: u32)
    requires
        n > i128::MIN,
    ensures
        parse_scaled(scaled_text(n as int, places as nat), places as nat) == Some(n as int),
{
    let pl = places as nat;
    let m: nat = if n < 0 { (-n) as nat } else { n as nat };
    let d = decimal(m);
    lemma_decimal_digits(m);
    let p = padded_digits(n as int, pl);
    let zeros: Seq<char> = if d.len() <= pl {
        Seq::new((pl + 1 - d.len()) as nat, |i: int| '0')
    } else {
        Seq::empty()
    };
    assert(p =~= zeros + d);
    lemma_digits_value_zero_prefix(zeros, d);
    assert(all_ascii_digits(p)) by {
        assert forall|i: int| 0 <= i < p.len() implies is_ascii_digit(#[trigger] p[i]) by {
            if i >= zeros.len() {
                assert(p[i] == d[i - zeros.len()]);
            }
        }
    }
    let split = p.len() - pl;
    assert(split >= 1);
    let ip = p.take(split);
    let fp = p.skip(split);
    let body = ip + seq!['.'] + fp;
    let t = scaled_text(n as int, pl);
    let sgn: Seq<char> = if n < 0 { seq!['-'] } else { Seq::empty() };
    assert(t =~= sgn + body);
    // No white space at either end: the text is its own trim.
    assert(t.len() > 0);
    assert(!crate::text::is_white_space(t[0])) by {
        if n >= 0 {
            assert(t[0] == p[0]);
        }
    }
    assert(!crate::text::is_white_space(t.last())) by {
        if pl > 0 {
            assert(t.last() == p.last());
        } else {
            assert(t.last() == '.');
        }
    }
    assert(crate::text::leading_ws(t) == 0);
    assert(crate::text::trailing_ws(t.skip(0)) == 0) by {
        assert(t.skip(0) =~= t);
    }
    assert(trimmed(t) =~= t);
    // The sign.
    if n < 0 {
        assert(t.drop_first() =~= body);
    } else {
        assert(t =~= body);
        assert(body[0] == p[0]);
    }
    assert(sign_and_body(t).1 == body);
    // The first `.` is the one after the integer digits.
    lemma_first_index(body, '.');
    assert(body[split] == '.');
    match first_index(body, '.') {
        Some(k) => {
            if k < split {
                assert(body[k] == p[k]);
            }
            if k > split {
                assert(body[split] == '.');
            }
            assert(k == split);
        },
        None => {
            assert(false);
        },
    }
    assert(int_part(body) =~= ip);
    assert(frac_part(body) =~= fp);
    assert(frac_scaled(fp, pl) =~= fp);
    assert(ip + fp =~= p);
    assert(all_ascii_digits(ip)) by {
        assert forall|i: int| 0 <= i < ip.len() implies is_ascii_digit(#[trigger] ip[i]) by {
            assert(ip[i] == p[i]);
        }
    }
    assert(all_ascii_digits(fp)) by {
        assert forall|i: int| 0 <= i < fp.len() implies is_ascii_digit(#[trigger] fp[i]) by {
            assert(fp[i] == p[i + split]);
        }
    }
    assert(sign_and_body(t).0 == (if n < 0 { -1int } else { 1int }));
    assert(digits_value(ip + frac_scaled(fp, pl)) == m);
    assert(m <= i128::MAX);
    assert(sign_and_body(trimmed(t)) == sign_and_body(t));
}

} // verus!

verus! {

/// Integer division rounding toward zero, for a positive divisor.
pub open spec fn trunc_div(a: int, b: int) -> int {
    if a >= 0 {
        a / b
    } else {
        -((-a) / b)
    }
}

/// `a / b` on 128-bit integers (rounds toward zero).
pub fn div_toward_zero(a: i128, b: i128) -> (r: i128)
    requires
        b > 0,
    ensures
        r == trunc_div(a as int, b as int),
{
    a / b
}

} // verus!
