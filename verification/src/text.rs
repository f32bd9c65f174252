//! Text helpers: character access, decimal rendering and parsing, and the
//! character classes the wire formats are defined over.

use vstd::prelude::*;

verus! {

/// Appends one character to a string (`String::push`).
#[verifier::external_body]
pub(crate) fn string_push(s: &mut String, c: char)
    ensures
        final(s)@ == old(s)@.push(c),
{
    s.push(c);
}

/// What `format!("{:?}", s)` renders for a string slice: the text in
/// double quotes with Rust's debug escapes.
pub uninterp spec fn debug_quoted(text: Seq<char>) -> Seq<char>;

/// Debug rendering of a string slice (`<str as Debug>::fmt`).
#[verifier::external_body]
pub(crate) fn debug_quote(s: &str) -> (r: String)
    ensures
        r@ == debug_quoted(s@),
{
    format!("{:?}", s)
}

/// An owned copy of a string slice.
pub fn own(a: &str) -> (r: String)
    ensures
        r@ == a@,
{
    a.to_string()
}

/// Content equality of two string slices.
pub fn str_eq(a: &str, b: &str) -> (r: bool)
    ensures
        r == (a@ == b@),
{
    let x = a.to_owned();
    let y = b.to_owned();
    x == y
}

/// The characters of a string slice, in order.
pub fn chars_of(s: &str) -> (r: Vec<char>)
    ensures
        r@ == s@,
{
    let mut out: Vec<char> = Vec::new();
    for c in it: s.chars()
        invariant
            out@ == it.seq().take(it.index() as int),
            it.seq() == s@,
    {
        out.push(c);
    }
    out
}

/// A string made of the given characters.
pub fn string_of(cs: &Vec<char>, from: usize, to: usize) -> (r: String)
    requires
        from <= to <= cs@.len(),
    ensures
        r@ == cs@.subrange(from as int, to as int),
{
    let mut out = String::new();
    let mut i = from;
    while i < to
        invariant
            from <= i <= to <= cs@.len(),
            out@ == cs@.subrange(from as int, i as int),
        decreases to - i,
    {
        string_push(&mut out, cs[i]);
        i = i + 1;
    }
    out
}

/// Optional text taken by content.
pub open spec fn opt_view(o: Option<String>) -> Option<Seq<char>> {
    match o {
        Some(s) => Some(s@),
        None => None,
    }
}

// ---------------------------------------------------------------------
// Decimal rendering
// ---------------------------------------------------------------------

pub open spec fn digit_char(d: nat) -> char {
    ((d + 48) as u8) as char
}

/// Decimal digits of a natural number, most significant first, no sign.
pub open spec fn decimal(n: nat) -> Seq<char>
    decreases n,
{
    if n < 10 {
        seq![digit_char(n)]
    } else {
        decimal(n / 10).push(digit_char(n % 10))
    }
}

/// Decimal rendering of an integer, with a leading `-` when negative.
pub open spec fn int_decimal(i: int) -> Seq<char> {
    if i < 0 {
        seq!['-'] + decimal((-i) as nat)
    } else {
        decimal(i as nat)
    }
}

pub proof fn lemma_decimal_nonempty(n: nat)
    ensures
        decimal(n).len() >= 1,
    decreases n,
{
    if n >= 10 {
        lemma_decimal_nonempty(n / 10);
    }
}

/// Renders an unsigned integer in decimal.
pub fn u128_to_decimal(n: u128) -> (r: String)
    ensures
        r@ == decimal(n as nat),
    decreases n,
{
    if n < 10 {
        let mut s = String::new();
        string_push(&mut s, ((n as u8) + 48) as char);
        s
    } else {
        let mut s = u128_to_decimal(n / 10);
        string_push(&mut s, (((n % 10) as u8) + 48) as char);
        s
    }
}

/// Renders an index or count in decimal.
pub fn usize_to_decimal(n: usize) -> (r: String)
    ensures
        r@ == decimal(n as nat),
{
    u128_to_decimal(n as u128)
}

/// Renders a signed integer in decimal (`-` for negatives).
pub fn i128_to_decimal(n: i128) -> (r: String)
    ensures
        r@ == int_decimal(n as int),
{
    if n < 0 {
        let mag: u128 = ((-(n + 1)) as u128) + 1;
        let digits = u128_to_decimal(mag);
        let mut s = own("-");
        s.append(digits.as_str());
        proof {
            reveal_strlit("-");
            assert(s@ =~= seq!['-'] + decimal((-(n as int)) as nat));
        }
        s
    } else {
        u128_to_decimal(n as u128)
    }
}

// ---------------------------------------------------------------------
// Character classes
// ---------------------------------------------------------------------

pub open spec fn is_ascii_digit(c: char) -> bool {
    '0' <= c && c <= '9'
}

pub open spec fn all_ascii_digits(s: Seq<char>) -> bool {
    forall|i: int| 0 <= i < s.len() ==> is_ascii_digit(#[trigger] s[i])
}

/// `char::is_ascii_alphanumeric`.
pub open spec fn is_ascii_alphanumeric(c: char) -> bool {
    ||| ('0' <= c && c <= '9')
    ||| ('a' <= c && c <= 'z')
    ||| ('A' <= c && c <= 'Z')
}

/// `char::is_whitespace`: the Unicode `White_Space` property.
pub open spec fn is_white_space(c: char) -> bool {
    let u = c as u32;
    ||| (0x09 <= u && u <= 0x0d)
    ||| u == 0x20
    ||| u == 0x85
    ||| u == 0xa0
    ||| u == 0x1680
    ||| (0x2000 <= u && u <= 0x200a)
    ||| u == 0x2028
    ||| u == 0x2029
    ||| u == 0x202f
    ||| u == 0x205f
    ||| u == 0x3000
}

pub fn char_is_white_space(c: char) -> (r: bool)
    ensures
        r == is_white_space(c),
{
    let u = c as u32;
    (0x09 <= u && u <= 0x0d) || u == 0x20 || u == 0x85 || u == 0xa0 || u == 0x1680 || (0x2000
        <= u && u <= 0x200a) || u == 0x2028 || u == 0x2029 || u == 0x202f || u == 0x205f || u
        == 0x3000
}

/// Number of leading white-space characters.
pub open spec fn leading_ws(s: Seq<char>) -> nat
    decreases s.len(),
{
    if s.len() > 0 && is_white_space(s[0]) {
        1 + leading_ws(s.drop_first())
    } else {
        0
    }
}

/// Number of trailing white-space characters.
pub open spec fn trailing_ws(s: Seq<char>) -> nat
    decreases s.len(),
{
    if s.len() > 0 && is_white_space(s.last()) {
        1 + trailing_ws(s.drop_last())
    } else {
        0
    }
}

/// `str::trim`: leading and trailing white space removed.
pub open spec fn trimmed(s: Seq<char>) -> Seq<char> {
    let head = s.skip(leading_ws(s) as int);
    head.take(head.len() - trailing_ws(head))
}

pub proof fn lemma_leading_ws_bound(s: Seq<char>)
    ensures
        leading_ws(s) <= s.len(),
        forall|i: int| 0 <= i < leading_ws(s) ==> is_white_space(#[trigger] s[i]),
        leading_ws(s) < s.len() ==> !is_white_space(s[leading_ws(s) as int]),
    decreases s.len(),
{
    if s.len() > 0 && is_white_space(s[0]) {
        lemma_leading_ws_bound(s.drop_first());
        assert forall|i: int| 0 <= i < leading_ws(s) implies is_white_space(#[trigger] s[i]) by {
            if i > 0 {
                assert(s[i] == s.drop_first()[i - 1]);
            }
        }
        if leading_ws(s) < s.len() {
            assert(s[leading_ws(s) as int] == s.drop_first()[leading_ws(s.drop_first()) as int]);
        }
    }
}

pub proof fn lemma_trailing_ws_bound(s: Seq<char>)
    ensures
        trailing_ws(s) <= s.len(),
        forall|i: int| s.len() - trailing_ws(s) <= i < s.len() ==> is_white_space(#[trigger] s[i]),
        trailing_ws(s) < s.len() ==> !is_white_space(s[s.len() - trailing_ws(s) - 1]),
    decreases s.len(),
{
    if s.len() > 0 && is_white_space(s.last()) {
        lemma_trailing_ws_bound(s.drop_last());
        assert forall|i: int| s.len() - trailing_ws(s) <= i < s.len() implies is_white_space(
            #[trigger] s[i],
        ) by {
            if i < s.len() - 1 {
                assert(s[i] == s.drop_last()[i]);
            }
        }
        if trailing_ws(s) < s.len() {
            assert(s[s.len() - trailing_ws(s) - 1] == s.drop_last()[s.drop_last().len()
                - trailing_ws(s.drop_last()) - 1]);
        }
    }
}

/// `str::trim`, over characters.
pub fn trim_chars(cs: &Vec<char>) -> (r: (usize, usize))
    ensures
        r.0 <= r.1 <= cs@.len(),
        cs@.subrange(r.0 as int, r.1 as int) == trimmed(cs@),
{
    let n = cs.len();
    let mut start: usize = 0;
    proof {
        lemma_leading_ws_bound(cs@);
    }
    while start < n && char_is_white_space(cs[start])
        invariant
            n == cs@.len(),
            start <= leading_ws(cs@),
            leading_ws(cs@) <= n,
            forall|i: int| 0 <= i < leading_ws(cs@) ==> is_white_space(#[trigger] cs@[i]),
            leading_ws(cs@) < n ==> !is_white_space(cs@[leading_ws(cs@) as int]),
        decreases n - start,
    {
        start = start + 1;
    }
    assert(start == leading_ws(cs@));
    let ghost head = cs@.skip(start as int);
    let mut end: usize = n;
    proof {
        lemma_trailing_ws_bound(head);
    }
    while end > start && char_is_white_space(cs[end - 1])
        invariant
            n == cs@.len(),
            start <= end <= n,
            head == cs@.skip(start as int),
            n - end <= trailing_ws(head),
            trailing_ws(head) <= head.len(),
            forall|i: int|
                head.len() - trailing_ws(head) <= i < head.len() ==> is_white_space(
                    #[trigger] head[i],
                ),
            trailing_ws(head) < head.len() ==> !is_white_space(
                head[head.len() - trailing_ws(head) - 1],
            ),
        decreases end,
    {
        assert(cs@[end - 1] == head[end - 1 - start]);
        end = end - 1;
    }
    if end > start {
        assert(cs@[end - 1] == head[end - 1 - start]);
    }
    assert(n - end == trailing_ws(head));
    assert(cs@.subrange(start as int, end as int) =~= trimmed(cs@));
    (start, end)
}

// ---------------------------------------------------------------------
// Unsigned integer parsing (`u64::from_str`)
// ---------------------------------------------------------------------

/// Numeric value of a run of ASCII digits.
pub open spec fn digits_value(s: Seq<char>) -> nat
    decreases s.len(),
{
    if s.len() == 0 {
        0
    } else {
        digits_value(s.drop_last()) * 10 + ((s.last() as u32) - 48) as nat
    }
}

/// The digits of `u64::from_str`'s input: everything after an optional
/// leading `+`.
pub open spec fn u64_digits(s: Seq<char>) -> Seq<char> {
    if s.len() > 0 && s[0] == '+' {
        s.drop_first()
    } else {
        s
    }
}

/// `u64::from_str`: an optional `+`, then one or more ASCII digits whose
/// value fits in 64 bits.
pub open spec fn parse_u64_spec(s: Seq<char>) -> Option<u64> {
    let ds = u64_digits(s);
    if ds.len() > 0 && all_ascii_digits(ds) && digits_value(ds) <= u64::MAX {
        Some(digits_value(ds) as u64)
    } else {
        None
    }
}

/// Accumulates decimal digits `cs[from..to]`; `None` once the value passes
/// `limit`.
pub fn accumulate_digits(cs: &Vec<char>, from: usize, to: usize, limit: u128) -> (r: Option<u128>)
    requires
        from <= to <= cs@.len(),
        all_ascii_digits(cs@.subrange(from as int, to as int)),
        limit <= u128::MAX - 10,
    ensures
        match r {
            Some(v) => v as nat == digits_value(cs@.subrange(from as int, to as int)) && v
                <= limit,
            None => digits_value(cs@.subrange(from as int, to as int)) > limit,
        },
{
    let mut acc: u128 = 0;
    let mut i = from;
    while i < to
        invariant
            from <= i <= to <= cs@.len(),
            all_ascii_digits(cs@.subrange(from as int, to as int)),
            acc as nat == digits_value(cs@.subrange(from as int, i as int)),
            acc <= limit,
            limit <= u128::MAX - 10,
        decreases to - i,
    {
        let ghost sub = cs@.subrange(from as int, (i + 1) as int);
        assert(sub.drop_last() =~= cs@.subrange(from as int, i as int));
        assert(sub.last() == cs@[i as int]);
        assert(cs@[i as int] == cs@.subrange(from as int, to as int)[i - from]);
        let d = (cs[i] as u32 - 48) as u128;
        if acc > limit / 10 || acc * 10 + d > limit {
            proof {
                lemma_digits_value_monotone(cs@.subrange(from as int, to as int), (i + 1 - from) as nat);
                assert(cs@.subrange(from as int, to as int).take((i + 1 - from) as int) =~= sub);
            }
            return None;
        }
        acc = acc * 10 + d;
        i = i + 1;
    }
    Some(acc)
}

/// Prefix values of a digit run never exceed the whole run's value.
pub proof fn lemma_digits_value_monotone(s: Seq<char>, k: nat)
    requires
        k <= s.len(),
        all_ascii_digits(s),
    ensures
        digits_value(s.take(k as int)) <= digits_value(s),
    decreases s.len() - k,
{
    if k < s.len() {
        lemma_digits_value_monotone(s, k + 1);
        let t = s.take((k + 1) as int);
        assert(t.drop_last() =~= s.take(k as int));
        assert(is_ascii_digit(s[k as int]));
    } else {
        assert(s.take(k as int) =~= s);
    }
}

/// `u64::from_str` over the characters of a string.
pub fn parse_u64(s: &str) -> (r: Option<u64>)
    ensures
        r == parse_u64_spec(s@),
{
    let cs = chars_of(s);
    let n = cs.len();
    let start: usize = if n > 0 && cs[0] == '+' { 1 } else { 0 };
    let ghost ds = u64_digits(s@);
    assert(ds =~= cs@.subrange(start as int, n as int));
    if start >= n {
        return None;
    }
    let mut i = start;
    while i < n
        invariant
            start <= i <= n == cs@.len(),
            forall|j: int| start <= j < i ==> is_ascii_digit(#[trigger] cs@[j]),
            ds == cs@.subrange(start as int, n as int),
            ds == u64_digits(s@),
        decreases n - i,
    {
        if !('0' <= cs[i] && cs[i] <= '9') {
            assert(ds[i - start] == cs@[i as int]);
            assert(!is_ascii_digit(ds[i - start]));
            return None;
        }
        i = i + 1;
    }
    assert(all_ascii_digits(ds)) by {
        assert forall|j: int| 0 <= j < ds.len() implies is_ascii_digit(#[trigger] ds[j]) by {
            assert(ds[j] == cs@[j + start]);
        }
    }
    match accumulate_digits(&cs, start, n, u64::MAX as u128) {
        Some(v) => Some(v as u64),
        None => None,
    }
}

} // verus!

verus! {

/// `prefix{i}suffix`, e.g. `records[3].afterHash`.
pub fn indexed(prefix: &str, i: usize, suffix: &str) -> (r: String)
    ensures
        r@ == prefix@ + decimal(i as nat) + suffix@,
{
    let mut s = own(prefix);
    let d = usize_to_decimal(i);
    s.append(d.as_str());
    s.append(suffix);
    s
}

/// Text of an optional string, empty when absent (`unwrap_or("")`).
pub open spec fn or_empty(o: Option<String>) -> Seq<char> {
    match o {
        Some(s) => s@,
        None => Seq::empty(),
    }
}

/// `o.as_deref().unwrap_or("")`, owned.
pub fn text_or_empty(o: &Option<String>) -> (r: String)
    ensures
        r@ == or_empty(*o),
{
    match o {
        Some(s) => s.clone(),
        None => String::new(),
    }
}

} // verus!

verus! {

/// Number of bytes in the UTF-8 encoding of a character.
pub open spec fn utf8_width(c: char) -> nat {
    let u = c as u32;
    if u < 0x80 {
        1
    } else if u < 0x800 {
        2
    } else if u < 0x10000 {
        3
    } else {
        4
    }
}

/// The longest prefix of the text whose UTF-8 encoding fits in `budget`
/// bytes (the text cut at a character boundary).
pub open spec fn utf8_prefix(s: Seq<char>, budget: nat) -> Seq<char>
    decreases s.len(),
{
    if s.len() == 0 || utf8_width(s[0]) > budget {
        Seq::empty()
    } else {
        seq![s[0]] + utf8_prefix(s.drop_first(), (budget - utf8_width(s[0])) as nat)
    }
}

fn char_width(c: char) -> (r: usize)
    ensures
        r == utf8_width(c),
{
    let u = c as u32;
    if u < 0x80 {
        1
    } else if u < 0x800 {
        2
    } else if u < 0x10000 {
        3
    } else {
        4
    }
}

/// The text cut to at most 256 UTF-8 bytes, at a character boundary.
pub fn truncate_256(s: &str) -> (r: String)
    ensures
        r@ == utf8_prefix(s@, 256),
{
    let cs = chars_of(s);
    let mut out = String::new();
    let mut budget: usize = 256;
    let mut i: usize = 0;
    assert(cs@.skip(0) =~= s@);
    assert(out@ + utf8_prefix(cs@.skip(0), 256) =~= utf8_prefix(s@, 256));
    while i < cs.len() && char_width(cs[i]) <= budget
        invariant
            i <= cs@.len(),
            cs@ == s@,
            budget <= 256,
            out@ + utf8_prefix(cs@.skip(i as int), budget as nat) == utf8_prefix(s@, 256),
        decreases cs@.len() - i,
    {
        proof {
            let rest = cs@.skip(i as int);
            assert(rest[0] == cs@[i as int]);
            assert(rest.drop_first() =~= cs@.skip(i + 1));
        }
        let w = char_width(cs[i]);
        string_push(&mut out, cs[i]);
        budget = budget - w;
        proof {
            assert(out@ + utf8_prefix(cs@.skip(i + 1), budget as nat) =~= utf8_prefix(s@, 256));
        }
        i = i + 1;
    }
    proof {
        if i < cs@.len() {
            assert(cs@.skip(i as int)[0] == cs@[i as int]);
        }
        assert(utf8_prefix(cs@.skip(i as int), budget as nat) =~= Seq::<char>::empty());
    }
    assert(s@.skip(0) =~= s@);
    out
}

} // verus!
