//! Text helpers: every string is specified by the sequence of its characters.

use vstd::prelude::*;
use vstd::string::*;
use vstd::utf8::*;

verus! {

/// `String::push` appends one character.
pub assume_specification[ String::push ](text: &mut String, c: char)
    ensures
        final(text)@ == old(text)@.push(c),
;

/// The Unicode `White_Space` characters.
pub open spec fn is_white_space(c: char) -> bool {
    let n = c as u32;
    ||| 0x09 <= n <= 0x0d
    ||| n == 0x20
    ||| n == 0x85
    ||| n == 0xa0
    ||| n == 0x1680
    ||| 0x2000 <= n <= 0x200a
    ||| n == 0x2028
    ||| n == 0x2029
    ||| n == 0x202f
    ||| n == 0x205f
    ||| n == 0x3000
}

pub fn white_space(c: char) -> (r: bool)
    ensures
        r == is_white_space(c),
{
    let n: u32 = c as u32;
    (0x09 <= n && n <= 0x0d) || n == 0x20 || n == 0x85 || n == 0xa0 || n == 0x1680 || (0x2000 <= n
        && n <= 0x200a) || n == 0x2028 || n == 0x2029 || n == 0x202f || n == 0x205f || n == 0x3000
}

/// The Unicode control characters (category `Cc`).
pub open spec fn is_control(c: char) -> bool {
    let n = c as u32;
    n <= 0x1f || 0x7f <= n <= 0x9f
}

pub fn control(c: char) -> (r: bool)
    ensures
        r == is_control(c),
{
    let n: u32 = c as u32;
    n <= 0x1f || (0x7f <= n && n <= 0x9f)
}

pub open spec fn is_digit(c: char) -> bool {
    '0' <= c && c <= '9'
}

pub open spec fn is_alpha(c: char) -> bool {
    ('a' <= c && c <= 'z') || ('A' <= c && c <= 'Z')
}

pub fn digit(c: char) -> (r: bool)
    ensures
        r == is_digit(c),
{
    '0' <= c && c <= '9'
}

/// The characters of a string as a vector.
pub fn chars_of(s: &str) -> (r: Vec<char>)
    ensures
        r@ == s@,
{
    let mut out: Vec<char> = Vec::new();
    for c in iter: s.chars()
        invariant
            iter.seq() == s@,
            out@ == s@.take(iter.index()),
    {
        assert(s@.take(iter.index()).push(c) == s@.take(iter.index() + 1));
        out.push(c);
    }
    assert(s@.take(s@.len() as int) == s@);
    out
}

/// The string made of the given characters.
pub fn string_of(chars: &[char]) -> (r: String)
    ensures
        r@ == chars@,
{
    let mut out = String::new();
    let mut i: usize = 0;
    while i < chars.len()
        invariant
            i <= chars.len(),
            out@ == chars@.take(i as int),
        decreases chars.len() - i,
    {
        out.push(chars[i]);
        assert(chars@.take(i as int).push(chars@[i as int]) == chars@.take(i + 1));
        i = i + 1;
    }
    assert(chars@.take(chars@.len() as int) == chars@);
    out
}

/// Whether two strings hold the same characters.
pub fn same(a: &str, b: &str) -> (r: bool)
    ensures
        r == (a@ == b@),
{
    let x = a.as_bytes();
    let y = b.as_bytes();
    proof {
        encode_utf8_decode_utf8(a@);
        encode_utf8_decode_utf8(b@);
    }
    if x.len() != y.len() {
        return false;
    }
    let mut i: usize = 0;
    while i < x.len()
        invariant
            i <= x.len(),
            x.len() == y.len(),
            x@ == encode_utf8(a@),
            y@ == encode_utf8(b@),
            forall|j: int| 0 <= j < i ==> x@[j] == y@[j],
        decreases x.len() - i,
    {
        if x[i] != y[i] {
            return false;
        }
        i = i + 1;
    }
    assert(x@ =~= y@);
    true
}

/// The number of bytes of a string in UTF-8.
pub fn byte_len(s: &str) -> (r: usize)
    ensures
        r == encode_utf8(s@).len(),
{
    s.as_bytes().len()
}

/// The text that the `Debug` form of a string has: quoted, with escapes.
pub uninterp spec fn quoted(s: Seq<char>) -> Seq<char>;

/// `str` written with its `Debug` form.
#[verifier::external_body]
pub(crate) fn quote(s: &str) -> (r: String)
    ensures
        r@ == quoted(s@),
{
    format!("{s:?}")
}

pub fn concat2(a: &str, b: &str) -> (r: String)
    ensures
        r@ == a@ + b@,
{
    let mut out = a.to_owned();
    out.append(b);
    out
}

pub fn concat3(a: &str, b: &str, c: &str) -> (r: String)
    ensures
        r@ == a@ + b@ + c@,
{
    let mut out = a.to_owned();
    out.append(b);
    out.append(c);
    out
}

pub fn concat4(a: &str, b: &str, c: &str, d: &str) -> (r: String)
    ensures
        r@ == a@ + b@ + c@ + d@,
{
    let mut out = concat3(a, b, c);
    out.append(d);
    out
}

pub fn concat5(a: &str, b: &str, c: &str, d: &str, e: &str) -> (r: String)
    ensures
        r@ == a@ + b@ + c@ + d@ + e@,
{
    let mut out = concat4(a, b, c, d);
    out.append(e);
    out
}

/// The decimal digit `n`.
pub open spec fn digit_char(n: int) -> char {
    (48 + n) as char
}

/// The decimal form of a number, without leading zeros.
pub open spec fn decimal(n: nat) -> Seq<char>
    decreases n,
{
    if n < 10 {
        seq![digit_char(n as int)]
    } else {
        decimal(n / 10).push(digit_char((n % 10) as int))
    }
}

pub fn decimal_text(n: u64) -> (r: String)
    ensures
        r@ == decimal(n as nat),
    decreases n,
{
    if n < 10 {
        let mut out = String::new();
        out.push((48u8 + n as u8) as char);
        out
    } else {
        let mut out = decimal_text(n / 10);
        out.push((48u8 + (n % 10) as u8) as char);
        out
    }
}

/// The hexadecimal digit `n`, in lower case.
pub open spec fn hex_char(n: int) -> char {
    if n < 10 {
        (48 + n) as char
    } else {
        (87 + n) as char
    }
}

/// The hexadecimal form of a number, without leading zeros.
pub open spec fn hexadecimal(n: nat) -> Seq<char>
    decreases n,
{
    if n < 16 {
        seq![hex_char(n as int)]
    } else {
        hexadecimal(n / 16).push(hex_char((n % 16) as int))
    }
}

fn hex_digit(n: u64) -> (r: char)
    requires
        n < 16,
    ensures
        r == hex_char(n as int),
{
    if n < 10 {
        (48u8 + n as u8) as char
    } else {
        (87u8 + n as u8) as char
    }
}

pub fn hex_text(n: u64) -> (r: String)
    ensures
        r@ == hexadecimal(n as nat),
    decreases n,
{
    if n < 16 {
        let mut out = String::new();
        out.push(hex_digit(n));
        out
    } else {
        let mut out = hex_text(n / 16);
        out.push(hex_digit(n % 16));
        out
    }
}

/// The number that a run of decimal digits writes.
pub open spec fn digits_value(s: Seq<char>) -> nat
    decreases s.len(),
{
    if s.len() == 0 {
        0
    } else {
        digits_value(s.drop_last()) * 10 + (s.last() as nat - 48) as nat
    }
}

pub open spec fn all_digits(s: Seq<char>) -> bool {
    forall|i: int| 0 <= i < s.len() ==> is_digit(#[trigger] s[i])
}

/// An unsigned number as `str::parse` reads it: an optional `+`, then at least one digit.
pub open spec fn unsigned_value(s: Seq<char>) -> Option<nat> {
    let body = if s.len() > 0 && s[0] == '+' {
        s.drop_first()
    } else {
        s
    };
    if body.len() > 0 && all_digits(body) {
        Some(digits_value(body))
    } else {
        None
    }
}

pub proof fn lemma_digits_value_grows(s: Seq<char>, n: int)
    requires
        0 <= n <= s.len(),
        all_digits(s),
    ensures
        digits_value(s.take(n)) <= digits_value(s),
    decreases s.len(),
{
    if n < s.len() {
        lemma_digits_value_grows(s.drop_last(), n);
        assert(s.drop_last().take(n) == s.take(n));
    } else {
        assert(s.take(n) == s);
    }
}

/// Reads an unsigned number that is at most `limit`.
pub fn parse_unsigned(s: &str, limit: u64) -> (r: Option<u64>)
    ensures
        match r {
            Some(n) => unsigned_value(s@) == Some(n as nat) && n <= limit,
            None => match unsigned_value(s@) {
                Some(n) => n > limit,
                None => true,
            },
        },
{
    let all = chars_of(s);
    let start: usize = if all.len() > 0 && all[0] == '+' {
        1
    } else {
        0
    };
    let ghost body = if s@.len() > 0 && s@[0] == '+' {
        s@.drop_first()
    } else {
        s@
    };
    assert(body == all@.skip(start as int));
    if start == all.len() {
        return None;
    }
    let mut value: u64 = 0;
    let mut over = false;
    let mut i: usize = start;
    while i < all.len()
        invariant
            start <= i <= all.len(),
            start <= 1,
            body == all@.skip(start as int),
            all@ == s@,
            body == (if s@.len() > 0 && s@[0] == '+' {
                s@.drop_first()
            } else {
                s@
            }),
            forall|j: int| 0 <= j < i - start ==> is_digit(#[trigger] body[j]),
            !over ==> value == digits_value(body.take(i - start)) && value <= limit,
            over ==> digits_value(body.take(i - start)) > limit,
        decreases all.len() - i,
    {
        let c = all[i];
        assert(body[i - start] == c);
        if !digit(c) {
            assert(!all_digits(body));
            return None;
        }
        let ghost next = body.take(i - start + 1);
        assert(next.drop_last() == body.take(i - start));
        assert(next.last() == c);
        assert(digits_value(next) == digits_value(next.drop_last()) * 10 + (c as nat - 48) as nat);
        if !over {
            let d: u64 = (c as u32 - 48) as u64;
            if d > limit || value > limit / 10 || value * 10 > limit - d {
                over = true;
            } else {
                value = value * 10 + d;
            }
        }
        i = i + 1;
    }
    assert(body.take(all.len() - start) == body);
    assert(all_digits(body));
    if over {
        None
    } else {
        Some(value)
    }
}

proof fn lemma_decimal_digits(n: nat)
    ensures
        decimal(n).len() > 0,
        all_digits(decimal(n)),
        digits_value(decimal(n)) == n,
    decreases n,
{
    let s = decimal(n);
    if n < 10 {
        assert(s.drop_last() == Seq::<char>::empty());
        assert(s.last() == digit_char(n as int));
        assert(digits_value(s.drop_last()) == 0);
    } else {
        lemma_decimal_digits(n / 10);
        assert(s.drop_last() == decimal(n / 10));
    }
}

/// Reading the decimal form of a number gives the number back.
pub proof fn law_decimal_round_trip(n: nat)
    ensures
        unsigned_value(decimal(n)) == Some(n),
{
    lemma_decimal_digits(n);
    assert(is_digit(decimal(n)[0]));
}

/// A string without its leading white space.
pub open spec fn trimmed_start(s: Seq<char>) -> Seq<char>
    decreases s.len(),
{
    if s.len() > 0 && is_white_space(s[0]) {
        trimmed_start(s.drop_first())
    } else {
        s
    }
}

/// A string without its trailing white space.
pub open spec fn trimmed_end(s: Seq<char>) -> Seq<char>
    decreases s.len(),
{
    if s.len() > 0 && is_white_space(s.last()) {
        trimmed_end(s.drop_last())
    } else {
        s
    }
}

/// A string without the white space at both ends.
pub open spec fn trimmed(s: Seq<char>) -> Seq<char> {
    trimmed_end(trimmed_start(s))
}

/// A string without the run of `c` at its end.
pub open spec fn without_trailing(s: Seq<char>, c: char) -> Seq<char>
    decreases s.len(),
{
    if s.len() > 0 && s.last() == c {
        without_trailing(s.drop_last(), c)
    } else {
        s
    }
}

/// A string without the run of `c` at its start.
pub open spec fn without_leading(s: Seq<char>, c: char) -> Seq<char>
    decreases s.len(),
{
    if s.len() > 0 && s[0] == c {
        without_leading(s.drop_first(), c)
    } else {
        s
    }
}

pub fn trim_start<'a>(s: &'a str) -> (r: &'a str)
    ensures
        r@ == trimmed_start(s@),
{
    let all = chars_of(s);
    let mut i: usize = 0;
    assert(s@.skip(0) == s@);
    while i < all.len() && white_space(all[i])
        invariant
            i <= all.len(),
            all@ == s@,
            trimmed_start(s@.skip(i as int)) == trimmed_start(s@),
        decreases all.len() - i,
    {
        assert(s@.skip(i as int).drop_first() == s@.skip(i + 1));
        i = i + 1;
    }
    s.substring_char(i, all.len())
}

pub fn trim_end<'a>(s: &'a str) -> (r: &'a str)
    ensures
        r@ == trimmed_end(s@),
{
    let all = chars_of(s);
    let mut n: usize = all.len();
    assert(s@.take(n as int) == s@);
    while n > 0 && white_space(all[n - 1])
        invariant
            n <= all.len(),
            all@ == s@,
            trimmed_end(s@.take(n as int)) == trimmed_end(s@),
        decreases n,
    {
        assert(s@.take(n as int).drop_last() == s@.take(n - 1));
        n = n - 1;
    }
    s.substring_char(0, n)
}

/// `str::trim`.
pub fn trim<'a>(s: &'a str) -> (r: &'a str)
    ensures
        r@ == trimmed(s@),
{
    trim_end(trim_start(s))
}

pub fn drop_trailing<'a>(s: &'a str, c: char) -> (r: &'a str)
    ensures
        r@ == without_trailing(s@, c),
{
    let all = chars_of(s);
    let mut n: usize = all.len();
    assert(s@.take(n as int) == s@);
    while n > 0 && all[n - 1] == c
        invariant
            n <= all.len(),
            all@ == s@,
            without_trailing(s@.take(n as int), c) == without_trailing(s@, c),
        decreases n,
    {
        assert(s@.take(n as int).drop_last() == s@.take(n - 1));
        n = n - 1;
    }
    s.substring_char(0, n)
}

pub fn drop_leading<'a>(s: &'a str, c: char) -> (r: &'a str)
    ensures
        r@ == without_leading(s@, c),
{
    let all = chars_of(s);
    let mut i: usize = 0;
    assert(s@.skip(0) == s@);
    while i < all.len() && all[i] == c
        invariant
            i <= all.len(),
            all@ == s@,
            without_leading(s@.skip(i as int), c) == without_leading(s@, c),
        decreases all.len() - i,
    {
        assert(s@.skip(i as int).drop_first() == s@.skip(i + 1));
        i = i + 1;
    }
    s.substring_char(i, all.len())
}

/// Trimming cuts white space off at both ends and nothing else: what is left is a stretch of the
/// text, and all before and behind it is white space.
pub proof fn law_trimming_cuts_white_space(s: Seq<char>)
    ensures
        exists|a: int, b: int|
            0 <= a <= b <= s.len() && #[trigger] s.subrange(a, b) == trimmed(s) && (forall|i: int|
                0 <= i < a || b <= i < s.len() ==> is_white_space(#[trigger] s[i])),
{
    let (a, _) = lemma_cut_at_start(s);
    let front = trimmed_start(s);
    let b = lemma_cut_at_end(front);
    assert(s.subrange(a, a + b) =~= trimmed(s));
    assert forall|i: int| 0 <= i < a || a + b <= i < s.len() implies is_white_space(
        #[trigger] s[i],
    ) by {
        if i >= a + b {
            assert(front[i - a] == s[i]);
        }
    }
}

proof fn lemma_cut_at_start(s: Seq<char>) -> (r: (int, int))
    ensures
        0 <= r.0 <= s.len(),
        trimmed_start(s) == s.skip(r.0),
        forall|i: int| 0 <= i < r.0 ==> is_white_space(#[trigger] s[i]),
    decreases s.len(),
{
    if s.len() > 0 && is_white_space(s[0]) {
        let (n, m) = lemma_cut_at_start(s.drop_first());
        assert(s.drop_first().skip(n) =~= s.skip(n + 1));
        assert forall|i: int| 0 <= i < n + 1 implies is_white_space(#[trigger] s[i]) by {
            if i > 0 {
                assert(s.drop_first()[i - 1] == s[i]);
            }
        }
        (n + 1, m)
    } else {
        assert(s.skip(0) =~= s);
        (0, 0)
    }
}

proof fn lemma_cut_at_end(s: Seq<char>) -> (r: int)
    ensures
        0 <= r <= s.len(),
        trimmed_end(s) == s.take(r),
        forall|i: int| r <= i < s.len() ==> is_white_space(#[trigger] s[i]),
    decreases s.len(),
{
    if s.len() > 0 && is_white_space(s.last()) {
        let n = lemma_cut_at_end(s.drop_last());
        assert(s.drop_last().take(n) =~= s.take(n));
        assert forall|i: int| n <= i < s.len() implies is_white_space(#[trigger] s[i]) by {
            if i < s.len() - 1 {
                assert(s.drop_last()[i] == s[i]);
            }
        }
        n
    } else {
        assert(s.take(s.len() as int) =~= s);
        s.len() as int
    }
}

/// Trimming leaves no white space at either end.
pub proof fn law_trimmed_ends(s: Seq<char>)
    ensures
        trimmed(s).len() > 0 ==> !is_white_space(trimmed(s)[0]) && !is_white_space(
            trimmed(s).last(),
        ),
        trimmed(trimmed(s)) == trimmed(s),
{
    lemma_trimmed_start(s);
    lemma_trimmed_end(trimmed_start(s));
}

proof fn lemma_trimmed_start(s: Seq<char>)
    ensures
        trimmed_start(s).len() > 0 ==> !is_white_space(trimmed_start(s)[0]),
        trimmed_start(s).len() <= s.len(),
    decreases s.len(),
{
    if s.len() > 0 && is_white_space(s[0]) {
        lemma_trimmed_start(s.drop_first());
    }
}

proof fn lemma_trimmed_end(s: Seq<char>)
    ensures
        trimmed_end(s).len() > 0 ==> !is_white_space(trimmed_end(s).last()) && trimmed_end(s)[0]
            == s[0],
        trimmed_end(s).len() <= s.len(),
    decreases s.len(),
{
    if s.len() > 0 && is_white_space(s.last()) {
        lemma_trimmed_end(s.drop_last());
    }
}

/// Whether the slice holds `needle` at position `at`.
fn matches_at(all: &[char], at: usize, needle: &[char]) -> (r: bool)
    requires
        at + needle.len() <= all.len(),
    ensures
        r == (all@.subrange(at as int, at + needle.len()) == needle@),
{
    let mut i: usize = 0;
    while i < needle.len()
        invariant
            at + needle.len() <= all.len(),
            i <= needle.len(),
            forall|j: int| 0 <= j < i ==> all@[at + j] == needle@[j],
        decreases needle.len() - i,
    {
        if all[at + i] != needle[i] {
            assert(all@.subrange(at as int, at + needle.len())[i as int] != needle@[i as int]);
            return false;
        }
        i = i + 1;
    }
    assert(all@.subrange(at as int, at + needle.len()) =~= needle@);
    true
}

/// `str::starts_with`.
pub fn has_prefix(s: &str, prefix: &str) -> (r: bool)
    ensures
        r == prefix@.is_prefix_of(s@),
{
    let all = chars_of(s);
    let head = chars_of(prefix);
    if head.len() > all.len() {
        return false;
    }
    matches_at(all.as_slice(), 0, head.as_slice())
}

/// `str::ends_with`.
pub fn has_suffix(s: &str, suffix: &str) -> (r: bool)
    ensures
        r == suffix@.is_suffix_of(s@),
{
    let all = chars_of(s);
    let tail = chars_of(suffix);
    if tail.len() > all.len() {
        return false;
    }
    matches_at(all.as_slice(), all.len() - tail.len(), tail.as_slice())
}

/// Whether `needle` stands at position `at` of `s`.
pub open spec fn occurs_at(s: Seq<char>, needle: Seq<char>, at: int) -> bool {
    0 <= at && at + needle.len() <= s.len() && s.subrange(at, at + needle.len()) == needle
}

pub open spec fn occurs(s: Seq<char>, needle: Seq<char>) -> bool {
    exists|at: int| occurs_at(s, needle, at)
}

/// `str::contains` for a string.
pub fn contains_text(s: &str, needle: &str) -> (r: bool)
    ensures
        r == occurs(s@, needle@),
{
    let all = chars_of(s);
    let part = chars_of(needle);
    if part.len() > all.len() {
        return false;
    }
    let mut at: usize = 0;
    let last: usize = all.len() - part.len();
    loop
        invariant
            all@ == s@,
            part@ == needle@,
            last + part.len() == all.len(),
            at <= last,
            forall|k: int| 0 <= k < at ==> !occurs_at(s@, needle@, k),
        decreases last - at,
    {
        if matches_at(all.as_slice(), at, part.as_slice()) {
            assert(occurs_at(s@, needle@, at as int));
            return true;
        }
        assert(!occurs_at(s@, needle@, at as int));
        if at == last {
            assert forall|k: int| !occurs_at(s@, needle@, k) by {
                if 0 <= k && k + needle@.len() <= s@.len() {
                    assert(k <= at);
                }
            }
            return false;
        }
        at = at + 1;
    }
}

/// `str::contains` for a character.
pub fn contains_char(s: &str, c: char) -> (r: bool)
    ensures
        r == s@.contains(c),
{
    let all = chars_of(s);
    let mut i: usize = 0;
    while i < all.len()
        invariant
            i <= all.len(),
            all@ == s@,
            forall|j: int| 0 <= j < i ==> all@[j] != c,
        decreases all.len() - i,
    {
        if all[i] == c {
            return true;
        }
        i = i + 1;
    }
    false
}

/// The position of the first `c`, or the length where there is none.
pub open spec fn first_at(s: Seq<char>, c: char) -> nat
    decreases s.len(),
{
    if s.len() == 0 || s[0] == c {
        0
    } else {
        1 + first_at(s.drop_first(), c)
    }
}

/// The position just behind the last `c`, or 0 where there is none.
pub open spec fn behind_last(s: Seq<char>, c: char) -> nat
    decreases s.len(),
{
    if s.len() == 0 || s.last() == c {
        s.len()
    } else {
        behind_last(s.drop_last(), c)
    }
}

pub proof fn lemma_first_at(s: Seq<char>, c: char, at: int)
    requires
        0 <= at <= s.len(),
        forall|j: int| 0 <= j < at ==> s[j] != c,
        at < s.len() ==> s[at] == c,
    ensures
        first_at(s, c) == at,
    decreases s.len(),
{
    if at > 0 {
        let rest = s.drop_first();
        assert forall|j: int| 0 <= j < at - 1 implies rest[j] != c by {
            assert(rest[j] == s[j + 1]);
        }
        lemma_first_at(rest, c, at - 1);
    }
}

pub proof fn lemma_behind_last(s: Seq<char>, c: char, at: int)
    requires
        0 <= at <= s.len(),
        forall|j: int| at <= j < s.len() ==> s[j] != c,
        at > 0 ==> s[at - 1] == c,
    ensures
        behind_last(s, c) == at,
    decreases s.len(),
{
    if at < s.len() {
        lemma_behind_last(s.drop_last(), c, at);
    }
}

pub proof fn lemma_behind_last_bound(s: Seq<char>, c: char)
    ensures
        behind_last(s, c) <= s.len(),
    decreases s.len(),
{
    if s.len() > 0 {
        lemma_behind_last_bound(s.drop_last(), c);
    }
}

/// The position of the first `c`.
pub fn find_char(s: &str, c: char) -> (r: Option<usize>)
    ensures
        match r {
            Some(i) => i == first_at(s@, c) && i < s@.len() && s@[i as int] == c,
            None => first_at(s@, c) == s@.len() && !s@.contains(c),
        },
{
    let all = chars_of(s);
    let mut i: usize = 0;
    while i < all.len()
        invariant
            i <= all.len(),
            all@ == s@,
            forall|j: int| 0 <= j < i ==> s@[j] != c,
        decreases all.len() - i,
    {
        if all[i] == c {
            proof {
                lemma_first_at(s@, c, i as int);
            }
            return Some(i);
        }
        i = i + 1;
    }
    proof {
        lemma_first_at(s@, c, i as int);
    }
    None
}

/// The position just behind the last `c`, or 0 where there is none.
pub fn find_behind_last(s: &str, c: char) -> (r: usize)
    ensures
        r == behind_last(s@, c),
        r <= s@.len(),
        r > 0 ==> s@[r - 1] == c,
        forall|j: int| r <= j < s@.len() ==> s@[j] != c,
{
    let all = chars_of(s);
    let mut n: usize = all.len();
    while n > 0 && all[n - 1] != c
        invariant
            n <= all.len(),
            all@ == s@,
            forall|j: int| n <= j < s@.len() ==> s@[j] != c,
        decreases n,
    {
        n = n - 1;
    }
    proof {
        lemma_behind_last(s@, c, n as int);
    }
    n
}

/// Whether some character is below `bound`.
pub open spec fn has_below(s: Seq<char>, bound: u32) -> bool {
    exists|i: int| 0 <= i < s.len() && (#[trigger] s[i] as u32) < bound
}

pub fn contains_below(s: &str, bound: u32) -> (r: bool)
    ensures
        r == has_below(s@, bound),
{
    let all = chars_of(s);
    let mut i: usize = 0;
    while i < all.len()
        invariant
            i <= all.len(),
            all@ == s@,
            forall|j: int| 0 <= j < i ==> (#[trigger] s@[j] as u32) >= bound,
        decreases all.len() - i,
    {
        if (all[i] as u32) < bound {
            assert((s@[i as int] as u32) < bound);
            return true;
        }
        assert((s@[i as int] as u32) >= bound);
        i = i + 1;
    }
    false
}

/// The views of a list of strings.
pub open spec fn texts(list: Seq<String>) -> Seq<Seq<char>> {
    Seq::new(list.len(), |i: int| list[i]@)
}

/// The pieces of `s` between the occurrences of `sep`.
pub open spec fn pieces(s: Seq<char>, sep: char) -> Seq<Seq<char>>
    decreases s.len(),
{
    if s.len() == 0 {
        seq![Seq::<char>::empty()]
    } else {
        let front = pieces(s.drop_last(), sep);
        if s.last() == sep {
            front.push(Seq::<char>::empty())
        } else {
            front.drop_last().push(front.last().push(s.last()))
        }
    }
}

pub proof fn lemma_pieces_nonempty(s: Seq<char>, sep: char)
    ensures
        pieces(s, sep).len() > 0,
    decreases s.len(),
{
    if s.len() > 0 {
        lemma_pieces_nonempty(s.drop_last(), sep);
    }
}

/// `str::split` at a character.
pub fn split_on(s: &str, sep: char) -> (r: Vec<String>)
    ensures
        texts(r@) == pieces(s@, sep),
{
    let all = chars_of(s);
    let mut done: Vec<String> = Vec::new();
    let mut current = String::new();
    let mut i: usize = 0;
    assert(texts(done@).push(current@) == seq![Seq::<char>::empty()]);
    assert(s@.take(0) == Seq::<char>::empty());
    while i < all.len()
        invariant
            i <= all.len(),
            all@ == s@,
            texts(done@).push(current@) == pieces(s@.take(i as int), sep),
        decreases all.len() - i,
    {
        let c = all[i];
        let ghost head = s@.take(i + 1);
        let ghost front = pieces(head.drop_last(), sep);
        assert(head.drop_last() == s@.take(i as int));
        assert(head.last() == c);
        assert(front.last() == current@);
        assert(front.drop_last() == texts(done@));
        if c == sep {
            let ghost old_done = done@;
            let ghost piece = current@;
            done.push(current);
            assert(texts(done@) == texts(old_done).push(piece));
            current = String::new();
        } else {
            current.push(c);
        }
        assert(texts(done@).push(current@) == pieces(head, sep));
        i = i + 1;
    }
    assert(s@.take(all.len() as int) == s@);
    let ghost old_done = done@;
    let ghost piece = current@;
    done.push(current);
    assert(texts(done@) == texts(old_done).push(piece));
    done
}

/// The words of a string up to its last white space, and the word that follows it.
pub open spec fn word_split(s: Seq<char>) -> (Seq<Seq<char>>, Seq<char>)
    decreases s.len(),
{
    if s.len() == 0 {
        (Seq::empty(), Seq::empty())
    } else {
        let (done, current) = word_split(s.drop_last());
        if !is_white_space(s.last()) {
            (done, current.push(s.last()))
        } else if current.len() > 0 {
            (done.push(current), Seq::empty())
        } else {
            (done, current)
        }
    }
}

/// The runs of characters between white space.
pub open spec fn words(s: Seq<char>) -> Seq<Seq<char>> {
    let (done, current) = word_split(s);
    if current.len() > 0 {
        done.push(current)
    } else {
        done
    }
}

/// `str::split_whitespace`.
pub fn split_words(s: &str) -> (r: Vec<String>)
    ensures
        texts(r@) == words(s@),
{
    let all = chars_of(s);
    let mut done: Vec<String> = Vec::new();
    let mut current: Vec<char> = Vec::new();
    let mut i: usize = 0;
    assert(s@.take(0) == Seq::<char>::empty());
    assert(texts(done@) == Seq::<Seq<char>>::empty());
    while i < all.len()
        invariant
            i <= all.len(),
            all@ == s@,
            (texts(done@), current@) == word_split(s@.take(i as int)),
        decreases all.len() - i,
    {
        let c = all[i];
        let ghost head = s@.take(i + 1);
        assert(head.drop_last() == s@.take(i as int));
        assert(head.last() == c);
        if !white_space(c) {
            current.push(c);
        } else if current.len() > 0 {
            let ghost before = done@;
            let word = string_of(current.as_slice());
            let ghost piece = word@;
            done.push(word);
            assert(texts(done@) == texts(before).push(piece));
            current = Vec::new();
        }
        i = i + 1;
    }
    assert(s@.take(all.len() as int) == s@);
    if current.len() > 0 {
        let ghost before = done@;
        let word = string_of(current.as_slice());
        let ghost piece = word@;
        done.push(word);
        assert(texts(done@) == texts(before).push(piece));
    }
    done
}

/// The parts one after the other, with `sep` between them.
pub open spec fn joined(parts: Seq<Seq<char>>, sep: Seq<char>) -> Seq<char>
    decreases parts.len(),
{
    if parts.len() == 0 {
        Seq::empty()
    } else if parts.len() == 1 {
        parts[0]
    } else {
        joined(parts.drop_last(), sep) + sep + parts.last()
    }
}

/// `[String]::join`.
pub fn join(parts: &[String], sep: &str) -> (r: String)
    ensures
        r@ == joined(texts(parts@), sep@),
{
    let mut out = String::new();
    let mut i: usize = 0;
    while i < parts.len()
        invariant
            i <= parts.len(),
            out@ == joined(texts(parts@).take(i as int), sep@),
        decreases parts.len() - i,
    {
        if i > 0 {
            out.append(sep);
        }
        out.append(parts[i].as_str());
        proof {
            let head = texts(parts@).take(i + 1);
            assert(head.drop_last() == texts(parts@).take(i as int));
            assert(head.last() == parts@[i as int]@);
            if i == 0 {
                assert(Seq::<char>::empty() + parts@[0]@ == parts@[0]@);
            }
        }
        i = i + 1;
    }
    assert(texts(parts@).take(parts@.len() as int) == texts(parts@));
    out
}

/// Splitting and joining with the same separator gives the string back.
pub proof fn law_split_join(s: Seq<char>, sep: char)
    ensures
        joined(pieces(s, sep), seq![sep]) == s,
    decreases s.len(),
{
    if s.len() > 0 {
        let front = pieces(s.drop_last(), sep);
        lemma_pieces_nonempty(s.drop_last(), sep);
        law_split_join(s.drop_last(), sep);
        let all = pieces(s, sep);
        if s.last() == sep {
            assert(all.drop_last() == front);
            assert(joined(all, seq![sep]) == s.drop_last() + seq![sep] + Seq::<char>::empty());
            assert(s.drop_last() + seq![sep] + Seq::<char>::empty() == s);
        } else {
            assert(all.drop_last() == front.drop_last());
            if front.len() == 1 {
                assert(front[0] == s.drop_last());
            }
            assert(s.drop_last().push(s.last()) == s);
            assert(joined(all, seq![sep]) == joined(front, seq![sep]).push(s.last()));
        }
    }
}

/// The text in lower case, by the tables of Unicode.
pub uninterp spec fn lowercased(text: Seq<char>) -> Seq<char>;

/// `str::to_lowercase`: the result depends on nothing but the text.
#[verifier::external_body]
pub(crate) fn lower(text: &str) -> (r: String)
    ensures
        r@ == lowercased(text@),
{
    text.to_lowercase()
}

pub open spec fn lower_ascii_char(c: char) -> char {
    if 'A' <= c && c <= 'Z' {
        (c as u32 + 32) as char
    } else {
        c
    }
}

/// The string with its ASCII capitals made small.
pub open spec fn lower_ascii(s: Seq<char>) -> Seq<char> {
    Seq::new(s.len(), |i: int| lower_ascii_char(s[i]))
}

/// `str::to_ascii_lowercase`.
pub fn to_lower_ascii(s: &str) -> (r: String)
    ensures
        r@ == lower_ascii(s@),
{
    let all = chars_of(s);
    let mut out = String::new();
    let mut i: usize = 0;
    while i < all.len()
        invariant
            i <= all.len(),
            all@ == s@,
            out@ == lower_ascii(s@.take(i as int)),
        decreases all.len() - i,
    {
        let c = all[i];
        let low = if 'A' <= c && c <= 'Z' {
            (c as u8 + 32u8) as char
        } else {
            c
        };
        out.push(low);
        assert(lower_ascii(s@.take(i as int)).push(low) == lower_ascii(s@.take(i + 1)));
        i = i + 1;
    }
    assert(s@.take(all.len() as int) == s@);
    out
}

/// The string with every `c` written as `with`.
pub open spec fn replaced(s: Seq<char>, c: char, with: Seq<char>) -> Seq<char>
    decreases s.len(),
{
    if s.len() == 0 {
        Seq::empty()
    } else {
        replaced(s.drop_last(), c, with) + (if s.last() == c {
            with
        } else {
            seq![s.last()]
        })
    }
}

/// `str::replace` of a character.
pub fn replace_char(s: &str, c: char, with: &str) -> (r: String)
    ensures
        r@ == replaced(s@, c, with@),
{
    let total: usize = s.unicode_len();
    let mut out = String::new();
    let mut i: usize = 0;
    assert(s@.take(0) =~= Seq::empty());
    while i < total
        invariant
            i <= total == s@.len(),
            out@ == replaced(s@.take(i as int), c, with@),
        decreases total - i,
    {
        let next = s.get_char(i);
        assert(s@.take(i + 1).drop_last() =~= s@.take(i as int));
        if next == c {
            out.append(with);
        } else {
            out.push(next);
            assert(out@ =~= replaced(s@.take(i as int), c, with@) + seq![next]);
        }
        i = i + 1;
    }
    assert(s@.take(total as int) =~= s@);
    out
}

/// A copy of a list of strings.
pub fn copy_texts(list: &[String]) -> (r: Vec<String>)
    ensures
        texts(r@) == texts(list@),
{
    let mut out: Vec<String> = Vec::new();
    let mut i: usize = 0;
    while i < list.len()
        invariant
            i <= list.len(),
            out@.len() == i,
            forall|k: int| 0 <= k < i ==> (#[trigger] out@[k])@ == list@[k]@,
        decreases list.len() - i,
    {
        out.push(list[i].clone());
        i = i + 1;
    }
    assert(texts(out@) =~= texts(list@));
    out
}

/// Each digit counts ten times what the digit behind it counts: the last digit of a number is
/// what is left over tens, and the digits before it are those of the tens.
pub proof fn law_decimal_digits_count_tens(n: nat)
    ensures
        decimal(n).len() >= 1,
        decimal(n).last() as int == 48 + n % 10,
        n < 10 ==> decimal(n).len() == 1,
        n >= 10 ==> decimal(n).drop_last() == decimal(n / 10),
{
    assert(n >= 10 ==> decimal(n).drop_last() =~= decimal(n / 10));
}

/// The same with sixteen for ten; the digits above nine are the letters from `a` on.
pub proof fn law_hexadecimal_digits_count_sixteens(n: nat)
    ensures
        hexadecimal(n).len() >= 1,
        n % 16 < 10 ==> hexadecimal(n).last() as int == 48 + n % 16,
        n % 16 >= 10 ==> hexadecimal(n).last() as int == 97 + n % 16 - 10,
        n < 16 ==> hexadecimal(n).len() == 1,
        n >= 16 ==> hexadecimal(n).drop_last() == hexadecimal(n / 16),
{
    assert(n >= 16 ==> hexadecimal(n).drop_last() =~= hexadecimal(n / 16));
}

/// Of the ASCII characters the white space is the space, the tab and the ends of lines and
/// pages; letters and digits of any kind below 128 are told by their place in the table.
pub proof fn law_ascii_classes(c: char)
    requires
        (c as u32) < 128,
    ensures
        is_white_space(c) == (c == ' ' || c == '\t' || c == '\n' || c == '\r' || c as u32 == 11
            || c as u32 == 12),
        is_control(c) == ((c as u32) < 32 || c as u32 == 127),
        is_digit(c) == (48 <= c as u32 <= 57),
        is_alpha(c) == (65 <= c as u32 <= 90 || 97 <= c as u32 <= 122),
        is_control(c) ==> !is_digit(c) && !is_alpha(c),
{
}

/// No piece between two separators has a separator in it.
pub proof fn law_pieces_have_no_separator(s: Seq<char>, sep: char)
    ensures
        forall|k: int| 0 <= k < pieces(s, sep).len() ==> !(#[trigger] pieces(s, sep)[k]).contains(
            sep,
        ),
    decreases s.len(),
{
    lemma_pieces_nonempty(s, sep);
    if s.len() > 0 {
        let front = pieces(s.drop_last(), sep);
        lemma_pieces_nonempty(s.drop_last(), sep);
        law_pieces_have_no_separator(s.drop_last(), sep);
        assert forall|k: int| 0 <= k < pieces(s, sep).len() implies !(#[trigger] pieces(
            s,
            sep,
        )[k]).contains(sep) by {
            if k < front.len() - 1 || (k < front.len() && s.last() == sep) {
                assert(pieces(s, sep)[k] == front[k]);
            } else if s.last() != sep {
                let piece = front.last().push(s.last());
                assert(pieces(s, sep)[k] == piece);
                assert(!front[front.len() - 1].contains(sep));
                assert forall|j: int| 0 <= j < piece.len() implies piece[j] != sep by {
                    if j < front.last().len() {
                        assert(piece[j] == front.last()[j]);
                        assert(front.last().contains(front.last()[j]));
                    }
                }
            }
        }
    }
}

/// Two strings with a separator between them have the pieces of the first, then those of the
/// second.
pub proof fn law_pieces_of_joined_strings(a: Seq<char>, sep: char, b: Seq<char>)
    ensures
        pieces(a.push(sep) + b, sep) == pieces(a, sep) + pieces(b, sep),
    decreases b.len(),
{
    let all = a.push(sep) + b;
    if b.len() == 0 {
        assert(all =~= a.push(sep));
        assert(a.push(sep).drop_last() =~= a);
        assert(pieces(all, sep) =~= pieces(a, sep) + pieces(b, sep));
    } else {
        law_pieces_of_joined_strings(a, sep, b.drop_last());
        lemma_pieces_nonempty(b.drop_last(), sep);
        assert(all.drop_last() =~= a.push(sep) + b.drop_last());
        assert(all.last() == b.last());
        let front = pieces(a, sep) + pieces(b.drop_last(), sep);
        assert(front.last() == pieces(b.drop_last(), sep).last());
        assert(pieces(all, sep) =~= pieces(a, sep) + pieces(b, sep));
    }
}

/// Words are runs without white space: two strings with white space between them have the words
/// of the first, then those of the second.
pub proof fn law_words_end_at_white_space(a: Seq<char>, space: char, b: Seq<char>)
    requires
        is_white_space(space),
    ensures
        words(a.push(space) + b) == words(a) + words(b),
        word_split(a.push(space) + b).0 == words(a) + word_split(b).0,
        word_split(a.push(space) + b).1 == word_split(b).1,
    decreases b.len(),
{
    let all = a.push(space) + b;
    if b.len() == 0 {
        assert(all =~= a.push(space));
        assert(a.push(space).drop_last() =~= a);
        assert(word_split(all).0 =~= words(a) + word_split(b).0);
        assert(words(all) =~= words(a) + words(b));
    } else {
        law_words_end_at_white_space(a, space, b.drop_last());
        assert(all.drop_last() =~= a.push(space) + b.drop_last());
        assert(all.last() == b.last());
        assert(word_split(all).0 =~= words(a) + word_split(b).0);
        assert(words(all) =~= words(a) + words(b));
    }
}

/// A run without white space is one word.
pub proof fn law_a_run_is_a_word(s: Seq<char>)
    requires
        s.len() > 0,
        forall|i: int| 0 <= i < s.len() ==> !is_white_space(#[trigger] s[i]),
    ensures
        words(s) == seq![s],
{
    lemma_run_is_kept(s);
    assert(words(s) =~= seq![s]);
}

proof fn lemma_run_is_kept(s: Seq<char>)
    requires
        forall|i: int| 0 <= i < s.len() ==> !is_white_space(#[trigger] s[i]),
    ensures
        word_split(s).0.len() == 0,
        word_split(s).1 == s,
    decreases s.len(),
{
    if s.len() > 0 {
        lemma_run_is_kept(s.drop_last());
        assert(!is_white_space(s[s.len() - 1]));
        assert(s.drop_last().push(s.last()) =~= s);
    }
}

/// Replacing goes through a string piece by piece; one character is replaced where it is the one
/// looked for, and kept where it is not.
pub proof fn law_replacing_goes_piece_by_piece(a: Seq<char>, b: Seq<char>, c: char, with: Seq<char>)
    ensures
        replaced(a + b, c, with) == replaced(a, c, with) + replaced(b, c, with),
        b.len() == 1 ==> replaced(b, c, with) == (if b[0] == c {
            with
        } else {
            b
        }),
    decreases b.len(),
{
    if b.len() == 0 {
        assert(a + b =~= a);
        assert(replaced(a, c, with) + replaced(b, c, with) =~= replaced(a, c, with));
    } else {
        law_replacing_goes_piece_by_piece(a, b.drop_last(), c, with);
        assert((a + b).drop_last() =~= a + b.drop_last());
        assert((a + b).last() == b.last());
        assert(replaced(a + b, c, with) =~= replaced(a, c, with) + replaced(b, c, with));
        if b.len() == 1 {
            assert(b.drop_last() =~= Seq::<char>::empty());
            assert(replaced(b.drop_last(), c, with) =~= Seq::<char>::empty());
            assert(replaced(b, c, with) =~= if b[0] == c {
                with
            } else {
                b
            });
        }
    }
}

/// Capitals become the letters 32 places on; nothing else changes.
pub proof fn law_lower_ascii_changes_capitals_only(s: Seq<char>)
    ensures
        lower_ascii(s).len() == s.len(),
        forall|i: int|
            0 <= i < s.len() ==> (#[trigger] lower_ascii(s)[i]) as int == s[i] as int + (if 65
                <= s[i] as u32 <= 90 {
                32int
            } else {
                0
            }),
{
}

/// What `first_at` and `behind_last` point at: nothing before the first place is the character,
/// nothing from the last place on is, and a place that is inside the string has it.
pub proof fn law_places_of_a_character(s: Seq<char>, c: char)
    ensures
        first_at(s, c) <= s.len(),
        first_at(s, c) < s.len() ==> s[first_at(s, c) as int] == c,
        forall|j: int| 0 <= j < first_at(s, c) ==> s[j] != c,
        behind_last(s, c) <= s.len(),
        behind_last(s, c) > 0 ==> s[behind_last(s, c) - 1] == c,
        forall|j: int| behind_last(s, c) <= j < s.len() ==> s[j] != c,
    decreases s.len(),
{
    if s.len() > 0 {
        let rest = s.drop_first();
        law_places_of_a_character(rest, c);
        if s[0] != c {
            assert forall|j: int| 0 <= j < first_at(s, c) implies s[j] != c by {
                if j > 0 {
                    assert(s[j] == rest[j - 1]);
                }
            }
        }
        law_places_of_a_character(s.drop_last(), c);
        if s.last() != c {
            assert forall|j: int| behind_last(s, c) <= j < s.len() implies s[j] != c by {
                if j < s.len() - 1 {
                    assert(s[j] == s.drop_last()[j]);
                }
            }
        }
    }
}

/// Joining writes a part behind those before it, with what stands between parts before it.
pub proof fn law_joining_adds_one_part(parts: Seq<Seq<char>>, part: Seq<char>, between: Seq<char>)
    ensures
        parts.len() == 0 ==> joined(parts.push(part), between) == part,
        parts.len() > 0 ==> joined(parts.push(part), between) == joined(parts, between) + between
            + part,
{
    assert(parts.push(part).drop_last() =~= parts);
}

/// A string without separators is one piece.
pub proof fn law_a_string_without_separator_is_one_piece(s: Seq<char>, sep: char)
    requires
        !s.contains(sep),
    ensures
        pieces(s, sep) == seq![s],
    decreases s.len(),
{
    if s.len() > 0 {
        assert(s[s.len() - 1] != sep);
        assert forall|j: int| 0 <= j < s.drop_last().len() implies s.drop_last()[j] != sep by {
            assert(s[j] == s.drop_last()[j]);
        }
        law_a_string_without_separator_is_one_piece(s.drop_last(), sep);
        let front = pieces(s.drop_last(), sep);
        assert(front.last() == s.drop_last());
        assert(s.drop_last().push(s.last()) =~= s);
        assert(pieces(s, sep) =~= seq![s]);
    } else {
        assert(s =~= Seq::<char>::empty());
    }
}

/// A run of one character is cut at either end, and nothing more.
pub proof fn law_runs_are_cut(s: Seq<char>, c: char)
    ensures
        s.len() > 0 && s[0] != c ==> without_leading(s, c) == s,
        without_leading(seq![c] + s, c) == without_leading(s, c),
        s.len() > 0 && s.last() != c ==> without_trailing(s, c) == s,
        without_trailing(s.push(c), c) == without_trailing(s, c),
        without_leading(Seq::empty(), c).len() == 0,
        without_trailing(Seq::empty(), c).len() == 0,
{
    assert((seq![c] + s).drop_first() =~= s);
    assert(s.push(c).drop_last() =~= s);
}

/// A number is read digit by digit, each counting a tenth of the one before it; a plus may stand
/// before it, and nothing but digits may be in it.
pub proof fn law_numbers_are_read_digit_by_digit(s: Seq<char>, d: char)
    ensures
        is_digit(d) && all_digits(s) && s.len() > 0 ==> unsigned_value(s.push(d)) == Some(
            (10 * unsigned_value(s)->0 + (d as int - 48)) as nat,
        ),
        is_digit(d) ==> unsigned_value(seq![d]) == Some((d as int - 48) as nat),
        all_digits(s) && s.len() > 0 ==> unsigned_value(seq!['+'] + s) == unsigned_value(s),
        s.len() == 0 ==> unsigned_value(s) is None,
        !is_digit(d) && s.len() > 0 ==> unsigned_value(s.push(d)) is None,
{
    if is_digit(d) {
        assert(seq![d].drop_last() =~= Seq::<char>::empty());
        assert(digits_value(seq![d].drop_last()) == 0);
        assert(seq![d][0] != '+');
        assert(all_digits(seq![d]));
    }
    if is_digit(d) && all_digits(s) && s.len() > 0 {
        assert(is_digit(s[0]));
        assert(s.push(d).drop_last() =~= s);
        assert(all_digits(s.push(d)));
        assert(s.push(d)[0] == s[0]);
    }
    if all_digits(s) && s.len() > 0 {
        assert(is_digit(s[0]));
        assert((seq!['+'] + s).drop_first() =~= s);
    }
    if !is_digit(d) && s.len() > 0 {
        let t = s.push(d);
        let body = if t[0] == '+' {
            t.drop_first()
        } else {
            t
        };
        assert(body.last() == d);
        assert(!is_digit(body[body.len() - 1]));
    }
}

/// A string occurs in every string that it stands in, and in no other.
pub proof fn law_occurrences(before: Seq<char>, needle: Seq<char>, after: Seq<char>, s: Seq<char>)
    ensures
        occurs(before + needle + after, needle),
        occurs(s, needle) ==> exists|at: int|
            0 <= at && at + needle.len() <= s.len() && #[trigger] s.subrange(
                at,
                at + needle.len(),
            ) == needle,
{
    let all = before + needle + after;
    assert(all.subrange(before.len() as int, before.len() as int + needle.len()) =~= needle);
    assert(occurs_at(all, needle, before.len() as int));
    if occurs(s, needle) {
        let at = choose|at: int| occurs_at(s, needle, at);
        assert(s.subrange(at, at + needle.len()) == needle);
    }
}

} // verus!
