//! Version numbers and the order in which they come.

use crate::order::{compare_numbers, flipped, int_order, Order};
use crate::text::{
    contains_char, drop_leading, parse_unsigned, pieces, split_on, string_of, chars_of, texts,
    unsigned_value, without_leading,
};
use std::cmp::Ordering;
use vstd::prelude::*;

verus! {

/// The text up to the first `-` or `+`.
pub open spec fn core_text(s: Seq<char>) -> Seq<char>
    decreases s.len(),
{
    if s.len() == 0 || s[0] == '-' || s[0] == '+' {
        Seq::empty()
    } else {
        seq![s[0]] + core_text(s.drop_first())
    }
}

/// A part of a version number; what is no number that fits counts as zero.
pub open spec fn part_value(part: Seq<char>) -> nat {
    match unsigned_value(part) {
        Some(n) => if n <= u64::MAX {
            n
        } else {
            0
        },
        None => 0,
    }
}

/// The numbers of a version, between the leading `v`s and what `-` or `+` starts.
pub open spec fn version_parts(version: Seq<char>) -> Seq<nat> {
    pieces(core_text(without_leading(version, 'v')), '.').map_values(
        |part: Seq<char>| part_value(part),
    )
}

/// The part at an index; a version has zeros behind its last part.
pub open spec fn part_at(parts: Seq<nat>, i: int) -> int {
    if 0 <= i < parts.len() {
        parts[i] as int
    } else {
        0
    }
}

/// The first part in which two versions differ decides, from `i` up to `n`.
pub open spec fn parts_order(a: Seq<nat>, b: Seq<nat>, i: int, n: int) -> Order
    decreases n - i,
{
    if i >= n {
        Order::Equal
    } else if part_at(a, i) != part_at(b, i) {
        int_order(part_at(a, i), part_at(b, i))
    } else {
        parts_order(a, b, i + 1, n)
    }
}

pub open spec fn longest(a: Seq<nat>, b: Seq<nat>) -> int {
    if a.len() >= b.len() {
        a.len() as int
    } else {
        b.len() as int
    }
}

/// The numbers decide first; with equal numbers a preliminary version comes before a final one.
pub open spec fn version_order(a: Seq<char>, b: Seq<char>) -> Order {
    let parts = parts_order(
        version_parts(a),
        version_parts(b),
        0,
        longest(version_parts(a), version_parts(b)),
    );
    if parts != Order::Equal {
        parts
    } else if a.contains('-') && !b.contains('-') {
        Order::Less
    } else if !a.contains('-') && b.contains('-') {
        Order::Greater
    } else {
        Order::Equal
    }
}

fn cut_core(version: &str) -> (r: String)
    ensures
        r@ == core_text(version@),
{
    let all = chars_of(version);
    let mut n: usize = 0;
    assert(all@.skip(0) == all@);
    assert(all@.take(0) + core_text(all@) == core_text(all@));
    while n < all.len() && all[n] != '-' && all[n] != '+'
        invariant
            n <= all.len(),
            all@.take(n as int) + core_text(all@.skip(n as int)) == core_text(all@),
        decreases all.len() - n,
    {
        proof {
            assert(all@.skip(n as int).drop_first() == all@.skip(n + 1));
            assert(all@.take(n as int) + seq![all@[n as int]] == all@.take(n + 1));
            assert(all@.take(n as int) + (seq![all@[n as int]] + core_text(all@.skip(n + 1)))
                == all@.take(n + 1) + core_text(all@.skip(n + 1)));
        }
        n = n + 1;
    }
    let mut kept: Vec<char> = Vec::new();
    let mut i: usize = 0;
    while i < n
        invariant
            i <= n <= all.len(),
            kept@ == all@.take(i as int),
        decreases n - i,
    {
        assert(all@.take(i as int).push(all@[i as int]) == all@.take(i + 1));
        kept.push(all[i]);
        i = i + 1;
    }
    assert(core_text(all@.skip(n as int)) == Seq::<char>::empty());
    assert(kept@ + Seq::<char>::empty() == kept@);
    string_of(kept.as_slice())
}

spec fn as_nats(parts: Seq<u64>) -> Seq<nat> {
    Seq::new(parts.len(), |i: int| parts[i] as nat)
}

fn numbers_of(version: &str) -> (r: Vec<u64>)
    ensures
        as_nats(r@) == version_parts(version@),
{
    let core = cut_core(drop_leading(version, 'v'));
    let parts = split_on(core.as_str(), '.');
    let mut r: Vec<u64> = Vec::new();
    let mut i: usize = 0;
    while i < parts.len()
        invariant
            i <= parts.len(),
            r.len() == i,
            forall|j: int| 0 <= j < i ==> r@[j] == part_value(#[trigger] texts(parts@)[j]),
        decreases parts.len() - i,
    {
        let n: u64 = match parse_unsigned(parts[i].as_str(), u64::MAX) {
            Some(n) => n,
            None => 0,
        };
        assert(n == part_value(texts(parts@)[i as int]));
        r.push(n);
        i = i + 1;
    }
    assert(as_nats(r@) =~= version_parts(version@));
    r
}

fn compare_parts(a: &Vec<u64>, b: &Vec<u64>) -> (r: Order)
    ensures
        r == parts_order(as_nats(a@), as_nats(b@), 0, longest(as_nats(a@), as_nats(b@))),
{
    let n: usize = if a.len() >= b.len() {
        a.len()
    } else {
        b.len()
    };
    let mut i: usize = 0;
    while i < n
        invariant
            i <= n,
            n == longest(as_nats(a@), as_nats(b@)),
            parts_order(as_nats(a@), as_nats(b@), i as int, n as int) == parts_order(
                as_nats(a@),
                as_nats(b@),
                0,
                n as int,
            ),
        decreases n - i,
    {
        let left: u64 = if i < a.len() {
            a[i]
        } else {
            0
        };
        let right: u64 = if i < b.len() {
            b[i]
        } else {
            0
        };
        assert(left == part_at(as_nats(a@), i as int));
        assert(right == part_at(as_nats(b@), i as int));
        if left != right {
            return compare_numbers(left, right);
        }
        i = i + 1;
    }
    Order::Equal
}

fn order_versions(candidate: &str, current: &str) -> (r: Order)
    ensures
        r == version_order(candidate@, current@),
{
    let a = numbers_of(candidate);
    let b = numbers_of(current);
    let parts = compare_parts(&a, &b);
    if parts != Order::Equal {
        return parts;
    }
    let first = contains_char(candidate, '-');
    let second = contains_char(current, '-');
    if first && !second {
        Order::Less
    } else if !first && second {
        Order::Greater
    } else {
        Order::Equal
    }
}

/// The comparison as the standard library names it.
pub open spec fn named_order(order: Order) -> Ordering {
    match order {
        Order::Less => Ordering::Less,
        Order::Equal => Ordering::Equal,
        Order::Greater => Ordering::Greater,
    }
}

/// Compares two versions; leading `v`s do not count.
pub fn compare_versions(candidate: &str, current: &str) -> (r: Ordering)
    ensures
        r == named_order(version_order(candidate@, current@)),
{
    match order_versions(candidate, current) {
        Order::Less => Ordering::Less,
        Order::Equal => Ordering::Equal,
        Order::Greater => Ordering::Greater,
    }
}

pub fn is_update_newer(candidate: &str, current: &str) -> (r: bool)
    ensures
        r == (version_order(candidate@, current@) == Order::Greater),
{
    match compare_versions(candidate, current) {
        Ordering::Greater => true,
        _ => false,
    }
}

proof fn lemma_parts_flip(a: Seq<nat>, b: Seq<nat>, i: int, n: int)
    ensures
        parts_order(a, b, i, n) == flipped(parts_order(b, a, i, n)),
    decreases n - i,
{
    if i < n {
        lemma_parts_flip(a, b, i + 1, n);
    }
}

/// Behind the last part of both there is nothing to tell versions apart.
proof fn lemma_parts_extend(a: Seq<nat>, b: Seq<nat>, i: int, n: int, m: int)
    requires
        longest(a, b) <= n <= m,
    ensures
        parts_order(a, b, i, n) == parts_order(a, b, i, m),
    decreases m - i,
{
    if i < m {
        lemma_parts_extend(a, b, i + 1, n, m);
        if i >= n {
            assert(parts_order(a, b, i + 1, n) == Order::Equal);
        }
    }
}

/// Of the first parts in which they differ, the order of the outer two follows.
proof fn lemma_parts_chain(a: Seq<nat>, b: Seq<nat>, c: Seq<nat>, i: int, n: int)
    requires
        parts_order(a, b, i, n) != Order::Less,
        parts_order(b, c, i, n) != Order::Less,
    ensures
        parts_order(a, c, i, n) != Order::Less,
        parts_order(a, c, i, n) == Order::Equal ==> parts_order(a, b, i, n) == Order::Equal
            && parts_order(b, c, i, n) == Order::Equal,
    decreases n - i,
{
    if i < n && part_at(a, i) == part_at(b, i) && part_at(b, i) == part_at(c, i) {
        lemma_parts_chain(a, b, c, i + 1, n);
    }
}

/// Exchanging two versions turns their order round; no version is newer than itself.
pub proof fn law_version_order_turns_round(a: Seq<char>, b: Seq<char>)
    ensures
        version_order(a, b) == flipped(version_order(b, a)),
        version_order(a, a) == Order::Equal,
{
    let (x, y) = (version_parts(a), version_parts(b));
    lemma_parts_flip(x, y, 0, longest(x, y));
    lemma_parts_flip(x, x, 0, longest(x, x));
}

/// What is newer than a newer version is newer.
pub proof fn law_newer_is_transitive(a: Seq<char>, b: Seq<char>, c: Seq<char>)
    requires
        version_order(a, b) == Order::Greater,
        version_order(b, c) == Order::Greater,
    ensures
        version_order(a, c) == Order::Greater,
{
    let (x, y, z) = (version_parts(a), version_parts(b), version_parts(c));
    let n = if longest(x, y) >= longest(y, z) {
        longest(x, y)
    } else {
        longest(y, z)
    };
    lemma_parts_extend(x, y, 0, longest(x, y), n);
    lemma_parts_extend(y, z, 0, longest(y, z), n);
    lemma_parts_extend(x, z, 0, longest(x, z), n);
    lemma_parts_chain(x, y, z, 0, n);
}

/// The first number in which two versions differ tells which is newer, whatever follows; missing
/// numbers are zeros.
pub proof fn law_first_difference_decides(a: Seq<char>, b: Seq<char>, at: int)
    requires
        0 <= at,
        forall|k: int|
            0 <= k < at ==> #[trigger] part_at(version_parts(a), k) == part_at(version_parts(b), k),
        part_at(version_parts(a), at) != part_at(version_parts(b), at),
    ensures
        part_at(version_parts(a), at) > part_at(version_parts(b), at) ==> version_order(a, b)
            == Order::Greater && version_order(b, a) == Order::Less,
        part_at(version_parts(a), at) < part_at(version_parts(b), at) ==> version_order(a, b)
            == Order::Less && version_order(b, a) == Order::Greater,
{
    let x = version_parts(a);
    let y = version_parts(b);
    lemma_difference_decides(x, y, 0, at, longest(x, y));
    assert forall|k: int| 0 <= k < at implies #[trigger] part_at(y, k) == part_at(x, k) by {
        assert(part_at(x, k) == part_at(y, k));
    }
    lemma_difference_decides(y, x, 0, at, longest(y, x));
}

proof fn lemma_difference_decides(a: Seq<nat>, b: Seq<nat>, from: int, at: int, n: int)
    requires
        0 <= from <= at,
        n >= a.len(),
        n >= b.len(),
        forall|k: int| from <= k < at ==> #[trigger] part_at(a, k) == part_at(b, k),
        part_at(a, at) != part_at(b, at),
    ensures
        part_at(a, at) > part_at(b, at) ==> parts_order(a, b, from, n) == Order::Greater,
        part_at(a, at) < part_at(b, at) ==> parts_order(a, b, from, n) == Order::Less,
    decreases at - from,
{
    assert(at < n);
    if from < at {
        assert(part_at(a, from) == part_at(b, from));
        lemma_difference_decides(a, b, from + 1, at, n);
    }
}

/// With equal numbers the version with a hyphen is the older one; both or neither, they are
/// equal.
pub proof fn law_preliminary_versions_come_first(a: Seq<char>, b: Seq<char>)
    requires
        forall|k: int|
            0 <= k ==> #[trigger] part_at(version_parts(a), k) == part_at(version_parts(b), k),
    ensures
        a.contains('-') && !b.contains('-') ==> version_order(a, b) == Order::Less,
        !a.contains('-') && b.contains('-') ==> version_order(a, b) == Order::Greater,
        a.contains('-') == b.contains('-') ==> version_order(a, b) == Order::Equal,
{
    let n = longest(version_parts(a), version_parts(b));
    lemma_equal_parts(version_parts(a), version_parts(b), 0, n);
}

proof fn lemma_equal_parts(a: Seq<nat>, b: Seq<nat>, from: int, n: int)
    requires
        0 <= from,
        forall|k: int| 0 <= k ==> #[trigger] part_at(a, k) == part_at(b, k),
    ensures
        parts_order(a, b, from, n) == Order::Equal,
    decreases n - from,
{
    if from < n {
        assert(part_at(a, from) == part_at(b, from));
        lemma_equal_parts(a, b, from + 1, n);
    }
}

/// A version that is written as two numbers with a point between them has these numbers; a `v`
/// in front, or anything behind a hyphen or a plus, changes none of them.
pub proof fn law_numbers_are_read(first: nat, second: nat, mark: char, tail: Seq<char>)
    requires
        first <= u64::MAX,
        second <= u64::MAX,
        mark == '-' || mark == '+',
    ensures
        ({
            let written = crate::text::decimal(first) + seq!['.'] + crate::text::decimal(second);
            &&& part_at(version_parts(written), 0) == first
            &&& part_at(version_parts(written), 1) == second
            &&& version_parts(written).len() == 2
            &&& version_parts(seq!['v'] + written) == version_parts(written)
            &&& version_parts(written + (seq![mark] + tail)) == version_parts(written)
        }),
{
    let a = crate::text::decimal(first);
    let b = crate::text::decimal(second);
    let written = a + seq!['.'] + b;
    crate::text::law_decimal_round_trip(first);
    crate::text::law_decimal_round_trip(second);
    lemma_digits_only(first);
    lemma_digits_only(second);
    assert forall|i: int| 0 <= i < written.len() implies crate::text::is_digit(
        #[trigger] written[i],
    ) || written[i] == '.' by {
        if i < a.len() {
            assert(written[i] == a[i]);
        } else if i > a.len() {
            assert(written[i] == b[i - a.len() - 1]);
        }
    }
    lemma_core_stops(written, Seq::empty());
    lemma_core_stops(written, seq![mark] + tail);
    assert(written + Seq::<char>::empty() =~= written);
    assert(written[0] == a[0]);
    assert(without_leading(written, 'v') == written);
    assert((seq!['v'] + written).drop_first() =~= written);
    assert((written + (seq![mark] + tail))[0] == written[0]);
    crate::text::law_pieces_of_joined_strings(a, '.', b);
    assert(written =~= a.push('.') + b);
    assert(!a.contains('.')) by {
        assert forall|i: int| 0 <= i < a.len() implies a[i] != '.' by {}
    }
    assert(!b.contains('.')) by {
        assert forall|i: int| 0 <= i < b.len() implies b[i] != '.' by {}
    }
    crate::text::law_a_string_without_separator_is_one_piece(a, '.');
    crate::text::law_a_string_without_separator_is_one_piece(b, '.');
    assert(pieces(written, '.') =~= seq![a, b]);
    assert(version_parts(written) =~= seq![part_value(a), part_value(b)]);
}

pub proof fn lemma_digits_only(n: nat)
    ensures
        crate::text::decimal(n).len() > 0,
        forall|i: int|
            0 <= i < crate::text::decimal(n).len() ==> crate::text::is_digit(
                #[trigger] crate::text::decimal(n)[i],
            ),
    decreases n,
{
    crate::text::law_decimal_digits_count_tens(n);
    if n >= 10 {
        lemma_digits_only(n / 10);
        assert forall|i: int| 0 <= i < crate::text::decimal(n).len() implies crate::text::is_digit(
            #[trigger] crate::text::decimal(n)[i],
        ) by {
            if i < crate::text::decimal(n).len() - 1 {
                assert(crate::text::decimal(n)[i] == crate::text::decimal(n / 10)[i]);
            }
        }
    }
}

proof fn lemma_core_stops(s: Seq<char>, tail: Seq<char>)
    requires
        forall|i: int| 0 <= i < s.len() ==> #[trigger] s[i] != '-' && s[i] != '+',
        tail.len() > 0 ==> tail[0] == '-' || tail[0] == '+',
    ensures
        core_text(s + tail) == s,
    decreases s.len(),
{
    if s.len() == 0 {
        assert(s + tail =~= tail);
        assert(core_text(s + tail) =~= s);
    } else {
        assert((s + tail)[0] == s[0]);
        assert((s + tail).drop_first() =~= s.drop_first() + tail);
        assert forall|i: int| 0 <= i < s.drop_first().len() implies #[trigger] s.drop_first()[i]
            != '-' && s.drop_first()[i] != '+' by {
            assert(s.drop_first()[i] == s[i + 1]);
        }
        lemma_core_stops(s.drop_first(), tail);
        assert(seq![s[0]] + s.drop_first() =~= s);
    }
}

/// The standard library's names for the three results.
pub proof fn law_orders_are_named(order: Order)
    ensures
        order == Order::Less <==> named_order(order) == Ordering::Less,
        order == Order::Equal <==> named_order(order) == Ordering::Equal,
        order == Order::Greater <==> named_order(order) == Ordering::Greater,
{
}

} // verus!
