//! Numbers of bytes as people read them.

use crate::text::{concat2, concat3, concat4, decimal, decimal_text};
use vstd::prelude::*;

verus! {

/// A quotient rounded to the nearest whole number; halfway it goes to the even one.
pub open spec fn half_even(n: nat, d: nat) -> nat {
    let q = n / d;
    let rest = n % d;
    if 2 * rest > d || (2 * rest == d && q % 2 == 1) {
        q + 1
    } else {
        q
    }
}

/// The distance between whole numbers that a binary number of 53 digits can tell apart there.
pub open spec fn spacing(n: nat) -> nat
    decreases n,
{
    if n < 0x20_0000_0000_0000 {
        1
    } else {
        2 * spacing(n / 2)
    }
}

/// A count of bytes with the 53 binary digits that are kept of it.
pub open spec fn kept(n: nat) -> nat {
    half_even(n, spacing(n)) * spacing(n)
}

proof fn lemma_spacing(n: nat)
    requires
        n <= u64::MAX,
    ensures
        1 <= spacing(n) <= 2048,
{
    vstd::arithmetic::power2::lemma2_to64();
    lemma_spacing_steps(n, 11);
}

proof fn lemma_spacing_steps(n: nat, steps: nat)
    requires
        steps <= 11,
        n < 0x20_0000_0000_0000 * vstd::arithmetic::power2::pow2(steps),
    ensures
        1 <= spacing(n) <= vstd::arithmetic::power2::pow2(steps),
    decreases steps,
{
    vstd::arithmetic::power2::lemma2_to64();
    if n >= 0x20_0000_0000_0000 {
        vstd::arithmetic::power2::lemma_pow2_unfold(steps);
        lemma_spacing_steps(n / 2, (steps - 1) as nat);
    } else {
        assert(vstd::arithmetic::power2::pow2(steps) >= 1) by {
            vstd::arithmetic::power2::lemma_pow2_pos(steps);
        }
    }
}

fn round_half_even(n: u128, d: u128) -> (r: u128)
    requires
        0 < d <= 0x1_0000_0000_0000_0000,
    ensures
        r == half_even(n as nat, d as nat),
{
    let q: u128 = n / d;
    let rest: u128 = n % d;
    assert(q <= n) by (nonlinear_arith)
        requires
            q == n / d,
            d > 0,
    ;
    if 2 * rest > d || (2 * rest == d && q % 2 == 1) {
        assert(q < n || rest == 0) by (nonlinear_arith)
            requires
                q == n / d,
                rest == n % d,
                d > 0,
        ;
        q + 1
    } else {
        q
    }
}

fn spacing_of(n: u64) -> (r: u64)
    ensures
        r == spacing(n as nat),
        1 <= r <= 2048,
{
    proof {
        lemma_spacing(n as nat);
    }
    let mut rest: u64 = n;
    let mut step: u64 = 1;
    assert(step * spacing(rest as nat) == spacing(n as nat));
    while rest >= 0x20_0000_0000_0000
        invariant
            1 <= step,
            step * spacing(rest as nat) == spacing(n as nat),
            spacing(n as nat) <= 2048,
            1 <= spacing(rest as nat),
        decreases rest,
    {
        proof {
            let s = spacing((rest / 2) as nat);
            assert(spacing(rest as nat) == 2 * s);
            assert(step * (2 * s) == (2 * step) * s) by (nonlinear_arith);
            assert(2 * step <= 2048) by (nonlinear_arith)
                requires
                    step * (2 * s) <= 2048,
                    s >= 1,
            ;
            lemma_spacing((rest / 2) as nat);
        }
        step = step * 2;
        rest = rest / 2;
    }
    assert(step * 1 == step);
    step
}

fn keep_digits(n: u64) -> (r: u128)
    ensures
        r == kept(n as nat),
        r <= 0x1_0000_0000_0000_0000,
{
    let step: u128 = spacing_of(n) as u128;
    let q: u128 = round_half_even(n as u128, step);
    proof {
        lemma_kept_bound(n);
    }
    assert(q * step <= 0x1_0000_0000_0000_0000);
    q * step
}

/// Rounding keeps a count of bytes within the next power of two.
proof fn lemma_kept_bound(n: u64)
    ensures
        kept(n as nat) <= 0x1_0000_0000_0000_0000,
{
    lemma_spacing(n as nat);
    lemma_spacing_divides(n as nat);
    let s = spacing(n as nat) as int;
    let q = half_even(n as nat, s as nat) as int;
    let top = 0x1_0000_0000_0000_0000int / s;
    assert(top * s == 0x1_0000_0000_0000_0000);
    assert(n as int / s < top) by (nonlinear_arith)
        requires
            n < 0x1_0000_0000_0000_0000,
            top * s == 0x1_0000_0000_0000_0000,
            s > 0,
    ;
    assert(q <= top);
    assert(q * s <= top * s) by (nonlinear_arith)
        requires
            q <= top,
            s > 0,
    ;
}

proof fn lemma_spacing_divides(n: nat)
    requires
        n <= u64::MAX,
    ensures
        (0x1_0000_0000_0000_0000int / spacing(n) as int) * spacing(n) == 0x1_0000_0000_0000_0000,
{
    vstd::arithmetic::power2::lemma2_to64();
    lemma_spacing_power(n, 11);
    let k = choose|k: nat| k <= 11 && #[trigger] vstd::arithmetic::power2::pow2(k) == spacing(n);
    assert(vstd::arithmetic::power2::pow2(k) == 1 || vstd::arithmetic::power2::pow2(k) == 2
        || vstd::arithmetic::power2::pow2(k) == 4 || vstd::arithmetic::power2::pow2(k) == 8
        || vstd::arithmetic::power2::pow2(k) == 16 || vstd::arithmetic::power2::pow2(k) == 32
        || vstd::arithmetic::power2::pow2(k) == 64 || vstd::arithmetic::power2::pow2(k) == 128
        || vstd::arithmetic::power2::pow2(k) == 256 || vstd::arithmetic::power2::pow2(k) == 512
        || vstd::arithmetic::power2::pow2(k) == 1024 || vstd::arithmetic::power2::pow2(k) == 2048);
    let s = spacing(n) as int;
    let q = 0x1_0000_0000_0000_0000int / s;
    assert(q * s == 0x1_0000_0000_0000_0000int) by (nonlinear_arith)
        requires
            q == 0x1_0000_0000_0000_0000int / s,
            s == 1 || s == 2 || s == 4 || s == 8 || s == 16 || s == 32 || s == 64 || s == 128
                || s == 256 || s == 512 || s == 1024 || s == 2048,
    ;
}

proof fn lemma_spacing_power(n: nat, steps: nat)
    requires
        steps <= 11,
        n < 0x20_0000_0000_0000 * vstd::arithmetic::power2::pow2(steps),
    ensures
        exists|k: nat| k <= steps && #[trigger] vstd::arithmetic::power2::pow2(k) == spacing(n),
    decreases steps,
{
    vstd::arithmetic::power2::lemma2_to64();
    if n >= 0x20_0000_0000_0000 {
        vstd::arithmetic::power2::lemma_pow2_unfold(steps);
        lemma_spacing_power(n / 2, (steps - 1) as nat);
        let k = choose|k: nat|
            k <= steps - 1 && #[trigger] vstd::arithmetic::power2::pow2(k) == spacing(n / 2);
        vstd::arithmetic::power2::lemma_pow2_unfold((k + 1) as nat);
        assert(vstd::arithmetic::power2::pow2((k + 1) as nat) == spacing(n));
    } else {
        assert(vstd::arithmetic::power2::pow2(0) == spacing(n));
    }
}

/// A number of tenths, written with one digit behind the point.
pub open spec fn with_tenths(tenths: nat) -> Seq<char> {
    decimal(tenths / 10) + "."@ + decimal(tenths % 10)
}

/// A number of hundredths, written with two digits behind the point.
pub open spec fn with_hundredths(hundredths: nat) -> Seq<char> {
    decimal(hundredths / 100) + "."@ + decimal(hundredths / 10 % 10) + decimal(hundredths % 10)
}

fn tenths_text(tenths: u64) -> (r: String)
    ensures
        r@ == with_tenths(tenths as nat),
{
    concat3(decimal_text(tenths / 10).as_str(), ".", decimal_text(tenths % 10).as_str())
}

fn hundredths_text(hundredths: u64) -> (r: String)
    ensures
        r@ == with_hundredths(hundredths as nat),
{
    concat4(
        decimal_text(hundredths / 100).as_str(),
        ".",
        decimal_text(hundredths / 10 % 10).as_str(),
        decimal_text(hundredths % 10).as_str(),
    )
}

pub const KIB: u64 = 1024;

pub const MIB: u64 = 1048576;

pub const GIB: u64 = 1073741824;

pub const TIB: u64 = 1099511627776;

/// The largest unit that a size has at least one of, with its size; none below a kilobyte.
pub open spec fn size_unit(size: nat) -> (nat, Seq<char>) {
    if size >= TIB {
        (TIB as nat, " TB"@)
    } else if size >= GIB {
        (GIB as nat, " GB"@)
    } else if size >= MIB {
        (MIB as nat, " MB"@)
    } else {
        (KIB as nat, " KB"@)
    }
}

/// The size of a file, with one digit behind the point from a kilobyte on.
pub open spec fn size_text(bytes: nat) -> Seq<char> {
    if kept(bytes) < KIB {
        decimal(bytes) + " B"@
    } else {
        let unit = size_unit(kept(bytes));
        with_tenths(half_even(10 * kept(bytes), unit.0)) + unit.1
    }
}

pub fn format_size(bytes: u64) -> (r: String)
    ensures
        r@ == size_text(bytes as nat),
{
    let size: u128 = keep_digits(bytes);
    if size < KIB as u128 {
        return concat2(decimal_text(bytes).as_str(), " B");
    }
    let (unit, name): (u128, &'static str) = if size >= TIB as u128 {
        (TIB as u128, " TB")
    } else if size >= GIB as u128 {
        (GIB as u128, " GB")
    } else if size >= MIB as u128 {
        (MIB as u128, " MB")
    } else {
        (KIB as u128, " KB")
    };
    let tenths: u128 = round_half_even(10 * size, unit);
    proof {
        lemma_quotient_fits(10 * size as nat, unit as nat);
    }
    concat2(tenths_text(tenths as u64).as_str(), name)
}

/// A size in a unit is a number that is easily held.
proof fn lemma_quotient_fits(n: nat, d: nat)
    requires
        n <= 100 * 0x1_0000_0000_0000_0000,
        d >= 1024,
    ensures
        half_even(n, d) <= u64::MAX,
{
    assert(n / d <= n / 1024) by (nonlinear_arith)
        requires
            d >= 1024,
    ;
}

/// A number of bytes of a download: with more digits the larger the unit.
pub open spec fn bytes_text(bytes: nat) -> Seq<char> {
    let size = kept(bytes);
    if size >= GIB {
        with_hundredths(half_even(100 * size, GIB as nat)) + " GB"@
    } else if size >= MIB {
        with_tenths(half_even(10 * size, MIB as nat)) + " MB"@
    } else if size >= KIB {
        decimal(half_even(size, KIB as nat)) + " KB"@
    } else {
        decimal(size) + " B"@
    }
}

pub fn format_bytes(bytes: u64) -> (r: String)
    ensures
        r@ == bytes_text(bytes as nat),
{
    let size: u128 = keep_digits(bytes);
    if size >= GIB as u128 {
        let hundredths: u128 = round_half_even(100 * size, GIB as u128);
        proof {
            lemma_quotient_fits(100 * size as nat, GIB as nat);
        }
        concat2(hundredths_text(hundredths as u64).as_str(), " GB")
    } else if size >= MIB as u128 {
        let tenths: u128 = round_half_even(10 * size, MIB as u128);
        proof {
            lemma_quotient_fits(10 * size as nat, MIB as nat);
        }
        concat2(tenths_text(tenths as u64).as_str(), " MB")
    } else if size >= KIB as u128 {
        let whole: u128 = round_half_even(size, KIB as u128);
        proof {
            lemma_quotient_fits(size as nat, KIB as nat);
        }
        concat2(decimal_text(whole as u64).as_str(), " KB")
    } else {
        concat2(decimal_text(size as u64).as_str(), " B")
    }
}

/// A speed, in whole bytes each second.
pub fn format_speed(bytes_per_second: u64) -> (r: String)
    ensures
        r@ == bytes_text(bytes_per_second as nat) + "/s"@,
{
    concat2(format_bytes(bytes_per_second).as_str(), "/s")
}

/// Up to 53 binary digits nothing is lost of a count.
pub proof fn law_small_counts_are_exact(bytes: nat)
    requires
        bytes < 0x20_0000_0000_0000,
    ensures
        kept(bytes) == bytes,
{
    assert(bytes / 1 == bytes && bytes % 1 == 0);
    assert(half_even(bytes, 1) * 1 == bytes);
}

/// A rounded quotient is the whole number nearest to it.
pub proof fn law_quotients_round_to_the_nearest(n: nat, d: nat, t: nat)
    requires
        d > 0,
        -(d as int) < 2 * (t * d - n) < d,
    ensures
        half_even(n, d) == t,
{
    let q = n / d;
    let rest = n % d;
    vstd::arithmetic::div_mod::lemma_fundamental_div_mod(n as int, d as int);
    assert(n == q * d + rest) by (nonlinear_arith)
        requires
            n == d * q + rest,
    ;
    assert(0 <= rest < d) by {
        vstd::arithmetic::div_mod::lemma_mod_bound(n as int, d as int);
    }
    if t < q {
        assert(t * d <= q * d - d) by (nonlinear_arith)
            requires
                t < q,
                d > 0,
        ;
    } else if t > q + 1 {
        assert(t * d >= q * d + 2 * d) by (nonlinear_arith)
            requires
                t > q + 1,
                d > 0,
        ;
    } else if t == q + 1 {
        assert(t * d == q * d + d) by (nonlinear_arith)
            requires
                t == q + 1,
        ;
    }
}

/// Halfway between two whole numbers the even one is taken.
pub proof fn law_halves_go_to_the_even_number(q: nat, d: nat)
    requires
        d > 0,
    ensures
        half_even(q * (2 * d) + d, 2 * d) % 2 == 0,
        half_even(q * (2 * d) + d, 2 * d) == q || half_even(q * (2 * d) + d, 2 * d) == q + 1,
{
    let n = q * (2 * d) + d;
    vstd::arithmetic::div_mod::lemma_fundamental_div_mod_converse(
        n as int,
        (2 * d) as int,
        q as int,
        d as int,
    );
}

/// The size of a file is told in the largest unit that it fills, to the nearest tenth, and in
/// bytes below a kilobyte; the units are the powers of 1024.
pub proof fn law_sizes_are_told_to_the_nearest_tenth(bytes: nat, unit: nat, name: char, t: nat)
    requires
        bytes < 0x20_0000_0000_0000,
        unit == 1024 && name == 'K' && 1024 <= bytes < 1048576 || unit == 1048576 && name == 'M'
            && 1048576 <= bytes < 1073741824 || unit == 1073741824 && name == 'G' && 1073741824
            <= bytes < 1099511627776 || unit == 1099511627776 && name == 'T' && 1099511627776
            <= bytes,
        -(unit as int) < 2 * (t * unit - 10 * bytes) < unit,
    ensures
        size_text(bytes) == decimal(t / 10) + seq!['.'] + decimal(t % 10) + seq![' ', name, 'B'],
{
    law_small_counts_are_exact(bytes);
    law_quotients_round_to_the_nearest(10 * bytes, unit, t);
    reveal_strlit(".");
    reveal_strlit(" KB");
    reveal_strlit(" MB");
    reveal_strlit(" GB");
    reveal_strlit(" TB");
    assert("."@ =~= seq!['.']);
    assert(size_unit(bytes).1 =~= seq![' ', name, 'B']);
    assert(size_unit(bytes).0 == unit);
}

/// Below a kilobyte every byte is told.
pub proof fn law_few_bytes_are_counted(bytes: nat)
    requires
        bytes < 1024,
    ensures
        size_text(bytes) == decimal(bytes) + seq![' ', 'B'],
        bytes_text(bytes) == decimal(bytes) + seq![' ', 'B'],
{
    law_small_counts_are_exact(bytes);
    reveal_strlit(" B");
    assert(" B"@ =~= seq![' ', 'B']);
}

/// What was downloaded is told to the nearest kilobyte, tenth of a megabyte or hundredth of a
/// gigabyte.
pub proof fn law_downloads_are_told_to_the_nearest(bytes: nat, t: nat)
    requires
        1024 <= bytes < 0x20_0000_0000_0000,
    ensures
        bytes < 1048576 && -1024 < 2 * (t * 1024 - bytes) < 1024 ==> bytes_text(bytes) == decimal(t)
            + seq![' ', 'K', 'B'],
        1048576 <= bytes < 1073741824 && -1048576 < 2 * (t * 1048576 - 10 * bytes) < 1048576
            ==> bytes_text(bytes) == decimal(t / 10) + seq!['.'] + decimal(t % 10) + seq![
            ' ',
            'M',
            'B',
        ],
        1073741824 <= bytes && -1073741824 < 2 * (t * 1073741824 - 100 * bytes) < 1073741824
            ==> bytes_text(bytes) == decimal(t / 100) + seq!['.'] + decimal(t / 10 % 10) + decimal(
            t % 10,
        ) + seq![' ', 'G', 'B'],
{
    law_small_counts_are_exact(bytes);
    reveal_strlit(".");
    reveal_strlit(" KB");
    reveal_strlit(" MB");
    reveal_strlit(" GB");
    assert("."@ =~= seq!['.']);
    assert(" KB"@ =~= seq![' ', 'K', 'B']);
    assert(" MB"@ =~= seq![' ', 'M', 'B']);
    assert(" GB"@ =~= seq![' ', 'G', 'B']);
    if bytes < 1048576 && -1024 < 2 * (t * 1024 - bytes) < 1024 {
        law_quotients_round_to_the_nearest(bytes, 1024, t);
    }
    if 1048576 <= bytes < 1073741824 && -1048576 < 2 * (t * 1048576 - 10 * bytes) < 1048576 {
        law_quotients_round_to_the_nearest(10 * bytes, 1048576, t);
    }
    if 1073741824 <= bytes && -1073741824 < 2 * (t * 1073741824 - 100 * bytes) < 1073741824 {
        law_quotients_round_to_the_nearest(100 * bytes, 1073741824, t);
    }
}

} // verus!
