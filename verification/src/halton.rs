//! The Halton low-discrepancy sequence, as exact fractions.
//!
//! Element `i` of the sequence in base `b` is the radical inverse of `i`:
//! the digits of `i` in base `b`, mirrored about the radix point. The
//! sequence is produced incrementally, each fraction from the one before it,
//! and proved equal to the radical inverse.

use vstd::prelude::*;

verus! {

/// `b` to the power of the number of base-`b` digits of `n`: the
/// denominator under which the mirrored digits of `n` are a whole number.
pub open spec fn denominator(b: nat, n: nat) -> nat
    decreases n,
{
    if b < 2 || n == 0 {
        1
    } else {
        proof {
            vstd::arithmetic::div_mod::lemma_div_decreases(n as int, b as int);
        }
        b * denominator(b, n / b)
    }
}

/// The base-`b` digits of `n` in reverse order, read as a number: the
/// numerator of the radical inverse of `n` over `denominator(b, n)`.
pub open spec fn mirror(b: nat, n: nat) -> nat
    decreases n,
{
    if b < 2 || n == 0 {
        0
    } else {
        proof {
            vstd::arithmetic::div_mod::lemma_div_decreases(n as int, b as int);
        }
        (n % b) * denominator(b, n / b) + mirror(b, n / b)
    }
}

/// The largest of `y`, `y / b`, `y / b / b`, ... that does not lie above
/// `x`, or the first in that row that is no longer above it.
pub open spec fn settle(b: nat, x: nat, y: nat) -> nat
    decreases y,
{
    if b >= 2 && 0 < y && x < y {
        proof {
            vstd::arithmetic::div_mod::lemma_div_decreases(y as int, b as int);
        }
        settle(b, x, y / b)
    } else {
        y
    }
}

/// Division undoes multiplication by the base.
proof fn lemma_div_of_multiple(b: nat, m: nat, a: nat)
    requires
        b >= 2,
        a < b,
    ensures
        (b * m + a) / b == m,
        (b * m + a) % b == a,
{
    assert(b * m == m * b) by (nonlinear_arith);
    vstd::arithmetic::div_mod::lemma_fundamental_div_mod_converse((b * m + a) as int, b as int, m as int, a as int);
}

/// A number is its last digit plus the base times the rest.
proof fn lemma_split(b: nat, n: nat)
    requires
        b >= 2,
    ensures
        n == b * (n / b) + n % b,
        n % b < b,
        n > 0 ==> n / b < n,
{
    vstd::arithmetic::div_mod::lemma_fundamental_div_mod(n as int, b as int);
    vstd::arithmetic::div_mod::lemma_mod_bound(n as int, b as int);
    if n > 0 {
        vstd::arithmetic::div_mod::lemma_div_decreases(n as int, b as int);
    }
}

/// The denominator is positive.
pub proof fn lemma_denominator_positive(b: nat, n: nat)
    ensures
        denominator(b, n) >= 1,
    decreases n,
{
    if b >= 2 && n > 0 {
        lemma_split(b, n);
        lemma_denominator_positive(b, n / b);
        assert(b * denominator(b, n / b) >= 1) by (nonlinear_arith)
            requires
                b >= 2,
                denominator(b, n / b) >= 1,
        ;
    }
}

/// From index 1 on the denominator is at most the base times the index.
pub proof fn lemma_denominator_bound(b: nat, n: nat)
    requires
        b >= 2,
        n >= 1,
    ensures
        denominator(b, n) <= b * n,
    decreases n,
{
    lemma_split(b, n);
    let m = n / b;
    if m == 0 {
        assert(denominator(b, 0) == 1);
        assert(b * 1 <= b * n) by (nonlinear_arith)
            requires
                n >= 1,
        ;
    } else {
        lemma_denominator_bound(b, m);
        assert(b * denominator(b, m) <= b * n) by (nonlinear_arith)
            requires
                denominator(b, m) <= b * m,
                b * m <= n,
        ;
    }
}

/// The radical inverse of a positive index is a proper fraction above zero.
pub proof fn lemma_proper_fraction(b: nat, n: nat)
    requires
        b >= 2,
    ensures
        mirror(b, n) < denominator(b, n),
        n > 0 ==> mirror(b, n) > 0,
    decreases n,
{
    if n > 0 {
        lemma_split(b, n);
        let m = n / b;
        let a = n % b;
        lemma_proper_fraction(b, m);
        lemma_denominator_positive(b, m);
        let dm = denominator(b, m);
        assert(a * dm + mirror(b, m) < b * dm) by (nonlinear_arith)
            requires
                a < b,
                mirror(b, m) < dm,
        ;
        if m == 0 {
            assert(a == n);
            assert(a * dm > 0) by (nonlinear_arith)
                requires
                    a > 0,
                    dm >= 1,
            ;
        } else {
            assert(a * dm >= 0) by (nonlinear_arith);
        }
    }
}

/// One step of the incremental construction is one step of the sequence:
/// from the radical inverse of `i` it gives that of `i + 1`.
///
/// With `n / d` the fraction for `i` and `x = d - n`: when `x` is 1 the next
/// fraction is `1 / (d * b)`; otherwise it is `((b + 1) * y - x) / d` for
/// `y = settle(b, x, d / b)`, and `y` is at most `x`.
pub proof fn lemma_step(b: nat, i: nat)
    requires
        b >= 2,
    ensures
        mirror(b, i) < denominator(b, i),
        denominator(b, i) - mirror(b, i) == 1 ==> {
            &&& mirror(b, i + 1) == 1
            &&& denominator(b, i + 1) == denominator(b, i) * b
        },
        denominator(b, i) - mirror(b, i) != 1 ==> {
            let x = (denominator(b, i) - mirror(b, i)) as nat;
            let y = settle(b, x, denominator(b, i) / b);
            &&& 0 < y <= x
            &&& y <= denominator(b, i) / b
            &&& (b + 1) * y - x == mirror(b, i + 1)
            &&& denominator(b, i + 1) == denominator(b, i)
        },
    decreases i,
{
    lemma_proper_fraction(b, i);
    if i == 0 {
        lemma_div_of_multiple(b, 0, 1);
        assert(denominator(b, 0) == 1);
        assert(mirror(b, 0) == 0);
        assert(1nat / b == 0 && 1nat % b == 1);
        assert(denominator(b, 1) == b * denominator(b, 0));
        assert(mirror(b, 1) == (1nat % b) * denominator(b, 0) + mirror(b, 0));
    } else {
        lemma_split(b, i);
        let m = i / b;
        let a = i % b;
        let dm = denominator(b, m);
        let nm = mirror(b, m);
        let d = denominator(b, i);
        let n = mirror(b, i);
        lemma_step(b, m);
        lemma_proper_fraction(b, m);
        lemma_denominator_positive(b, m);
        assert(d == b * dm);
        assert(n == a * dm + nm);
        let xm = (dm - nm) as nat;
        let x = (d - n) as nat;
        assert(x == (b - 1 - a) * dm + xm) by (nonlinear_arith)
            requires
                x == b * dm - (a * dm + nm),
                xm == dm - nm,
        ;
        assert(d / b == dm) by {
            lemma_div_of_multiple(b, dm, 0);
        }
        if a < b - 1 {
            lemma_div_of_multiple(b, m, a + 1);
            assert(i + 1 == b * m + (a + 1));
            assert((i + 1) / b == m && (i + 1) % b == a + 1);
            assert(denominator(b, i + 1) == b * dm);
            assert(mirror(b, i + 1) == (a + 1) * dm + nm);
            assert((b - 1 - a) * dm >= dm) by (nonlinear_arith)
                requires
                    b - 1 - a >= 1,
                    dm >= 1,
            ;
            assert(x > dm);
            assert(settle(b, x, dm) == dm);
            assert((b + 1) * dm - x == (a + 1) * dm + nm) by (nonlinear_arith)
                requires
                    x == b * dm - (a * dm + nm),
            ;
        } else {
            assert(a == b - 1);
            assert((b - 1 - a) * dm == 0) by (nonlinear_arith)
                requires
                    b - 1 - a == 0,
            ;
            assert(x == xm);
            assert(i + 1 == b * (m + 1) + 0) by (nonlinear_arith)
                requires
                    i == b * m + a,
                    a == b - 1,
            ;
            lemma_div_of_multiple(b, m + 1, 0);
            assert((i + 1) / b == m + 1 && (i + 1) % b == 0);
            assert(denominator(b, i + 1) == b * denominator(b, m + 1));
            assert(mirror(b, i + 1) == 0 * denominator(b, m + 1) + mirror(b, m + 1));
            if xm == 1 {
                assert(denominator(b, i + 1) == d * b) by (nonlinear_arith)
                    requires
                        denominator(b, i + 1) == b * denominator(b, m + 1),
                        denominator(b, m + 1) == dm * b,
                        d == b * dm,
                ;
            } else {
                assert(m > 0) by {
                    if m == 0 {
                        assert(dm == 1 && nm == 0);
                    }
                }
                assert(nm > 0);
                assert(x < dm);
                assert(settle(b, x, dm) == settle(b, x, dm / b));
            }
        }
    }
}

/// The first `sequence_length` elements of the Halton sequence in base
/// `base`, from index 1 on, each as a numerator and its denominator.
///
/// Element `i` of the result is the radical inverse of `i + 1`: a proper
/// fraction above zero whose denominator is the power of the base with as
/// many digits as the index has.
pub fn halton_sequence(base: u64, sequence_length: u64) -> (fractions: Vec<(u64, u64)>)
    requires
        base >= 2,
        (base + 1) * sequence_length <= u64::MAX,
    ensures
        fractions@.len() == sequence_length,
        forall|i: int|
            0 <= i < fractions@.len() ==> {
                &&& (#[trigger] fractions@[i]).0 == mirror(base as nat, (i + 1) as nat)
                &&& fractions@[i].1 == denominator(base as nat, (i + 1) as nat)
                &&& 0 < fractions@[i].0 < fractions@[i].1
            },
{
    let ghost b: nat = base as nat;
    let mut fractions: Vec<(u64, u64)> = Vec::new();
    let mut n: u64 = 0;
    let mut d: u64 = 1;
    let mut index: u64 = 0;
    proof {
        assert(mirror(b, 0) == 0);
        assert(denominator(b, 0) == 1);
    }
    while index < sequence_length
        invariant
            b == base,
            base >= 2,
            (base + 1) * sequence_length <= u64::MAX,
            index <= sequence_length,
            n == mirror(b, index as nat),
            d == denominator(b, index as nat),
            fractions@.len() == index,
            forall|i: int|
                0 <= i < fractions@.len() ==> {
                    &&& (#[trigger] fractions@[i]).0 == mirror(b, (i + 1) as nat)
                    &&& fractions@[i].1 == denominator(b, (i + 1) as nat)
                    &&& 0 < fractions@[i].0 < fractions@[i].1
                },
        decreases sequence_length - index,
    {
        proof {
            lemma_step(b, index as nat);
            lemma_denominator_bound(b, (index + 1) as nat);
            lemma_proper_fraction(b, (index + 1) as nat);
            if index >= 1 {
                lemma_denominator_bound(b, index as nat);
            }
            assert(b * (index + 1) <= (b + 1) * sequence_length) by (nonlinear_arith)
                requires
                    index + 1 <= sequence_length,
            ;
            assert(b + 1 <= (b + 1) * sequence_length) by (nonlinear_arith)
                requires
                    1 <= sequence_length,
            ;
        }
        let x: u64 = d - n;
        if x == 1 {
            n = 1;
            proof {
                assert(d * base == denominator(b, (index + 1) as nat));
            }
            d = d * base;
        } else {
            let mut y: u64 = d / base;
            while x < y
                invariant
                    b == base,
                    base >= 2,
                    y <= d / base,
                    settle(b, x as nat, y as nat) == settle(b, x as nat, (d / base) as nat),
                decreases y,
            {
                proof {
                    vstd::arithmetic::div_mod::lemma_div_decreases(y as int, base as int);
                }
                y = y / base;
            }
            proof {
                assert(settle(b, x as nat, y as nat) == y);
                assert(index >= 1) by {
                    if index == 0 {
                        assert(d == 1 && n == 0);
                    }
                }
                assert(d / base <= index) by (nonlinear_arith)
                    requires
                        d <= base * index,
                        base >= 2,
                ;
                assert((base + 1) * y <= (base + 1) * sequence_length) by (nonlinear_arith)
                    requires
                        y <= index,
                        index <= sequence_length,
                ;
            }
            n = (base + 1) * y - x;
        }
        index = index + 1;
        fractions.push((n, d));
    }
    fractions
}

} // verus!
