//! Arithmetic modulo 2^16 for the rolling sum: how what is computed in
//! wrapping arithmetic on `u16` meets the sums of the model.

use crate::rollsum::model::{lemma_triangular_closed_form, triangular, RollState, CHAR_OFFSET};
use vstd::arithmetic::div_mod::{
    lemma_add_mod_noop_right, lemma_mod_add_multiples_vanish, lemma_mod_bound,
    lemma_mod_multiples_vanish, lemma_mul_mod_noop_left, lemma_small_mod,
    lemma_sub_mod_noop_right,
};
use vstd::prelude::*;
use vstd::wrapping::u16_specs;

verus! {

/// Reducing the left term of a sum modulo 2^16 does not change the sum
/// modulo 2^16.
pub(crate) proof fn lemma_mod_add_left(a: int, b: int)
    ensures
        (a % 0x1_0000 + b) % 0x1_0000 == (a + b) % 0x1_0000,
{
    lemma_add_mod_noop_right(b, a, 0x1_0000);
    assert(a % 0x1_0000 + b == b + a % 0x1_0000);
    assert(a + b == b + a);
}

/// Reducing the right term of a sum modulo 2^16 does not change the sum
/// modulo 2^16.
pub(crate) proof fn lemma_mod_add_right(a: int, b: int)
    ensures
        (a + b % 0x1_0000) % 0x1_0000 == (a + b) % 0x1_0000,
{
    lemma_add_mod_noop_right(a, b, 0x1_0000);
}

/// Reducing the left term of a difference modulo 2^16 does not change the
/// difference modulo 2^16.
pub(crate) proof fn lemma_mod_sub_left(a: int, b: int)
    ensures
        (a % 0x1_0000 - b) % 0x1_0000 == (a - b) % 0x1_0000,
{
    lemma_add_mod_noop_right(-b, a, 0x1_0000);
    assert(a % 0x1_0000 - b == -b + a % 0x1_0000);
    assert(a - b == -b + a);
}

/// Reducing the right term of a difference modulo 2^16 does not change the
/// difference modulo 2^16.
pub(crate) proof fn lemma_mod_sub_right(a: int, b: int)
    ensures
        (a - b % 0x1_0000) % 0x1_0000 == (a - b) % 0x1_0000,
{
    lemma_sub_mod_noop_right(a, b, 0x1_0000);
}

/// A number in the range of a `u16` is its own remainder modulo 2^16.
pub(crate) proof fn lemma_mod_small(a: int)
    requires
        0 <= a < 0x1_0000,
    ensures
        a % 0x1_0000 == a,
{
    lemma_small_mod(a as nat, 0x1_0000);
}

/// Addition that wraps on `u16` is addition modulo 2^16.
pub(crate) proof fn lemma_wrapping_add(x: u16, y: u16)
    ensures
        u16_specs::wrapping_add(x, y) == (x + y) % 0x1_0000,
{
    let a = x + y;
    if a > u16::MAX {
        lemma_mod_small(a - 0x1_0000);
        lemma_mod_add_multiples_vanish(a - 0x1_0000, 0x1_0000);
        assert(0x1_0000 + (a - 0x1_0000) == a);
    } else {
        lemma_mod_small(a);
    }
}

/// Subtraction that wraps on `u16` is subtraction modulo 2^16.
pub(crate) proof fn lemma_wrapping_sub(x: u16, y: u16)
    ensures
        u16_specs::wrapping_sub(x, y) == (x - y) % 0x1_0000,
{
    let a = x - y;
    if a < 0 {
        lemma_mod_small(a + 0x1_0000);
        lemma_mod_add_multiples_vanish(a, 0x1_0000);
        assert(0x1_0000 + a == a + 0x1_0000);
    } else {
        lemma_mod_small(a);
    }
}

/// Multiplication that wraps on `u16` is multiplication modulo 2^16.
pub(crate) proof fn lemma_wrapping_mul(x: u16, y: u16)
    ensures
        u16_specs::wrapping_mul(x, y) == (x * y) % 0x1_0000,
{
    let p = x as nat * y as nat;
    assert(p == x * y);
    lemma_mod_bound(p as int, 0x1_0000);
    assert(p % 0x1_0000nat == (p as int) % 0x1_0000);
}

/// The triangular number of `n` and of `n` modulo 2^17 agree modulo 2^16.
pub(crate) proof fn lemma_triangular_mod(n: nat)
    ensures
        triangular(n) % 0x1_0000 == triangular(n % 0x2_0000) % 0x1_0000,
{
    let m = n % 0x2_0000;
    let k = n / 0x2_0000;
    lemma_triangular_closed_form(n);
    lemma_triangular_closed_form(m);
    let a = k * (2 * m + 1) + 0x2_0000 * k * k;
    assert(n * (n + 1) == m * (m + 1) + 0x2_0000 * a) by (nonlinear_arith)
        requires
            n == 0x2_0000 * k + m,
            a == k * (2 * m + 1) + 0x2_0000 * k * k,
    ;
    assert(triangular(n) == 0x1_0000 * a + triangular(m));
    lemma_mod_multiples_vanish(a as int, triangular(m) as int, 0x1_0000);
}

/// The triangular number of `n` modulo 2^16, from `n` modulo 2^17.
pub(crate) proof fn lemma_triangular_reduced(n: nat, m: nat)
    requires
        m == n % 0x2_0000,
    ensures
        m * (m + 1) <= 0x2_0000 * 0x2_0000,
        (m * (m + 1) / 2) % 0x1_0000 == triangular(n) % 0x1_0000,
{
    assert(m * (m + 1) <= 0x2_0000 * 0x2_0000) by (nonlinear_arith)
        requires
            m < 0x2_0000,
    ;
    lemma_triangular_closed_form(m);
    assert(m * (m + 1) / 2 == triangular(m));
    lemma_triangular_mod(n);
}

/// The arithmetic of one turn of the loop of `update`, where `f1` and `f2`
/// are the sums with the bias before the turn, and `b1` and `b2` the biases
/// that the sums without it are behind.
pub(crate) proof fn lemma_update_step_arith(
    s1: u16,
    s2: u16,
    x: u8,
    b1: int,
    b2: int,
    f1: int,
    f2: int,
)
    requires
        (s1 + b1) % 0x1_0000 == f1,
        (s2 + b2) % 0x1_0000 == f2,
    ensures
        ({
            let t1 = u16_specs::wrapping_add(s1, x as u16);
            let t2 = u16_specs::wrapping_add(s2, t1);
            let g1 = (f1 + x + CHAR_OFFSET) % 0x1_0000;
            let g2 = (f2 + g1) % 0x1_0000;
            &&& (t1 + (b1 + CHAR_OFFSET)) % 0x1_0000 == g1
            &&& (t2 + (b2 + b1 + CHAR_OFFSET)) % 0x1_0000 == g2
        }),
{
    let t1 = u16_specs::wrapping_add(s1, x as u16);
    let t2 = u16_specs::wrapping_add(s2, t1);
    let g1 = (f1 + x + CHAR_OFFSET) % 0x1_0000;
    let g2 = (f2 + g1) % 0x1_0000;
    // What the two sums with the bias are after the turn, before reduction.
    let u1 = s1 + b1 + x + CHAR_OFFSET;
    let u2 = s2 + b2 + u1;
    assert(t1 == (s1 + x) % 0x1_0000) by {
        lemma_wrapping_add(s1, x as u16);
    }
    assert(t2 == (s2 + t1) % 0x1_0000) by {
        lemma_wrapping_add(s2, t1);
    }
    assert(g1 == u1 % 0x1_0000) by {
        lemma_mod_add_left(s1 + b1, x + CHAR_OFFSET);
        assert(f1 + x + CHAR_OFFSET == (s1 + b1) % 0x1_0000 + (x + CHAR_OFFSET));
        assert(s1 + b1 + (x + CHAR_OFFSET) == u1);
    }
    assert((t1 + (b1 + CHAR_OFFSET)) % 0x1_0000 == u1 % 0x1_0000) by {
        lemma_mod_add_left(s1 + x, b1 + CHAR_OFFSET);
        assert(s1 + x + (b1 + CHAR_OFFSET) == u1);
    }
    assert(g2 == u2 % 0x1_0000) by {
        lemma_mod_add_left(s2 + b2, g1);
        assert(f2 + g1 == (s2 + b2) % 0x1_0000 + g1);
        lemma_mod_add_right(s2 + b2, u1);
        assert(s2 + b2 + u1 % 0x1_0000 == s2 + b2 + g1);
    }
    assert((t2 + (b2 + b1 + CHAR_OFFSET)) % 0x1_0000 == u2 % 0x1_0000) by {
        let rest = b2 + b1 + CHAR_OFFSET;
        lemma_mod_add_left(s2 + t1, rest);
        lemma_mod_add_right(s2 + rest, s1 + x);
        assert(s2 + t1 + rest == s2 + rest + (s1 + x) % 0x1_0000);
        assert(s2 + rest + (s1 + x) == u2);
    }
}

/// Adding `n` biases to a sum in wrapping arithmetic on `u16`, with `n`
/// reduced modulo 2^16 first, adds them modulo 2^16.
pub(crate) proof fn lemma_add_biases(s: u16, n: nat)
    ensures
        u16_specs::wrapping_add(s, u16_specs::wrapping_mul((n % 0x1_0000) as u16, CHAR_OFFSET))
            == (s + CHAR_OFFSET * n) % 0x1_0000,
{
    let r = (n as int) % 0x1_0000;
    lemma_mod_bound(n as int, 0x1_0000);
    let ll = (n % 0x1_0000) as u16;
    assert(ll == r);
    let m = u16_specs::wrapping_mul(ll, CHAR_OFFSET);
    assert(m == (n * CHAR_OFFSET) % 0x1_0000) by {
        lemma_wrapping_mul(ll, CHAR_OFFSET);
        lemma_mul_mod_noop_left(n as int, CHAR_OFFSET as int, 0x1_0000);
        assert(ll * CHAR_OFFSET == r * CHAR_OFFSET);
    }
    assert(u16_specs::wrapping_add(s, m) == (s + m) % 0x1_0000) by {
        lemma_wrapping_add(s, m);
    }
    assert((s + m) % 0x1_0000 == (s + n * CHAR_OFFSET) % 0x1_0000) by {
        lemma_mod_add_right(s as int, n * CHAR_OFFSET);
    }
    assert(n * CHAR_OFFSET == CHAR_OFFSET * n);
}

/// Adding a reduced number to a count in wrapping arithmetic on `u16` adds
/// the number modulo 2^16.
pub(crate) proof fn lemma_add_count(count: u16, n: nat)
    ensures
        u16_specs::wrapping_add(count, (n % 0x1_0000) as u16) == (count + n) % 0x1_0000,
{
    let r = (n as int) % 0x1_0000;
    lemma_mod_bound(n as int, 0x1_0000);
    let ll = (n % 0x1_0000) as u16;
    assert(ll == r);
    lemma_wrapping_add(count, ll);
    lemma_mod_add_right(count as int, n as int);
}

/// `roll_in` as it is computed, in wrapping arithmetic on `u16`.
pub(crate) proof fn lemma_roll_in_wrapping(count: u16, s1: u16, s2: u16, c_in: u8)
    ensures
        ({
            let t1 = u16_specs::wrapping_add(s1, (CHAR_OFFSET + c_in) as u16);
            let t2 = u16_specs::wrapping_add(s2, t1);
            let n = u16_specs::wrapping_add(count, 1);
            RollState { count: count as int, s1: s1 as int, s2: s2 as int }.roll_in(c_in)
                == RollState { count: n as int, s1: t1 as int, s2: t2 as int }
        }),
{
    let x = (CHAR_OFFSET + c_in) as u16;
    let t1 = u16_specs::wrapping_add(s1, x);
    lemma_wrapping_add(s1, x);
    lemma_wrapping_add(s2, t1);
    lemma_wrapping_add(count, 1);
    assert(s1 + x == s1 + c_in + CHAR_OFFSET);
}

/// `roll_out` as it is computed, in wrapping arithmetic on `u16`.
pub(crate) proof fn lemma_roll_out_wrapping(count: u16, s1: u16, s2: u16, c_out: u8)
    ensures
        ({
            let x = (c_out + CHAR_OFFSET) as u16;
            let t1 = u16_specs::wrapping_sub(s1, x);
            let t2 = u16_specs::wrapping_sub(s2, u16_specs::wrapping_mul(count, x));
            let n = u16_specs::wrapping_sub(count, 1);
            RollState { count: count as int, s1: s1 as int, s2: s2 as int }.roll_out(c_out)
                == RollState { count: n as int, s1: t1 as int, s2: t2 as int }
        }),
{
    let x = (c_out + CHAR_OFFSET) as u16;
    let q = count * (c_out + CHAR_OFFSET);
    let p = u16_specs::wrapping_mul(count, x);
    assert(p == q % 0x1_0000) by {
        lemma_wrapping_mul(count, x);
        assert(count * x == q) by (nonlinear_arith)
            requires
                x == c_out + CHAR_OFFSET,
                q == count * (c_out + CHAR_OFFSET),
        ;
    }
    assert(u16_specs::wrapping_sub(s2, p) == (s2 - q) % 0x1_0000) by {
        lemma_wrapping_sub(s2, p);
        lemma_mod_sub_right(s2 as int, q);
    }
    lemma_wrapping_sub(s1, x);
    lemma_wrapping_sub(count, 1);
}

/// The arithmetic of `rotate`: rolling out and then in, against the one step
/// that is computed. `q` stands for the product of the count and the biased
/// byte that leaves.
pub(crate) proof fn lemma_rotate_arith(
    count: int,
    s1: int,
    s2: int,
    q: int,
    c_out: int,
    c_in: int,
)
    requires
        0 <= count < 0x1_0000,
    ensures
        ({
            let t1 = (s1 + (c_in - c_out) % 0x1_0000) % 0x1_0000;
            let t2 = (s2 + (t1 - q % 0x1_0000) % 0x1_0000) % 0x1_0000;
            let a1 = (s1 - (c_out + CHAR_OFFSET)) % 0x1_0000;
            let b1 = (a1 + c_in + CHAR_OFFSET) % 0x1_0000;
            let a2 = (s2 - q) % 0x1_0000;
            let b2 = (a2 + b1) % 0x1_0000;
            &&& b1 == t1
            &&& b2 == t2
            &&& ((count - 1) % 0x1_0000 + 1) % 0x1_0000 == count
        }),
{
    let t1 = (s1 + (c_in - c_out) % 0x1_0000) % 0x1_0000;
    let t2 = (s2 + (t1 - q % 0x1_0000) % 0x1_0000) % 0x1_0000;
    let a1 = (s1 - (c_out + CHAR_OFFSET)) % 0x1_0000;
    let b1 = (a1 + c_in + CHAR_OFFSET) % 0x1_0000;
    let a2 = (s2 - q) % 0x1_0000;
    let b2 = (a2 + b1) % 0x1_0000;
    let v1 = s1 + (c_in - c_out);
    assert(b1 == v1 % 0x1_0000) by {
        lemma_mod_add_left(s1 - (c_out + CHAR_OFFSET), c_in + CHAR_OFFSET);
        assert(a1 + c_in + CHAR_OFFSET == a1 + (c_in + CHAR_OFFSET));
        assert(s1 - (c_out + CHAR_OFFSET) + (c_in + CHAR_OFFSET) == v1);
    }
    assert(t1 == v1 % 0x1_0000) by {
        lemma_mod_add_right(s1, c_in - c_out);
    }
    let v2 = s2 + (t1 - q);
    assert(b2 == v2 % 0x1_0000) by {
        lemma_mod_add_left(s2 - q, b1);
        assert(s2 - q + b1 == v2);
    }
    assert(t2 == v2 % 0x1_0000) by {
        lemma_mod_sub_right(t1, q);
        lemma_mod_add_right(s2, t1 - q);
    }
    assert(((count - 1) % 0x1_0000 + 1) % 0x1_0000 == count) by {
        lemma_mod_add_left(count - 1, 1);
        assert(count - 1 + 1 == count);
        lemma_mod_small(count);
    }
}

/// `rotate` as it is computed: in one step, in wrapping arithmetic on `u16`.
pub(crate) proof fn lemma_rotate_wrapping(count: u16, s1: u16, s2: u16, c_out: u8, c_in: u8)
    ensures
        ({
            let d = u16_specs::wrapping_sub(c_in as u16, c_out as u16);
            let t1 = u16_specs::wrapping_add(s1, d);
            let p = u16_specs::wrapping_mul(count, (c_out + CHAR_OFFSET) as u16);
            let t2 = u16_specs::wrapping_add(s2, u16_specs::wrapping_sub(t1, p));
            RollState { count: count as int, s1: s1 as int, s2: s2 as int }.rotate(c_out, c_in)
                == RollState { count: count as int, s1: t1 as int, s2: t2 as int }
        }),
{
    let x = (c_out + CHAR_OFFSET) as u16;
    let q = count * (c_out + CHAR_OFFSET);
    let d = u16_specs::wrapping_sub(c_in as u16, c_out as u16);
    let t1 = u16_specs::wrapping_add(s1, d);
    let p = u16_specs::wrapping_mul(count, x);
    let e = u16_specs::wrapping_sub(t1, p);
    let t2 = u16_specs::wrapping_add(s2, e);
    assert(p == q % 0x1_0000) by {
        lemma_wrapping_mul(count, x);
        assert(count * x == q) by (nonlinear_arith)
            requires
                x == c_out + CHAR_OFFSET,
                q == count * (c_out + CHAR_OFFSET),
        ;
    }
    assert(d == (c_in - c_out) % 0x1_0000) by {
        lemma_wrapping_sub(c_in as u16, c_out as u16);
    }
    assert(t1 == (s1 + d) % 0x1_0000) by {
        lemma_wrapping_add(s1, d);
    }
    assert(e == (t1 - p) % 0x1_0000) by {
        lemma_wrapping_sub(t1, p);
    }
    assert(t2 == (s2 + e) % 0x1_0000) by {
        lemma_wrapping_add(s2, e);
    }
    lemma_rotate_arith(count as int, s1 as int, s2 as int, q, c_out as int, c_in as int);
}

} // verus!
