//! The rolling sum as mathematics: what a sum holds, what each operation
//! makes of it, and the sums of a window of bytes that it stands for.

use crate::rollsum::arith::{
    lemma_mod_add_left, lemma_mod_add_right, lemma_mod_sub_left, lemma_mod_sub_right,
};
use vstd::prelude::*;

verus! {

/// Bias added to each byte as it enters a sum, so that a window of zero bytes
/// does not sum to zero.
pub const CHAR_OFFSET: u16 = 31;

/// What a [`Rollsum1`] holds, as mathematical integers.
///
/// All three are kept modulo 2^16: see [`RollState::wf`].
pub struct RollState {
    /// Number of bytes in the window.
    pub count: int,
    /// Sum of the biased bytes of the window.
    pub s1: int,
    /// Sum of the values that `s1` took as each byte of the window came in.
    pub s2: int,
}

/// Sum of the bytes of `w`, each with [`CHAR_OFFSET`] added.
pub open spec fn byte_sum(w: Seq<u8>) -> int
    decreases w.len(),
{
    if w.len() == 0 {
        0
    } else {
        byte_sum(w.drop_last()) + w.last() + CHAR_OFFSET
    }
}

/// Sum of [`byte_sum`] over the non-empty prefixes of `w`: each biased byte
/// counts once for itself and once for every byte that follows it.
pub open spec fn prefix_sum(w: Seq<u8>) -> int
    decreases w.len(),
{
    if w.len() == 0 {
        0
    } else {
        prefix_sum(w.drop_last()) + byte_sum(w)
    }
}

/// The `n`th triangular number, `1 + 2 + .. + n`.
pub open spec fn triangular(n: nat) -> nat
    decreases n,
{
    if n == 0 {
        0
    } else {
        n + triangular((n - 1) as nat)
    }
}

impl RollState {
    /// The state of a sum over no bytes.
    pub open spec fn zero() -> RollState {
        RollState { count: 0, s1: 0, s2: 0 }
    }

    /// Each part lies in the range of a `u16`.
    pub open spec fn wf(self) -> bool {
        &&& 0 <= self.count < 0x1_0000
        &&& 0 <= self.s1 < 0x1_0000
        &&& 0 <= self.s2 < 0x1_0000
    }

    /// The state of a sum whose window is `w`.
    pub open spec fn of_window(w: Seq<u8>) -> RollState {
        RollState {
            count: (w.len() % 0x1_0000) as int,
            s1: byte_sum(w) % 0x1_0000,
            s2: prefix_sum(w) % 0x1_0000,
        }
    }

    /// The two sums as one number: `s2` in the upper 16 bits, `s1` in the
    /// lower.
    pub open spec fn digest(self) -> int {
        self.s2 * 0x1_0000 + self.s1
    }

    /// The state after the byte `c` came in at the leading end.
    pub open spec fn roll_in(self, c: u8) -> RollState {
        let s1 = (self.s1 + c + CHAR_OFFSET) % 0x1_0000;
        RollState { count: (self.count + 1) % 0x1_0000, s1, s2: (self.s2 + s1) % 0x1_0000 }
    }

    /// The state after the byte `c` left at the trailing end.
    pub open spec fn roll_out(self, c: u8) -> RollState {
        RollState {
            count: (self.count - 1) % 0x1_0000,
            s1: (self.s1 - (c + CHAR_OFFSET)) % 0x1_0000,
            s2: (self.s2 - self.count * (c + CHAR_OFFSET)) % 0x1_0000,
        }
    }

    /// The state after `c_out` left at the trailing end and `c_in` came in at
    /// the leading end.
    pub open spec fn rotate(self, c_out: u8, c_in: u8) -> RollState {
        self.roll_out(c_out).roll_in(c_in)
    }

    /// The state after the bytes of `bytes` came in one by one, first to
    /// last.
    pub open spec fn roll_in_all(self, bytes: Seq<u8>) -> RollState
        decreases bytes.len(),
    {
        if bytes.len() == 0 {
            self
        } else {
            self.roll_in_all(bytes.drop_last()).roll_in(bytes.last())
        }
    }

    /// The state after the bytes of `bytes` left one by one, first to last.
    pub open spec fn roll_out_all(self, bytes: Seq<u8>) -> RollState
        decreases bytes.len(),
    {
        if bytes.len() == 0 {
            self
        } else {
            self.roll_out(bytes.first()).roll_out_all(bytes.drop_first())
        }
    }
}

/// Twice the `n`th triangular number is `n * (n + 1)`.
pub proof fn lemma_triangular_closed_form(n: nat)
    ensures
        2 * triangular(n) == n * (n + 1),
    decreases n,
{
    if n == 0 {
        assert(n * (n + 1) == 0) by (nonlinear_arith)
            requires
                n == 0,
        ;
    } else {
        let m = (n - 1) as nat;
        lemma_triangular_closed_form(m);
        assert(triangular(n) == n + triangular(m));
        assert(m * (m + 1) + 2 * n == n * (n + 1)) by (nonlinear_arith)
            requires
                m == n - 1,
        ;
    }
}

/// The sums of a non-empty window, split at its first byte, which counts
/// once in `byte_sum` and once for each byte of the window in `prefix_sum`.
proof fn lemma_sums_split_first(w: Seq<u8>)
    requires
        w.len() > 0,
    ensures
        byte_sum(w) == w.first() + CHAR_OFFSET + byte_sum(w.drop_first()),
        prefix_sum(w) == w.len() * (w.first() + CHAR_OFFSET) + prefix_sum(w.drop_first()),
    decreases w.len(),
{
    let x = w.first() + CHAR_OFFSET;
    let n = w.len() as int;
    let v = w.drop_last();
    let t = w.drop_first();
    assert(byte_sum(w) == byte_sum(v) + w.last() + CHAR_OFFSET);
    assert(prefix_sum(w) == prefix_sum(v) + byte_sum(w));
    if w.len() == 1 {
        assert(byte_sum(v) == 0);
        assert(prefix_sum(v) == 0);
        assert(byte_sum(t) == 0);
        assert(prefix_sum(t) == 0);
        assert(w.last() == w.first());
    } else {
        lemma_sums_split_first(v);
        assert(v.first() == w.first());
        assert(t.drop_last() =~= v.drop_first());
        assert(t.last() == w.last());
        assert(byte_sum(t) == byte_sum(t.drop_last()) + t.last() + CHAR_OFFSET);
        assert(prefix_sum(t) == prefix_sum(t.drop_last()) + byte_sum(t));
        assert((n - 1) * x + x == n * x) by (nonlinear_arith);
    }
}

/// Taking a byte in turns the state of a window into the state of the window
/// with that byte added at its end.
pub proof fn lemma_window_roll_in(w: Seq<u8>, c: u8)
    ensures
        RollState::of_window(w).roll_in(c) == RollState::of_window(w.push(c)),
{
    let v = w.push(c);
    let before = RollState::of_window(w);
    let after = before.roll_in(c);
    assert(v.drop_last() =~= w);
    assert(v.last() == c);
    assert(byte_sum(v) == byte_sum(w) + c + CHAR_OFFSET);
    assert(prefix_sum(v) == prefix_sum(w) + byte_sum(v));
    assert(after.count == (v.len() % 0x1_0000) as int) by {
        lemma_mod_add_left(w.len() as int, 1);
    }
    assert(after.s1 == byte_sum(v) % 0x1_0000) by {
        lemma_mod_add_left(byte_sum(w), c + CHAR_OFFSET);
        assert(before.s1 + c + CHAR_OFFSET == byte_sum(w) % 0x1_0000 + (c + CHAR_OFFSET));
        assert(byte_sum(w) + (c + CHAR_OFFSET) == byte_sum(v));
    }
    assert(after.s2 == prefix_sum(v) % 0x1_0000) by {
        lemma_mod_add_left(prefix_sum(w), after.s1);
        lemma_mod_add_right(prefix_sum(w), byte_sum(v));
    }
}

/// Dropping the first byte of a non-empty window turns its state into the
/// state of the rest of the window.
pub proof fn lemma_window_roll_out(w: Seq<u8>)
    requires
        w.len() > 0,
    ensures
        RollState::of_window(w).roll_out(w.first()) == RollState::of_window(w.drop_first()),
{
    lemma_sums_split_first(w);
    let x = w.first() + CHAR_OFFSET;
    let n = w.len() as int;
    let m = n % 0x1_0000;
    let t = w.drop_first();
    let before = RollState::of_window(w);
    let after = before.roll_out(w.first());
    assert(before.count == m);
    assert(after.count == (t.len() % 0x1_0000) as int) by {
        lemma_mod_sub_left(n, 1);
        assert(t.len() == n - 1);
    }
    assert(after.s1 == byte_sum(t) % 0x1_0000) by {
        lemma_mod_sub_left(byte_sum(w), x);
        assert(byte_sum(w) - x == byte_sum(t));
    }
    assert(after.s2 == prefix_sum(t) % 0x1_0000) by {
        // The count is reduced, the product is not: the difference is the
        // same modulo 2^16.
        lemma_mod_sub_left(prefix_sum(w), m * x);
        lemma_mod_sub_right(prefix_sum(w), m * x);
        vstd::arithmetic::div_mod::lemma_mul_mod_noop_left(n, x, 0x1_0000);
        lemma_mod_sub_right(prefix_sum(w), n * x);
        assert(prefix_sum(w) - n * x == prefix_sum(t));
    }
}

/// Sliding a non-empty window forward by one byte: its first byte leaves, and
/// `c_in` comes in at its end.
pub proof fn lemma_window_rotate(w: Seq<u8>, c_in: u8)
    requires
        w.len() > 0,
    ensures
        RollState::of_window(w).rotate(w.first(), c_in) == RollState::of_window(
            w.drop_first().push(c_in),
        ),
{
    lemma_window_roll_out(w);
    lemma_window_roll_in(w.drop_first(), c_in);
}

/// Taking bytes in one by one turns the state of a window into the state of
/// the window with those bytes added at its end.
pub proof fn lemma_window_roll_in_all(w: Seq<u8>, bytes: Seq<u8>)
    ensures
        RollState::of_window(w).roll_in_all(bytes) == RollState::of_window(w + bytes),
    decreases bytes.len(),
{
    if bytes.len() == 0 {
        assert(w + bytes =~= w);
    } else {
        lemma_window_roll_in_all(w, bytes.drop_last());
        lemma_window_roll_in(w + bytes.drop_last(), bytes.last());
        assert((w + bytes.drop_last()).push(bytes.last()) =~= w + bytes);
    }
}

/// Rolling all the bytes of a window out, first to last, leaves the state of
/// an empty sum.
pub proof fn lemma_window_roll_out_all(w: Seq<u8>)
    ensures
        RollState::of_window(w).roll_out_all(w) == RollState::zero(),
    decreases w.len(),
{
    if w.len() == 0 {
    } else {
        lemma_window_roll_out(w);
        lemma_window_roll_out_all(w.drop_first());
    }
}

/// Rolling bytes into an empty sum and then rolling the same bytes out, in
/// the same order, leaves the sum empty again: its count and its digest are
/// zero.
pub proof fn lemma_roll_in_then_out(bytes: Seq<u8>)
    ensures
        RollState::zero().roll_in_all(bytes).roll_out_all(bytes) == RollState::zero(),
        RollState::zero().roll_in_all(bytes).roll_out_all(bytes).count == 0,
        RollState::zero().roll_in_all(bytes).roll_out_all(bytes).digest() == 0,
{
    let empty = Seq::<u8>::empty();
    assert(RollState::of_window(empty) == RollState::zero());
    lemma_window_roll_in_all(empty, bytes);
    assert(empty + bytes =~= bytes);
    lemma_window_roll_out_all(bytes);
}

} // verus!
