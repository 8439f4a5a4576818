//! Weak rolling checksums: the first layer of finding similar blocks between
//! files, even with insertions or removals.
//!
//! A rolling sum stands for a window of bytes. It can take a byte in at the
//! leading end of the window and drop one from the trailing end in constant
//! time, without keeping the bytes themselves.

use crate::rollsum::arith::{
    lemma_add_biases, lemma_add_count, lemma_mod_add_left, lemma_roll_in_wrapping,
    lemma_roll_out_wrapping, lemma_rotate_wrapping, lemma_triangular_reduced,
    lemma_update_step_arith,
};
use crate::rollsum::model::{
    lemma_window_roll_in, lemma_window_roll_in_all, lemma_window_roll_out, lemma_window_rotate,
    triangular, RollState, CHAR_OFFSET,
};
use vstd::prelude::*;
use vstd::wrapping::u16_specs;

mod arith;
pub mod model;

verus! {

/// Generic rollsum algorithm trait.
///
/// Rollsums hold a checksum across a contiguous range of bytes, which can
/// roll forward through a file, adding a new byte to the right hand side
/// and, separately, removing one from the end.
pub trait Rollsum {
    /// Whether the sum is the one that stands for the window `w`.
    spec fn sums(&self, w: Seq<u8>) -> bool;

    /// The digest of the sum that stands for the window `w`.
    spec fn window_digest(w: Seq<u8>) -> u32;

    /// Return consolidated u32 rolling sum digest.
    fn digest(&self) -> (d: u32)
        ensures
            forall|w: Seq<u8>| #[trigger] self.sums(w) ==> d == Self::window_digest(w),
    ;

    /// Add one byte of data to the leading end of the rolling sum window.
    fn roll_in(&mut self, c_in: u8)
        ensures
            forall|w: Seq<u8>| #[trigger] old(self).sums(w) ==> final(self).sums(w.push(c_in)),
    ;

    /// Remove one byte of data from the trailing end of the rolling sum
    /// window. The caller gives the byte that leaves.
    fn roll_out(&mut self, c_out: u8)
        ensures
            forall|w: Seq<u8>|
                #[trigger] old(self).sums(w) && w.len() > 0 && w.first() == c_out
                    ==> final(self).sums(w.drop_first()),
    ;

    /// In a single operation add one byte to the leading end and remove one
    /// byte from the trailing end.
    fn rotate(&mut self, c_out: u8, c_in: u8)
        ensures
            forall|w: Seq<u8>|
                #[trigger] old(self).sums(w) && w.len() > 0 && w.first() == c_out
                    ==> final(self).sums(w.drop_first().push(c_in)),
    ;

    /// Add a slice of bytes to the rollsum state.
    fn update(&mut self, buf: &[u8])
        ensures
            forall|w: Seq<u8>| #[trigger] old(self).sums(w) ==> final(self).sums(w + buf@),
    ;
}

/// The rollsum algorithm used by rdiff 1.0 and 2.0.
#[derive(Debug, Copy, Clone)]
pub struct Rollsum1 {
    /// Truncated number of bytes included in the summed state.
    count: u16,
    /// s1 part of sum.
    s1: u16,
    /// s2 part of sum.
    s2: u16,
}

impl View for Rollsum1 {
    type V = RollState;

    closed spec fn view(&self) -> RollState {
        RollState { count: self.count as int, s1: self.s1 as int, s2: self.s2 as int }
    }
}

impl Default for Rollsum1 {
    /// A sum over no bytes.
    fn default() -> (rs: Rollsum1)
        ensures
            rs@ == RollState::zero(),
    {
        Rollsum1 { count: 0, s1: 0, s2: 0 }
    }
}

impl Rollsum1 {
    /// A sum over no bytes: it stands for the empty window.
    pub fn new() -> (rs: Rollsum1)
        ensures
            rs@ == RollState::zero(),
            rs.sums(Seq::empty()),
    {
        Rollsum1::default()
    }

    /// What a sum holds is always well formed.
    pub proof fn lemma_view_wf(self)
        ensures
            self@.wf(),
    {
    }

    /// Truncated number of bytes included in the summed state.
    pub fn count(&self) -> (count: u16)
        ensures
            count == self@.count,
    {
        self.count
    }

    /// s1 part of sum.
    pub fn s1(&self) -> (s1: u16)
        ensures
            s1 == self@.s1,
    {
        self.s1
    }

    /// s2 part of sum.
    pub fn s2(&self) -> (s2: u16)
        ensures
            s2 == self@.s2,
    {
        self.s2
    }
}

impl Rollsum for Rollsum1 {
    open spec fn sums(&self, w: Seq<u8>) -> bool {
        self@ == RollState::of_window(w)
    }

    open spec fn window_digest(w: Seq<u8>) -> u32 {
        RollState::of_window(w).digest() as u32
    }

    fn digest(&self) -> (d: u32)
        ensures
            d == self@.digest(),
    {
        let s1 = self.s1;
        let s2 = self.s2;
        assert(((s2 as u32) << 16 | (s1 as u32)) == s2 * 0x1_0000 + s1) by (bit_vector);
        (s2 as u32) << 16 | (s1 as u32)
    }

    fn roll_in(&mut self, c_in: u8)
        ensures
            final(self)@ == old(self)@.roll_in(c_in),
    {
        proof {
            lemma_roll_in_wrapping(self.count, self.s1, self.s2, c_in);
        }
        self.s1 = self.s1.wrapping_add(CHAR_OFFSET + c_in as u16);
        self.s2 = self.s2.wrapping_add(self.s1);
        self.count = self.count.wrapping_add(1);
        proof {
            lemma_sums_roll_in(*old(self), *self, c_in);
        }
    }

    fn roll_out(&mut self, c_out: u8)
        ensures
            final(self)@ == old(self)@.roll_out(c_out),
    {
        proof {
            lemma_roll_out_wrapping(self.count, self.s1, self.s2, c_out);
        }
        let c = c_out as u16 + CHAR_OFFSET;
        self.s1 = self.s1.wrapping_sub(c);
        self.s2 = self.s2.wrapping_sub(self.count.wrapping_mul(c));
        self.count = self.count.wrapping_sub(1);
        proof {
            lemma_sums_roll_out(*old(self), *self, c_out);
        }
    }

    fn rotate(&mut self, c_out: u8, c_in: u8)
        ensures
            final(self)@ == old(self)@.rotate(c_out, c_in),
    {
        proof {
            lemma_rotate_wrapping(self.count, self.s1, self.s2, c_out, c_in);
        }
        let d = (c_in as u16).wrapping_sub(c_out as u16);
        self.s1 = self.s1.wrapping_add(d);
        let p = self.count.wrapping_mul(c_out as u16 + CHAR_OFFSET);
        self.s2 = self.s2.wrapping_add(self.s1.wrapping_sub(p));
        proof {
            lemma_sums_rotate(*old(self), *self, c_out, c_in);
        }
    }

    fn update(&mut self, buf: &[u8])
        ensures
            final(self)@ == old(self)@.roll_in_all(buf@),
    {
        let ghost start = *self;
        let len = buf.len();
        // The bytes are summed without the bias, which is added afterwards
        // for all of them at once.
        let mut s1 = self.s1;
        let mut s2 = self.s2;
        let mut i: usize = 0;
        proof {
            lemma_update_start(start, buf@);
        }
        while i < len
            invariant
                i <= len,
                len == buf@.len(),
                update_inv(start@, buf@, i as int, s1, s2),
            decreases len - i,
        {
            proof {
                lemma_update_step(start@, buf@, i as int, s1, s2);
            }
            s1 = s1.wrapping_add(buf[i] as u16);
            s2 = s2.wrapping_add(s1);
            i += 1;
        }
        // Now add the corresponding char offsets: one for each byte to s1,
        // and to s2 one for each byte and each sum that it was in, which
        // makes a triangular number of them. Modulo 2^16 that number depends
        // on the low 17 bits of the length alone, and from them it is had
        // without overflow.
        let ll: u16 = (len % 0x1_0000) as u16;
        let m: u64 = (len % 0x2_0000) as u64;
        proof {
            lemma_triangular_reduced(len as nat, m as nat);
        }
        let trilen: u16 = ((m * (m + 1) / 2) % 0x1_0000) as u16;
        proof {
            lemma_update_wrapping(start, buf@, s1, s2, trilen);
        }
        s1 = s1.wrapping_add(ll.wrapping_mul(CHAR_OFFSET));
        s2 = s2.wrapping_add(trilen.wrapping_mul(CHAR_OFFSET));
        self.count = self.count.wrapping_add(ll);
        self.s1 = s1;
        self.s2 = s2;
        proof {
            lemma_sums_update(*old(self), *self, buf@);
        }
    }
}

/// What the loop of `update` keeps after `i` bytes of `buf`: the sums without
/// the bias, `s1` and `s2`, are `i` biases and `triangular(i)` biases behind
/// the sums with it.
#[verifier::opaque]
spec fn update_inv(start: RollState, buf: Seq<u8>, i: int, s1: u16, s2: u16) -> bool {
    let f = start.roll_in_all(buf.take(i));
    &&& (s1 + CHAR_OFFSET * i) % 0x1_0000 == f.s1
    &&& (s2 + CHAR_OFFSET * triangular(i as nat)) % 0x1_0000 == f.s2
    &&& (start.count + i) % 0x1_0000 == f.count
}

/// The loop of `update` starts with `update_inv`.
proof fn lemma_update_start(start: Rollsum1, buf: Seq<u8>)
    ensures
        update_inv(start@, buf, 0, start.s1, start.s2),
{
    reveal(update_inv);
    assert(buf.take(0).len() == 0);
    assert(triangular(0) == 0);
}

/// One turn of the loop of `update` keeps `update_inv`.
proof fn lemma_update_step(start: RollState, buf: Seq<u8>, i: int, s1: u16, s2: u16)
    requires
        0 <= i < buf.len(),
        update_inv(start, buf, i, s1, s2),
    ensures
        ({
            let t1 = u16_specs::wrapping_add(s1, buf[i] as u16);
            let t2 = u16_specs::wrapping_add(s2, t1);
            update_inv(start, buf, i + 1, t1, t2)
        }),
{
    reveal(update_inv);
    let x = buf[i];
    let seen = buf.take(i);
    let next = buf.take(i + 1);
    let f = start.roll_in_all(seen);
    assert(next.drop_last() =~= seen);
    assert(next.last() == x);
    assert(start.roll_in_all(next) == f.roll_in(x));
    let b1 = CHAR_OFFSET * i;
    let b2 = CHAR_OFFSET * triangular(i as nat);
    assert(triangular((i + 1) as nat) == i + 1 + triangular(i as nat));
    assert(CHAR_OFFSET * (i + 1) == b1 + CHAR_OFFSET);
    assert(CHAR_OFFSET * triangular((i + 1) as nat) == b2 + b1 + CHAR_OFFSET);
    lemma_update_step_arith(s1, s2, x, b1, b2, f.s1, f.s2);
    lemma_mod_add_left(start.count + i, 1);
}

/// The end of `update` as it is computed.
proof fn lemma_update_wrapping(start: Rollsum1, buf: Seq<u8>, s1: u16, s2: u16, trilen: u16)
    requires
        update_inv(start@, buf, buf.len() as int, s1, s2),
        trilen == triangular(buf.len()) % 0x1_0000,
    ensures
        ({
            let ll = (buf.len() % 0x1_0000) as u16;
            let t1 = u16_specs::wrapping_add(s1, u16_specs::wrapping_mul(ll, CHAR_OFFSET));
            let t2 = u16_specs::wrapping_add(s2, u16_specs::wrapping_mul(trilen, CHAR_OFFSET));
            let c = u16_specs::wrapping_add(start.count, ll);
            start@.roll_in_all(buf) == RollState { count: c as int, s1: t1 as int, s2: t2 as int }
        }),
{
    reveal(update_inv);
    assert(buf.take(buf.len() as int) =~= buf);
    lemma_add_biases(s1, buf.len());
    lemma_add_biases(s2, triangular(buf.len()));
    lemma_add_count(start.count, buf.len());
}

/// A sum that stood for a window stands, after `roll_in`, for the window with
/// the byte added at its end.
proof fn lemma_sums_roll_in(before: Rollsum1, after: Rollsum1, c_in: u8)
    requires
        after@ == before@.roll_in(c_in),
    ensures
        forall|w: Seq<u8>| #[trigger] before.sums(w) ==> after.sums(w.push(c_in)),
{
    assert forall|w: Seq<u8>| #[trigger] before.sums(w) implies after.sums(w.push(c_in)) by {
        lemma_window_roll_in(w, c_in);
    }
}

/// A sum that stood for a window stands, after `roll_out` of the first byte
/// of the window, for the rest of the window.
proof fn lemma_sums_roll_out(before: Rollsum1, after: Rollsum1, c_out: u8)
    requires
        after@ == before@.roll_out(c_out),
    ensures
        forall|w: Seq<u8>|
            #[trigger] before.sums(w) && w.len() > 0 && w.first() == c_out ==> after.sums(
                w.drop_first(),
            ),
{
    assert forall|w: Seq<u8>|
        #[trigger] before.sums(w) && w.len() > 0 && w.first() == c_out implies after.sums(
        w.drop_first(),
    ) by {
        lemma_window_roll_out(w);
    }
}

/// A sum that stood for a window stands, after `rotate` with the first byte
/// of the window, for the window moved on by one byte.
proof fn lemma_sums_rotate(before: Rollsum1, after: Rollsum1, c_out: u8, c_in: u8)
    requires
        after@ == before@.rotate(c_out, c_in),
    ensures
        forall|w: Seq<u8>|
            #[trigger] before.sums(w) && w.len() > 0 && w.first() == c_out ==> after.sums(
                w.drop_first().push(c_in),
            ),
{
    assert forall|w: Seq<u8>|
        #[trigger] before.sums(w) && w.len() > 0 && w.first() == c_out implies after.sums(
        w.drop_first().push(c_in),
    ) by {
        lemma_window_rotate(w, c_in);
    }
}

/// A sum that stood for a window stands, after `update`, for the window with
/// the bytes added at its end.
proof fn lemma_sums_update(before: Rollsum1, after: Rollsum1, bytes: Seq<u8>)
    requires
        after@ == before@.roll_in_all(bytes),
    ensures
        forall|w: Seq<u8>| #[trigger] before.sums(w) ==> after.sums(w + bytes),
{
    assert forall|w: Seq<u8>| #[trigger] before.sums(w) implies after.sums(w + bytes) by {
        lemma_window_roll_in_all(w, bytes);
    }
}

} // verus!
