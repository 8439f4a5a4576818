//! The signature format, as mathematics: the bytes of a signature of given
//! data, and how many there are.
//!
//! A signature is a header of three big-endian `u32` (magic number, block
//! length, strong sum length) and then, for each block of the basis, a
//! record: the weak sum of the block as a big-endian `u32` and the leading
//! bytes of its strong sum. Every block has the block length, but the last,
//! which may be shorter.

use crate::mksum::trusted::blake2b;
use crate::mksum::{SignatureOptions, HEADER_LEN, RS_MAX_STRONG_SUM_LENGTH};
use crate::rollsum::model::RollState;
use vstd::prelude::*;

verus! {

/// The four bytes of `x`, most significant first.
pub open spec fn be_bytes(x: u32) -> Seq<u8> {
    seq![
        (x / 0x100_0000) as u8,
        (x / 0x1_0000 % 0x100) as u8,
        (x / 0x100 % 0x100) as u8,
        (x % 0x100) as u8,
    ]
}

/// The weak sum of a block: the digest of a rolling sum that took in the
/// bytes of the block, and nothing else.
pub open spec fn weak_sum(block: Seq<u8>) -> u32 {
    RollState::zero().roll_in_all(block).digest() as u32
}

/// The strong sum of a block, cut to `strong_len` bytes: the leading bytes
/// of the BLAKE2b hash of the block, made for `RS_MAX_STRONG_SUM_LENGTH`
/// bytes.
pub open spec fn strong_sum(block: Seq<u8>, strong_len: u32) -> Seq<u8> {
    blake2b(block, RS_MAX_STRONG_SUM_LENGTH).take(strong_len as int)
}

/// The record of a block in a signature: its weak sum, then its strong sum.
pub open spec fn record(block: Seq<u8>, strong_len: u32) -> Seq<u8> {
    be_bytes(weak_sum(block)) + strong_sum(block, strong_len)
}

/// The header of a signature made with the options `o`.
pub open spec fn header(o: SignatureOptions) -> Seq<u8> {
    be_bytes(o.magic.to_u32()) + be_bytes(o.block_len) + be_bytes(o.strong_len)
}

/// The blocks of `data`, in order: blocks of `block_len` bytes, and a shorter
/// one for what is left at the end, if anything is.
pub open spec fn blocks(data: Seq<u8>, block_len: nat) -> Seq<Seq<u8>>
    decreases data.len(),
{
    if data.len() == 0 || block_len == 0 {
        Seq::empty()
    } else if data.len() <= block_len {
        seq![data]
    } else {
        seq![data.take(block_len as int)] + blocks(data.skip(block_len as int), block_len)
    }
}

/// The records of `blocks`, one after the other.
pub open spec fn records_of(blocks: Seq<Seq<u8>>, strong_len: u32) -> Seq<u8>
    decreases blocks.len(),
{
    if blocks.len() == 0 {
        Seq::empty()
    } else {
        record(blocks.first(), strong_len) + records_of(blocks.drop_first(), strong_len)
    }
}

/// The records of a signature of `data`: one for each block of `data`, in
/// order.
pub open spec fn records(data: Seq<u8>, o: SignatureOptions) -> Seq<u8> {
    records_of(blocks(data, o.block_len as nat), o.strong_len)
}

/// The signature of `data` made with the options `o`.
pub open spec fn signature(data: Seq<u8>, o: SignatureOptions) -> Seq<u8> {
    header(o) + records(data, o)
}

/// Length of a record of a signature made with the options `o`.
pub open spec fn record_len(o: SignatureOptions) -> nat {
    (4 + o.strong_len) as nat
}

/// Number of blocks in `len` bytes: `len / block_len`, rounded up.
pub open spec fn block_count(len: nat, block_len: nat) -> nat {
    if block_len == 0 {
        0
    } else {
        (len + block_len - 1) as nat / block_len
    }
}

/// Length of the signature of `len` bytes made with the options `o`.
pub open spec fn signature_len(len: nat, o: SignatureOptions) -> nat {
    HEADER_LEN as nat + block_count(len, o.block_len as nat) * record_len(o)
}

/// Data of no more than a block, and not empty, is one block.
pub(crate) proof fn lemma_one_block(data: Seq<u8>, o: SignatureOptions)
    requires
        0 < data.len() <= o.block_len,
    ensures
        blocks(data, o.block_len as nat) == seq![data],
        records(data, o) == record(data, o.strong_len),
{
    let one = seq![data];
    assert(one.first() == data);
    assert(one.drop_first() =~= Seq::<Seq<u8>>::empty());
    assert(records_of(one.drop_first(), o.strong_len) =~= Seq::<u8>::empty());
    assert(records_of(one, o.strong_len) =~= record(data, o.strong_len));
}

/// The records of blocks that follow other blocks follow their records.
pub proof fn lemma_records_of_append(x: Seq<Seq<u8>>, y: Seq<Seq<u8>>, strong_len: u32)
    ensures
        records_of(x + y, strong_len) == records_of(x, strong_len) + records_of(y, strong_len),
    decreases x.len(),
{
    if x.len() == 0 {
        assert(x + y =~= y);
        assert(records_of(x, strong_len) + records_of(y, strong_len) =~= records_of(y, strong_len));
    } else {
        let r = record(x.first(), strong_len);
        assert((x + y).first() == x.first());
        assert((x + y).drop_first() =~= x.drop_first() + y);
        lemma_records_of_append(x.drop_first(), y, strong_len);
        assert(r + (records_of(x.drop_first(), strong_len) + records_of(y, strong_len)) =~= (r
            + records_of(x.drop_first(), strong_len)) + records_of(y, strong_len));
    }
}

/// The blocks of data that ends with a whole block are followed, in the
/// blocks of longer data, by the blocks of what was added.
pub proof fn lemma_blocks_append(a: Seq<u8>, b: Seq<u8>, block_len: nat, k: nat)
    requires
        block_len > 0,
        a.len() == k * block_len,
    ensures
        blocks(a + b, block_len) == blocks(a, block_len) + blocks(b, block_len),
    decreases k,
{
    let n = block_len as int;
    if k == 0 {
        assert(k * n == 0) by (nonlinear_arith)
            requires
                k == 0,
        ;
        assert(a + b =~= b);
        assert(blocks(a, block_len) + blocks(b, block_len) =~= blocks(b, block_len));
    } else {
        assert(k * n == (k - 1) * n + n) by (nonlinear_arith);
        assert((k - 1) * n >= 0) by (nonlinear_arith)
            requires
                k >= 1,
                n > 0,
        ;
        let first = a.take(n);
        let rest = a.skip(n);
        assert((a + b).take(n) =~= first);
        assert((a + b).skip(n) =~= rest + b);
        lemma_blocks_append(rest, b, block_len, (k - 1) as nat);
        if a.len() == n {
            assert(first =~= a);
            assert(blocks(rest, block_len) =~= Seq::<Seq<u8>>::empty());
            if b.len() == 0 {
                assert(a + b =~= a);
                assert(blocks(a, block_len) + blocks(b, block_len) =~= blocks(a, block_len));
            } else {
                assert(blocks(rest + b, block_len) =~= blocks(b, block_len));
            }
        } else {
            assert(blocks(a, block_len) == seq![first] + blocks(rest, block_len));
            assert(blocks(a + b, block_len) == seq![first] + blocks(rest + b, block_len));
            assert(seq![first] + (blocks(rest, block_len) + blocks(b, block_len)) =~= (seq![first]
                + blocks(rest, block_len)) + blocks(b, block_len));
        }
    }
}

/// The records of data that ends with a whole block are followed, in the
/// records of longer data, by the records of what was added.
pub proof fn lemma_records_append(a: Seq<u8>, b: Seq<u8>, o: SignatureOptions, k: nat)
    requires
        o.block_len > 0,
        a.len() == k * o.block_len,
    ensures
        records(a + b, o) == records(a, o) + records(b, o),
{
    let n = o.block_len as nat;
    lemma_blocks_append(a, b, n, k);
    lemma_records_of_append(blocks(a, n), blocks(b, n), o.strong_len);
}

/// There are `block_count` blocks in data.
pub proof fn lemma_blocks_len(data: Seq<u8>, block_len: nat)
    requires
        block_len > 0,
    ensures
        blocks(data, block_len).len() == block_count(data.len(), block_len),
    decreases data.len(),
{
    let n = block_len as int;
    let len = data.len() as int;
    if len == 0 {
        vstd::arithmetic::div_mod::lemma_fundamental_div_mod_converse(n - 1, n, 0, n - 1);
    } else if len <= n {
        vstd::arithmetic::div_mod::lemma_fundamental_div_mod_converse(len + n - 1, n, 1, len - 1);
    } else {
        lemma_blocks_len(data.skip(n), block_len);
        vstd::arithmetic::div_mod::lemma_div_plus_one(len - 1, n);
    }
}

/// Block `i` of data is its bytes from `i * block_len` on: `block_len` of
/// them, or as many as there are, which is at least one. So every block but
/// the last has `block_len` bytes, and the last is not empty.
pub proof fn lemma_block_at(data: Seq<u8>, block_len: nat, i: int)
    requires
        block_len > 0,
        0 <= i < blocks(data, block_len).len(),
    ensures
        i * block_len < data.len(),
        blocks(data, block_len)[i] == data.subrange(
            i * block_len,
            if (i + 1) * block_len <= data.len() {
                (i + 1) * block_len
            } else {
                data.len() as int
            },
        ),
    decreases data.len(),
{
    let n = block_len as int;
    let len = data.len() as int;
    assert(0 * n == 0) by (nonlinear_arith);
    assert((0 + 1) * n == n) by (nonlinear_arith);
    assert((i + 1) * n == i * n + n) by (nonlinear_arith);
    if len <= n {
        assert(i == 0);
        assert(data.subrange(0, len) =~= data);
    } else if i == 0 {
    } else {
        let rest = data.skip(n);
        assert(blocks(data, block_len)[i] == blocks(rest, block_len)[i - 1]);
        lemma_block_at(rest, block_len, i - 1);
        assert((i - 1) * n == i * n - n) by (nonlinear_arith);
        assert((i - 1 + 1) * n == i * n) by (nonlinear_arith);
        if (i + 1) * n <= len {
            assert(rest.subrange(i * n - n, i * n) =~= data.subrange(i * n, i * n + n));
        } else {
            assert(rest.subrange(i * n - n, len - n) =~= data.subrange(i * n, len));
        }
    }
}

/// The number of blocks in `k` whole blocks and `p` more bytes, which are
/// fewer than a block: `k`, and one more if `p` is not zero.
pub proof fn lemma_block_count_split(k: nat, p: nat, block_len: nat)
    requires
        block_len > 0,
        p < block_len,
    ensures
        block_count(k * block_len + p, block_len) == if p == 0 {
            k
        } else {
            k + 1
        },
{
    let n = block_len as int;
    let len = k * n + p;
    assert(k * n >= 0) by (nonlinear_arith)
        requires
            n > 0,
    ;
    if p == 0 {
        vstd::arithmetic::div_mod::lemma_fundamental_div_mod_converse(
            len + n - 1,
            n,
            k as int,
            n - 1,
        );
    } else {
        assert((k + 1) * n == k * n + n) by (nonlinear_arith);
        vstd::arithmetic::div_mod::lemma_fundamental_div_mod_converse(
            len + n - 1,
            n,
            k as int + 1,
            p - 1,
        );
    }
}

/// `block_count` rounds up: no bytes make no block, and `len > 0` bytes make
/// the least number of blocks of `block_len` bytes that hold them all.
pub proof fn lemma_block_count_rounds_up(len: nat, block_len: nat)
    requires
        block_len > 0,
    ensures
        len == 0 ==> block_count(len, block_len) == 0,
        len > 0 ==> (block_count(len, block_len) - 1) * block_len < len <= block_count(
            len,
            block_len,
        ) * block_len,
{
    let n = block_len as int;
    let k = len as int / n;
    let p = len as int % n;
    vstd::arithmetic::div_mod::lemma_fundamental_div_mod(len as int, n);
    vstd::arithmetic::div_mod::lemma_mod_bound(len as int, n);
    assert(n * k == k * n) by (nonlinear_arith);
    assert(k >= 0) by (nonlinear_arith)
        requires
            n * k + p == len,
            0 <= p < n,
            n > 0,
    ;
    lemma_block_count_split(k as nat, p as nat, block_len);
    if p == 0 {
        assert((k - 1) * n == k * n - n) by (nonlinear_arith);
    } else {
        assert((k + 1) * n == k * n + n) by (nonlinear_arith);
        assert((k + 1 - 1) * n == k * n) by (nonlinear_arith);
    }
}

} // verus!
