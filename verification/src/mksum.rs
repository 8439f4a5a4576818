//! Generate file signatures.
//!
//! Signatures describe a 'base' or 'old' file, and allow deltas to be
//! generated without access to the old file.
//!
//! [`generate_signature`] makes the signature of a basis that is in memory.
//! [`SignatureJob`] makes it from a stream, block by block, for a caller who
//! does the reads and the writes.

use crate::magic::SignatureFormat;
use crate::mksum::format::{
    be_bytes, header, lemma_block_count_split, lemma_one_block, lemma_records_append, record,
    record_len, records, signature, signature_len,
};
use crate::mksum::trusted::{blake2b_sum, usize_from_u32, write_u32be};
use crate::rollsum::{Rollsum, Rollsum1};
use crate::DEFAULT_BLOCK_LEN;
use vstd::prelude::*;
use vstd::slice::slice_subrange;

pub mod format;
pub mod trusted;

verus! {

/// Length of a whole strong sum, in bytes. Must match that in rdiff.
pub const RS_MAX_STRONG_SUM_LENGTH: usize = 32;

/// Length of the header of a signature, in bytes.
pub const HEADER_LEN: usize = 12;

/// Configuration options for a generated signature file.
///
/// The values from `SignatureOptions::default()` are usually good, but
/// applications might want to set the `block_len`.
#[derive(Debug, Copy, Clone)]
pub struct SignatureOptions {
    /// Format of the signature, identified by its magic number.
    pub magic: SignatureFormat,
    /// Length of a block in bytes.
    ///
    /// Smaller blocks produce larger signatures because there are more
    /// blocks, but allow matching smaller common regions between files.
    pub block_len: u32,
    /// Length of strong signatures.
    ///
    /// This is normally best left at the default, which is the strong hash,
    /// but they may be truncated to get smaller signatures although with a
    /// risk of exploitable collisions.
    pub strong_len: u32,
}

impl SignatureOptions {
    /// Options that a signature can be made with: blocks are not empty, and
    /// no more is kept of a strong sum than it has.
    pub open spec fn valid(&self) -> bool {
        &&& self.block_len > 0
        &&& self.strong_len <= RS_MAX_STRONG_SUM_LENGTH
    }

    /// BLAKE2 signatures of blocks of `DEFAULT_BLOCK_LEN` bytes, with whole
    /// strong sums.
    pub fn default() -> (options: SignatureOptions)
        ensures
            options.magic == SignatureFormat::Blake2Sig,
            options.block_len == DEFAULT_BLOCK_LEN,
            options.strong_len == RS_MAX_STRONG_SUM_LENGTH,
            options.valid(),
    {
        SignatureOptions {
            magic: SignatureFormat::Blake2Sig,
            block_len: DEFAULT_BLOCK_LEN,
            strong_len: RS_MAX_STRONG_SUM_LENGTH as u32,
        }
    }

    /// The same options, but for the length of strong sums, which is `s`.
    ///
    /// Any `s` is taken: whether a signature can be made with the result is
    /// for [`SignatureOptions::is_valid`] to say.
    pub fn with_strong_len(self, s: u32) -> (options: SignatureOptions)
        ensures
            options == (SignatureOptions { strong_len: s, ..self }),
    {
        SignatureOptions { strong_len: s, ..self }
    }

    /// Whether a signature can be made with these options.
    pub fn is_valid(&self) -> (ok: bool)
        ensures
            ok == self.valid(),
    {
        self.block_len > 0 && self.strong_len <= RS_MAX_STRONG_SUM_LENGTH as u32
    }
}

/// Adds the bytes of `bytes` at the end of `out`.
fn append_slice(out: &mut Vec<u8>, bytes: &[u8])
    ensures
        final(out)@ == old(out)@ + bytes@,
{
    out.extend_from_slice(bytes);
    assert(out@ =~= old(out)@ + bytes@);
}

/// The header of a signature made with `options`.
pub fn signature_header(options: &SignatureOptions) -> (bytes: Vec<u8>)
    ensures
        bytes@ == header(*options),
        bytes@.len() == HEADER_LEN,
{
    let mut bytes = write_u32be(options.magic.to_u32());
    let mut block_len = write_u32be(options.block_len);
    let mut strong_len = write_u32be(options.strong_len);
    bytes.append(&mut block_len);
    bytes.append(&mut strong_len);
    bytes
}

/// The record of a block whose weak sum is `weak` and whose whole strong sum
/// is `strong`: `weak` as a big-endian `u32`, then the first `strong_len`
/// bytes of `strong`.
pub fn encode_record(weak: u32, strong: &[u8], strong_len: u32) -> (bytes: Vec<u8>)
    requires
        strong_len <= strong@.len(),
    ensures
        bytes@ == be_bytes(weak) + strong@.take(strong_len as int),
        bytes@.len() == 4 + strong_len,
{
    let mut bytes = write_u32be(weak);
    let kept = slice_subrange(strong, 0, usize_from_u32(strong_len));
    append_slice(&mut bytes, kept);
    bytes
}

/// The record of `block` in a signature made with `options`.
pub fn block_signature(block: &[u8], options: &SignatureOptions) -> (bytes: Vec<u8>)
    requires
        options.strong_len <= RS_MAX_STRONG_SUM_LENGTH,
    ensures
        bytes@ == record(block@, options.strong_len),
        bytes@.len() == record_len(*options),
{
    let mut rs = Rollsum1::new();
    rs.update(block);
    let weak = rs.digest();
    // C rdiff uses the slightly odd thing of specifying the 'max' (32) as the
    // hasher output length, then throwing away some of the digest. OK.
    let strong = blake2b_sum(block, RS_MAX_STRONG_SUM_LENGTH);
    encode_record(weak, strong.as_slice(), options.strong_len)
}

/// The making of a signature from a stream, put as a machine that is fed
/// what each read of the basis gave and that gives back what is to be
/// written to the signature.
///
/// The one who drives it makes the job, writes the bytes that come with it,
/// and then, as long as [`SignatureJob::wanted`] gives a number, reads at
/// most that many bytes from the basis, feeds the job what was read (nothing,
/// at the end of the basis), and writes what the job gives back. A read that
/// gives less than was asked for is no end: the job fills its block from the
/// reads that follow, and it is the read that gives nothing that ends the
/// block and the signature.
pub struct SignatureJob {
    options: SignatureOptions,
    /// The bytes of the block that is being filled.
    block: Vec<u8>,
    /// Whether the end of the basis was seen.
    done: bool,
    /// The number of whole blocks that were taken in.
    blocks: Ghost<nat>,
    /// All the bytes that were taken in.
    input: Ghost<Seq<u8>>,
    /// All the bytes that were given out.
    output: Ghost<Seq<u8>>,
}

impl SignatureJob {
    /// The options that the job was made with.
    pub closed spec fn options(&self) -> SignatureOptions {
        self.options
    }

    /// Whether the job has seen the end of the basis.
    pub closed spec fn finished(&self) -> bool {
        self.done
    }

    /// The number of whole blocks whose records the job has given out.
    pub closed spec fn blocks(&self) -> nat {
        self.blocks@
    }

    /// The bytes that the job has of the block that it is filling.
    pub closed spec fn pending(&self) -> Seq<u8> {
        self.block@
    }

    /// All the bytes of the basis that the job was fed, in order.
    pub closed spec fn input(&self) -> Seq<u8> {
        self.input@
    }

    /// All the bytes that the job has given out, in order, from the header
    /// on.
    pub closed spec fn output(&self) -> Seq<u8> {
        self.output@
    }

    /// What holds of a job at every moment. Until the end of the basis, its
    /// input is some whole blocks and then the bytes of the block that it is
    /// filling, and its output is the header and the records of the whole
    /// blocks. From then on its output is the signature of its input.
    pub open spec fn inv(&self) -> bool {
        let o = self.options();
        let whole = self.blocks() * o.block_len;
        &&& o.valid()
        &&& if self.finished() {
            &&& self.output() == signature(self.input(), o)
            &&& self.output().len() == signature_len(self.input().len(), o)
        } else {
            &&& self.pending().len() < o.block_len
            &&& self.input().len() == whole + self.pending().len()
            &&& self.pending() == self.input().skip(whole as int)
            &&& self.output() == header(o) + records(self.input().take(whole as int), o)
            &&& self.output().len() == HEADER_LEN + self.blocks() * record_len(o)
        }
    }

    /// What a job that has not seen the end of the basis gives out when it is
    /// fed `data`: the record of the block that it was filling, if `data`
    /// ends that block, by filling it or by being empty; else nothing.
    pub open spec fn feed_output(&self, data: Seq<u8>) -> Seq<u8> {
        let block = self.pending() + data;
        if block.len() > 0 && (data.len() == 0 || block.len() == self.options().block_len) {
            record(block, self.options().strong_len)
        } else {
            Seq::empty()
        }
    }

    /// A job that makes a signature with `options`, and the header of the
    /// signature, which is to be written first.
    pub fn new(options: &SignatureOptions) -> (r: (SignatureJob, Vec<u8>))
        requires
            options.valid(),
        ensures
            r.0.inv(),
            r.0.options() == *options,
            !r.0.finished(),
            r.0.input() == Seq::<u8>::empty(),
            r.0.output() == r.1@,
            r.1@ == header(*options),
    {
        let head = signature_header(options);
        let job = SignatureJob {
            options: *options,
            block: Vec::new(),
            done: false,
            blocks: Ghost(0),
            input: Ghost(Seq::empty()),
            output: Ghost(head@),
        };
        proof {
            let o = *options;
            assert(0 * o.block_len == 0) by (nonlinear_arith);
            assert(0 * record_len(o) == 0) by (nonlinear_arith);
            assert(job.input().take(0) =~= Seq::<u8>::empty());
            assert(job.input().skip(0) =~= Seq::<u8>::empty());
            assert(records(Seq::<u8>::empty(), o) =~= Seq::<u8>::empty());
            assert(header(o) + records(Seq::<u8>::empty(), o) =~= header(o));
        }
        (job, head)
    }

    /// How many bytes the job can take next: the room that is left in the
    /// block that it is filling, which is never zero. `None` once it has seen
    /// the end of the basis.
    pub fn wanted(&self) -> (n: Option<usize>)
        requires
            self.inv(),
        ensures
            n is None <==> self.finished(),
            n matches Some(k) ==> k > 0 && k == self.options().block_len - self.pending().len(),
    {
        if self.done {
            None
        } else {
            Some(usize_from_u32(self.options.block_len) - self.block.len())
        }
    }

    /// Takes in `data`, which is what a read of the basis gave: some of the
    /// bytes that follow those taken so far, or nothing at the end of the
    /// basis. Gives back the bytes to be written to the signature.
    pub fn feed(&mut self, data: &[u8]) -> (out: Vec<u8>)
        requires
            old(self).inv(),
            !old(self).finished(),
            data@.len() <= old(self).options().block_len - old(self).pending().len(),
        ensures
            final(self).inv(),
            final(self).options() == old(self).options(),
            final(self).input() == old(self).input() + data@,
            final(self).output() == old(self).output() + out@,
            final(self).finished() <==> data@.len() == 0,
            out@ == old(self).feed_output(data@),
            final(self).finished() ==> final(self).output() == signature(
                final(self).input(),
                final(self).options(),
            ),
            final(self).finished() ==> final(self).output().len() == signature_len(
                final(self).input().len(),
                final(self).options(),
            ),
    {
        let ghost before = *self;
        let ghost o = self.options;
        let ghost whole = self.blocks@ * o.block_len;
        let ghost done_blocks = self.input@.take(whole as int);
        proof {
            assert(self.input@ =~= done_blocks + self.block@);
        }
        let at_end = data.len() == 0;
        append_slice(&mut self.block, data);
        self.input = Ghost(self.input@ + data@);
        let ghost block = self.block@;
        proof {
            assert(self.input@ =~= done_blocks + block);
            assert(self.input@.take(whole as int) =~= done_blocks);
            assert(self.input@.skip(whole as int) =~= block);
            assert(before.pending() + data@ == block);
        }
        let full = self.block.len() == usize_from_u32(self.options.block_len);
        let mut out = Vec::new();
        if self.block.len() > 0 && (at_end || full) {
            out = block_signature(self.block.as_slice(), &self.options);
            self.block.clear();
            proof {
                lemma_one_block(block, o);
                lemma_records_append(done_blocks, block, o, self.blocks@);
                assert(header(o) + records(done_blocks, o) + out@ =~= header(o) + (records(
                    done_blocks,
                    o,
                ) + out@));
                assert((self.blocks@ + 1) * record_len(o) == self.blocks@ * record_len(o)
                    + record_len(o)) by (nonlinear_arith);
                assert((self.blocks@ + 1) * o.block_len == whole + o.block_len)
                    by (nonlinear_arith)
                    requires
                        whole == self.blocks@ * o.block_len,
                ;
            }
        }
        self.output = Ghost(self.output@ + out@);
        if at_end {
            self.done = true;
            proof {
                lemma_block_count_split(self.blocks@, block.len(), o.block_len as nat);
                if block.len() == 0 {
                    assert(self.input@ =~= done_blocks);
                    assert(self.output@ =~= header(o) + records(done_blocks, o));
                }
            }
        } else if full {
            proof {
                assert(self.input@.take(self.input@.len() as int) =~= self.input@);
                assert(self.input@.skip(self.input@.len() as int) =~= Seq::<u8>::empty());
            }
            self.blocks = Ghost(self.blocks@ + 1);
        }
        out
    }
}

/// What a job has given out depends only on its options, on the bytes that it
/// was fed and on whether it has seen their end: not on the pieces in which
/// the bytes came.
pub proof fn lemma_output_determined(a: SignatureJob, b: SignatureJob)
    requires
        a.inv(),
        b.inv(),
        a.options() == b.options(),
        a.input() == b.input(),
        a.finished() == b.finished(),
    ensures
        a.output() == b.output(),
{
    if !a.finished() {
        let n = a.options().block_len as int;
        let len = a.input().len() as int;
        vstd::arithmetic::div_mod::lemma_fundamental_div_mod_converse(
            len,
            n,
            a.blocks() as int,
            a.pending().len() as int,
        );
        vstd::arithmetic::div_mod::lemma_fundamental_div_mod_converse(
            len,
            n,
            b.blocks() as int,
            b.pending().len() as int,
        );
    }
}

/// Generate a signature of the basis `basis` with the options `options`.
pub fn generate_signature(basis: &[u8], options: &SignatureOptions) -> (sig: Vec<u8>)
    requires
        options.valid(),
    ensures
        sig@ == signature(basis@, *options),
        sig@.len() == signature_len(basis@.len(), *options),
{
    let (mut job, mut sig) = SignatureJob::new(options);
    let mut pos: usize = 0;
    proof {
        assert(basis@.take(0) =~= Seq::<u8>::empty());
    }
    loop
        invariant
            job.inv(),
            job.options() == *options,
            pos <= basis@.len(),
            job.input() == basis@.take(pos as int),
            job.output() == sig@,
            job.finished() ==> pos == basis@.len(),
        ensures
            job.finished(),
        decreases
                basis@.len() - pos + if job.finished() {
                    0int
                } else {
                    1int
                },
    {
        match job.wanted() {
            None => {
                break ;
            },
            Some(n) => {
                let rest = basis.len() - pos;
                let l = if n < rest {
                    n
                } else {
                    rest
                };
                let mut out = job.feed(slice_subrange(basis, pos, pos + l));
                sig.append(&mut out);
                proof {
                    assert(basis@.take(pos as int) + basis@.subrange(pos as int, pos + l)
                        =~= basis@.take(pos + l));
                }
                pos = pos + l;
            },
        }
    }
    proof {
        assert(basis@.take(basis@.len() as int) =~= basis@);
    }
    sig
}

} // verus!
