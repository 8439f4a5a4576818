use rdiff::magic::SignatureFormat;
use rdiff::mksum::{
    block_signature, encode_record, generate_signature, signature_header, SignatureJob,
    SignatureOptions, HEADER_LEN, RS_MAX_STRONG_SUM_LENGTH,
};
use rdiff::rollsum::{Rollsum, Rollsum1};
use std::vec::Vec;

fn generate_signature_on_arrays(in_buf: &[u8]) -> Vec<u8> {
    let options = SignatureOptions::default();
    assert_eq!(options.block_len, 2 << 10);

    generate_signature(in_buf, &options)
}

#[test]
pub fn empty_signature_header() {
    let out_buf = generate_signature_on_arrays(&[]);
    assert_eq!(
        out_buf.as_slice(),
        [
            b'r', b's', 0x01, 0x37, // BLAKE2 sig magic
            0, 0, 8, 0, // 2kB blocks
            0, 0, 0, 32, // 32 byte BLAKE2 hashes
        ]
    );
}

#[test]
pub fn small_file() {
    let out_buf = generate_signature_on_arrays("Hello world\n".as_bytes());
    // Should have: 12-byte header, 1x(4-byte weak sum, 32-byte strong sum.)
    assert_eq!(out_buf.len(), 12 + 4 + 32);
}

/// The bytes that `text` gives in hexadecimal.
fn hex(text: &str) -> Vec<u8> {
    (0..text.len() / 2).map(|i| u8::from_str_radix(&text[2 * i..2 * i + 2], 16).unwrap()).collect()
}

/// Some bytes, `len` of them.
fn sample(len: usize) -> Vec<u8> {
    (0..len).map(|i| (i % 251) as u8).collect()
}

fn options(block_len: u32, strong_len: u32) -> SignatureOptions {
    SignatureOptions { magic: SignatureFormat::Blake2Sig, block_len, strong_len }
}

/// Drives a job over `basis`, with reads that give at most `piece` bytes.
fn signature_by_pieces(basis: &[u8], options: &SignatureOptions, piece: usize) -> Vec<u8> {
    let (mut job, mut sig) = SignatureJob::new(options);
    let mut pos = 0;
    while let Some(wanted) = job.wanted() {
        let l = wanted.min(piece).min(basis.len() - pos);
        sig.extend(job.feed(&basis[pos..pos + l]));
        pos += l;
    }
    assert_eq!(pos, basis.len());
    sig
}

#[test]
pub fn default_options() {
    let options = SignatureOptions::default();
    assert!(matches!(options.magic, SignatureFormat::Blake2Sig));
    assert_eq!(options.block_len, 2048);
    assert_eq!(options.block_len, rdiff::DEFAULT_BLOCK_LEN);
    assert_eq!(options.strong_len, 32);
    assert_eq!(options.strong_len as usize, RS_MAX_STRONG_SUM_LENGTH);
    assert!(options.is_valid());
}

#[test]
pub fn with_strong_len_changes_the_strong_len_alone() {
    let options = options(512, 32).with_strong_len(8);
    assert!(matches!(options.magic, SignatureFormat::Blake2Sig));
    assert_eq!(options.block_len, 512);
    assert_eq!(options.strong_len, 8);
}

#[test]
pub fn strong_len_at_the_length_of_the_hash_and_one_past_it() {
    assert!(SignatureOptions::default().with_strong_len(32).is_valid());
    assert!(!SignatureOptions::default().with_strong_len(33).is_valid());
    assert!(SignatureOptions::default().with_strong_len(0).is_valid());
    assert!(!SignatureOptions::default().with_strong_len(u32::MAX).is_valid());
}

#[test]
pub fn a_block_len_of_zero_is_not_valid() {
    assert!(!options(0, 32).is_valid());
    assert!(options(1, 32).is_valid());
    assert!(options(u32::MAX, 32).is_valid());
}

#[test]
pub fn header_is_three_big_endian_words() {
    assert_eq!(HEADER_LEN, 12);
    assert_eq!(
        signature_header(&options(0x0102_0304, 0x1f)),
        [0x72, 0x73, 0x01, 0x37, 0x01, 0x02, 0x03, 0x04, 0, 0, 0, 0x1f]
    );
    let md4 = SignatureOptions { magic: SignatureFormat::Md4Sig, block_len: 0xffff_fffe, strong_len: 8 };
    assert_eq!(
        signature_header(&md4),
        [0x72, 0x73, 0x01, 0x36, 0xff, 0xff, 0xff, 0xfe, 0, 0, 0, 8]
    );
}

#[test]
pub fn record_is_the_weak_sum_and_the_start_of_the_strong_sum() {
    let strong: Vec<u8> = (100..132).collect();
    assert_eq!(encode_record(0x0304_0183, &strong, 3), [3, 4, 1, 0x83, 100, 101, 102]);
    assert_eq!(encode_record(0xffff_ff00, &strong, 0), [0xff, 0xff, 0xff, 0]);
    let whole = encode_record(1, &strong, 32);
    assert_eq!(whole.len(), 36);
    assert_eq!(whole[..4], [0, 0, 0, 1]);
    assert_eq!(whole[4..], strong[..]);
}

#[test]
pub fn block_signature_of_abc() {
    let record = block_signature(b"abc", &SignatureOptions::default());
    let mut expected = vec![0x03, 0x04, 0x01, 0x83];
    expected.extend(hex("bddd813c634239723171ef3fee98579b94964e3bb1cb3e427262c8c068d52319"));
    assert_eq!(record, expected);
}

#[test]
pub fn block_signature_with_a_short_strong_sum() {
    let record = block_signature(b"abc", &SignatureOptions::default().with_strong_len(5));
    assert_eq!(record, [0x03, 0x04, 0x01, 0x83, 0xbd, 0xdd, 0x81, 0x3c, 0x63]);
}

#[test]
pub fn weak_sum_of_a_block_is_that_of_a_fresh_rollsum() {
    let block = sample(3000);
    let mut rs = Rollsum1::new();
    rs.update(&block);
    let record = block_signature(&block, &SignatureOptions::default());
    assert_eq!(record[..4], rs.digest().to_be_bytes());
}

#[test]
pub fn signature_of_hello_world() {
    let sig = generate_signature_on_arrays(b"Hello world\n");
    let mut expected = vec![0x72, 0x73, 0x01, 0x37, 0, 0, 8, 0, 0, 0, 0, 32];
    expected.extend([0x26, 0x58, 0x05, 0xba]);
    expected.extend(hex("d259f147beb32ba36b597d67690c45458aee8b490a7bb17fc6ecedb51e687292"));
    assert_eq!(sig, expected);
}

#[test]
pub fn signature_of_two_blocks_and_a_short_one() {
    let sig = generate_signature(&sample(5000), &SignatureOptions::default());
    let mut expected = vec![0x72, 0x73, 0x01, 0x37, 0, 0, 8, 0, 0, 0, 0, 32];
    expected.extend(hex("2d90cf84"));
    expected.extend(hex("159bf6cd482f6efed5b4db91c4bdb9e499fac1605493f8f4fc53562e32f78fd4"));
    expected.extend(hex("fa50d5c4"));
    expected.extend(hex("0fdcf48c293b903a5d1be5b131d19f0741e0c5d9550a110811489e91042ed620"));
    expected.extend(hex("dbea3892"));
    expected.extend(hex("da688d37fd340e385bba6e9ba9f778d66255d62098f669098862585906346f89"));
    assert_eq!(sig, expected);
}

#[test]
pub fn signature_is_the_header_and_the_record_of_each_block() {
    let basis = sample(1000);
    let options = options(300, 16);
    let mut expected = signature_header(&options);
    for block in basis.chunks(300) {
        expected.extend(block_signature(block, &options));
    }
    assert_eq!(generate_signature(&basis, &options), expected);
}

#[test]
pub fn whole_blocks_get_no_empty_record_at_the_end() {
    let options = SignatureOptions::default();
    assert_eq!(generate_signature(&sample(2048), &options).len(), 12 + 36);
    assert_eq!(generate_signature(&sample(4096), &options).len(), 12 + 2 * 36);
    assert_eq!(generate_signature(&sample(2047), &options).len(), 12 + 36);
    assert_eq!(generate_signature(&sample(2049), &options).len(), 12 + 2 * 36);
}

#[test]
pub fn number_of_records_is_the_length_over_the_block_length_rounded_up() {
    for (len, block_len, strong_len) in
        [(0usize, 7u32, 32u32), (1, 7, 32), (6, 7, 0), (7, 7, 1), (8, 7, 8), (700, 7, 31), (701, 7, 32), (5, 1, 4), (9, 1000, 32)]
    {
        let sig = generate_signature(&sample(len), &options(block_len, strong_len));
        let blocks = (len + block_len as usize - 1) / block_len as usize;
        assert_eq!(sig.len(), 12 + blocks * (4 + strong_len as usize), "length {}", len);
    }
}

#[test]
pub fn same_input_same_signature() {
    let basis = sample(10000);
    let options = options(1024, 20);
    assert_eq!(generate_signature(&basis, &options), generate_signature(&basis, &options));
}

#[test]
pub fn signature_does_not_depend_on_the_pieces_read() {
    let basis = sample(5000);
    for options in [SignatureOptions::default(), options(1000, 8), options(1, 32), options(5000, 32), options(4999, 3)] {
        let whole = generate_signature(&basis, &options);
        for piece in [1usize, 3, 999, 1000, 2048, 4096, 100000] {
            assert_eq!(signature_by_pieces(&basis, &options, piece), whole, "piece {}", piece);
        }
    }
}

#[test]
pub fn job_of_an_empty_basis_gives_the_header_alone() {
    let options = SignatureOptions::default();
    let (mut job, header) = SignatureJob::new(&options);
    assert_eq!(header, signature_header(&options));
    assert_eq!(job.wanted(), Some(2048));
    assert_eq!(job.feed(&[]), []);
    assert_eq!(job.wanted(), None);
}

#[test]
pub fn job_fills_its_block_from_short_reads() {
    let options = options(10, 32);
    let basis = sample(10);
    let (mut job, _) = SignatureJob::new(&options);
    assert_eq!(job.wanted(), Some(10));
    assert_eq!(job.feed(&basis[..4]), []);
    assert_eq!(job.wanted(), Some(6));
    assert_eq!(job.feed(&basis[4..9]), []);
    assert_eq!(job.wanted(), Some(1));
    assert_eq!(job.feed(&basis[9..]), block_signature(&basis, &options));
    // A whole block may be followed by more: the job asks for the next one.
    assert_eq!(job.wanted(), Some(10));
    assert_eq!(job.feed(&[]), []);
    assert_eq!(job.wanted(), None);
}

#[test]
pub fn job_ends_with_the_short_block() {
    let options = options(10, 32);
    let basis = sample(13);
    let (mut job, _) = SignatureJob::new(&options);
    assert_eq!(job.feed(&basis[..10]), block_signature(&basis[..10], &options));
    assert_eq!(job.feed(&basis[10..]), []);
    assert_eq!(job.wanted(), Some(7));
    assert_eq!(job.feed(&[]), block_signature(&basis[10..], &options));
    assert_eq!(job.wanted(), None);
}
