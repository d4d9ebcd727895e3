//! The quick fingerprint of a video file that members compare to check
//! they play the same file: SHA-256 over samples of the head, the middle
//! and the tail of the file (1 MiB each) and the file's size.

use vstd::prelude::*;
use crate::text::push_char;
use sha2::Digest;

verus! {

/// How many bytes each sample reads.
pub const SAMPLE_SIZE: u64 = 1048576;

/// The SHA-256 digest of a byte string.
pub uninterp spec fn sha256_of(data: Seq<u8>) -> Seq<u8>;

/// sha2 `Sha256::digest`. Claimed: the digest is `sha256_of` of the bytes,
/// and is 32 bytes long (SHA-256's output size).
#[verifier::external_body]
pub(crate) fn sha256(data: &[u8]) -> (d: Vec<u8>)
    ensures
        d@ == sha256_of(data@),
        d@.len() == 32,
{
    sha2::Sha256::digest(data).to_vec()
}

/// Where the middle and tail samples start, when the file is long enough
/// to have them.
pub struct SamplePlan {
    pub middle: Option<u64>,
    pub tail: Option<u64>,
}

/// Plans the samples of a file of `file_size` bytes: a middle sample,
/// centred, when the file is longer than two samples; a tail sample, the
/// last `SAMPLE_SIZE` bytes, when it is longer than one.
pub fn sample_plan(file_size: u64) -> (p: SamplePlan)
    ensures
        match p.middle {
            Some(m) => file_size > 2 * SAMPLE_SIZE && m == file_size / 2 - SAMPLE_SIZE / 2,
            None => file_size <= 2 * SAMPLE_SIZE,
        },
        match p.tail {
            Some(t) => file_size > SAMPLE_SIZE && t == file_size - SAMPLE_SIZE,
            None => file_size <= SAMPLE_SIZE,
        },
{
    let middle = if file_size > 2 * SAMPLE_SIZE {
        Some(file_size / 2 - SAMPLE_SIZE / 2)
    } else {
        None
    };
    let tail = if file_size > SAMPLE_SIZE {
        Some(file_size - SAMPLE_SIZE)
    } else {
        None
    };
    SamplePlan { middle, tail }
}

/// The eight little-endian bytes of `n`.
pub open spec fn le_bytes(n: u64) -> Seq<u8> {
    Seq::new(8, |i: int| ((n as int / pow256(i)) % 256) as u8)
}

/// 256 to the power `i`.
pub open spec fn pow256(i: int) -> int
    decreases i,
{
    if i <= 0 {
        1
    } else {
        256 * pow256(i - 1)
    }
}

/// The little-endian bytes of `n` (std `u64::to_le_bytes`).
pub fn le_bytes_of(n: u64) -> (b: Vec<u8>)
    ensures
        b@ == le_bytes(n),
{
    let mut out: Vec<u8> = Vec::new();
    let mut m: u64 = n;
    for i in 0..8usize
        invariant
            out@.len() == i,
            m as int == n as int / pow256(i as int),
            forall|j: int| 0 <= j < i ==> out@[j] == ((n as int / pow256(j)) % 256) as u8,
    {
        proof {
            lemma_div_step(n as int, i as int);
        }
        out.push((m % 256) as u8);
        m = m / 256;
    }
    assert(out@ =~= le_bytes(n));
    out
}

/// Dividing by 256 once more is dividing by the next power.
proof fn lemma_div_step(n: int, i: int)
    requires
        n >= 0,
        i >= 0,
    ensures
        n / pow256(i) / 256 == n / pow256(i + 1),
        pow256(i) > 0,
    decreases i,
{
    lemma_pow256_positive(i);
    assert(pow256(i + 1) == 256 * pow256(i));
    vstd::arithmetic::div_mod::lemma_div_denominator(n, pow256(i), 256);
    assert(pow256(i) * 256 == 256 * pow256(i)) by (nonlinear_arith);
}

proof fn lemma_pow256_positive(i: int)
    ensures
        pow256(i) > 0,
    decreases i,
{
    if i > 0 {
        lemma_pow256_positive(i - 1);
    }
}

/// The lowercase hexadecimal digit for a value below sixteen.
pub open spec fn hex_digit(d: int) -> char {
    if d < 10 {
        (d + 48) as char
    } else {
        (d + 87) as char
    }
}

/// The lowercase hexadecimal writing of a byte string, two digits per byte,
/// as `{:x}` formats a digest.
pub open spec fn hex_lower(bytes: Seq<u8>) -> Seq<char>
    decreases bytes.len(),
{
    if bytes.len() == 0 {
        Seq::<char>::empty()
    } else {
        hex_lower(bytes.drop_last()) + seq![
            hex_digit(bytes.last() as int / 16),
            hex_digit(bytes.last() as int % 16),
        ]
    }
}

fn hex_char(d: u8) -> (c: char)
    requires
        d < 16,
    ensures
        c == hex_digit(d as int),
{
    if d < 10 {
        (d + 48) as char
    } else {
        (d + 87) as char
    }
}

/// The lowercase hexadecimal writing of a byte string.
pub fn to_hex_lower(bytes: &[u8]) -> (s: String)
    ensures
        s@ == hex_lower(bytes@),
{
    let mut s = String::new();
    let n = bytes.len();
    for i in 0..n
        invariant
            n == bytes@.len(),
            s@ == hex_lower(bytes@.take(i as int)),
    {
        let b = bytes[i];
        assert(bytes@.take(i + 1).drop_last() == bytes@.take(i as int));
        push_char(&mut s, hex_char(b / 16));
        push_char(&mut s, hex_char(b % 16));
        assert(s@ =~= hex_lower(bytes@.take(i + 1)));
    }
    assert(bytes@.take(n as int) == bytes@);
    s
}

/// The bytes the fingerprint hashes: the samples read, in order, then the
/// file size in little-endian.
pub open spec fn fingerprint_input(head: Seq<u8>, middle: Seq<u8>, tail: Seq<u8>, file_size: u64) -> Seq<u8> {
    head + middle + tail + le_bytes(file_size)
}

/// The fingerprint of a file from the samples read from it (an empty
/// slice for a sample the plan leaves out) and its size.
pub fn sampled_digest(head: &[u8], middle: &[u8], tail: &[u8], file_size: u64) -> (s: String)
    ensures
        s@ == hex_lower(sha256_of(fingerprint_input(head@, middle@, tail@, file_size))),
        s@.len() == 64,
{
    let mut data: Vec<u8> = Vec::new();
    append_bytes(&mut data, head);
    append_bytes(&mut data, middle);
    append_bytes(&mut data, tail);
    let size = le_bytes_of(file_size);
    append_bytes(&mut data, size.as_slice());
    assert(data@ =~= fingerprint_input(head@, middle@, tail@, file_size));
    let digest = sha256(data.as_slice());
    proof {
        law_fingerprint_length(digest@);
    }
    to_hex_lower(digest.as_slice())
}

fn append_bytes(v: &mut Vec<u8>, more: &[u8])
    ensures
        final(v)@ == old(v)@ + more@,
{
    let n = more.len();
    for i in 0..n
        invariant
            n == more@.len(),
            v@ == old(v)@ + more@.take(i as int),
    {
        v.push(more[i]);
        assert(more@.take(i + 1) == more@.take(i as int).push(more@[i as int]));
    }
    assert(more@.take(n as int) == more@);
}

/// The bytes a fingerprint hashes hold every sample in full and in order,
/// head, then middle, then tail, followed by eight bytes for the size, so
/// files that differ in any sample or in size are hashed over different
/// bytes.
pub proof fn law_fingerprint_covers_every_sample(head: Seq<u8>, middle: Seq<u8>, tail: Seq<u8>, file_size: u64)
    ensures
        fingerprint_input(head, middle, tail, file_size).len() == head.len() + middle.len() + tail.len()
            + 8,
        fingerprint_input(head, middle, tail, file_size).subrange(0, head.len() as int) == head,
        fingerprint_input(head, middle, tail, file_size).subrange(
            head.len() as int,
            (head.len() + middle.len()) as int,
        ) == middle,
        fingerprint_input(head, middle, tail, file_size).subrange(
            (head.len() + middle.len()) as int,
            (head.len() + middle.len() + tail.len()) as int,
        ) == tail,
        fingerprint_input(head, middle, tail, file_size)[(head.len() + middle.len() + tail.len()) as int]
            == (file_size % 256) as u8,
{
    let x = fingerprint_input(head, middle, tail, file_size);
    let a = head.len() as int;
    let b = a + middle.len();
    let c = b + tail.len();
    assert(x.subrange(0, a) =~= head);
    assert(x.subrange(a, b) =~= middle);
    assert(x.subrange(b, c) =~= tail);
    assert(x[c] == le_bytes(file_size)[0]);
    assert(pow256(0) == 1);
}

/// A hex writing has two digits per byte; a fingerprint is therefore 64
/// hexadecimal digits, whatever the file.
pub proof fn law_fingerprint_length(bytes: Seq<u8>)
    ensures
        hex_lower(bytes).len() == 2 * bytes.len(),
    decreases bytes.len(),
{
    if bytes.len() > 0 {
        law_fingerprint_length(bytes.drop_last());
    }
}

}
