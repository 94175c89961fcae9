//! Content fingerprinting: a streaming SHA-256 hasher and hex rendering of
//! digests. The hash itself comes from the `sha2` crate through trusted
//! items; everything around it — chunking, hex encoding — is verified.

use vstd::prelude::*;
use sha2::Digest;
use vstd::slice::slice_subrange;

verus! {

/// The SHA-256 digest (32 bytes) of a byte sequence, as `sha2` computes it.
/// The digest is a function of the input bytes alone.
pub uninterp spec fn sha256_of(data: Seq<u8>) -> Seq<u8>;

#[verifier::external_type_specification]
#[verifier::external_body]
pub struct ExSha256(sha2::Sha256);

/// A hasher fed byte chunks; `fed` records the bytes seen so far.
pub struct StreamHasher {
    pub inner: sha2::Sha256,
    pub fed: Ghost<Seq<u8>>,
}

/// Relies on `sha2::Sha256::new` (via `Digest`): a hasher over no bytes yet.
#[verifier::external_body]
fn sha256_new() -> (h: StreamHasher)
    ensures
        h.fed@ == Seq::<u8>::empty(),
{
    StreamHasher { inner: sha2::Sha256::new(), fed: Ghost(Seq::empty()) }
}

/// Relies on `Digest::update`: appends the chunk to the hashed input.
#[verifier::external_body]
fn sha256_update(h: &mut StreamHasher, chunk: &[u8])
    ensures
        final(h).fed@ == old(h).fed@ + chunk@,
{
    h.inner.update(chunk);
}

/// Relies on `Digest::finalize`: the digest of everything fed so far, which
/// `sha2` documents as the 32-byte SHA-256 of the concatenated input.
#[verifier::external_body]
fn sha256_finalize(h: StreamHasher) -> (r: Vec<u8>)
    ensures
        r@ == sha256_of(h.fed@),
        r@.len() == 32,
{
    h.inner.finalize().as_slice().to_vec()
}

impl StreamHasher {
    /// A hasher that has seen no input.
    pub fn new() -> (h: StreamHasher)
        ensures
            h.fed@ == Seq::<u8>::empty(),
    {
        sha256_new()
    }

    /// Feed one chunk of input.
    pub fn update(&mut self, chunk: &[u8])
        ensures
            final(self).fed@ == old(self).fed@ + chunk@,
    {
        sha256_update(self, chunk);
    }

    /// The digest of all input fed so far, in lowercase hex.
    pub fn finalize_hex(self) -> (r: String)
        ensures
            r@ == hex_of(sha256_of(self.fed@)),
            r@.len() == 64,
    {
        let digest = sha256_finalize(self);
        to_hex(digest.as_slice())
    }
}

/// The lowercase hex digit for a value below 16.
pub open spec fn hex_digit(n: int) -> char {
    if n < 10 {
        ((48 + n) as u8) as char
    } else {
        ((87 + n) as u8) as char
    }
}

/// Lowercase hex rendering of a byte sequence, two digits per byte.
pub open spec fn hex_of(bytes: Seq<u8>) -> Seq<char>
    decreases bytes.len(),
{
    if bytes.len() == 0 {
        Seq::empty()
    } else {
        hex_of(bytes.drop_last()) + seq![
            hex_digit(bytes.last() as int / 16),
            hex_digit(bytes.last() as int % 16),
        ]
    }
}

/// Hex strings are twice as long as the bytes they render.
pub proof fn lemma_hex_of_len(bytes: Seq<u8>)
    ensures
        hex_of(bytes).len() == 2 * bytes.len(),
    decreases bytes.len(),
{
    if bytes.len() > 0 {
        lemma_hex_of_len(bytes.drop_last());
    }
}

fn hex_digit_char(n: u8) -> (c: char)
    requires
        n < 16,
    ensures
        c == hex_digit(n as int),
{
    if n < 10 {
        (48 + n) as char
    } else {
        (87 + n) as char
    }
}

/// Lowercase hex rendering of bytes.
pub fn to_hex(bytes: &[u8]) -> (r: String)
    ensures
        r@ == hex_of(bytes@),
        r@.len() == 2 * bytes@.len(),
{
    let n = bytes.len();
    let mut out = String::new();
    let mut i: usize = 0;
    while i < n
        invariant
            0 <= i <= n,
            n == bytes@.len(),
            out@ == hex_of(bytes@.take(i as int)),
        decreases n - i,
    {
        let b = bytes[i];
        out.push(hex_digit_char(b / 16));
        out.push(hex_digit_char(b % 16));
        proof {
            let t = bytes@.take(i + 1 as int);
            assert(t.drop_last() =~= bytes@.take(i as int));
            assert(t.last() == bytes@[i as int]);
        }
        i = i + 1;
    }
    assert(bytes@.take(n as int) =~= bytes@);
    proof {
        lemma_hex_of_len(bytes@);
    }
    out
}

/// The SHA-256 of a byte slice, in lowercase hex, computed by streaming the
/// input in fixed-size chunks so that the hasher never sees more than one
/// chunk at a time.
pub fn sha256_hex(data: &[u8]) -> (r: String)
    ensures
        r@ == hex_of(sha256_of(data@)),
        r@.len() == 64,
{
    let chunk_size: usize = 8192;
    let n = data.len();
    let mut h = StreamHasher::new();
    let mut i: usize = 0;
    assert(data@.take(0) =~= Seq::<u8>::empty());
    while i < n
        invariant
            0 <= i <= n,
            n == data@.len(),
            chunk_size == 8192,
            h.fed@ == data@.take(i as int),
        decreases n - i,
    {
        let end = if n - i < chunk_size {
            n
        } else {
            i + chunk_size
        };
        let chunk = slice_subrange(data, i, end);
        h.update(chunk);
        proof {
            assert(h.fed@ =~= data@.take(end as int));
        }
        i = end;
    }
    assert(data@.take(n as int) =~= data@);
    h.finalize_hex()
}

} // verus!
