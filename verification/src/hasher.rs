//! The content hasher: streams a file's bytes through a fixed-size buffer
//! and produces its SHA-256 digest. The digest itself is computed by an
//! outside implementation and is only named here: equal byte streams give
//! equal digests, and nothing else is assumed of it.

use vstd::prelude::*;

verus! {

#[verifier::external_type_specification]
#[verifier::external_body]
pub struct ExSha256(sha2::Sha256);

/// What a hasher value has absorbed so far.
pub uninterp spec fn absorbed(h: sha2::Sha256) -> Seq<u8>;

/// The SHA-256 digest of a byte sequence: a function of the bytes alone,
/// named but deliberately not defined here.
pub uninterp spec fn sha256_of(bytes: Seq<u8>) -> Seq<u8>;

/// Relies on sha2::Sha256 through digest::Digest::new: a fresh hasher has
/// absorbed nothing.
#[verifier::external_body]
fn sha_new() -> (h: sha2::Sha256)
    ensures
        absorbed(h) == Seq::<u8>::empty(),
{
    <sha2::Sha256 as sha2::Digest>::new()
}

/// Relies on digest::Digest::update: the chunk is absorbed after
/// everything absorbed before; update may be called repeatedly.
#[verifier::external_body]
fn sha_update(h: &mut sha2::Sha256, chunk: &[u8])
    ensures
        absorbed(*final(h)) == absorbed(*old(h)) + chunk@,
{
    sha2::Digest::update(h, chunk)
}

/// Relies on digest::Digest::finalize: the 32-byte SHA-256 digest of
/// everything the hasher absorbed.
#[verifier::external_body]
fn sha_finish(h: sha2::Sha256) -> (r: Vec<u8>)
    ensures
        r@ == sha256_of(absorbed(h)),
        r@.len() == 32,
{
    sha2::Digest::finalize(h).to_vec()
}

/// A streaming content hasher. Feed the file's bytes in chunks of any
/// size; the digest depends only on the concatenated stream.
pub struct ContentHasher {
    inner: sha2::Sha256,
}

impl ContentHasher {
    /// The byte stream absorbed so far.
    pub closed spec fn bytes(self) -> Seq<u8> {
        absorbed(self.inner)
    }

    /// A hasher that has absorbed nothing.
    pub fn new() -> (h: Self)
        ensures
            h.bytes() == Seq::<u8>::empty(),
    {
        ContentHasher { inner: sha_new() }
    }

    /// Absorb the next chunk of the stream.
    pub fn update(&mut self, chunk: &[u8])
        ensures
            final(self).bytes() == old(self).bytes() + chunk@,
    {
        sha_update(&mut self.inner, chunk)
    }

    /// The 32-byte digest of the absorbed stream.
    pub fn finish(self) -> (r: Vec<u8>)
        ensures
            r@ == sha256_of(self.bytes()),
            r@.len() == 32,
    {
        sha_finish(self.inner)
    }
}

/// The lowercase hexadecimal character for a value below 16.
pub open spec fn hex_digit(n: u8) -> char
    recommends
        n < 16,
{
    if n < 10 {
        ((48 + n) as u8) as char
    } else {
        ((87 + n) as u8) as char
    }
}

/// A byte sequence as lowercase hexadecimal: two digits per byte, high
/// nibble first.
pub open spec fn hex_of(bytes: Seq<u8>) -> Seq<char> {
    Seq::new(
        2 * bytes.len(),
        |i: int|
            if i % 2 == 0 {
                hex_digit(bytes[i / 2] / 16)
            } else {
                hex_digit(bytes[i / 2] % 16)
            },
    )
}

proof fn lemma_hex_digit_injective(m: u8, n: u8)
    requires
        m < 16,
        n < 16,
        hex_digit(m) == hex_digit(n),
    ensures
        m == n,
{
    assert((((48 + m) as u8) as char) as u8 == (48 + m) as u8);
    assert((((87 + m) as u8) as char) as u8 == (87 + m) as u8);
    assert((((48 + n) as u8) as char) as u8 == (48 + n) as u8);
    assert((((87 + n) as u8) as char) as u8 == (87 + n) as u8);
}

/// Hexadecimal rendering is injective: equal hex texts name equal digests,
/// so two duplicate groups with the same stored hash would hold the same
/// content digest.
pub proof fn lemma_hex_of_injective(a: Seq<u8>, b: Seq<u8>)
    requires
        hex_of(a) == hex_of(b),
    ensures
        a == b,
{
    assert(hex_of(a).len() == 2 * a.len());
    assert(hex_of(b).len() == 2 * b.len());
    assert(a.len() == b.len());
    assert forall|k: int| 0 <= k < a.len() implies a[k] == b[k] by {
        assert(hex_of(a)[2 * k] == hex_digit(a[k] / 16));
        assert(hex_of(b)[2 * k] == hex_digit(b[k] / 16));
        assert(hex_of(a)[2 * k + 1] == hex_digit(a[k] % 16));
        assert(hex_of(b)[2 * k + 1] == hex_digit(b[k] % 16));
        lemma_hex_digit_injective(a[k] / 16, b[k] / 16);
        lemma_hex_digit_injective(a[k] % 16, b[k] % 16);
    }
    assert(a =~= b);
}

/// Relies on String::from_utf8: bytes below 128 are one-byte UTF-8
/// sequences and decode to the characters with the same code points.
#[verifier::external_body]
fn ascii_to_string(bytes: Vec<u8>) -> (r: String)
    requires
        forall|i: int| 0 <= i < bytes@.len() ==> bytes@[i] < 128,
    ensures
        r@ == bytes@.map_values(|b: u8| b as char),
{
    match String::from_utf8(bytes) {
        Ok(s) => s,
        Err(_) => String::new(),
    }
}

/// Render a digest as lowercase hexadecimal text.
pub fn digest_hex(bytes: &Vec<u8>) -> (r: String)
    ensures
        r@ == hex_of(bytes@),
{
    let mut out: Vec<u8> = Vec::new();
    let n = bytes.len();
    let mut i: usize = 0;
    while i < n
        invariant
            i <= n,
            n == bytes@.len(),
            out@.len() == 2 * i,
            forall|k: int| 0 <= k < out@.len() ==> (#[trigger] out@[k]) < 128,
            forall|k: int|
                0 <= k < i ==> out@[2 * k] == (if bytes@[k] / 16 < 10 {
                    (48 + bytes@[k] / 16) as u8
                } else {
                    (87 + bytes@[k] / 16) as u8
                }),
            forall|k: int|
                0 <= k < i ==> out@[2 * k + 1] == (if bytes@[k] % 16 < 10 {
                    (48 + bytes@[k] % 16) as u8
                } else {
                    (87 + bytes@[k] % 16) as u8
                }),
        decreases n - i,
    {
        let b = bytes[i];
        let hi = b / 16;
        let lo = b % 16;
        let hc: u8 = if hi < 10 {
            48 + hi
        } else {
            87 + hi
        };
        let lc: u8 = if lo < 10 {
            48 + lo
        } else {
            87 + lo
        };
        out.push(hc);
        out.push(lc);
        i += 1;
    }
    let r = ascii_to_string(out);
    proof {
        assert(r@ =~= hex_of(bytes@));
    }
    r
}

} // verus!
