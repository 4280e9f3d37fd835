//! Streaming digest computation.
//!
//! A file is folded into the digest state block by block; the final digest
//! depends only on the concatenation of the absorbed bytes, so the block
//! size never changes the result.  The digest algorithm itself is the md5
//! crate's; its result is named, not restated.

use vstd::prelude::*;
use vstd::slice::slice_subrange;

use crate::is_lower_hex_digit;

verus! {

/// The character for one hexadecimal digit value, lowercase.
pub open spec fn hex_digit(n: u8) -> char {
    if n < 10 {
        ((48 + n) as char)
    } else {
        ((87 + n) as char)
    }
}

/// Lowercase hexadecimal rendering of a byte sequence: two digits per byte,
/// high nibble first.
pub open spec fn hex_of(b: Seq<u8>) -> Seq<char> {
    Seq::new(
        2 * b.len(),
        |i: int|
            if i % 2 == 0 {
                hex_digit((b[i / 2] / 16) as u8)
            } else {
                hex_digit((b[i / 2] % 16) as u8)
            },
    )
}

/// The 16-byte digest the md5 crate computes for a byte stream.  What the
/// value is takes the whole algorithm to state, so it only carries a name
/// here; the trusted items below say how the md5 crate realises it.
pub uninterp spec fn md5_of(b: Seq<u8>) -> Seq<u8>;

/// The digest of the empty stream: the first test vector of RFC 1321.
pub open spec fn empty_digest_bytes() -> Seq<u8> {
    seq![
        0xd4u8,
        0x1du8,
        0x8cu8,
        0xd9u8,
        0x8fu8,
        0x00u8,
        0xb2u8,
        0x04u8,
        0xe9u8,
        0x80u8,
        0x09u8,
        0x98u8,
        0xecu8,
        0xf8u8,
        0x42u8,
        0x7eu8,
    ]
}

/// A file's digest as a manifest states it: the md5 digest in lowercase hex.
pub open spec fn md5_hex_of(b: Seq<u8>) -> Seq<char> {
    hex_of(md5_of(b))
}

#[verifier::external_type_specification]
#[verifier::external_body]
pub struct ExMd5(md5::Md5);

/// An in-progress digest over the byte stream fed so far.
pub struct DigestState {
    inner: md5::Md5,
    fed: Ghost<Seq<u8>>,
}

impl View for DigestState {
    type V = Seq<u8>;

    closed spec fn view(&self) -> Seq<u8> {
        self.fed@
    }
}

/// Relies on the md5 crate's `Digest::new` to make a fresh hasher; what the
/// hasher has absorbed is tracked by `DigestState` alone.
#[verifier::external_body]
fn md5_new() -> (r: md5::Md5) {
    <md5::Md5 as md5::Digest>::new()
}

impl DigestState {
    /// A digest over the empty stream so far.
    pub fn new() -> (r: DigestState)
        ensures
            r@ == Seq::<u8>::empty(),
    {
        DigestState { inner: md5_new(), fed: Ghost(Seq::empty()) }
    }

    /// Relies on the md5 crate's `Digest::update`: absorbing bytes extends
    /// the stream the final digest is taken over, and nothing else.
    #[verifier::external_body]
    pub fn update(&mut self, block: &[u8])
        ensures
            final(self)@ == old(self)@ + block@,
    {
        <md5::Md5 as md5::Digest>::update(&mut self.inner, block);
    }

    /// Relies on the md5 crate's `Digest::finalize`: the digest is 16 bytes
    /// determined by the absorbed stream alone; for the empty stream it is
    /// the fixed RFC 1321 test-vector value.
    #[verifier::external_body]
    fn finalize(self) -> (r: Vec<u8>)
        ensures
            r@ == md5_of(self@),
            r@.len() == 16,
            self@.len() == 0 ==> r@ == empty_digest_bytes(),
    {
        <md5::Md5 as md5::Digest>::finalize(self.inner).to_vec()
    }

    /// Finish the stream and render its digest in lowercase hexadecimal.
    pub fn finalize_hex(self) -> (r: String)
        ensures
            r@ == md5_hex_of(self@),
            r@.len() == 32,
            forall|i: int| 0 <= i < 32 ==> is_lower_hex_digit(#[trigger] r@[i]),
            self@.len() == 0 ==> r@ == hex_of(empty_digest_bytes()),
    {
        let ghost fed = self@;
        let bytes = self.finalize();
        let r = hex_encode(bytes.as_slice());
        proof {
            lemma_hex_of_digits(md5_of(fed));
        }
        r
    }
}

/// Relies on `hex::encode`: lowercase hexadecimal, two digits per byte, high
/// nibble first.
#[verifier::external_body]
fn hex_encode(b: &[u8]) -> (r: String)
    ensures
        r@ == hex_of(b@),
{
    hex::encode(b)
}

/// Hexadecimal renderings consist of lowercase hexadecimal digits.
pub proof fn lemma_hex_of_digits(b: Seq<u8>)
    ensures
        hex_of(b).len() == 2 * b.len(),
        forall|i: int| 0 <= i < 2 * b.len() ==> is_lower_hex_digit(#[trigger] hex_of(b)[i]),
{
    assert forall|i: int| 0 <= i < 2 * b.len() implies is_lower_hex_digit(
        #[trigger] hex_of(b)[i],
    ) by {
        let n = if i % 2 == 0 {
            (b[i / 2] / 16) as u8
        } else {
            (b[i / 2] % 16) as u8
        };
        assert(n < 16);
        if n < 10 {
            assert(hex_digit(n) == (48 + n) as char);
            assert('0' <= (48 + n) as char <= '9');
        } else {
            assert(hex_digit(n) == (87 + n) as char);
            assert('a' <= (87 + n) as char <= 'f');
        }
    }
}

/// The fixed digest of empty input, written as a manifest would state it.
pub proof fn lemma_empty_digest_hex()
    ensures
        hex_of(empty_digest_bytes()) == "d41d8cd98f00b204e9800998ecf8427e"@,
{
    reveal_strlit("d41d8cd98f00b204e9800998ecf8427e");
    assert(hex_of(empty_digest_bytes()) =~= "d41d8cd98f00b204e9800998ecf8427e"@);
}

/// Digest in-memory content block by block.  The result depends on the
/// content alone: any block size at least 1 gives the same digest.
pub fn digest_of_bytes(content: &[u8], block_size: usize) -> (r: String)
    requires
        block_size >= 1,
    ensures
        r@ == md5_hex_of(content@),
        r@.len() == 32,
        content@.len() == 0 ==> r@ == hex_of(empty_digest_bytes()),
{
    let mut st = DigestState::new();
    let n = content.len();
    proof {
        assert(content@.take(0) =~= Seq::<u8>::empty());
    }
    let mut i: usize = 0;
    while i < n
        invariant
            i <= n,
            n == content@.len(),
            block_size >= 1,
            st@ == content@.take(i as int),
        decreases n - i,
    {
        let end = if n - i < block_size {
            n
        } else {
            i + block_size
        };
        let block = slice_subrange(content, i, end);
        st.update(block);
        proof {
            assert(content@.take(i as int) + content@.subrange(i as int, end as int) =~= content@.take(
                end as int,
            ));
        }
        i = end;
    }
    proof {
        assert(content@.take(n as int) =~= content@);
    }
    st.finalize_hex()
}

} // verus!
