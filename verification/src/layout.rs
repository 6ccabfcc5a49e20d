//! Layout signatures: the size and alignment that both ends of a channel must
//! agree on before any payload flows.

use vstd::prelude::*;
use crate::bytes::{
    decode_uint, encode_uint, lemma_radix_pow_values, lemma_uint_bytes_len,
    lemma_uint_bytes_of_value, lemma_uint_value_bound, lemma_uint_value_of_bytes, uint_bytes,
    uint_value, ByteOrder,
};
use crate::error::ChannelError;

verus! {

/// The binary shape of a value type.
///
/// Two signatures are equal exactly when both fields are.
#[derive(Debug, Clone, Copy, PartialEq, Eq, Structural)]
pub struct LayoutSignature {
    /// Bytes that one value occupies.
    pub size: usize,
    /// Alignment of the type, in bytes.
    pub alignment: usize,
}

/// Bytes in one machine word of the platform.
pub open spec fn word_len() -> nat {
    (usize::BITS / 8) as nat
}

impl LayoutSignature {
    /// Length of a signature on the wire: two machine words.
    pub open spec fn spec_wire_len() -> nat {
        2 * word_len()
    }

    /// The wire image of a signature: the size, then the alignment, each as
    /// one machine word in the given byte order.
    pub open spec fn spec_encode(&self, order: ByteOrder) -> Seq<u8> {
        uint_bytes(self.size as nat, word_len(), order) + uint_bytes(
            self.alignment as nat,
            word_len(),
            order,
        )
    }

    /// The signature that a byte string of the right length stands for, and
    /// `None` for every other length.
    pub open spec fn spec_decode(bytes: Seq<u8>, order: ByteOrder) -> Option<LayoutSignature> {
        if bytes.len() == Self::spec_wire_len() {
            let w = word_len() as int;
            Some(
                LayoutSignature {
                    size: uint_value(bytes.subrange(0, w), order) as usize,
                    alignment: uint_value(bytes.subrange(w, 2 * w), order) as usize,
                },
            )
        } else {
            None
        }
    }

    /// A signature with the given size and alignment.
    pub fn new(size: usize, alignment: usize) -> (sig: LayoutSignature)
        ensures
            sig.size == size,
            sig.alignment == alignment,
    {
        LayoutSignature { size, alignment }
    }

    /// Length of a signature on the wire.
    pub fn wire_len() -> (n: usize)
        ensures
            n == Self::spec_wire_len(),
            n == 8 || n == 16,
    {
        let word: usize = (usize::BITS / 8) as usize;
        2 * word
    }

    /// Tells whether the peer's signature is the same as this one.
    pub fn matches(&self, peer: &LayoutSignature) -> (same: bool)
        ensures
            same == (*self == *peer),
            same == (self.size == peer.size && self.alignment == peer.alignment),
    {
        self.size == peer.size && self.alignment == peer.alignment
    }

    /// Accepts a peer whose signature is the same as this one and refuses any
    /// other with `SignatureMismatch`.
    pub fn check(&self, peer: &LayoutSignature) -> (res: Result<(), ChannelError>)
        ensures
            *self == *peer ==> res == Ok::<(), ChannelError>(()),
            *self != *peer ==> res == Err::<(), ChannelError>(ChannelError::SignatureMismatch),
    {
        if self.matches(peer) {
            Ok(())
        } else {
            Err(ChannelError::SignatureMismatch)
        }
    }

    /// The bytes that announce this signature to a peer.
    pub fn encode(&self, order: ByteOrder) -> (out: Vec<u8>)
        ensures
            out@ == self.spec_encode(order),
            out@.len() == Self::spec_wire_len(),
    {
        let word: usize = (usize::BITS / 8) as usize;
        let mut out = encode_uint(self.size as u64, word, order);
        let mut second = encode_uint(self.alignment as u64, word, order);
        proof {
            lemma_uint_bytes_len(self.size as nat, word_len(), order);
            lemma_uint_bytes_len(self.alignment as nat, word_len(), order);
        }
        out.append(&mut second);
        out
    }

    /// Reads a signature from the bytes a peer sent. Succeeds exactly on
    /// strings of two machine words.
    pub fn decode(bytes: &[u8], order: ByteOrder) -> (res: Option<LayoutSignature>)
        ensures
            res == Self::spec_decode(bytes@, order),
            res is Some <==> bytes@.len() == Self::spec_wire_len(),
    {
        let word: usize = (usize::BITS / 8) as usize;
        if bytes.len() != 2 * word {
            return None;
        }
        let first = vstd::slice::slice_subrange(bytes, 0, word);
        let second = vstd::slice::slice_subrange(bytes, word, 2 * word);
        proof {
            lemma_word_values_fit(first@, order);
            lemma_word_values_fit(second@, order);
        }
        let size = decode_uint(first, order) as usize;
        let alignment = decode_uint(second, order) as usize;
        Some(LayoutSignature { size, alignment })
    }
}

/// A byte string of one machine word stands for a number that fits in a
/// machine word.
pub proof fn lemma_word_values_fit(bytes: Seq<u8>, order: ByteOrder)
    requires
        bytes.len() == word_len(),
    ensures
        uint_value(bytes, order) <= usize::MAX,
{
    lemma_uint_value_bound(bytes, order);
    lemma_radix_pow_values();
}

/// Decoding the wire image of a signature gives the signature back.
pub proof fn lemma_signature_roundtrip(sig: LayoutSignature, order: ByteOrder)
    ensures
        sig.spec_encode(order).len() == LayoutSignature::spec_wire_len(),
        LayoutSignature::spec_decode(sig.spec_encode(order), order) == Some(sig),
{
    let w = word_len();
    let a = uint_bytes(sig.size as nat, w, order);
    let b = uint_bytes(sig.alignment as nat, w, order);
    lemma_uint_bytes_len(sig.size as nat, w, order);
    lemma_uint_bytes_len(sig.alignment as nat, w, order);
    lemma_radix_pow_values();
    lemma_uint_value_of_bytes(sig.size as nat, w, order);
    lemma_uint_value_of_bytes(sig.alignment as nat, w, order);
    assert((a + b).subrange(0, w as int) =~= a);
    assert((a + b).subrange(w as int, 2 * w as int) =~= b);
}

/// Every byte string of two machine words is the wire image of the signature
/// it decodes to: decoding loses nothing.
pub proof fn lemma_signature_bytes_roundtrip(bytes: Seq<u8>, order: ByteOrder)
    requires
        bytes.len() == LayoutSignature::spec_wire_len(),
    ensures
        LayoutSignature::spec_decode(bytes, order) is Some,
        LayoutSignature::spec_decode(bytes, order).unwrap().spec_encode(order) == bytes,
{
    let w = word_len() as int;
    let a = bytes.subrange(0, w);
    let b = bytes.subrange(w, 2 * w);
    lemma_word_values_fit(a, order);
    lemma_word_values_fit(b, order);
    lemma_uint_bytes_of_value(a, order);
    lemma_uint_bytes_of_value(b, order);
    assert(a + b =~= bytes);
}

/// Two signatures have the same wire image only if they are the same
/// signature.
pub proof fn lemma_signature_encoding_injective(
    a: LayoutSignature,
    b: LayoutSignature,
    order: ByteOrder,
)
    requires
        a.spec_encode(order) == b.spec_encode(order),
    ensures
        a == b,
{
    lemma_signature_roundtrip(a, order);
    lemma_signature_roundtrip(b, order);
}

} // verus!
