//! Values that may travel as raw frames.
//!
//! A frame is the byte image of exactly one value, and its length is fixed by
//! the value's type. Only types that implement [`FixedLayout`] can be sent.
//! An implementation is the evidence that doing so is sound: it states the
//! image of each value, proves that every image has the declared length, that
//! reading an image gives the value back, and that reading never transforms
//! the bytes. A type in which not every byte string is a value says so by
//! failing to read the others.

use vstd::prelude::*;
use crate::bytes::{
    decode_uint, encode_uint, lemma_radix_pow_values, lemma_uint_bytes_len,
    lemma_uint_bytes_of_value, lemma_uint_value_bound, lemma_uint_value_of_bytes, uint_bytes,
    uint_value, ByteOrder,
};
use crate::error::ChannelError;
use crate::layout::LayoutSignature;

verus! {

/// A value type of fixed layout: no owned resources, no padding, and an image
/// of the same length for every value.
pub trait FixedLayout: Sized {
    /// Size and alignment of the type. The size is the length of every frame
    /// that carries one value.
    spec fn spec_layout() -> LayoutSignature;

    /// The byte image of a value.
    spec fn spec_bytes(&self, order: ByteOrder) -> Seq<u8>;

    /// What a frame is read as: the value it is the image of, or the reason
    /// why it is the image of none.
    spec fn spec_parse(bytes: Seq<u8>, order: ByteOrder) -> Result<Self, ChannelError>;

    /// The image of a value is as long as the layout says.
    proof fn lemma_image_len(&self, order: ByteOrder)
        ensures
            self.spec_bytes(order).len() == Self::spec_layout().size,
    ;

    /// Reading the image of a value gives the value.
    proof fn lemma_parse_of_image(&self, order: ByteOrder)
        ensures
            Self::spec_parse(self.spec_bytes(order), order) == Ok::<Self, ChannelError>(*self),
    ;

    /// A frame that is read as a value is the image of that value: reading
    /// transforms nothing.
    proof fn lemma_image_of_parse(bytes: Seq<u8>, order: ByteOrder)
        requires
            bytes.len() == Self::spec_layout().size,
            Self::spec_parse(bytes, order) is Ok,
        ensures
            Self::spec_parse(bytes, order).unwrap().spec_bytes(order) == bytes,
    ;

    /// A frame can fail to be read for one reason only: it holds a tag that
    /// names no variant.
    proof fn lemma_parse_failure(bytes: Seq<u8>, order: ByteOrder)
        requires
            bytes.len() == Self::spec_layout().size,
        ensures
            Self::spec_parse(bytes, order) is Err ==> Self::spec_parse(bytes, order)->Err_0
                is InvalidEnumTag,
    ;

    /// Size and alignment of the type.
    fn layout() -> (sig: LayoutSignature)
        ensures
            sig == Self::spec_layout(),
    ;

    /// The byte image of the value.
    fn to_bytes(&self, order: ByteOrder) -> (out: Vec<u8>)
        ensures
            out@ == self.spec_bytes(order),
    ;

    /// Reads one frame.
    fn from_bytes(bytes: &[u8], order: ByteOrder) -> (res: Result<Self, ChannelError>)
        requires
            bytes@.len() == Self::spec_layout().size,
        ensures
            res == Self::spec_parse(bytes@, order),
    ;
}

/// Reads one value from bytes of any length.
///
/// Bytes of exactly the length of a frame are read as `from_bytes` reads
/// them. Bytes of any other length are no frame: a short or long read can
/// never be valid, and the result is `IoError`.
pub fn read_frame<T: FixedLayout>(bytes: &[u8], order: ByteOrder) -> (res: Result<T, ChannelError>)
    ensures
        bytes@.len() == T::spec_layout().size ==> res == T::spec_parse(bytes@, order),
        bytes@.len() != T::spec_layout().size ==> res == Err::<T, ChannelError>(
            ChannelError::IoError,
        ),
{
    if bytes.len() == T::layout().size {
        T::from_bytes(bytes, order)
    } else {
        Err(ChannelError::IoError)
    }
}

impl FixedLayout for u8 {
    open spec fn spec_layout() -> LayoutSignature {
        LayoutSignature { size: 1, alignment: 1 }
    }

    open spec fn spec_bytes(&self, order: ByteOrder) -> Seq<u8> {
        uint_bytes(*self as nat, 1, order)
    }

    open spec fn spec_parse(bytes: Seq<u8>, order: ByteOrder) -> Result<Self, ChannelError> {
        Ok(uint_value(bytes, order) as u8)
    }

    proof fn lemma_image_len(&self, order: ByteOrder) {
        lemma_uint_bytes_len(*self as nat, 1, order);
    }

    proof fn lemma_parse_of_image(&self, order: ByteOrder) {
        lemma_radix_pow_values();
        lemma_uint_value_of_bytes(*self as nat, 1, order);
    }

    proof fn lemma_image_of_parse(bytes: Seq<u8>, order: ByteOrder) {
        lemma_radix_pow_values();
        lemma_uint_value_bound(bytes, order);
        lemma_uint_bytes_of_value(bytes, order);
    }

    proof fn lemma_parse_failure(bytes: Seq<u8>, order: ByteOrder) {
    }

    fn layout() -> (sig: LayoutSignature) {
        LayoutSignature::new(1, 1)
    }

    fn to_bytes(&self, order: ByteOrder) -> (out: Vec<u8>) {
        encode_uint(*self as u64, 1, order)
    }

    fn from_bytes(bytes: &[u8], order: ByteOrder) -> (res: Result<Self, ChannelError>) {
        proof {
            lemma_radix_pow_values();
            lemma_uint_value_bound(bytes@, order);
        }
        Ok(decode_uint(bytes, order) as u8)
    }
}

impl FixedLayout for u16 {
    open spec fn spec_layout() -> LayoutSignature {
        LayoutSignature { size: 2, alignment: 2 }
    }

    open spec fn spec_bytes(&self, order: ByteOrder) -> Seq<u8> {
        uint_bytes(*self as nat, 2, order)
    }

    open spec fn spec_parse(bytes: Seq<u8>, order: ByteOrder) -> Result<Self, ChannelError> {
        Ok(uint_value(bytes, order) as u16)
    }

    proof fn lemma_image_len(&self, order: ByteOrder) {
        lemma_uint_bytes_len(*self as nat, 2, order);
    }

    proof fn lemma_parse_of_image(&self, order: ByteOrder) {
        lemma_radix_pow_values();
        lemma_uint_value_of_bytes(*self as nat, 2, order);
    }

    proof fn lemma_image_of_parse(bytes: Seq<u8>, order: ByteOrder) {
        lemma_radix_pow_values();
        lemma_uint_value_bound(bytes, order);
        lemma_uint_bytes_of_value(bytes, order);
    }

    proof fn lemma_parse_failure(bytes: Seq<u8>, order: ByteOrder) {
    }

    fn layout() -> (sig: LayoutSignature) {
        LayoutSignature::new(2, 2)
    }

    fn to_bytes(&self, order: ByteOrder) -> (out: Vec<u8>) {
        encode_uint(*self as u64, 2, order)
    }

    fn from_bytes(bytes: &[u8], order: ByteOrder) -> (res: Result<Self, ChannelError>) {
        proof {
            lemma_radix_pow_values();
            lemma_uint_value_bound(bytes@, order);
        }
        Ok(decode_uint(bytes, order) as u16)
    }
}

impl FixedLayout for u32 {
    open spec fn spec_layout() -> LayoutSignature {
        LayoutSignature { size: 4, alignment: 4 }
    }

    open spec fn spec_bytes(&self, order: ByteOrder) -> Seq<u8> {
        uint_bytes(*self as nat, 4, order)
    }

    open spec fn spec_parse(bytes: Seq<u8>, order: ByteOrder) -> Result<Self, ChannelError> {
        Ok(uint_value(bytes, order) as u32)
    }

    proof fn lemma_image_len(&self, order: ByteOrder) {
        lemma_uint_bytes_len(*self as nat, 4, order);
    }

    proof fn lemma_parse_of_image(&self, order: ByteOrder) {
        lemma_radix_pow_values();
        lemma_uint_value_of_bytes(*self as nat, 4, order);
    }

    proof fn lemma_image_of_parse(bytes: Seq<u8>, order: ByteOrder) {
        lemma_radix_pow_values();
        lemma_uint_value_bound(bytes, order);
        lemma_uint_bytes_of_value(bytes, order);
    }

    proof fn lemma_parse_failure(bytes: Seq<u8>, order: ByteOrder) {
    }

    fn layout() -> (sig: LayoutSignature) {
        LayoutSignature::new(4, 4)
    }

    fn to_bytes(&self, order: ByteOrder) -> (out: Vec<u8>) {
        encode_uint(*self as u64, 4, order)
    }

    fn from_bytes(bytes: &[u8], order: ByteOrder) -> (res: Result<Self, ChannelError>) {
        proof {
            lemma_radix_pow_values();
            lemma_uint_value_bound(bytes@, order);
        }
        Ok(decode_uint(bytes, order) as u32)
    }
}

impl FixedLayout for u64 {
    open spec fn spec_layout() -> LayoutSignature {
        LayoutSignature { size: 8, alignment: 8 }
    }

    open spec fn spec_bytes(&self, order: ByteOrder) -> Seq<u8> {
        uint_bytes(*self as nat, 8, order)
    }

    open spec fn spec_parse(bytes: Seq<u8>, order: ByteOrder) -> Result<Self, ChannelError> {
        Ok(uint_value(bytes, order) as u64)
    }

    proof fn lemma_image_len(&self, order: ByteOrder) {
        lemma_uint_bytes_len(*self as nat, 8, order);
    }

    proof fn lemma_parse_of_image(&self, order: ByteOrder) {
        lemma_radix_pow_values();
        lemma_uint_value_of_bytes(*self as nat, 8, order);
    }

    proof fn lemma_image_of_parse(bytes: Seq<u8>, order: ByteOrder) {
        lemma_radix_pow_values();
        lemma_uint_value_bound(bytes, order);
        lemma_uint_bytes_of_value(bytes, order);
    }

    proof fn lemma_parse_failure(bytes: Seq<u8>, order: ByteOrder) {
    }

    fn layout() -> (sig: LayoutSignature) {
        LayoutSignature::new(8, 8)
    }

    fn to_bytes(&self, order: ByteOrder) -> (out: Vec<u8>) {
        encode_uint(*self as u64, 8, order)
    }

    fn from_bytes(bytes: &[u8], order: ByteOrder) -> (res: Result<Self, ChannelError>) {
        proof {
            lemma_radix_pow_values();
            lemma_uint_value_bound(bytes@, order);
        }
        Ok(decode_uint(bytes, order) as u64)
    }
}

} // verus!
