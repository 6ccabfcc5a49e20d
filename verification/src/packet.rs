//! The data packet: an indexed record of fixed size that travels whole.

use vstd::prelude::*;
use vstd::array::{spec_array_fill_for_copy_type, spec_array_update};
use crate::bytes::{
    decode_uint, encode_uint, lemma_radix_pow_values, lemma_uint_bytes_len,
    lemma_uint_bytes_of_value, lemma_uint_value_bound, lemma_uint_value_of_bytes, uint_bytes,
    uint_value, ByteOrder,
};
use crate::connection::{CtrlSignal, Stream};
use crate::error::ChannelError;
use crate::frame::FixedLayout;
use crate::layout::LayoutSignature;

verus! {

/// Bytes of payload in one packet.
pub const PAYLOAD_LEN: usize = 120;

/// Bytes of one packet on the wire: the index, then the payload.
pub const PACKET_LEN: usize = 128;

/// A record of a caller-assigned index and a block of payload.
///
/// The index means nothing to a channel: packets are neither reordered nor
/// deduplicated by it.
#[derive(Debug, Clone, Copy, PartialEq, Eq)]
pub struct DataPacket {
    /// Index that the sender gave the packet.
    pub index: u64,
    /// The payload.
    pub payload: [u8; 120],
}

/// The array whose first `k` elements are those of `s`, and zero beyond.
pub open spec fn block_of(s: Seq<u8>, k: nat) -> [u8; 120]
    decreases k,
{
    if k == 0 {
        spec_array_fill_for_copy_type::<u8, 120>(0u8)
    } else {
        spec_array_update(block_of(s, (k - 1) as nat), k - 1, s[k - 1])
    }
}

/// `block_of` agrees with the sequence on the elements it has taken.
pub proof fn lemma_block_of(s: Seq<u8>, k: nat)
    requires
        k <= 120,
    ensures
        block_of(s, k)@.len() == 120,
        forall|i: int| 0 <= i < k ==> block_of(s, k)@[i] == s[i],
    decreases k,
{
    broadcast use vstd::array::group_array_axioms;

    if k > 0 {
        lemma_block_of(s, (k - 1) as nat);
    }
}

/// A block is determined by its elements.
pub proof fn lemma_block_of_view(block: [u8; 120])
    ensures
        block_of(block@, 120) == block,
{
    broadcast use vstd::array::group_array_axioms;

    lemma_block_of(block@, 120);
    assert(block_of(block@, 120) =~= block);
}

impl FixedLayout for DataPacket {
    open spec fn spec_layout() -> LayoutSignature {
        LayoutSignature { size: 128, alignment: 8 }
    }

    open spec fn spec_bytes(&self, order: ByteOrder) -> Seq<u8> {
        uint_bytes(self.index as nat, 8, order) + self.payload@
    }

    open spec fn spec_parse(bytes: Seq<u8>, order: ByteOrder) -> Result<Self, ChannelError> {
        Ok(
            DataPacket {
                index: uint_value(bytes.subrange(0, 8), order) as u64,
                payload: block_of(bytes.subrange(8, 128), 120),
            },
        )
    }

    proof fn lemma_image_len(&self, order: ByteOrder) {
        broadcast use vstd::array::group_array_axioms;

        lemma_uint_bytes_len(self.index as nat, 8, order);
    }

    proof fn lemma_parse_of_image(&self, order: ByteOrder) {
        broadcast use vstd::array::group_array_axioms;

        let head = uint_bytes(self.index as nat, 8, order);
        let image = self.spec_bytes(order);
        lemma_uint_bytes_len(self.index as nat, 8, order);
        lemma_radix_pow_values();
        lemma_uint_value_of_bytes(self.index as nat, 8, order);
        assert(image.subrange(0, 8) =~= head);
        assert(image.subrange(8, 128) =~= self.payload@);
        lemma_block_of_view(self.payload);
    }

    proof fn lemma_image_of_parse(bytes: Seq<u8>, order: ByteOrder) {
        broadcast use vstd::array::group_array_axioms;

        let head = bytes.subrange(0, 8);
        let tail = bytes.subrange(8, 128);
        lemma_radix_pow_values();
        lemma_uint_value_bound(head, order);
        lemma_uint_bytes_of_value(head, order);
        lemma_block_of(tail, 120);
        assert(block_of(tail, 120)@ =~= tail);
        assert(head + tail =~= bytes);
    }

    proof fn lemma_parse_failure(bytes: Seq<u8>, order: ByteOrder) {
    }

    fn layout() -> (sig: LayoutSignature) {
        LayoutSignature::new(128, 8)
    }

    fn to_bytes(&self, order: ByteOrder) -> (out: Vec<u8>) {
        let mut out = encode_uint(self.index, 8, order);
        proof {
            lemma_uint_bytes_len(self.index as nat, 8, order);
        }
        let ghost head = out@;
        let mut i: usize = 0;
        while i < 120
            invariant
                i <= 120,
                head.len() == 8,
                out@ == head + self.payload@.subrange(0, i as int),
            decreases 120 - i,
        {
            out.push(self.payload[i]);
            proof {
                assert(out@ =~= head + self.payload@.subrange(0, i + 1));
            }
            i = i + 1;
        }
        proof {
            assert(self.payload@.subrange(0, 120) =~= self.payload@);
        }
        out
    }

    fn from_bytes(bytes: &[u8], order: ByteOrder) -> (res: Result<Self, ChannelError>) {
        let head = vstd::slice::slice_subrange(bytes, 0, 8);
        proof {
            lemma_radix_pow_values();
            lemma_uint_value_bound(head@, order);
        }
        let index = decode_uint(head, order);
        let mut payload: [u8; 120] = [0u8; 120];
        let mut i: usize = 0;
        while i < 120
            invariant
                i <= 120,
                bytes@.len() == 128,
                forall|j: int| 0 <= j < i ==> payload@[j] == bytes@[8 + j],
            decreases 120 - i,
        {
            payload[i] = bytes[8 + i];
            i = i + 1;
        }
        proof {
            broadcast use vstd::array::group_array_axioms;

            let tail = bytes@.subrange(8, 128);
            lemma_block_of(tail, 120);
            assert forall|j: int| 0 <= j < 120 implies payload@[j] == block_of(tail, 120)@[j] by {
                assert(tail[j] == bytes@[8 + j]);
            }
            assert(payload@ =~= block_of(tail, 120)@);
            assert(payload =~= block_of(tail, 120));
        }
        Ok(DataPacket { index, payload })
    }
}

/// The control-signal channel: the endpoint of a connected datagram pair
/// that carries one signal per datagram. Receiving a datagram whose byte
/// names no signal fails with `InvalidEnumTag`.
pub type Ctrl = Stream<CtrlSignal>;

/// The packet channel: the endpoint of a connected datagram pair that
/// carries one packet per datagram.
pub type DataBus = Stream<DataPacket>;

} // verus!
