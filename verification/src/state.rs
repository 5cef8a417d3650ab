//! The persisted computation state and its fixed 25-byte little-endian form.

use vstd::bytes::*;
use vstd::prelude::*;
use vstd::slice::slice_subrange;

verus! {

/// Length in bytes of a stored record: three 64-bit fields and one byte.
pub const DATA_LEN: u64 = 25;

/// What one requesting identity's record holds between invocations.
#[derive(Clone, Copy, Debug, PartialEq, Eq, Structural)]
pub struct ComputationState {
    /// Previous value of the recurrence.
    pub a: u64,
    /// Current value of the recurrence.
    pub b: u64,
    /// Steps that are still to be taken.
    pub remaining: u64,
    /// The discriminator found when the record's address was derived.
    pub discriminator: u8,
}

/// The record layout: `a` in bytes 0..8, `b` in 8..16, `remaining` in 16..24,
/// each little-endian, and the discriminator in byte 24.
pub open spec fn encode_spec(s: ComputationState) -> Seq<u8> {
    spec_u64_to_le_bytes(s.a) + spec_u64_to_le_bytes(s.b) + spec_u64_to_le_bytes(s.remaining)
        + seq![s.discriminator]
}

/// The state that a byte sequence stands for: every sequence of exactly
/// `DATA_LEN` bytes is a state, and no other is.
pub open spec fn decode_spec(bytes: Seq<u8>) -> Option<ComputationState> {
    if bytes.len() == DATA_LEN {
        Some(
            ComputationState {
                a: spec_u64_from_le_bytes(bytes.subrange(0, 8)),
                b: spec_u64_from_le_bytes(bytes.subrange(8, 16)),
                remaining: spec_u64_from_le_bytes(bytes.subrange(16, 24)),
                discriminator: bytes[24],
            },
        )
    } else {
        None
    }
}

/// Decoding what was encoded gives the state back, and an encoded state is
/// `DATA_LEN` bytes long.
pub proof fn lemma_decode_encode(s: ComputationState)
    ensures
        encode_spec(s).len() == DATA_LEN,
        decode_spec(encode_spec(s)) == Some(s),
{
    lemma_auto_spec_u64_to_from_le_bytes();
    let bytes = encode_spec(s);
    assert(bytes.subrange(0, 8) =~= spec_u64_to_le_bytes(s.a));
    assert(bytes.subrange(8, 16) =~= spec_u64_to_le_bytes(s.b));
    assert(bytes.subrange(16, 24) =~= spec_u64_to_le_bytes(s.remaining));
}

/// Encoding what was decoded gives the bytes back: the layout has no slack,
/// so two records that differ in any byte are different states.
pub proof fn lemma_encode_decode(bytes: Seq<u8>)
    requires
        bytes.len() == DATA_LEN,
    ensures
        encode_spec(decode_spec(bytes).unwrap()) == bytes,
{
    lemma_auto_spec_u64_to_from_le_bytes();
    let s = decode_spec(bytes).unwrap();
    assert(spec_u64_to_le_bytes(s.a) == bytes.subrange(0, 8));
    assert(spec_u64_to_le_bytes(s.b) == bytes.subrange(8, 16));
    assert(spec_u64_to_le_bytes(s.remaining) == bytes.subrange(16, 24));
    assert(encode_spec(s) =~= bytes);
}

/// Writes a state in the record layout.
pub fn encode(s: &ComputationState) -> (bytes: Vec<u8>)
    ensures
        bytes@ == encode_spec(*s),
        bytes@.len() == DATA_LEN,
        decode_spec(bytes@) == Some(*s),
{
    let mut bytes: Vec<u8> = u64_to_le_bytes(s.a);
    let mut b: Vec<u8> = u64_to_le_bytes(s.b);
    let mut remaining: Vec<u8> = u64_to_le_bytes(s.remaining);
    bytes.append(&mut b);
    bytes.append(&mut remaining);
    bytes.push(s.discriminator);
    proof {
        lemma_decode_encode(*s);
        assert(bytes@ =~= encode_spec(*s));
    }
    bytes
}

/// Reads a state from a record. Succeeds on every input of exactly `DATA_LEN`
/// bytes, whatever they hold, and on no other.
pub fn decode(bytes: &[u8]) -> (state: Option<ComputationState>)
    ensures
        state == decode_spec(bytes@),
        state is Some <==> bytes@.len() == DATA_LEN,
{
    if bytes.len() != DATA_LEN as usize {
        return None;
    }
    let a: u64 = u64_from_le_bytes(slice_subrange(bytes, 0, 8));
    let b: u64 = u64_from_le_bytes(slice_subrange(bytes, 8, 16));
    let remaining: u64 = u64_from_le_bytes(slice_subrange(bytes, 16, 24));
    Some(ComputationState { a, b, remaining, discriminator: bytes[24] })
}

} // verus!
