//! The on-disk image of a page.
//!
//! A page holds 512 signed 64-bit values. On disk it is exactly 4096 bytes:
//! the values in slot order, each as the eight bytes of its two's-complement
//! image, least significant byte first (little-endian), whatever the host
//! machine's own byte order is.

use vstd::prelude::*;

verus! {

/// Number of value slots in a page.
pub const SLOT_COUNT: usize = 512;

/// Number of bytes that one slot occupies on disk.
pub const SLOT_WIDTH: usize = 8;

/// Number of bytes in the on-disk image of a page.
pub const PAGE_SIZE: usize = 4096;

/// Byte `k` (0 is the least significant) of the two's-complement image of `v`.
pub open spec fn slot_byte(v: i64, k: u64) -> u8 {
    (((v as u64) >> (8 * k)) & 0xff) as u8
}

/// The eight bytes that stand for `v` on disk, least significant first.
pub open spec fn encode_slot(v: i64) -> Seq<u8> {
    seq![
        slot_byte(v, 0),
        slot_byte(v, 1),
        slot_byte(v, 2),
        slot_byte(v, 3),
        slot_byte(v, 4),
        slot_byte(v, 5),
        slot_byte(v, 6),
        slot_byte(v, 7),
    ]
}

/// The unsigned word whose little-endian bytes are `b0` .. `b7`.
pub open spec fn word_of(b0: u8, b1: u8, b2: u8, b3: u8, b4: u8, b5: u8, b6: u8, b7: u8) -> u64 {
    (b0 as u64) | ((b1 as u64) << 8) | ((b2 as u64) << 16) | ((b3 as u64) << 24) | ((b4 as u64)
        << 32) | ((b5 as u64) << 40) | ((b6 as u64) << 48) | ((b7 as u64) << 56)
}

/// The value that the eight bytes starting at `at` in `bytes` stand for.
pub open spec fn decode_slot(bytes: Seq<u8>, at: int) -> i64 {
    word_of(
        bytes[at],
        bytes[at + 1],
        bytes[at + 2],
        bytes[at + 3],
        bytes[at + 4],
        bytes[at + 5],
        bytes[at + 6],
        bytes[at + 7],
    ) as i64
}

/// The on-disk image of a run of values: eight bytes per value, in order.
pub open spec fn encode_values(values: Seq<i64>) -> Seq<u8> {
    Seq::new(8 * values.len(), |i: int| encode_slot(values[i / 8])[i % 8])
}

/// The values that a run of bytes stands for: one per complete group of eight.
pub open spec fn decode_bytes(bytes: Seq<u8>) -> Seq<i64> {
    Seq::new(bytes.len() / 8, |s: int| decode_slot(bytes, 8 * s))
}

/// Decoding the eight bytes of a value gives the value back.
pub proof fn lemma_slot_round_trip(v: i64)
    ensures
        word_of(
            slot_byte(v, 0),
            slot_byte(v, 1),
            slot_byte(v, 2),
            slot_byte(v, 3),
            slot_byte(v, 4),
            slot_byte(v, 5),
            slot_byte(v, 6),
            slot_byte(v, 7),
        ) as i64 == v,
{
    assert(word_of(
        slot_byte(v, 0),
        slot_byte(v, 1),
        slot_byte(v, 2),
        slot_byte(v, 3),
        slot_byte(v, 4),
        slot_byte(v, 5),
        slot_byte(v, 6),
        slot_byte(v, 7),
    ) as i64 == v) by (bit_vector);
}

/// Encoding the value of eight bytes gives the eight bytes back.
pub proof fn lemma_word_round_trip(b0: u8, b1: u8, b2: u8, b3: u8, b4: u8, b5: u8, b6: u8, b7: u8)
    ensures
        ({
            let v = word_of(b0, b1, b2, b3, b4, b5, b6, b7) as i64;
            &&& slot_byte(v, 0) == b0
            &&& slot_byte(v, 1) == b1
            &&& slot_byte(v, 2) == b2
            &&& slot_byte(v, 3) == b3
            &&& slot_byte(v, 4) == b4
            &&& slot_byte(v, 5) == b5
            &&& slot_byte(v, 6) == b6
            &&& slot_byte(v, 7) == b7
        }),
{
    assert({
        let v = word_of(b0, b1, b2, b3, b4, b5, b6, b7) as i64;
        &&& slot_byte(v, 0) == b0
        &&& slot_byte(v, 1) == b1
        &&& slot_byte(v, 2) == b2
        &&& slot_byte(v, 3) == b3
        &&& slot_byte(v, 4) == b4
        &&& slot_byte(v, 5) == b5
        &&& slot_byte(v, 6) == b6
        &&& slot_byte(v, 7) == b7
    }) by (bit_vector);
}

/// Round trip, values first: whatever the values are (zero, minus one, the
/// least and the greatest representable value included), decoding their
/// on-disk image gives exactly the same values.
pub proof fn lemma_decode_encode(values: Seq<i64>)
    ensures
        encode_values(values).len() == 8 * values.len(),
        decode_bytes(encode_values(values)) == values,
{
    let bytes = encode_values(values);
    assert(bytes.len() / 8 == values.len());
    assert forall|s: int| 0 <= s < values.len() implies decode_slot(bytes, 8 * s) == values[s] by {
        let v = values[s];
        assert forall|k: int| 0 <= k < 8 implies #[trigger] bytes[8 * s + k] == encode_slot(
            v,
        )[k] by {
            assert((8 * s + k) / 8 == s);
            assert((8 * s + k) % 8 == k);
        }
        assert(bytes[8 * s] == bytes[8 * s + 0]);
        lemma_slot_round_trip(v);
    }
    assert(decode_bytes(bytes) =~= values);
}

/// Round trip, bytes first: a run of bytes made of complete groups of eight
/// is the on-disk image of the values it decodes to.
pub proof fn lemma_encode_decode(bytes: Seq<u8>)
    requires
        bytes.len() % 8 == 0,
    ensures
        decode_bytes(bytes).len() * 8 == bytes.len(),
        encode_values(decode_bytes(bytes)) == bytes,
{
    let values = decode_bytes(bytes);
    let again = encode_values(values);
    assert(again.len() == bytes.len());
    assert forall|i: int| 0 <= i < bytes.len() implies again[i] == bytes[i] by {
        let s = i / 8;
        let k = i % 8;
        assert(i == 8 * s + k);
        lemma_word_round_trip(
            bytes[8 * s],
            bytes[8 * s + 1],
            bytes[8 * s + 2],
            bytes[8 * s + 3],
            bytes[8 * s + 4],
            bytes[8 * s + 5],
            bytes[8 * s + 6],
            bytes[8 * s + 7],
        );
        assert(values[s] == decode_slot(bytes, 8 * s));
    }
    assert(again =~= bytes);
}

/// Writes the on-disk image of 512 values.
pub fn encode_page(values: &[i64; 512]) -> (bytes: [u8; 4096])
    ensures
        bytes@ == encode_values(values@),
{
    let mut bytes: [u8; 4096] = [0u8; 4096];
    let mut s: usize = 0;
    while s < 512
        invariant
            s <= 512,
            forall|i: int| 0 <= i < 8 * s ==> bytes@[i] == encode_values(values@)[i],
        decreases 512 - s,
    {
        let v: i64 = values[s];
        let u: u64 = v as u64;
        let at: usize = 8 * s;
        bytes[at] = (u & 0xff) as u8;
        bytes[at + 1] = ((u >> 8) & 0xff) as u8;
        bytes[at + 2] = ((u >> 16) & 0xff) as u8;
        bytes[at + 3] = ((u >> 24) & 0xff) as u8;
        bytes[at + 4] = ((u >> 32) & 0xff) as u8;
        bytes[at + 5] = ((u >> 40) & 0xff) as u8;
        bytes[at + 6] = ((u >> 48) & 0xff) as u8;
        bytes[at + 7] = ((u >> 56) & 0xff) as u8;
        proof {
            assert((u & 0xff) as u8 == slot_byte(v, 0)) by (bit_vector)
                requires
                    u == v as u64,
            ;
            assert(((u >> 8) & 0xff) as u8 == slot_byte(v, 1) && ((u >> 16) & 0xff) as u8
                == slot_byte(v, 2) && ((u >> 24) & 0xff) as u8 == slot_byte(v, 3) && ((u >> 32)
                & 0xff) as u8 == slot_byte(v, 4) && ((u >> 40) & 0xff) as u8 == slot_byte(v, 5)
                && ((u >> 48) & 0xff) as u8 == slot_byte(v, 6) && ((u >> 56) & 0xff) as u8
                == slot_byte(v, 7)) by (bit_vector)
                requires
                    u == v as u64,
            ;
            assert forall|i: int| 0 <= i < 8 * (s + 1) implies bytes@[i] == encode_values(
                values@,
            )[i] by {
                if i >= 8 * s {
                    assert(i / 8 == s as int);
                    let k = i % 8;
                    assert(i == at + k);
                    assert(encode_values(values@)[i] == encode_slot(v)[k]);
                }
            }
        }
        s = s + 1;
    }
    assert(bytes@ =~= encode_values(values@));
    bytes
}

/// Reads 512 values back from their on-disk image.
pub fn decode_page(bytes: &[u8; 4096]) -> (values: [i64; 512])
    ensures
        values@ == decode_bytes(bytes@),
{
    let mut values: [i64; 512] = [0i64; 512];
    let mut s: usize = 0;
    while s < 512
        invariant
            s <= 512,
            forall|i: int| 0 <= i < s ==> values@[i] == decode_slot(bytes@, 8 * i),
        decreases 512 - s,
    {
        let at: usize = 8 * s;
        let u: u64 = (bytes[at] as u64) | ((bytes[at + 1] as u64) << 8) | ((bytes[at + 2] as u64)
            << 16) | ((bytes[at + 3] as u64) << 24) | ((bytes[at + 4] as u64) << 32) | ((bytes[at
            + 5] as u64) << 40) | ((bytes[at + 6] as u64) << 48) | ((bytes[at + 7] as u64) << 56);
        values[s] = u as i64;
        s = s + 1;
    }
    assert(values@ =~= decode_bytes(bytes@));
    values
}

} // verus!
