use vstd::prelude::*;

use crate::flash::bytes::{lemma_u32_le, push_u32, read_u32, u32_le};
use crate::side::{route, spec_route, Destination, Half, Side};

verus! {

/// Bit `j` of the stream that `bytes` make, most significant bit of each
/// byte first.
pub open spec fn stream_bit(bytes: Seq<u8>, j: int) -> bool {
    (bytes[j / 8] >> ((7 - j % 8) as u8)) & 1u8 == 1u8
}

/// Bit `j` of the WS2812B waveform of `value` at 9 stream bits per data
/// bit, most significant data bit first: `111` then three copies of the data
/// bit then `000`.
pub open spec fn pattern_bit(value: u8, j: int) -> bool {
    let data_bit = 7 - j / 9;
    let phase = j % 9;
    phase < 3 || (phase < 6 && (value >> (data_bit as u8)) & 1u8 == 1u8)
}

/// Whether the 9 bytes of `bytes` carry the waveform of `value`.
pub open spec fn encodes(bytes: Seq<u8>, value: u8) -> bool {
    &&& bytes.len() == 9
    &&& forall|j: int| 0 <= j < 72 ==> #[trigger] stream_bit(bytes, j) == pattern_bit(value, j)
}

/// `0b111` when bit `offset` of `value` is set, and 0 otherwise.
fn lookup(value: u8, offset: u8) -> (bits: u8)
    requires
        offset < 8,
    ensures
        bits == (if (value >> offset) & 1u8 == 1u8 { 7u8 } else { 0u8 }),
{
    if (value >> offset) & 1u8 == 1u8 {
        0b111
    } else {
        0b000
    }
}

/// The bits of the nine encoded bytes, one by one.
proof fn lemma_encoded_bits(value: u8, l0: u8, l1: u8, l2: u8, l3: u8, l4: u8, l5: u8, l6: u8, l7: u8, b0: u8, b1: u8, b2: u8, b3: u8, b4: u8, b5: u8, b6: u8, b7: u8, b8: u8)
    by (bit_vector)
    requires
        l0 == (if (value >> 0u8) & 1u8 == 1u8 { 7u8 } else { 0u8 }),
        l1 == (if (value >> 1u8) & 1u8 == 1u8 { 7u8 } else { 0u8 }),
        l2 == (if (value >> 2u8) & 1u8 == 1u8 { 7u8 } else { 0u8 }),
        l3 == (if (value >> 3u8) & 1u8 == 1u8 { 7u8 } else { 0u8 }),
        l4 == (if (value >> 4u8) & 1u8 == 1u8 { 7u8 } else { 0u8 }),
        l5 == (if (value >> 5u8) & 1u8 == 1u8 { 7u8 } else { 0u8 }),
        l6 == (if (value >> 6u8) & 1u8 == 1u8 { 7u8 } else { 0u8 }),
        l7 == (if (value >> 7u8) & 1u8 == 1u8 { 7u8 } else { 0u8 }),
        b0 == (0b11100000u8 | (l7 << 2u8)),
        b1 == (0b01110000u8 | (l6 << 1u8)),
        b2 == (0b00111000u8 | l5),
        b3 == (0b00011100u8 | (l4 >> 1u8)),
        b4 == (0b00001110u8 | (l4 << 7u8) | (l3 >> 2u8)),
        b5 == (0b00000111u8 | (l3 << 6u8)),
        b6 == (0b00000011u8 | (l2 << 5u8)),
        b7 == (0b10000001u8 | (l1 << 4u8)),
        b8 == (0b11000000u8 | (l0 << 3u8)),
    ensures
        ((b0 >> 7u8) & 1u8 == 1u8) == true,
        ((b0 >> 6u8) & 1u8 == 1u8) == true,
        ((b0 >> 5u8) & 1u8 == 1u8) == true,
        ((b0 >> 4u8) & 1u8 == 1u8) == ((value >> 7u8) & 1u8 == 1u8),
        ((b0 >> 3u8) & 1u8 == 1u8) == ((value >> 7u8) & 1u8 == 1u8),
        ((b0 >> 2u8) & 1u8 == 1u8) == ((value >> 7u8) & 1u8 == 1u8),
        ((b0 >> 1u8) & 1u8 == 1u8) == false,
        ((b0 >> 0u8) & 1u8 == 1u8) == false,
        ((b1 >> 7u8) & 1u8 == 1u8) == false,
        ((b1 >> 6u8) & 1u8 == 1u8) == true,
        ((b1 >> 5u8) & 1u8 == 1u8) == true,
        ((b1 >> 4u8) & 1u8 == 1u8) == true,
        ((b1 >> 3u8) & 1u8 == 1u8) == ((value >> 6u8) & 1u8 == 1u8),
        ((b1 >> 2u8) & 1u8 == 1u8) == ((value >> 6u8) & 1u8 == 1u8),
        ((b1 >> 1u8) & 1u8 == 1u8) == ((value >> 6u8) & 1u8 == 1u8),
        ((b1 >> 0u8) & 1u8 == 1u8) == false,
        ((b2 >> 7u8) & 1u8 == 1u8) == false,
        ((b2 >> 6u8) & 1u8 == 1u8) == false,
        ((b2 >> 5u8) & 1u8 == 1u8) == true,
        ((b2 >> 4u8) & 1u8 == 1u8) == true,
        ((b2 >> 3u8) & 1u8 == 1u8) == true,
        ((b2 >> 2u8) & 1u8 == 1u8) == ((value >> 5u8) & 1u8 == 1u8),
        ((b2 >> 1u8) & 1u8 == 1u8) == ((value >> 5u8) & 1u8 == 1u8),
        ((b2 >> 0u8) & 1u8 == 1u8) == ((value >> 5u8) & 1u8 == 1u8),
        ((b3 >> 7u8) & 1u8 == 1u8) == false,
        ((b3 >> 6u8) & 1u8 == 1u8) == false,
        ((b3 >> 5u8) & 1u8 == 1u8) == false,
        ((b3 >> 4u8) & 1u8 == 1u8) == true,
        ((b3 >> 3u8) & 1u8 == 1u8) == true,
        ((b3 >> 2u8) & 1u8 == 1u8) == true,
        ((b3 >> 1u8) & 1u8 == 1u8) == ((value >> 4u8) & 1u8 == 1u8),
        ((b3 >> 0u8) & 1u8 == 1u8) == ((value >> 4u8) & 1u8 == 1u8),
        ((b4 >> 7u8) & 1u8 == 1u8) == ((value >> 4u8) & 1u8 == 1u8),
        ((b4 >> 6u8) & 1u8 == 1u8) == false,
        ((b4 >> 5u8) & 1u8 == 1u8) == false,
        ((b4 >> 4u8) & 1u8 == 1u8) == false,
        ((b4 >> 3u8) & 1u8 == 1u8) == true,
        ((b4 >> 2u8) & 1u8 == 1u8) == true,
        ((b4 >> 1u8) & 1u8 == 1u8) == true,
        ((b4 >> 0u8) & 1u8 == 1u8) == ((value >> 3u8) & 1u8 == 1u8),
        ((b5 >> 7u8) & 1u8 == 1u8) == ((value >> 3u8) & 1u8 == 1u8),
        ((b5 >> 6u8) & 1u8 == 1u8) == ((value >> 3u8) & 1u8 == 1u8),
        ((b5 >> 5u8) & 1u8 == 1u8) == false,
        ((b5 >> 4u8) & 1u8 == 1u8) == false,
        ((b5 >> 3u8) & 1u8 == 1u8) == false,
        ((b5 >> 2u8) & 1u8 == 1u8) == true,
        ((b5 >> 1u8) & 1u8 == 1u8) == true,
        ((b5 >> 0u8) & 1u8 == 1u8) == true,
        ((b6 >> 7u8) & 1u8 == 1u8) == ((value >> 2u8) & 1u8 == 1u8),
        ((b6 >> 6u8) & 1u8 == 1u8) == ((value >> 2u8) & 1u8 == 1u8),
        ((b6 >> 5u8) & 1u8 == 1u8) == ((value >> 2u8) & 1u8 == 1u8),
        ((b6 >> 4u8) & 1u8 == 1u8) == false,
        ((b6 >> 3u8) & 1u8 == 1u8) == false,
        ((b6 >> 2u8) & 1u8 == 1u8) == false,
        ((b6 >> 1u8) & 1u8 == 1u8) == true,
        ((b6 >> 0u8) & 1u8 == 1u8) == true,
        ((b7 >> 7u8) & 1u8 == 1u8) == true,
        ((b7 >> 6u8) & 1u8 == 1u8) == ((value >> 1u8) & 1u8 == 1u8),
        ((b7 >> 5u8) & 1u8 == 1u8) == ((value >> 1u8) & 1u8 == 1u8),
        ((b7 >> 4u8) & 1u8 == 1u8) == ((value >> 1u8) & 1u8 == 1u8),
        ((b7 >> 3u8) & 1u8 == 1u8) == false,
        ((b7 >> 2u8) & 1u8 == 1u8) == false,
        ((b7 >> 1u8) & 1u8 == 1u8) == false,
        ((b7 >> 0u8) & 1u8 == 1u8) == true,
        ((b8 >> 7u8) & 1u8 == 1u8) == true,
        ((b8 >> 6u8) & 1u8 == 1u8) == true,
        ((b8 >> 5u8) & 1u8 == 1u8) == ((value >> 0u8) & 1u8 == 1u8),
        ((b8 >> 4u8) & 1u8 == 1u8) == ((value >> 0u8) & 1u8 == 1u8),
        ((b8 >> 3u8) & 1u8 == 1u8) == ((value >> 0u8) & 1u8 == 1u8),
        ((b8 >> 2u8) & 1u8 == 1u8) == false,
        ((b8 >> 1u8) & 1u8 == 1u8) == false,
        ((b8 >> 0u8) & 1u8 == 1u8) == false,
{
}

/// Writes the SPI bytes that drive a WS2812B LED channel to `value` into the
/// first nine bytes of `slice`.
pub fn write_value_to_slice(slice: &mut [u8], value: u8)
    requires
        old(slice)@.len() >= 9,
    ensures
        final(slice)@.len() == old(slice)@.len(),
        encodes(final(slice)@.take(9), value),
        final(slice)@.skip(9) == old(slice)@.skip(9),
{
    let l0 = lookup(value, 0);
    let l1 = lookup(value, 1);
    let l2 = lookup(value, 2);
    let l3 = lookup(value, 3);
    let l4 = lookup(value, 4);
    let l5 = lookup(value, 5);
    let l6 = lookup(value, 6);
    let l7 = lookup(value, 7);
    slice[8] = 0b11000000u8 | (l0 << 3u8);
    slice[7] = 0b10000001u8 | (l1 << 4u8);
    slice[6] = 0b00000011u8 | (l2 << 5u8);
    slice[5] = 0b00000111u8 | (l3 << 6u8);
    slice[4] = 0b00001110u8 | (l4 << 7u8) | (l3 >> 2u8);
    slice[3] = 0b00011100u8 | (l4 >> 1u8);
    slice[2] = 0b00111000u8 | l5;
    slice[1] = 0b01110000u8 | (l6 << 1u8);
    slice[0] = 0b11100000u8 | (l7 << 2u8);
    proof {
        lemma_encoded_bits(value, l0, l1, l2, l3, l4, l5, l6, l7, slice@[0], slice@[1], slice@[2], slice@[3], slice@[4], slice@[5], slice@[6], slice@[7], slice@[8]);
        let bytes = slice@.take(9);
        assert forall|j: int| 0 <= j < 72 implies #[trigger] stream_bit(bytes, j) == pattern_bit(value, j) by {
            if j == 0 {
            } else if j == 1 {
            } else if j == 2 {
            } else if j == 3 {
            } else if j == 4 {
            } else if j == 5 {
            } else if j == 6 {
            } else if j == 7 {
            } else if j == 8 {
            } else if j == 9 {
            } else if j == 10 {
            } else if j == 11 {
            } else if j == 12 {
            } else if j == 13 {
            } else if j == 14 {
            } else if j == 15 {
            } else if j == 16 {
            } else if j == 17 {
            } else if j == 18 {
            } else if j == 19 {
            } else if j == 20 {
            } else if j == 21 {
            } else if j == 22 {
            } else if j == 23 {
            } else if j == 24 {
            } else if j == 25 {
            } else if j == 26 {
            } else if j == 27 {
            } else if j == 28 {
            } else if j == 29 {
            } else if j == 30 {
            } else if j == 31 {
            } else if j == 32 {
            } else if j == 33 {
            } else if j == 34 {
            } else if j == 35 {
            } else if j == 36 {
            } else if j == 37 {
            } else if j == 38 {
            } else if j == 39 {
            } else if j == 40 {
            } else if j == 41 {
            } else if j == 42 {
            } else if j == 43 {
            } else if j == 44 {
            } else if j == 45 {
            } else if j == 46 {
            } else if j == 47 {
            } else if j == 48 {
            } else if j == 49 {
            } else if j == 50 {
            } else if j == 51 {
            } else if j == 52 {
            } else if j == 53 {
            } else if j == 54 {
            } else if j == 55 {
            } else if j == 56 {
            } else if j == 57 {
            } else if j == 58 {
            } else if j == 59 {
            } else if j == 60 {
            } else if j == 61 {
            } else if j == 62 {
            } else if j == 63 {
            } else if j == 64 {
            } else if j == 65 {
            } else if j == 66 {
            } else if j == 67 {
            } else if j == 68 {
            } else if j == 69 {
            } else if j == 70 {
            } else if j == 71 {
            }
        }
        assert(slice@.skip(9) =~= old(slice)@.skip(9));
    }
}

/// The SPI bytes for a strip of LED channel values, nine bytes per value in
/// order (red, green and blue of each LED in turn).
pub fn encode_led_values(values: &Vec<u8>) -> (buffer: Vec<u8>)
    requires
        values@.len() * 9 <= usize::MAX,
    ensures
        buffer@.len() == 9 * values@.len(),
        forall|i: int| 0 <= i < values@.len() ==> encodes(#[trigger] buffer@.subrange(9 * i, 9 * i + 9), values@[i]),
{
    let mut buffer: Vec<u8> = Vec::new();
    let mut index: usize = 0;
    while index < values.len()
        invariant
            index <= values@.len(),
            buffer@.len() == 9 * index,
            forall|i: int| 0 <= i < index ==> encodes(#[trigger] buffer@.subrange(9 * i, 9 * i + 9), values@[i]),
        decreases values@.len() - index,
    {
        let mut chunk = [0u8; 9];
        write_value_to_slice(&mut chunk, values[index]);
        let ghost before = buffer@;
        let mut k: usize = 0;
        while k < 9
            invariant
                k <= 9,
                buffer@.len() == 9 * index + k,
                buffer@.subrange(0, 9 * index as int) == before,
                forall|m: int| 0 <= m < k ==> buffer@[9 * index + m] == chunk@[m],
            decreases 9 - k,
        {
            buffer.push(chunk[k]);
            k = k + 1;
        }
        proof {
            assert(buffer@.subrange(9 * index as int, 9 * index + 9) =~= chunk@.take(9));
            assert forall|i: int| 0 <= i < index + 1 implies encodes(#[trigger] buffer@.subrange(9 * i, 9 * i + 9), values@[i]) by {
                if i < index {
                    assert(buffer@.subrange(9 * i, 9 * i + 9) =~= before.subrange(9 * i, 9 * i + 9));
                }
            }
        }
        index = index + 1;
    }
    buffer
}

/// Animations of the status strip.
#[derive(Clone, Copy, Debug, PartialEq, Eq, Structural)]
pub enum AnimationType {
    /// The halves are looking for each other.
    Disconnected,
    /// Shows whether this half became the master.
    IndicateMaster { is_master: bool },
    Rainbow,
}

/// LEDs that take their color components in red, green, blue order.
pub struct Rgb;

/// LEDs that take their color components in green, red, blue order.
pub struct Grb;

/// A request to the lighting task: run animation `animation` (an index into
/// the keyboard's animation table) on the LEDs `index`.
#[derive(Clone, Copy, Debug, PartialEq, Eq, Structural)]
pub enum LightingOperation {
    SetAnimation { index: usize, animation: usize },
}

/// Routes a change of animation, aimed at `side`, from `half`.
pub fn set_animation(side: Side, index: usize, animation: usize, half: Half) -> (routed: Vec<(Destination, LightingOperation)>)
    ensures
        routed@ == spec_route(side, half, LightingOperation::SetAnimation { index, animation }),
{
    route(side, half, LightingOperation::SetAnimation { index, animation })
}

} // verus!

verus! {

/// The bytes sent to the other half for a lighting request: the LED index
/// and the animation index, each as a little-endian 32-bit value.
pub open spec fn lighting_operation_bytes(operation: LightingOperation) -> Seq<u8> {
    match operation {
        LightingOperation::SetAnimation { index, animation } => u32_le(index as u32) + u32_le(animation as u32),
    }
}

/// A lighting request whose indices fit the 32 bits sent for them.
pub open spec fn lighting_operation_fits(operation: LightingOperation) -> bool {
    match operation {
        LightingOperation::SetAnimation { index, animation } => index <= u32::MAX && animation <= u32::MAX,
    }
}

impl LightingOperation {
    /// The bytes sent to the other half for this request.
    pub fn to_gatt(&self) -> (bytes: Vec<u8>)
        requires
            lighting_operation_fits(*self),
        ensures
            bytes@ == lighting_operation_bytes(*self),
    {
        let mut bytes: Vec<u8> = Vec::new();
        match self {
            LightingOperation::SetAnimation { index, animation } => {
                push_u32(&mut bytes, *index as u32);
                push_u32(&mut bytes, *animation as u32);
            },
        }
        assert(bytes@ =~= lighting_operation_bytes(*self));
        bytes
    }

    /// The request received from the other half in `data`: the request
    /// whose bytes `data` are.
    pub fn from_gatt(data: &[u8]) -> (operation: Self)
        requires
            data@.len() == 8,
        ensures
            forall|other: Self| lighting_operation_fits(other) && #[trigger] lighting_operation_bytes(other) == data@ ==> operation == other,
    {
        let index = read_u32(data, 0) as usize;
        let animation = read_u32(data, 4) as usize;
        let operation = LightingOperation::SetAnimation { index, animation };
        proof {
            assert forall|other: Self| lighting_operation_fits(other) && #[trigger] lighting_operation_bytes(other) == data@ implies operation == other by {
                match other {
                    LightingOperation::SetAnimation { index: i, animation: a } => {
                        let bytes = lighting_operation_bytes(other);
                        assert(bytes.subrange(0, 4) =~= u32_le(i as u32));
                        assert(bytes.subrange(4, 8) =~= u32_le(a as u32));
                        lemma_u32_le(i as u32, 0, bytes.subrange(0, 4));
                        lemma_u32_le(a as u32, 0, bytes.subrange(4, 8));
                    },
                }
            }
        }
        operation
    }
}

} // verus!
