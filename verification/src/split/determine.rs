use vstd::prelude::*;

verus! {

/// Whether the half that advertises becomes the master: it does when its
/// random number is the larger one.
pub fn advertiser_is_master(random_number: u32, other_random_number: u32) -> (is_master: bool)
    ensures
        is_master == (random_number > other_random_number),
{
    random_number > other_random_number
}

/// Whether the half that connects becomes the master, given what the
/// advertising half reported: it does when the other half did not.
pub fn connector_is_master(other_is_master: bool) -> (is_master: bool)
    ensures
        is_master == !other_is_master,
{
    !other_is_master
}

/// Whether the random number pool holds enough bytes for a `u32`.
pub fn enough_random_bytes(available: u8) -> (enough: bool)
    ensures
        enough == (available >= 4),
{
    available >= 4
}

/// The `u32` whose little-endian bytes are `bytes`.
pub fn u32_from_le_bytes(bytes: [u8; 4]) -> (value: u32)
    ensures
        value == bytes@[0] + 256 * bytes@[1] + 65536 * bytes@[2] + 16777216 * bytes@[3],
{
    (bytes[0] as u32) + 256 * (bytes[1] as u32) + 65536 * (bytes[2] as u32) + 16777216 * (bytes[3] as u32)
}

} // verus!
