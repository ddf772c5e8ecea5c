use vstd::prelude::*;

use super::bytes::{lemma_u16_le, lemma_u32_le, push_bytes, push_u16, push_u32, read_into, read_u16, read_u32, u16_le, u16_of, u32_le, u32_of};
use super::{Bond, Peer, Settings, SystemAttributes};
use crate::ble::types::{Address, EncryptionInfo, IdentityKey, IdentityResolutionKey, MasterId};
use crate::interface::MAXIMUM_BONDS;

verus! {

/// Number of bytes a peer takes.
pub const PEER_SIZE: usize = 50;

/// Number of bytes system attributes take.
pub const ATTRIBUTES_SIZE: usize = 68;

/// Number of bytes a bond takes in the flash.
pub const BOND_SIZE: usize = 118;

/// The bytes of a peer: the central's `ediv` (little-endian) and `rand`, the
/// long-term key and its flags, the identity resolution key, and the
/// address flags and bytes.
pub open spec fn peer_bytes(peer: Peer) -> Seq<u8> {
    u16_le(peer.master_id.ediv) + peer.master_id.rand@ + peer.key.ltk@ + seq![peer.key.flags] + peer.peer_id.irk.irk@
        + seq![peer.peer_id.addr.flags] + peer.peer_id.addr.bytes@
}

/// The bytes of system attributes: the length (little-endian, 32 bits) and
/// the buffer.
pub open spec fn attributes_bytes(attributes: SystemAttributes) -> Seq<u8> {
    u32_le(attributes.length as u32) + attributes.data@
}

/// The bytes of a bond in the flash: its peer, then its system attributes.
pub open spec fn bond_bytes(bond: Bond) -> Seq<u8> {
    peer_bytes(bond.peer) + attributes_bytes(bond.system_attributes)
}

/// System attributes whose length fits the 32 bits stored for it.
pub open spec fn attributes_fit(attributes: SystemAttributes) -> bool {
    attributes.length <= u32::MAX
}

/// A bond whose attribute length fits the 32 bits stored for it.
pub open spec fn bond_fits(bond: Bond) -> bool {
    attributes_fit(bond.system_attributes)
}

/// Different peers have different bytes.
pub proof fn lemma_peer_bytes_injective(a: Peer, b: Peer)
    ensures
        peer_bytes(a).len() == PEER_SIZE,
        peer_bytes(a) == peer_bytes(b) ==> a == b,
{
    let x = peer_bytes(a);
    let y = peer_bytes(b);
    if x == y {
        assert(x.subrange(0, 2) =~= u16_le(a.master_id.ediv));
        assert(y.subrange(0, 2) =~= u16_le(b.master_id.ediv));
        lemma_u16_le(a.master_id.ediv, b.master_id.ediv, x.subrange(0, 2));
        assert(x.subrange(2, 10) =~= a.master_id.rand@);
        assert(y.subrange(2, 10) =~= b.master_id.rand@);
        assert(a.master_id.rand == b.master_id.rand);
        assert(x.subrange(10, 26) =~= a.key.ltk@);
        assert(y.subrange(10, 26) =~= b.key.ltk@);
        assert(a.key.ltk == b.key.ltk);
        assert(x[26] == a.key.flags);
        assert(y[26] == b.key.flags);
        assert(x.subrange(27, 43) =~= a.peer_id.irk.irk@);
        assert(y.subrange(27, 43) =~= b.peer_id.irk.irk@);
        assert(a.peer_id.irk.irk == b.peer_id.irk.irk);
        assert(x[43] == a.peer_id.addr.flags);
        assert(y[43] == b.peer_id.addr.flags);
        assert(x.subrange(44, 50) =~= a.peer_id.addr.bytes@);
        assert(y.subrange(44, 50) =~= b.peer_id.addr.bytes@);
        assert(a.peer_id.addr.bytes == b.peer_id.addr.bytes);
    }
}

/// Different system attributes that fit have different bytes.
pub proof fn lemma_attributes_bytes_injective(a: SystemAttributes, b: SystemAttributes)
    requires
        attributes_fit(a),
        attributes_fit(b),
    ensures
        attributes_bytes(a).len() == ATTRIBUTES_SIZE,
        attributes_bytes(a) == attributes_bytes(b) ==> a == b,
{
    let x = attributes_bytes(a);
    let y = attributes_bytes(b);
    if x == y {
        assert(x.subrange(0, 4) =~= u32_le(a.length as u32));
        assert(y.subrange(0, 4) =~= u32_le(b.length as u32));
        lemma_u32_le(a.length as u32, b.length as u32, x.subrange(0, 4));
        assert(x.subrange(4, 68) =~= a.data@);
        assert(y.subrange(4, 68) =~= b.data@);
        assert(a.data == b.data);
    }
}

/// Different bonds that fit have different bytes.
pub proof fn lemma_bond_bytes_injective(a: Bond, b: Bond)
    requires
        bond_fits(a),
        bond_fits(b),
        bond_bytes(a) == bond_bytes(b),
    ensures
        a == b,
        bond_bytes(a).len() == BOND_SIZE,
{
    lemma_peer_bytes_injective(a.peer, b.peer);
    lemma_attributes_bytes_injective(a.system_attributes, b.system_attributes);
    let x = bond_bytes(a);
    assert(x.subrange(0, 50) =~= peer_bytes(a.peer));
    assert(bond_bytes(b).subrange(0, 50) =~= peer_bytes(b.peer));
    assert(x.subrange(50, 118) =~= attributes_bytes(a.system_attributes));
    assert(bond_bytes(b).subrange(50, 118) =~= attributes_bytes(b.system_attributes));
}

/// Appends the bytes of `peer`.
pub fn write_peer(out: &mut Vec<u8>, peer: &Peer)
    ensures
        final(out)@ == old(out)@ + peer_bytes(*peer),
{
    push_u16(out, peer.master_id.ediv);
    push_bytes(out, &peer.master_id.rand);
    push_bytes(out, &peer.key.ltk);
    out.push(peer.key.flags);
    push_bytes(out, &peer.peer_id.irk.irk);
    out.push(peer.peer_id.addr.flags);
    push_bytes(out, &peer.peer_id.addr.bytes);
    assert(out@ =~= old(out)@ + peer_bytes(*peer));
}

/// Appends the bytes of `attributes`.
pub fn write_attributes(out: &mut Vec<u8>, attributes: &SystemAttributes)
    requires
        attributes_fit(*attributes),
    ensures
        final(out)@ == old(out)@ + attributes_bytes(*attributes),
{
    push_u32(out, attributes.length as u32);
    push_bytes(out, &attributes.data);
    assert(out@ =~= old(out)@ + attributes_bytes(*attributes));
}

/// Appends the bytes of `bond`.
pub fn write_bond(out: &mut Vec<u8>, bond: &Bond)
    requires
        bond_fits(*bond),
    ensures
        final(out)@ == old(out)@ + bond_bytes(*bond),
{
    write_peer(out, &bond.peer);
    write_attributes(out, &bond.system_attributes);
    assert(out@ =~= old(out)@ + bond_bytes(*bond));
}

/// Reads the peer whose bytes start at `at`; every block of `PEER_SIZE`
/// bytes is the bytes of the peer read.
pub fn read_peer(bytes: &[u8], at: usize) -> (peer: Peer)
    requires
        at + PEER_SIZE <= bytes@.len(),
    ensures
        peer_bytes(peer) == bytes@.subrange(at as int, at + PEER_SIZE),
{
    let count = bytes.len();
    let ediv = read_u16(bytes, at);
    let mut rand = [0u8; 8];
    read_into(&mut rand, bytes, at + 2);
    let mut ltk = [0u8; 16];
    read_into(&mut ltk, bytes, at + 10);
    let key_flags = bytes[at + 26];
    let mut irk = [0u8; 16];
    read_into(&mut irk, bytes, at + 27);
    let address_flags = bytes[at + 43];
    let mut address = [0u8; 6];
    read_into(&mut address, bytes, at + 44);
    let peer = Peer {
        master_id: MasterId { ediv, rand },
        key: EncryptionInfo { ltk, flags: key_flags },
        peer_id: IdentityKey { irk: IdentityResolutionKey { irk }, addr: Address { flags: address_flags, bytes: address } },
    };
    proof {
        let block = bytes@.subrange(at as int, at + PEER_SIZE);
        lemma_u16_le(0, 0, block.subrange(0, 2));
        assert(u16_le(ediv) =~= block.subrange(0, 2));
        assert(peer_bytes(peer) =~= block);
    }
    peer
}

/// Reads the system attributes whose bytes start at `at`; every block of
/// `ATTRIBUTES_SIZE` bytes is the bytes of the attributes read.
pub fn read_attributes(bytes: &[u8], at: usize) -> (attributes: SystemAttributes)
    requires
        at + ATTRIBUTES_SIZE <= bytes@.len(),
    ensures
        attributes_fit(attributes),
        attributes_bytes(attributes) == bytes@.subrange(at as int, at + ATTRIBUTES_SIZE),
{
    let count = bytes.len();
    let length = read_u32(bytes, at);
    let mut data = [0u8; 64];
    read_into(&mut data, bytes, at + 4);
    let attributes = SystemAttributes { length: length as usize, data };
    proof {
        let block = bytes@.subrange(at as int, at + ATTRIBUTES_SIZE);
        lemma_u32_le(0, 0, block.subrange(0, 4));
        assert(u32_le(length) =~= block.subrange(0, 4));
        assert(attributes_bytes(attributes) =~= block);
    }
    attributes
}

/// Reads the bond whose bytes start at `at`; every block of `BOND_SIZE`
/// bytes is the bytes of the bond read.
pub fn read_bond(bytes: &[u8], at: usize) -> (bond: Bond)
    requires
        at + BOND_SIZE <= bytes@.len(),
    ensures
        bond_fits(bond),
        bond_bytes(bond) == bytes@.subrange(at as int, at + BOND_SIZE),
{
    let count = bytes.len();
    let peer = read_peer(bytes, at);
    let system_attributes = read_attributes(bytes, at + PEER_SIZE);
    let bond = Bond { peer, system_attributes };
    assert(bond_bytes(bond) =~= bytes@.subrange(at as int, at + BOND_SIZE));
    bond
}

/// The data of a board that is kept in the flash.
pub trait BoardFlash: Sized + Copy {
    /// The bytes of the data in the flash.
    spec fn flash_bytes(self) -> Seq<u8>;

    /// Whether the data can be stored.
    spec fn fits_flash(self) -> bool;

    /// Number of bytes the data takes in the flash.
    spec fn spec_flash_size() -> nat;

    /// Data that can be stored take `spec_flash_size()` bytes, and different
    /// data have different bytes.
    proof fn lemma_flash_bytes(a: Self, b: Self)
        requires
            a.fits_flash(),
            b.fits_flash(),
        ensures
            a.flash_bytes().len() == Self::spec_flash_size(),
            a.flash_bytes() == b.flash_bytes() ==> a == b,
    ;

    /// The data take at most 2048 bytes, so that the settings fit in one
    /// flash page.
    proof fn lemma_flash_size()
        ensures
            Self::spec_flash_size() <= 2048,
    ;

    fn flash_size() -> (size: usize)
        ensures
            size == Self::spec_flash_size(),
    ;

    /// Appends the bytes of the data.
    fn write_flash(&self, out: &mut Vec<u8>)
        requires
            self.fits_flash(),
        ensures
            final(out)@ == old(out)@ + self.flash_bytes(),
    ;

    /// Reads the data whose bytes start at `at`: any bytes that some data
    /// has are read as that data.
    fn read_flash(bytes: &[u8], at: usize) -> (value: Self)
        requires
            at + Self::spec_flash_size() <= bytes@.len(),
        ensures
            value.fits_flash(),
            forall|other: Self|
                other.fits_flash() && #[trigger] other.flash_bytes() == bytes@.subrange(
                    at as int,
                    at + Self::spec_flash_size(),
                ) ==> value == other,
    ;
}

/// The data of a board that keeps none of its own.
#[derive(Clone, Copy, Debug, PartialEq, Eq, Structural)]
pub struct NoBoardFlash;

impl BoardFlash for NoBoardFlash {
    open spec fn flash_bytes(self) -> Seq<u8> {
        Seq::empty()
    }

    open spec fn fits_flash(self) -> bool {
        true
    }

    open spec fn spec_flash_size() -> nat {
        0
    }

    proof fn lemma_flash_bytes(a: Self, b: Self) {
    }

    proof fn lemma_flash_size() {
    }

    fn flash_size() -> (size: usize) {
        0
    }

    fn write_flash(&self, out: &mut Vec<u8>) {
        assert(out@ =~= old(out)@ + Seq::<u8>::empty());
    }

    fn read_flash(bytes: &[u8], at: usize) -> (value: Self) {
        NoBoardFlash
    }
}

/// The bytes of the bond table, one bond after the other.
pub open spec fn bonds_bytes(bonds: Seq<Bond>) -> Seq<u8>
    decreases bonds.len(),
{
    if bonds.len() == 0 {
        Seq::empty()
    } else {
        bonds_bytes(bonds.drop_last()) + bond_bytes(bonds.last())
    }
}

/// The bytes of the settings in the flash: the bond table, the animation
/// (little-endian, 32 bits) and the board's data.
pub open spec fn settings_bytes<B: BoardFlash>(bonds: Seq<Bond>, animation: usize, board_flash: B) -> Seq<u8> {
    bonds_bytes(bonds) + u32_le(animation as u32) + board_flash.flash_bytes()
}

/// Settings that can be stored: a full bond table of bonds that fit, an
/// animation index and board data that fit.
pub open spec fn settings_fit<B: BoardFlash>(settings: &Settings<B>) -> bool {
    &&& settings.bonds@.len() == MAXIMUM_BONDS
    &&& forall|i: int| 0 <= i < settings.bonds@.len() ==> bond_fits(#[trigger] settings.bonds@[i])
    &&& settings.animation <= u32::MAX
    &&& settings.board_flash.fits_flash()
}

/// The size of the settings of a board in the flash.
pub open spec fn spec_settings_size<B: BoardFlash>() -> nat {
    (MAXIMUM_BONDS * BOND_SIZE + 4 + B::spec_flash_size()) as nat
}

/// A table of bonds that fit has the bytes of its bonds one after the other:
/// its length in bytes and the block of each bond follow.
pub proof fn lemma_bonds_bytes(bonds: Seq<Bond>)
    requires
        forall|i: int| 0 <= i < bonds.len() ==> bond_fits(#[trigger] bonds[i]),
    ensures
        bonds_bytes(bonds).len() == bonds.len() * BOND_SIZE,
        forall|i: int|
            0 <= i < bonds.len() ==> #[trigger] bonds_bytes(bonds).subrange(i * BOND_SIZE, i * BOND_SIZE + BOND_SIZE)
                == bond_bytes(bonds[i]),
    decreases bonds.len(),
{
    if bonds.len() > 0 {
        let rest = bonds.drop_last();
        lemma_bonds_bytes(rest);
        lemma_bond_bytes_injective(bonds.last(), bonds.last());
        let all = bonds_bytes(bonds);
        let n = rest.len();
        assert(all.len() == bonds.len() * BOND_SIZE) by (nonlinear_arith)
            requires
                all.len() == n * BOND_SIZE + BOND_SIZE,
                bonds.len() == n + 1,
        ;
        assert forall|i: int| 0 <= i < bonds.len() implies #[trigger] all.subrange(i * BOND_SIZE, i * BOND_SIZE + BOND_SIZE)
            == bond_bytes(bonds[i]) by {
            if i < n {
                assert(i * BOND_SIZE + BOND_SIZE <= n * BOND_SIZE) by (nonlinear_arith)
                    requires
                        i < n,
                ;
                assert(all.subrange(i * BOND_SIZE, i * BOND_SIZE + BOND_SIZE) =~= bonds_bytes(rest).subrange(
                    i * BOND_SIZE,
                    i * BOND_SIZE + BOND_SIZE,
                ));
                assert(rest[i] == bonds[i]);
            } else {
                assert(i * BOND_SIZE == n * BOND_SIZE);
                assert(all.subrange(i * BOND_SIZE, i * BOND_SIZE + BOND_SIZE) =~= bond_bytes(bonds.last()));
            }
        }
    }
}

/// Different tables of the same size, of bonds that fit, have different
/// bytes.
pub proof fn lemma_bonds_bytes_injective(a: Seq<Bond>, b: Seq<Bond>)
    requires
        a.len() == b.len(),
        forall|i: int| 0 <= i < a.len() ==> bond_fits(#[trigger] a[i]),
        forall|i: int| 0 <= i < b.len() ==> bond_fits(#[trigger] b[i]),
        bonds_bytes(a) == bonds_bytes(b),
    ensures
        a == b,
{
    lemma_bonds_bytes(a);
    lemma_bonds_bytes(b);
    assert forall|i: int| 0 <= i < a.len() implies a[i] == b[i] by {
        assert(bonds_bytes(a).subrange(i * BOND_SIZE, i * BOND_SIZE + BOND_SIZE) == bond_bytes(a[i]));
        assert(bonds_bytes(b).subrange(i * BOND_SIZE, i * BOND_SIZE + BOND_SIZE) == bond_bytes(b[i]));
        lemma_bond_bytes_injective(a[i], b[i]);
    }
    assert(a =~= b);
}

/// The settings bytes padded with zeros to whole 32-bit words, since the
/// flash is written a word at a time.
pub open spec fn word_aligned(bytes: Seq<u8>) -> Seq<u8> {
    bytes + Seq::new(((4 - bytes.len() % 4) % 4) as nat, |i: int| 0u8)
}

/// Whether `settings` is what reading `bytes` gives: settings that can be
/// stored, whose bond table and animation have the leading bytes of `bytes`
/// and whose board data is whatever data has the bytes that follow.
pub open spec fn read_from<B: BoardFlash>(settings: &Settings<B>, bytes: Seq<u8>) -> bool {
    let table = MAXIMUM_BONDS * BOND_SIZE;
    &&& settings_fit(settings)
    &&& bonds_bytes(settings.bonds@) == bytes.subrange(0, table as int)
    &&& u32_le(settings.animation as u32) == bytes.subrange(table as int, table + 4)
    &&& forall|other: B|
        other.fits_flash() && #[trigger] other.flash_bytes() == bytes.subrange(
            table + 4,
            table + 4 + B::spec_flash_size(),
        ) ==> settings.board_flash == other
}

/// The bytes written for `settings`, padded to whole words.
pub fn settings_to_flash<B: BoardFlash>(settings: &Settings<B>) -> (bytes: Vec<u8>)
    requires
        settings_fit(settings),
    ensures
        bytes@ == word_aligned(settings_bytes(settings.bonds@, settings.animation, settings.board_flash)),
{
    let mut bytes: Vec<u8> = Vec::new();
    let mut i: usize = 0;
    while i < settings.bonds.len()
        invariant
            i <= settings.bonds@.len(),
            settings_fit(settings),
            bytes@ == bonds_bytes(settings.bonds@.take(i as int)),
        decreases settings.bonds@.len() - i,
    {
        write_bond(&mut bytes, &settings.bonds[i]);
        proof {
            assert(settings.bonds@.take(i + 1).drop_last() =~= settings.bonds@.take(i as int));
        }
        i = i + 1;
    }
    proof {
        assert(settings.bonds@.take(settings.bonds@.len() as int) =~= settings.bonds@);
    }
    push_u32(&mut bytes, settings.animation as u32);
    settings.board_flash.write_flash(&mut bytes);
    let ghost unpadded = bytes@;
    while bytes.len() % 4 != 0
        invariant
            bytes@.len() >= unpadded.len(),
            bytes@.len() <= unpadded.len() + 3,
            bytes@.subrange(0, unpadded.len() as int) == unpadded,
            forall|j: int| unpadded.len() <= j < bytes@.len() ==> bytes@[j] == 0u8,
            unpadded.len() + (4 - unpadded.len() % 4) % 4 >= bytes@.len(),
            (bytes@.len() - unpadded.len()) < 4,
            bytes@.len() % 4 != 0 ==> bytes@.len() < unpadded.len() + (4 - unpadded.len() % 4) % 4,
        decreases unpadded.len() + 3 - bytes@.len(),
    {
        bytes.push(0);
    }
    proof {
        assert(bytes@.len() == unpadded.len() + (4 - unpadded.len() % 4) % 4);
        assert(bytes@ =~= word_aligned(unpadded));
    }
    bytes
}

/// Reads the settings from the bytes of the flash page.
pub fn settings_from_flash<B: BoardFlash>(bytes: &[u8]) -> (settings: Settings<B>)
    requires
        bytes@.len() >= spec_settings_size::<B>(),
    ensures
        read_from(&settings, bytes@),
{
    proof {
        B::lemma_flash_size();
    }
    let mut bonds: Vec<Bond> = Vec::new();
    let mut i: usize = 0;
    while i < MAXIMUM_BONDS
        invariant
            i <= MAXIMUM_BONDS,
            bytes@.len() >= spec_settings_size::<B>(),
            bonds@.len() == i,
            forall|j: int| 0 <= j < i ==> bond_fits(#[trigger] bonds@[j]),
            bonds_bytes(bonds@) == bytes@.subrange(0, i * BOND_SIZE),
        decreases MAXIMUM_BONDS - i,
    {
        let bond = read_bond(bytes, i * BOND_SIZE);
        let ghost before = bonds@;
        bonds.push(bond);
        proof {
            assert(bonds@.drop_last() =~= before);
            assert(bytes@.subrange(0, (i + 1) * BOND_SIZE) =~= bytes@.subrange(0, i * BOND_SIZE) + bytes@.subrange(
                i * BOND_SIZE,
                i * BOND_SIZE + BOND_SIZE,
            ));
        }
        i = i + 1;
    }
    let table = MAXIMUM_BONDS * BOND_SIZE;
    let animation = read_u32(bytes, table);
    let board_flash = B::read_flash(bytes, table + 4);
    let settings = Settings { bonds, animation: animation as usize, board_flash };
    proof {
        lemma_u32_le(0, 0, bytes@.subrange(table as int, table + 4));
        assert(u32_le(animation) =~= bytes@.subrange(table as int, table + 4));
    }
    settings
}

/// Settings written to the flash are read back as they were.
pub proof fn lemma_flash_round_trip<B: BoardFlash>(written: &Settings<B>, read: &Settings<B>)
    requires
        settings_fit(written),
        read_from(read, word_aligned(settings_bytes(written.bonds@, written.animation, written.board_flash))),
    ensures
        read.bonds@ == written.bonds@,
        read.animation == written.animation,
        read.board_flash == written.board_flash,
{
    let table = MAXIMUM_BONDS * BOND_SIZE;
    let bytes = word_aligned(settings_bytes(written.bonds@, written.animation, written.board_flash));
    lemma_bonds_bytes(written.bonds@);
    B::lemma_flash_bytes(written.board_flash, written.board_flash);
    assert(bytes.subrange(0, table as int) =~= bonds_bytes(written.bonds@));
    lemma_bonds_bytes_injective(read.bonds@, written.bonds@);
    assert(bytes.subrange(table as int, table + 4) =~= u32_le(written.animation as u32));
    lemma_u32_le(read.animation as u32, written.animation as u32, bytes.subrange(table as int, table + 4));
    assert(bytes.subrange(table + 4, table + 4 + B::spec_flash_size()) =~= written.board_flash.flash_bytes());
}

} // verus!
