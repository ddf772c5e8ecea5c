use vstd::prelude::*;

verus! {

/// Appearance value of a keyboard (Bluetooth assigned numbers, section 2.6
/// "Appearance Values").
pub const KEYBOARD_ICON: u16 = 0x03C1;

/// Largest advertising payload.
pub const MAXIMUM_ADVERTISE_LENGTH: usize = 31;

/// AD type of the flags element.
pub const AD_TYPE_FLAGS: u8 = 0x1;

/// AD type of the complete list of 16-bit service UUIDs.
pub const AD_TYPE_SERVICES: u8 = 0x3;

/// AD type of the complete local name.
pub const AD_TYPE_NAME: u8 = 0x9;

/// AD type of the appearance.
pub const AD_TYPE_APPEARANCE: u8 = 0x19;

/// One advertising data structure: its length (type byte included), its type
/// and its data.
pub open spec fn ad_structure(element_type: u8, element_data: Seq<u8>) -> Seq<u8> {
    seq![(element_data.len() + 1) as u8, element_type] + element_data
}

/// The little-endian bytes of a 16-bit value.
pub open spec fn le_bytes(value: u16) -> Seq<u8> {
    seq![(value % 256) as u8, (value / 256) as u8]
}

/// A Bluetooth advertising payload, built one AD structure at a time.
pub struct AdvertisingData {
    data: [u8; 31],
    used_bytes: usize,
}

impl View for AdvertisingData {
    type V = Seq<u8>;

    /// The bytes of the payload so far.
    closed spec fn view(&self) -> Seq<u8> {
        self.data@.take(self.used_bytes as int)
    }
}

impl AdvertisingData {
    #[verifier::type_invariant]
    spec fn fits(&self) -> bool {
        self.used_bytes <= MAXIMUM_ADVERTISE_LENGTH
    }

    /// An empty payload.
    pub fn new() -> (advertising_data: Self)
        ensures
            advertising_data@ == Seq::<u8>::empty(),
    {
        let advertising_data = AdvertisingData { data: [0u8; 31], used_bytes: 0 };
        assert(advertising_data@ =~= Seq::<u8>::empty());
        advertising_data
    }

    /// Appends an AD structure of type `element_type` holding `element_data`.
    pub fn add_internal(self, element_type: u8, element_data: &[u8]) -> (advertising_data: Self)
        requires
            self@.len() + 2 + element_data@.len() <= MAXIMUM_ADVERTISE_LENGTH,
        ensures
            advertising_data@ == self@ + ad_structure(element_type, element_data@),
    {
        proof {
            use_type_invariant(&self);
        }
        let mut data = self.data;
        let used_bytes = self.used_bytes;
        data[used_bytes] = (element_data.len() + 1) as u8;
        data[used_bytes + 1] = element_type;
        let mut offset: usize = 0;
        while offset < element_data.len()
            invariant
                used_bytes + 2 + element_data@.len() <= MAXIMUM_ADVERTISE_LENGTH,
                offset <= element_data@.len(),
                data@.len() == MAXIMUM_ADVERTISE_LENGTH,
                data@.take(used_bytes as int) == self@,
                data@[used_bytes as int] == (element_data@.len() + 1) as u8,
                data@[used_bytes + 1] == element_type,
                forall|i: int| 0 <= i < offset ==> data@[used_bytes + 2 + i] == element_data@[i],
            decreases element_data@.len() - offset,
        {
            data[used_bytes + 2 + offset] = element_data[offset];
            offset = offset + 1;
        }
        let advertising_data = AdvertisingData { data, used_bytes: used_bytes + 2 + offset };
        assert(advertising_data@ =~= self@ + ad_structure(element_type, element_data@));
        advertising_data
    }

    /// Appends the flags element.
    pub fn add_flags(self, flags: u8) -> (advertising_data: Self)
        requires
            self@.len() + 3 <= MAXIMUM_ADVERTISE_LENGTH,
        ensures
            advertising_data@ == self@ + ad_structure(AD_TYPE_FLAGS, seq![flags]),
    {
        let element: [u8; 1] = [flags];
        assert(element@ =~= seq![flags]);
        self.add_internal(AD_TYPE_FLAGS, &element)
    }

    /// Appends the list of 16-bit service UUIDs.
    pub fn add_services(self, services: &[u8]) -> (advertising_data: Self)
        requires
            self@.len() + 2 + services@.len() <= MAXIMUM_ADVERTISE_LENGTH,
        ensures
            advertising_data@ == self@ + ad_structure(AD_TYPE_SERVICES, services@),
    {
        self.add_internal(AD_TYPE_SERVICES, services)
    }

    /// Appends the complete local name.
    pub fn add_name(self, name: &[u8]) -> (advertising_data: Self)
        requires
            self@.len() + 2 + name@.len() <= MAXIMUM_ADVERTISE_LENGTH,
        ensures
            advertising_data@ == self@ + ad_structure(AD_TYPE_NAME, name@),
    {
        self.add_internal(AD_TYPE_NAME, name)
    }

    /// Appends the appearance, little-endian.
    pub fn add_appearance(self, appearance: u16) -> (advertising_data: Self)
        requires
            self@.len() + 4 <= MAXIMUM_ADVERTISE_LENGTH,
        ensures
            advertising_data@ == self@ + ad_structure(AD_TYPE_APPEARANCE, le_bytes(appearance)),
    {
        let element: [u8; 2] = [(appearance % 256) as u8, (appearance / 256) as u8];
        assert(element@ =~= le_bytes(appearance));
        self.add_internal(AD_TYPE_APPEARANCE, &element)
    }

    /// The payload.
    pub fn get_slice(&self) -> (payload: &[u8])
        ensures
            payload@ == self@,
    {
        proof {
            use_type_invariant(self);
        }
        let payload = vstd::slice::slice_subrange(self.data.as_slice(), 0, self.used_bytes);
        assert(payload@ =~= self@);
        payload
    }
}

} // verus!
