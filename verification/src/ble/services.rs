use vstd::prelude::*;

verus! {

/// What a client may do with a characteristic.
#[derive(Clone, Copy, Debug, PartialEq, Eq, Structural)]
pub struct Properties {
    pub read: bool,
    pub write_without_response: bool,
    pub write: bool,
    pub notify: bool,
}

impl Properties {
    /// No property.
    pub fn new() -> (properties: Self)
        ensures
            properties == (Properties { read: false, write_without_response: false, write: false, notify: false }),
    {
        Properties { read: false, write_without_response: false, write: false, notify: false }
    }

    /// Adds reading.
    pub fn read(self) -> (properties: Self)
        ensures
            properties == (Properties { read: true, ..self }),
    {
        Properties { read: true, ..self }
    }

    /// Adds writing without response.
    pub fn write_without_response(self) -> (properties: Self)
        ensures
            properties == (Properties { write_without_response: true, ..self }),
    {
        Properties { write_without_response: true, ..self }
    }

    /// Adds writing.
    pub fn write(self) -> (properties: Self)
        ensures
            properties == (Properties { write: true, ..self }),
    {
        Properties { write: true, ..self }
    }

    /// Adds notifications.
    pub fn notify(self) -> (properties: Self)
        ensures
            properties == (Properties { notify: true, ..self }),
    {
        Properties { notify: true, ..self }
    }
}

/// Read-only.
pub open spec fn read_only() -> Properties {
    Properties { read: true, write_without_response: false, write: false, notify: false }
}

/// Readable, writable and notifying.
pub open spec fn read_write_notify() -> Properties {
    Properties { read: true, write_without_response: false, write: true, notify: true }
}

/// Readable and writable, with or without response.
pub open spec fn read_write_unacknowledged() -> Properties {
    Properties { read: true, write_without_response: true, write: true, notify: false }
}

/// Readable and writable.
pub open spec fn read_write() -> Properties {
    Properties { read: true, write_without_response: false, write: true, notify: false }
}

/// What a client needs to access an attribute.
#[derive(Clone, Copy, Debug, PartialEq, Eq, Structural)]
pub enum SecurityMode {
    /// Any client.
    Open,
    /// A client paired without man-in-the-middle protection ("just works").
    JustWorks,
}

/// A descriptor of a characteristic.
#[derive(Clone, Debug)]
pub struct Descriptor {
    /// 16-bit UUID.
    pub uuid: u16,
    pub value: Vec<u8>,
    /// The largest value when the value's length may vary.
    pub variable_length: Option<u16>,
    /// Whether reads are answered by the application.
    pub deferred_read: bool,
    pub security: SecurityMode,
}

/// A characteristic to register.
#[derive(Clone, Debug)]
pub struct Characteristic {
    /// 16-bit UUID.
    pub uuid: u16,
    /// The initial value.
    pub value: Vec<u8>,
    /// The largest value when the value's length may vary.
    pub variable_length: Option<u16>,
    /// Whether reads are answered by the application.
    pub deferred_read: bool,
    /// What a client needs to read or write the value.
    pub security: SecurityMode,
    pub properties: Properties,
    pub descriptors: Vec<Descriptor>,
}

/// A characteristic's fields, with values as sequences; every attribute
/// of the keyboard's services requires pairing ("just works").
pub open spec fn characteristic_is(
    characteristic: Characteristic,
    uuid: u16,
    value: Seq<u8>,
    variable_length: Option<u16>,
    deferred_read: bool,
    properties: Properties,
) -> bool {
    &&& characteristic.uuid == uuid
    &&& characteristic.value@ == value
    &&& characteristic.variable_length == variable_length
    &&& characteristic.deferred_read == deferred_read
    &&& characteristic.security == SecurityMode::JustWorks
    &&& characteristic.properties == properties
}

/// UUID of the report characteristic.
pub const REPORT_UUID: u16 = 0x2A4D;

/// UUID of the report reference descriptor.
pub const REPORT_REFERENCE_UUID: u16 = 0x2908;

/// UUID of the report map characteristic.
pub const REPORT_MAP_UUID: u16 = 0x2A4B;

/// UUID of the HID information characteristic.
pub const HID_INFORMATION_UUID: u16 = 0x2A4A;

/// UUID of the HID control point characteristic.
pub const CONTROL_POINT_UUID: u16 = 0x2A4C;

/// UUID of the protocol mode characteristic.
pub const PROTOCOL_MODE_UUID: u16 = 0x2A4E;

/// UUID of the HID service.
pub const HID_SERVICE_UUID: u16 = 0x1812;

/// UUID of the battery service.
pub const BATTERY_SERVICE_UUID: u16 = 0x180F;

/// UUID of the battery level characteristic.
pub const BATTERY_LEVEL_UUID: u16 = 0x2A19;

/// UUID of the device information service.
pub const DEVICE_INFORMATION_UUID: u16 = 0x180A;

/// Protocol mode value of the boot protocol.
pub const PROTOCOL_MODE_BOOT: u8 = 0x0;

/// Protocol mode value of the report protocol.
pub const PROTOCOL_MODE_REPORT: u8 = 0x1;

/// Country code of a keyboard that is not localized.
pub const COUNTRY_CODE: u8 = 0;

/// HID information flag: the device can wake the host.
pub const HID_INFO_FLAG_REMOTE_WAKE_MSK: u8 = 0x1;

/// HID information flag: the device advertises when not connected.
pub const HID_INFO_FLAG_NORMALLY_CONNECTABLE_MSK: u8 = 0x2;

/// Version of the HID specification implemented, as binary-coded decimal.
pub const USB_HID_SPEC_VERSION: u16 = 0x0101;

} // verus!

verus! {

/// The HID report descriptor of the keyboard: an input report of eight
/// modifier bits, a reserved byte and six key codes; an output report of
/// five LED bits and three bits of padding; a two-byte feature report.
pub open spec fn report_map_bytes() -> Seq<u8> {
    seq![
        0x05u8, 0x01, // Usage Page (Generic Desktop)
        0x09, 0x06, // Usage (Keyboard)
        0xA1, 0x01, // Collection (Application)
        0x05, 0x07, // Usage Page (Key Codes)
        0x19, 0xe0, // Usage Minimum (224)
        0x29, 0xe7, // Usage Maximum (231)
        0x15, 0x00, // Logical Minimum (0)
        0x25, 0x01, // Logical Maximum (1)
        0x75, 0x01, // Report Size (1)
        0x95, 0x08, // Report Count (8)
        0x81, 0x02, // Input (Data, Variable, Absolute)
        0x95, 0x01, // Report Count (1)
        0x75, 0x08, // Report Size (8)
        0x81, 0x01, // Input (Constant), reserved byte
        0x95, 0x05, // Report Count (5)
        0x75, 0x01, // Report Size (1)
        0x05, 0x08, // Usage Page (LEDs)
        0x19, 0x01, // Usage Minimum (1)
        0x29, 0x05, // Usage Maximum (5)
        0x91, 0x02, // Output (Data, Variable, Absolute), LED report
        0x95, 0x01, // Report Count (1)
        0x75, 0x03, // Report Size (3)
        0x91, 0x01, // Output (Constant), LED report padding
        0x95, 0x06, // Report Count (6)
        0x75, 0x08, // Report Size (8)
        0x15, 0x00, // Logical Minimum (0)
        0x25, 0x65, // Logical Maximum (101)
        0x05, 0x07, // Usage Page (Key Codes)
        0x19, 0x00, // Usage Minimum (0)
        0x29, 0x65, // Usage Maximum (101)
        0x81, 0x00, // Input (Data, Array), key array
        0x09, 0x05, // Usage (Vendor Defined)
        0x15, 0x00, // Logical Minimum (0)
        0x26, 0xFF, 0x00, // Logical Maximum (255)
        0x75, 0x08, // Report Size (8)
        0x95, 0x02, // Report Count (2)
        0xB1, 0x02, // Feature (Data, Variable, Absolute)
        0xC0 // End Collection
    ]
}

/// The HID report descriptor of the keyboard.
pub fn report_map() -> (map: Vec<u8>)
    ensures
        map@ == report_map_bytes(),
{
    let map = vec![
        0x05u8, 0x01, 0x09, 0x06, 0xA1, 0x01, 0x05, 0x07, 0x19, 0xe0, 0x29, 0xe7, 0x15, 0x00, 0x25, 0x01,
        0x75, 0x01, 0x95, 0x08, 0x81, 0x02, 0x95, 0x01, 0x75, 0x08, 0x81, 0x01, 0x95, 0x05, 0x75, 0x01,
        0x05, 0x08, 0x19, 0x01, 0x29, 0x05, 0x91, 0x02, 0x95, 0x01, 0x75, 0x03, 0x91, 0x01, 0x95, 0x06,
        0x75, 0x08, 0x15, 0x00, 0x25, 0x65, 0x05, 0x07, 0x19, 0x00, 0x29, 0x65, 0x81, 0x00, 0x09, 0x05,
        0x15, 0x00, 0x26, 0xFF, 0x00, 0x75, 0x08, 0x95, 0x02, 0xB1, 0x02, 0xC0,
    ];
    assert(map@ =~= report_map_bytes());
    map
}

} // verus!

verus! {

/// Main item tag of an input report.
pub const INPUT_ITEM: u8 = 0x80;

/// Main item tag of an output report.
pub const OUTPUT_ITEM: u8 = 0x90;

/// Global item tag of the report size, in bits per field.
pub const REPORT_SIZE_ITEM: u8 = 0x74;

/// Global item tag of the report count, in fields.
pub const REPORT_COUNT_ITEM: u8 = 0x94;

/// Number of data bytes of a short item, from its prefix byte.
pub open spec fn item_data_length(prefix: u8) -> int {
    if prefix % 4 == 3 {
        4
    } else {
        (prefix % 4) as int
    }
}

/// The little-endian value of the data bytes of the item at `at`.
pub open spec fn item_value(items: Seq<u8>, at: int, length: int) -> int {
    if length == 0 {
        0
    } else if length == 1 {
        items[at + 1] as int
    } else if length == 2 {
        items[at + 1] + 256 * items[at + 2]
    } else {
        items[at + 1] + 256 * items[at + 2] + 65536 * items[at + 3] + 16777216 * items[at + 4]
    }
}

/// The number of bits of the reports described by the main items tagged
/// `tag` among the items from `at` on, given the report size and count in
/// effect: each such item adds size times count bits.
pub open spec fn report_bits(items: Seq<u8>, at: int, tag: u8, size: int, count: int) -> int
    decreases items.len() + 5 - at,
{
    if at < 0 || at >= items.len() {
        0
    } else {
        let prefix = items[at];
        let length = item_data_length(prefix);
        let next = at + 1 + length;
        let value = item_value(items, at, length);
        let item_tag = prefix - prefix % 4;
        if item_tag == REPORT_SIZE_ITEM {
            report_bits(items, next, tag, value, count)
        } else if item_tag == REPORT_COUNT_ITEM {
            report_bits(items, next, tag, size, value)
        } else if item_tag == tag {
            size * count + report_bits(items, next, tag, size, count)
        } else {
            report_bits(items, next, tag, size, count)
        }
    }
}

/// The input report that the report map announces is as long as the
/// reports that `input_report` builds.
pub proof fn lemma_report_map_input_size()
    ensures
        report_bits(report_map_bytes(), 0, INPUT_ITEM, 0, 0) == 8 * crate::split::master::REPORT_SIZE,
{
    let map = report_map_bytes();
    assert(report_bits(map, 76, 0x80, 8, 2) == 0);
    assert(report_bits(map, 75, 0x80, 8, 2) == 0);
    assert(report_bits(map, 73, 0x80, 8, 2) == 0);
    assert(report_bits(map, 71, 0x80, 8, 6) == 0);
    assert(report_bits(map, 69, 0x80, 8, 6) == 0);
    assert(report_bits(map, 66, 0x80, 8, 6) == 0);
    assert(report_bits(map, 64, 0x80, 8, 6) == 0);
    assert(report_bits(map, 62, 0x80, 8, 6) == 0);
    assert(report_bits(map, 60, 0x80, 8, 6) == 48);
    assert(report_bits(map, 58, 0x80, 8, 6) == 48);
    assert(report_bits(map, 56, 0x80, 8, 6) == 48);
    assert(report_bits(map, 54, 0x80, 8, 6) == 48);
    assert(report_bits(map, 52, 0x80, 8, 6) == 48);
    assert(report_bits(map, 50, 0x80, 8, 6) == 48);
    assert(report_bits(map, 48, 0x80, 3, 6) == 48);
    assert(report_bits(map, 46, 0x80, 3, 1) == 48);
    assert(report_bits(map, 44, 0x80, 3, 1) == 48);
    assert(report_bits(map, 42, 0x80, 1, 1) == 48);
    assert(report_bits(map, 40, 0x80, 1, 5) == 48);
    assert(report_bits(map, 38, 0x80, 1, 5) == 48);
    assert(report_bits(map, 36, 0x80, 1, 5) == 48);
    assert(report_bits(map, 34, 0x80, 1, 5) == 48);
    assert(report_bits(map, 32, 0x80, 1, 5) == 48);
    assert(report_bits(map, 30, 0x80, 8, 5) == 48);
    assert(report_bits(map, 28, 0x80, 8, 1) == 48);
    assert(report_bits(map, 26, 0x80, 8, 1) == 56);
    assert(report_bits(map, 24, 0x80, 1, 1) == 56);
    assert(report_bits(map, 22, 0x80, 1, 8) == 56);
    assert(report_bits(map, 20, 0x80, 1, 8) == 64);
    assert(report_bits(map, 18, 0x80, 1, 0) == 64);
    assert(report_bits(map, 16, 0x80, 0, 0) == 64);
    assert(report_bits(map, 14, 0x80, 0, 0) == 64);
    assert(report_bits(map, 12, 0x80, 0, 0) == 64);
    assert(report_bits(map, 10, 0x80, 0, 0) == 64);
    assert(report_bits(map, 8, 0x80, 0, 0) == 64);
    assert(report_bits(map, 6, 0x80, 0, 0) == 64);
    assert(report_bits(map, 4, 0x80, 0, 0) == 64);
    assert(report_bits(map, 2, 0x80, 0, 0) == 64);
    assert(report_bits(map, 0, 0x80, 0, 0) == 64);
}

/// The output report that the report map announces fills the one byte of
/// the output report characteristic.
pub proof fn lemma_report_map_output_size()
    ensures
        report_bits(report_map_bytes(), 0, OUTPUT_ITEM, 0, 0) == 8 * OUTPUT_REPORT_LENGTH,
{
    let map = report_map_bytes();
    assert(report_bits(map, 76, 0x90, 8, 2) == 0);
    assert(report_bits(map, 75, 0x90, 8, 2) == 0);
    assert(report_bits(map, 73, 0x90, 8, 2) == 0);
    assert(report_bits(map, 71, 0x90, 8, 6) == 0);
    assert(report_bits(map, 69, 0x90, 8, 6) == 0);
    assert(report_bits(map, 66, 0x90, 8, 6) == 0);
    assert(report_bits(map, 64, 0x90, 8, 6) == 0);
    assert(report_bits(map, 62, 0x90, 8, 6) == 0);
    assert(report_bits(map, 60, 0x90, 8, 6) == 0);
    assert(report_bits(map, 58, 0x90, 8, 6) == 0);
    assert(report_bits(map, 56, 0x90, 8, 6) == 0);
    assert(report_bits(map, 54, 0x90, 8, 6) == 0);
    assert(report_bits(map, 52, 0x90, 8, 6) == 0);
    assert(report_bits(map, 50, 0x90, 8, 6) == 0);
    assert(report_bits(map, 48, 0x90, 3, 6) == 0);
    assert(report_bits(map, 46, 0x90, 3, 1) == 0);
    assert(report_bits(map, 44, 0x90, 3, 1) == 3);
    assert(report_bits(map, 42, 0x90, 1, 1) == 3);
    assert(report_bits(map, 40, 0x90, 1, 5) == 3);
    assert(report_bits(map, 38, 0x90, 1, 5) == 8);
    assert(report_bits(map, 36, 0x90, 1, 5) == 8);
    assert(report_bits(map, 34, 0x90, 1, 5) == 8);
    assert(report_bits(map, 32, 0x90, 1, 5) == 8);
    assert(report_bits(map, 30, 0x90, 8, 5) == 8);
    assert(report_bits(map, 28, 0x90, 8, 1) == 8);
    assert(report_bits(map, 26, 0x90, 8, 1) == 8);
    assert(report_bits(map, 24, 0x90, 1, 1) == 8);
    assert(report_bits(map, 22, 0x90, 1, 8) == 8);
    assert(report_bits(map, 20, 0x90, 1, 8) == 8);
    assert(report_bits(map, 18, 0x90, 1, 0) == 8);
    assert(report_bits(map, 16, 0x90, 0, 0) == 8);
    assert(report_bits(map, 14, 0x90, 0, 0) == 8);
    assert(report_bits(map, 12, 0x90, 0, 0) == 8);
    assert(report_bits(map, 10, 0x90, 0, 0) == 8);
    assert(report_bits(map, 8, 0x90, 0, 0) == 8);
    assert(report_bits(map, 6, 0x90, 0, 0) == 8);
    assert(report_bits(map, 4, 0x90, 0, 0) == 8);
    assert(report_bits(map, 2, 0x90, 0, 0) == 8);
    assert(report_bits(map, 0, 0x90, 0, 0) == 8);
}

/// Length of the output report: the keyboard's LED states.
pub const OUTPUT_REPORT_LENGTH: u16 = 1;

} // verus!

verus! {

/// A descriptor's fields, with its value as a sequence; it requires pairing
/// ("just works").
pub open spec fn descriptor_is(
    descriptor: Descriptor,
    uuid: u16,
    value: Seq<u8>,
    variable_length: Option<u16>,
    deferred_read: bool,
) -> bool {
    &&& descriptor.uuid == uuid
    &&& descriptor.value@ == value
    &&& descriptor.variable_length == variable_length
    &&& descriptor.deferred_read == deferred_read
    &&& descriptor.security == SecurityMode::JustWorks
}

/// The handles of a registered characteristic.
#[derive(Clone, Copy, Debug)]
pub struct CharacteristicHandles {
    pub value_handle: u16,
    /// The handle of its client configuration, where notifications are
    /// switched on and off.
    pub cccd_handle: u16,
}

/// Whether a write of `data` to `handle` switches notifications of the
/// characteristic with client configuration `cccd_handle`: `Some` with the
/// new setting, the lowest bit of the first byte, when it does.
pub fn notification_change(cccd_handle: u16, handle: u16, data: &[u8]) -> (change: Option<bool>)
    ensures
        change == notification_change_spec(cccd_handle, handle, data@),
{
    if handle == cccd_handle && data.len() > 0 {
        let byte = data[0];
        assert(byte & 1 == byte % 2) by (bit_vector);
        Some((byte & 0x01) != 0)
    } else {
        None
    }
}

/// Writes the value of a report reference descriptor, the report's id and
/// its type, and returns its length.
fn report_ref_encode(buffer: &mut [u8; 2], report_id: u8, report_type: u8) -> (length: usize)
    ensures
        final(buffer)@ == seq![report_id, report_type],
        length == 2,
{
    let mut length: usize = 0;
    buffer[length] = report_id;
    length += 1;
    buffer[length] = report_type;
    length += 1;
    assert(buffer@ =~= seq![report_id, report_type]);
    length
}

/// A kind of HID report characteristic.
pub trait ReportCharacteristicType {
    /// Largest report.
    spec fn spec_max_length() -> u16;

    /// Report id announced in the report reference.
    spec fn spec_reference_id() -> u8;

    /// Report type announced in the report reference: 1 for input, 2 for
    /// output, 3 for feature reports.
    spec fn spec_reference_type() -> u8;

    spec fn spec_properties() -> Properties;

    fn max_length() -> (length: u16)
        ensures
            length == Self::spec_max_length(),
    ;

    fn reference_id() -> (id: u8)
        ensures
            id == Self::spec_reference_id(),
    ;

    fn reference_type() -> (report_type: u8)
        ensures
            report_type == Self::spec_reference_type(),
    ;

    fn properties() -> (properties: Properties)
        ensures
            properties == Self::spec_properties(),
    ;

    /// Name of the report, for messages.
    spec fn spec_name() -> Seq<char>;

    /// Name of the report, for messages.
    fn name() -> (name: &'static str)
        ensures
            name@ == Self::spec_name(),
    ;
}

/// The input report: the keys sent to the host.
pub struct InputReport;

/// The output report: the LED states the host sends.
pub struct OutpetReport;

/// The feature report.
pub struct FeatureReport;

impl ReportCharacteristicType for InputReport {
    open spec fn spec_max_length() -> u16 {
        8
    }

    open spec fn spec_reference_id() -> u8 {
        0
    }

    open spec fn spec_reference_type() -> u8 {
        1
    }

    open spec fn spec_properties() -> Properties {
        read_write_notify()
    }

    fn max_length() -> (length: u16) {
        8
    }

    fn reference_id() -> (id: u8) {
        0
    }

    fn reference_type() -> (report_type: u8) {
        1
    }

    fn properties() -> (properties: Properties) {
        Properties::new().read().write().notify()
    }

    open spec fn spec_name() -> Seq<char> {
        "Input"@
    }

    fn name() -> (name: &'static str) {
        "Input"
    }
}

impl ReportCharacteristicType for OutpetReport {
    open spec fn spec_max_length() -> u16 {
        OUTPUT_REPORT_LENGTH
    }

    open spec fn spec_reference_id() -> u8 {
        0
    }

    open spec fn spec_reference_type() -> u8 {
        2
    }

    open spec fn spec_properties() -> Properties {
        read_write_unacknowledged()
    }

    fn max_length() -> (length: u16) {
        OUTPUT_REPORT_LENGTH
    }

    fn reference_id() -> (id: u8) {
        0
    }

    fn reference_type() -> (report_type: u8) {
        2
    }

    fn properties() -> (properties: Properties) {
        Properties::new().read().write().write_without_response()
    }

    open spec fn spec_name() -> Seq<char> {
        "Output"@
    }

    fn name() -> (name: &'static str) {
        "Output"
    }
}

impl ReportCharacteristicType for FeatureReport {
    open spec fn spec_max_length() -> u16 {
        1
    }

    open spec fn spec_reference_id() -> u8 {
        0
    }

    open spec fn spec_reference_type() -> u8 {
        3
    }

    open spec fn spec_properties() -> Properties {
        read_write()
    }

    fn max_length() -> (length: u16) {
        1
    }

    fn reference_id() -> (id: u8) {
        0
    }

    fn reference_type() -> (report_type: u8) {
        3
    }

    fn properties() -> (properties: Properties) {
        Properties::new().read().write()
    }

    open spec fn spec_name() -> Seq<char> {
        "Feature"@
    }

    fn name() -> (name: &'static str) {
        "Feature"
    }
}

/// A registered report characteristic of kind `T`.
pub struct ReportCharacteristic<T> {
    pub characteristic_handles: CharacteristicHandles,
    /// The handle of its report reference descriptor.
    pub descriptor_handle: u16,
    pub kind: core::marker::PhantomData<T>,
}

impl<T: ReportCharacteristicType> ReportCharacteristic<T> {
    /// The characteristic to register: an empty report of variable length,
    /// read by the application, with a report reference descriptor naming
    /// the report's id and type.
    pub fn definition() -> (characteristic: Characteristic)
        ensures
            is_report_definition::<T>(characteristic),
    {
        let mut buffer = [0u8; 2];
        let length = report_ref_encode(&mut buffer, T::reference_id(), T::reference_type());
        let value = vec![buffer[0], buffer[1]];
        assert(value@ =~= seq![T::spec_reference_id(), T::spec_reference_type()]);
        let reference = Descriptor {
            uuid: REPORT_REFERENCE_UUID,
            value,
            variable_length: Some(length as u16),
            deferred_read: true,
            security: SecurityMode::JustWorks,
        };
        let characteristic = Characteristic {
            uuid: REPORT_UUID,
            value: Vec::new(),
            variable_length: Some(T::max_length()),
            deferred_read: true,
            security: SecurityMode::JustWorks,
            properties: T::properties(),
            descriptors: vec![reference],
        };
        assert(characteristic.value@ =~= Seq::<u8>::empty());
        characteristic
    }

    /// The characteristic registered with these handles.
    pub fn new(characteristic_handles: CharacteristicHandles, descriptor_handle: u16) -> (report: Self)
        ensures
            report.characteristic_handles == characteristic_handles,
            report.descriptor_handle == descriptor_handle,
    {
        ReportCharacteristic { characteristic_handles, descriptor_handle, kind: core::marker::PhantomData }
    }

    /// Handles a write: `Some` with the new notification setting when it
    /// switches this report's notifications.
    pub fn on_write(&self, handle: u16, data: &[u8]) -> (change: Option<bool>)
        ensures
            change == notification_change_spec(self.characteristic_handles.cccd_handle, handle, data@),
    {
        notification_change(self.characteristic_handles.cccd_handle, handle, data)
    }
}

} // verus!

verus! {

/// A kind of boot protocol report characteristic.
pub trait BootReportDevice {
    /// 16-bit UUID of the characteristic.
    spec fn spec_uuid() -> u16;

    /// Length of the report.
    spec fn spec_max_length() -> usize;

    fn uuid() -> (uuid: u16)
        ensures
            uuid == Self::spec_uuid(),
    ;

    fn max_length() -> (length: usize)
        ensures
            length == Self::spec_max_length(),
    ;

    /// Name of the report, for messages.
    spec fn spec_name() -> Seq<char>;

    /// Name of the report, for messages.
    fn name() -> (name: &'static str)
        ensures
            name@ == Self::spec_name(),
    ;
}

/// The boot keyboard input report.
pub struct BootInputReportKeyboard;

/// The boot keyboard output report.
pub struct BootOutputReportKeyboard;

/// The boot mouse input report.
pub struct BootInputReportMouse;

impl BootReportDevice for BootInputReportKeyboard {
    open spec fn spec_uuid() -> u16 {
        0x2A22
    }

    open spec fn spec_max_length() -> usize {
        8
    }

    fn uuid() -> (uuid: u16) {
        0x2A22
    }

    fn max_length() -> (length: usize) {
        8
    }

    open spec fn spec_name() -> Seq<char> {
        "input keyboard"@
    }

    fn name() -> (name: &'static str) {
        "input keyboard"
    }
}

impl BootReportDevice for BootOutputReportKeyboard {
    open spec fn spec_uuid() -> u16 {
        0x2A32
    }

    open spec fn spec_max_length() -> usize {
        1
    }

    fn uuid() -> (uuid: u16) {
        0x2A32
    }

    fn max_length() -> (length: usize) {
        1
    }

    open spec fn spec_name() -> Seq<char> {
        "output keyboard"@
    }

    fn name() -> (name: &'static str) {
        "output keyboard"
    }
}

impl BootReportDevice for BootInputReportMouse {
    open spec fn spec_uuid() -> u16 {
        0x2A33
    }

    open spec fn spec_max_length() -> usize {
        8
    }

    fn uuid() -> (uuid: u16) {
        0x2A33
    }

    fn max_length() -> (length: usize) {
        8
    }

    open spec fn spec_name() -> Seq<char> {
        "input mouse"@
    }

    fn name() -> (name: &'static str) {
        "input mouse"
    }
}

/// `length` zero bytes.
fn zeros(length: usize) -> (bytes: Vec<u8>)
    ensures
        bytes@ == Seq::new(length as nat, |i: int| 0u8),
{
    let mut bytes: Vec<u8> = Vec::new();
    while bytes.len() < length
        invariant
            bytes@.len() <= length,
            forall|i: int| 0 <= i < bytes@.len() ==> bytes@[i] == 0u8,
        decreases length - bytes@.len(),
    {
        bytes.push(0);
    }
    assert(bytes@ =~= Seq::new(length as nat, |i: int| 0u8));
    bytes
}

/// A registered boot report characteristic of kind `T`.
pub struct BootReportCharacteristic<T> {
    pub characteristic_handles: CharacteristicHandles,
    pub kind: core::marker::PhantomData<T>,
}

impl<T: BootReportDevice> BootReportCharacteristic<T> {
    /// The characteristic to register: a report of zeros, readable,
    /// writable and notifying, read by the application.
    pub fn definition() -> (characteristic: Characteristic)
        ensures
            is_boot_definition::<T>(characteristic),
    {
        Characteristic {
            uuid: T::uuid(),
            value: zeros(T::max_length()),
            variable_length: None,
            deferred_read: true,
            security: SecurityMode::JustWorks,
            properties: Properties::new().read().write().notify(),
            descriptors: Vec::new(),
        }
    }

    /// The characteristic registered with these handles.
    pub fn new(characteristic_handles: CharacteristicHandles) -> (report: Self)
        ensures
            report.characteristic_handles == characteristic_handles,
    {
        BootReportCharacteristic { characteristic_handles, kind: core::marker::PhantomData }
    }

    /// Handles a write: `Some` with the new notification setting when it
    /// switches this report's notifications.
    pub fn on_write(&self, handle: u16, data: &[u8]) -> (change: Option<bool>)
        ensures
            change == notification_change_spec(self.characteristic_handles.cccd_handle, handle, data@),
    {
        notification_change(self.characteristic_handles.cccd_handle, handle, data)
    }
}

/// The report map characteristic.
pub struct ReportMapCharacteristic {}

impl ReportMapCharacteristic {
    /// The characteristic to register: the report map, read-only.
    pub fn definition() -> (characteristic: Characteristic)
        ensures
            characteristic_is(
                characteristic,
                REPORT_MAP_UUID,
                report_map_bytes(),
                Some(report_map_bytes().len() as u16),
                false,
                read_only(),
            ),
            characteristic.descriptors@.len() == 0,
    {
        let map = report_map();
        let length = map.len() as u16;
        Characteristic {
            uuid: REPORT_MAP_UUID,
            value: map,
            variable_length: Some(length),
            deferred_read: false,
            security: SecurityMode::JustWorks,
            properties: Properties::new().read(),
            descriptors: Vec::new(),
        }
    }
}

/// The value of the HID information characteristic: the HID version,
/// little-endian, the country code and the flags.
pub open spec fn hid_information_bytes() -> Seq<u8> {
    seq![
        (USB_HID_SPEC_VERSION % 256) as u8,
        (USB_HID_SPEC_VERSION / 256) as u8,
        COUNTRY_CODE,
        HID_INFO_FLAG_REMOTE_WAKE_MSK | HID_INFO_FLAG_NORMALLY_CONNECTABLE_MSK,
    ]
}

/// The HID information characteristic.
pub struct HidInformationCharacteristic {}

impl HidInformationCharacteristic {
    /// The characteristic to register: the HID information, read-only.
    pub fn definition() -> (characteristic: Characteristic)
        ensures
            characteristic_is(characteristic, HID_INFORMATION_UUID, hid_information_bytes(), None, false, read_only()),
            characteristic.descriptors@.len() == 0,
    {
        let flags = HID_INFO_FLAG_REMOTE_WAKE_MSK | HID_INFO_FLAG_NORMALLY_CONNECTABLE_MSK;
        let encoded = vec![(USB_HID_SPEC_VERSION % 256) as u8, (USB_HID_SPEC_VERSION / 256) as u8, COUNTRY_CODE, flags];
        assert(encoded@ =~= hid_information_bytes());
        Characteristic {
            uuid: HID_INFORMATION_UUID,
            value: encoded,
            variable_length: None,
            deferred_read: false,
            security: SecurityMode::JustWorks,
            properties: Properties::new().read(),
            descriptors: Vec::new(),
        }
    }
}

/// The HID control point characteristic.
pub struct ControlPointCharacteristic {}

impl ControlPointCharacteristic {
    /// The characteristic to register: one zero byte, written without
    /// response.
    pub fn definition() -> (characteristic: Characteristic)
        ensures
            characteristic_is(
                characteristic,
                CONTROL_POINT_UUID,
                seq![0u8],
                None,
                false,
                Properties { read: false, write_without_response: true, write: false, notify: false },
            ),
            characteristic.descriptors@.len() == 0,
    {
        let value = vec![0u8];
        assert(value@ =~= seq![0u8]);
        Characteristic {
            uuid: CONTROL_POINT_UUID,
            value,
            variable_length: None,
            deferred_read: false,
            security: SecurityMode::JustWorks,
            properties: Properties::new().write_without_response(),
            descriptors: Vec::new(),
        }
    }
}

} // verus!

verus! {

/// A service to register and its characteristics, in order.
#[derive(Clone, Debug)]
pub struct Service {
    /// 16-bit UUID.
    pub uuid: u16,
    pub characteristics: Vec<Characteristic>,
}

/// The report characteristic of kind `T`, as `ReportCharacteristic::definition` makes it.
pub open spec fn is_report_definition<T: ReportCharacteristicType>(characteristic: Characteristic) -> bool {
    &&& characteristic_is(
        characteristic,
        REPORT_UUID,
        Seq::empty(),
        Some(T::spec_max_length()),
        true,
        T::spec_properties(),
    )
    &&& characteristic.descriptors@.len() == 1
    &&& descriptor_is(
        characteristic.descriptors@[0],
        REPORT_REFERENCE_UUID,
        seq![T::spec_reference_id(), T::spec_reference_type()],
        Some(2),
        true,
    )
}

/// The boot report characteristic of kind `T`.
pub open spec fn is_boot_definition<T: BootReportDevice>(characteristic: Characteristic) -> bool {
    &&& characteristic_is(
        characteristic,
        T::spec_uuid(),
        Seq::new(T::spec_max_length() as nat, |i: int| 0u8),
        None,
        true,
        read_write_notify(),
    )
    &&& characteristic.descriptors@.len() == 0
}

/// The protocol mode characteristic: the report protocol, readable and
/// written without response.
pub open spec fn is_protocol_mode_definition(characteristic: Characteristic) -> bool {
    &&& characteristic_is(
        characteristic,
        PROTOCOL_MODE_UUID,
        seq![PROTOCOL_MODE_REPORT],
        None,
        false,
        Properties { read: true, write_without_response: true, write: false, notify: false },
    )
    &&& characteristic.descriptors@.len() == 0
}

/// The protocol mode characteristic.
fn protocol_mode_definition() -> (characteristic: Characteristic)
    ensures
        is_protocol_mode_definition(characteristic),
{
    let value = vec![PROTOCOL_MODE_REPORT];
    assert(value@ =~= seq![PROTOCOL_MODE_REPORT]);
    Characteristic {
        uuid: PROTOCOL_MODE_UUID,
        value,
        variable_length: None,
        deferred_read: false,
        security: SecurityMode::JustWorks,
        properties: Properties::new().read().write_without_response(),
        descriptors: Vec::new(),
    }
}

/// The HID service as registered.
pub struct HidService {
    pub input_report: ReportCharacteristic<InputReport>,
    pub output_report: ReportCharacteristic<OutpetReport>,
    pub feature_report: ReportCharacteristic<FeatureReport>,
    pub report_map: ReportMapCharacteristic,
    pub boot_input_report: BootReportCharacteristic<BootInputReportKeyboard>,
    pub boot_output_report: BootReportCharacteristic<BootOutputReportKeyboard>,
    pub hid_information: HidInformationCharacteristic,
    pub control_point: ControlPointCharacteristic,
}

impl HidService {
    /// The service to register: the protocol mode, the input, output and
    /// feature reports, the report map, the boot keyboard input and output
    /// reports, the HID information and the control point, in this order.
    pub fn definition() -> (service: Service)
        ensures
            service.uuid == HID_SERVICE_UUID,
            service.characteristics@.len() == 9,
            is_protocol_mode_definition(service.characteristics@[0]),
            is_report_definition::<InputReport>(service.characteristics@[1]),
            is_report_definition::<OutpetReport>(service.characteristics@[2]),
            is_report_definition::<FeatureReport>(service.characteristics@[3]),
            characteristic_is(
                service.characteristics@[4],
                REPORT_MAP_UUID,
                report_map_bytes(),
                Some(report_map_bytes().len() as u16),
                false,
                read_only(),
            ),
            is_boot_definition::<BootInputReportKeyboard>(service.characteristics@[5]),
            is_boot_definition::<BootOutputReportKeyboard>(service.characteristics@[6]),
            characteristic_is(service.characteristics@[7], HID_INFORMATION_UUID, hid_information_bytes(), None, false, read_only()),
            characteristic_is(
                service.characteristics@[8],
                CONTROL_POINT_UUID,
                seq![0u8],
                None,
                false,
                Properties { read: false, write_without_response: true, write: false, notify: false },
            ),
    {
        let mut characteristics: Vec<Characteristic> = Vec::new();
        characteristics.push(protocol_mode_definition());
        characteristics.push(ReportCharacteristic::<InputReport>::definition());
        characteristics.push(ReportCharacteristic::<OutpetReport>::definition());
        characteristics.push(ReportCharacteristic::<FeatureReport>::definition());
        characteristics.push(ReportMapCharacteristic::definition());
        characteristics.push(BootReportCharacteristic::<BootInputReportKeyboard>::definition());
        characteristics.push(BootReportCharacteristic::<BootOutputReportKeyboard>::definition());
        characteristics.push(HidInformationCharacteristic::definition());
        characteristics.push(ControlPointCharacteristic::definition());
        Service { uuid: HID_SERVICE_UUID, characteristics }
    }

    /// Handles a write: the new notification settings it makes, for the
    /// input, output and feature reports and the boot input and output
    /// reports, in this order.
    pub fn on_write(&self, handle: u16, data: &[u8]) -> (changes: [Option<bool>; 5])
        ensures
            changes@[0] == notification_change_spec(self.input_report.characteristic_handles.cccd_handle, handle, data@),
            changes@[1] == notification_change_spec(self.output_report.characteristic_handles.cccd_handle, handle, data@),
            changes@[2] == notification_change_spec(self.feature_report.characteristic_handles.cccd_handle, handle, data@),
            changes@[3] == notification_change_spec(
                self.boot_input_report.characteristic_handles.cccd_handle,
                handle,
                data@,
            ),
            changes@[4] == notification_change_spec(
                self.boot_output_report.characteristic_handles.cccd_handle,
                handle,
                data@,
            ),
    {
        [
            self.input_report.on_write(handle, data),
            self.output_report.on_write(handle, data),
            self.feature_report.on_write(handle, data),
            self.boot_input_report.on_write(handle, data),
            self.boot_output_report.on_write(handle, data),
        ]
    }
}

/// The notification setting that a write of `data` to `handle` makes for
/// the characteristic with client configuration `cccd_handle`, if any.
pub open spec fn notification_change_spec(cccd_handle: u16, handle: u16, data: Seq<u8>) -> Option<bool> {
    if handle == cccd_handle && data.len() > 0 {
        Some(data[0] % 2 == 1)
    } else {
        None
    }
}

/// The battery service as registered.
pub struct BatteryService {
    pub value_handle: u16,
    pub cccd_handle: u16,
}

impl BatteryService {
    /// The service to register: the battery level, one byte starting at
    /// zero, readable and notifying.
    pub fn definition() -> (service: Service)
        ensures
            service.uuid == BATTERY_SERVICE_UUID,
            service.characteristics@.len() == 1,
            characteristic_is(
                service.characteristics@[0],
                BATTERY_LEVEL_UUID,
                seq![0u8],
                None,
                false,
                Properties { read: true, write_without_response: false, write: false, notify: true },
            ),
            service.characteristics@[0].descriptors@.len() == 0,
    {
        let value = vec![0u8];
        assert(value@ =~= seq![0u8]);
        let level = Characteristic {
            uuid: BATTERY_LEVEL_UUID,
            value,
            variable_length: None,
            deferred_read: false,
            security: SecurityMode::JustWorks,
            properties: Properties::new().read().notify(),
            descriptors: Vec::new(),
        };
        Service { uuid: BATTERY_SERVICE_UUID, characteristics: vec![level] }
    }

    /// Handles a write: `Some` with the new notification setting when it
    /// switches the battery level's notifications.
    pub fn on_write(&self, handle: u16, data: &[u8]) -> (change: Option<bool>)
        ensures
            change == notification_change_spec(self.cccd_handle, handle, data@),
    {
        notification_change(self.cccd_handle, handle, data)
    }
}

/// The device information service as registered; it has no
/// characteristics yet.
pub struct DeviceInformationService {}

impl DeviceInformationService {
    /// The service to register, without characteristics.
    pub fn definition() -> (service: Service)
        ensures
            service.uuid == DEVICE_INFORMATION_UUID,
            service.characteristics@.len() == 0,
    {
        Service { uuid: DEVICE_INFORMATION_UUID, characteristics: Vec::new() }
    }

    /// Handles a write: no characteristic of this service reacts to one.
    pub fn on_write(&self, handle: u16, data: &[u8]) {
    }
}

} // verus!
