//! Verified core of the Butterware split-keyboard firmware: key matrix
//! debouncing, layer resolution, HID report construction, persistent settings,
//! Bluetooth advertising payloads and the routing of operations between the
//! two halves of the keyboard.

pub mod side;
pub mod battery;
pub mod hardware;
pub mod interface;
pub mod keys;
pub mod flash;
pub mod split;
pub mod ble;
pub mod led;
pub mod power;
pub mod keyboards;
pub mod procedural;
