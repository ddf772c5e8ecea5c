use vstd::prelude::*;

verus! {

// USB HID keyboard usage codes. 0x00 if no key is pressed; ERR_OVF fills all
// slots of a report when too many keys are pressed at once.

// Modifier keys as they appear in a key slot of the older key tables.
pub const MOD_LCTRL: u8 = 0x01;
pub const MOD_LSHIFT: u8 = 0x02;
pub const MOD_LALT: u8 = 0x04;
pub const MOD_LMETA: u8 = 0x08;
pub const MOD_RCTRL: u8 = 0x10;
pub const MOD_RSHIFT: u8 = 0x20;
pub const MOD_RALT: u8 = 0x40;
pub const MOD_RMETA: u8 = 0x80;

pub const NONE: u8 = 0x00; // No key pressed
pub const ERR_OVF: u8 = 0x01; //  Keyboard Error Roll Over - used for all slots if too many keys are pressed ("Phantom key")
pub const A: u8 = 0x04; // Keyboard a and A
pub const B: u8 = 0x05; // Keyboard b and B
pub const C: u8 = 0x06; // Keyboard c and C
pub const D: u8 = 0x07; // Keyboard d and D
pub const E: u8 = 0x08; // Keyboard e and E
pub const F: u8 = 0x09; // Keyboard f and F
pub const G: u8 = 0x0a; // Keyboard g and G
pub const H: u8 = 0x0b; // Keyboard h and H
pub const I: u8 = 0x0c; // Keyboard i and I
pub const J: u8 = 0x0d; // Keyboard j and J
pub const K: u8 = 0x0e; // Keyboard k and K
pub const L: u8 = 0x0f; // Keyboard l and L
pub const M: u8 = 0x10; // Keyboard m and M
pub const N: u8 = 0x11; // Keyboard n and N
pub const O: u8 = 0x12; // Keyboard o and O
pub const P: u8 = 0x13; // Keyboard p and P
pub const Q: u8 = 0x14; // Keyboard q and Q
pub const R: u8 = 0x15; // Keyboard r and R
pub const S: u8 = 0x16; // Keyboard s and S
pub const T: u8 = 0x17; // Keyboard t and T
pub const U: u8 = 0x18; // Keyboard u and U
pub const V: u8 = 0x19; // Keyboard v and V
pub const W: u8 = 0x1a; // Keyboard w and W
pub const X: u8 = 0x1b; // Keyboard x and X
pub const Y: u8 = 0x1c; // Keyboard y and Y
pub const Z: u8 = 0x1d; // Keyboard z and Z
pub const N1: u8 = 0x1e; // Keyboard 1 and !
pub const N2: u8 = 0x1f; // Keyboard 2 and @
pub const N3: u8 = 0x20; // Keyboard 3 and #
pub const N4: u8 = 0x21; // Keyboard 4 and $
pub const N5: u8 = 0x22; // Keyboard 5 and %
pub const N6: u8 = 0x23; // Keyboard 6 and ^
pub const N7: u8 = 0x24; // Keyboard 7 and &
pub const N8: u8 = 0x25; // Keyboard 8 and *
pub const N9: u8 = 0x26; // Keyboard 9 and (
pub const N0: u8 = 0x27; // Keyboard 0 and )
pub const ENTER: u8 = 0x28; // Keyboard Return (ENTER)
pub const ESC: u8 = 0x29; // Keyboard ESCAPE
pub const BACKSPACE: u8 = 0x2a; // Keyboard DELETE (Backspace)
pub const TAB: u8 = 0x2b; // Keyboard Tab
pub const SPACE: u8 = 0x2c; // Keyboard Spacebar
pub const MINUS: u8 = 0x2d; // Keyboard - and _
pub const EQUAL: u8 = 0x2e; // Keyboard = and +
pub const LEFTBRACE: u8 = 0x2f; // Keyboard [ and {
pub const RIGHTBRACE: u8 = 0x30; // Keyboard ] and }
pub const BACKSLASH: u8 = 0x31; // Keyboard \ and |
pub const HASHTILDE: u8 = 0x32; // Keyboard Non-US # and ~
pub const SEMICOLON: u8 = 0x33; // Keyboard ; and :
pub const APOSTROPHE: u8 = 0x34; // Keyboard ' and "
pub const GRAVE: u8 = 0x35; // Keyboard ` and ~
pub const COMMA: u8 = 0x36; // Keyboard , and <
pub const DOT: u8 = 0x37; // Keyboard . and >
pub const SLASH: u8 = 0x38; // Keyboard / and ?
pub const CAPSLOCK: u8 = 0x39; // Keyboard Caps Lock
pub const F1: u8 = 0x3a; // Keyboard F1
pub const F2: u8 = 0x3b; // Keyboard F2
pub const F3: u8 = 0x3c; // Keyboard F3
pub const F4: u8 = 0x3d; // Keyboard F4
pub const F5: u8 = 0x3e; // Keyboard F5
pub const F6: u8 = 0x3f; // Keyboard F6
pub const F7: u8 = 0x40; // Keyboard F7
pub const F8: u8 = 0x41; // Keyboard F8
pub const F9: u8 = 0x42; // Keyboard F9
pub const F10: u8 = 0x43; // Keyboard F10
pub const F11: u8 = 0x44; // Keyboard F11
pub const F12: u8 = 0x45; // Keyboard F12
pub const SYSRQ: u8 = 0x46; // Keyboard Print Screen
pub const SCROLLLOCK: u8 = 0x47; // Keyboard Scroll Lock
pub const PAUSE: u8 = 0x48; // Keyboard Pause
pub const INSERT: u8 = 0x49; // Keyboard Insert
pub const HOME: u8 = 0x4a; // Keyboard Home
pub const PAGEUP: u8 = 0x4b; // Keyboard Page Up
pub const DELETE: u8 = 0x4c; // Keyboard Delete Forward
pub const END: u8 = 0x4d; // Keyboard End
pub const PAGEDOWN: u8 = 0x4e; // Keyboard Page Down
pub const RIGHT: u8 = 0x4f; // Keyboard Right Arrow
pub const LEFT: u8 = 0x50; // Keyboard Left Arrow
pub const DOWN: u8 = 0x51; // Keyboard Down Arrow
pub const UP: u8 = 0x52; // Keyboard Up Arrow
pub const NUMLOCK: u8 = 0x53; // Keyboard Num Lock and Clear
pub const KPSLASH: u8 = 0x54; // Keypad /
pub const KPASTERISK: u8 = 0x55; // Keypad *
pub const KPMINUS: u8 = 0x56; // Keypad -
pub const KPPLUS: u8 = 0x57; // Keypad +
pub const KPENTER: u8 = 0x58; // Keypad ENTER
pub const KP1: u8 = 0x59; // Keypad 1 and End
pub const KP2: u8 = 0x5a; // Keypad 2 and Down Arrow
pub const KP3: u8 = 0x5b; // Keypad 3 and PageDn
pub const KP4: u8 = 0x5c; // Keypad 4 and Left Arrow
pub const KP5: u8 = 0x5d; // Keypad 5
pub const KP6: u8 = 0x5e; // Keypad 6 and Right Arrow
pub const KP7: u8 = 0x5f; // Keypad 7 and Home
pub const KP8: u8 = 0x60; // Keypad 8 and Up Arrow
pub const KP9: u8 = 0x61; // Keypad 9 and Page Up
pub const KP0: u8 = 0x62; // Keypad 0 and Insert
pub const KPDOT: u8 = 0x63; // Keypad . and Delete
pub const NONUS_BACKSLASH: u8 = 0x64;
pub const COMPOSE: u8 = 0x65; // Keyboard Application
pub const POWER: u8 = 0x66; // Keyboard Power
pub const KPEQUAL: u8 = 0x67; // Keypad =
pub const F13: u8 = 0x68; // Keyboard F13
pub const F14: u8 = 0x69; // Keyboard F14
pub const F15: u8 = 0x6a; // Keyboard F15
pub const F16: u8 = 0x6b; // Keyboard F16
pub const F17: u8 = 0x6c; // Keyboard F17
pub const F18: u8 = 0x6d; // Keyboard F18
pub const F19: u8 = 0x6e; // Keyboard F19
pub const F20: u8 = 0x6f; // Keyboard F20
pub const F21: u8 = 0x70; // Keyboard F21
pub const F22: u8 = 0x71; // Keyboard F22
pub const F23: u8 = 0x72; // Keyboard F23
pub const F24: u8 = 0x73; // Keyboard F24
pub const OPEN: u8 = 0x74; // Keyboard Execute
pub const HELP: u8 = 0x75; // Keyboard Help
pub const PROPS: u8 = 0x76; // Keyboard Menu
pub const FRONT: u8 = 0x77; // Keyboard Select
pub const STOP: u8 = 0x78; // Keyboard Stop
pub const AGAIN: u8 = 0x79; // Keyboard Again
pub const UNDO: u8 = 0x7a; // Keyboard Undo
pub const CUT: u8 = 0x7b; // Keyboard Cut
pub const COPY: u8 = 0x7c; // Keyboard Copy
pub const PASTE: u8 = 0x7d; // Keyboard Paste
pub const FIND: u8 = 0x7e; // Keyboard Find
pub const MUTE: u8 = 0x7f; // Keyboard Mute
pub const VOLUMEUP: u8 = 0x80; // Keyboard Volume Up
pub const VOLUMEDOWN: u8 = 0x81; // Keyboard Volume Down
pub const KPCOMMA: u8 = 0x85; // Keypad Comma
pub const RO: u8 = 0x87; // Keyboard International1
pub const KATAKANAHIRAGANA: u8 = 0x88; // Keyboard International2
pub const YEN: u8 = 0x89; // Keyboard International3
pub const HENKAN: u8 = 0x8a; // Keyboard International4
pub const MUHENKAN: u8 = 0x8b; // Keyboard International5
pub const KPJPCOMMA: u8 = 0x8c; // Keyboard International6
pub const HANGEUL: u8 = 0x90; // Keyboard LANG1
pub const HANJA: u8 = 0x91; // Keyboard LANG2
pub const KATAKANA: u8 = 0x92; // Keyboard LANG3
pub const HIRAGANA: u8 = 0x93; // Keyboard LANG4
pub const ZENKAKUHANKAKU: u8 = 0x94; // Keyboard LANG5
pub const KPLEFTPAREN: u8 = 0xb6; // Keypad (
pub const KPRIGHTPAREN: u8 = 0xb7; // Keypad )
pub const LEFTCTRL: u8 = 0xe0; // Keyboard Left Control
pub const LEFTSHIFT: u8 = 0xe1; // Keyboard Left Shift
pub const LEFTALT: u8 = 0xe2; // Keyboard Left Alt
pub const LEFTMETA: u8 = 0xe3; // Keyboard Left GUI
pub const RIGHTCTRL: u8 = 0xe4; // Keyboard Right Control
pub const RIGHTSHIFT: u8 = 0xe5; // Keyboard Right Shift
pub const RIGHTALT: u8 = 0xe6; // Keyboard Right Alt
pub const RIGHTMETA: u8 = 0xe7; // Keyboard Right GUI
pub const MEDIA_PLAYPAUSE: u8 = 0xe8;
pub const MEDIA_STOPCD: u8 = 0xe9;
pub const MEDIA_PREVIOUSSONG: u8 = 0xea;
pub const MEDIA_NEXTSONG: u8 = 0xeb;
pub const MEDIA_EJECTCD: u8 = 0xec;
pub const MEDIA_VOLUMEUP: u8 = 0xed;
pub const MEDIA_VOLUMEDOWN: u8 = 0xee;
pub const MEDIA_MUTE: u8 = 0xef;
pub const MEDIA_WWW: u8 = 0xf0;
pub const MEDIA_BACK: u8 = 0xf1;
pub const MEDIA_FORWARD: u8 = 0xf2;
pub const MEDIA_STOP: u8 = 0xf3;
pub const MEDIA_FIND: u8 = 0xf4;
pub const MEDIA_SCROLLUP: u8 = 0xf5;
pub const MEDIA_SCROLLDOWN: u8 = 0xf6;
pub const MEDIA_EDIT: u8 = 0xf7;
pub const MEDIA_SLEEP: u8 = 0xf8;
pub const MEDIA_COFFEE: u8 = 0xf9;
pub const MEDIA_REFRESH: u8 = 0xfa;
pub const MEDIA_CALC: u8 = 0xfb;

} // verus!
