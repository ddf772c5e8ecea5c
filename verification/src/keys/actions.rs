use vstd::prelude::*;

use crate::flash::BondSlot;
use crate::power::PowerState;
use crate::side::Side;

verus! {

pub const MOD_NONE: u8 = 0x00;
pub const MOD_LCTRL: u8 = 0x01;
pub const MOD_LSHIFT: u8 = 0x02;
pub const MOD_LALT: u8 = 0x04;
pub const MOD_LMETA: u8 = 0x08;
pub const MOD_RCTRL: u8 = 0x10;
pub const MOD_RSHIFT: u8 = 0x20;
pub const MOD_RALT: u8 = 0x40;
pub const MOD_RMETA: u8 = 0x80;

/// A set of modifier keys, one bit each (`MOD_LCTRL` to `MOD_RMETA`).
#[derive(Clone, Copy, Debug, PartialEq, Eq, Structural)]
pub struct Modifiers {
    bits: u8,
}

impl View for Modifiers {
    type V = u8;

    closed spec fn view(&self) -> u8 {
        self.bits
    }
}

impl Modifiers {
    pub fn from_bits(bits: u8) -> (modifiers: Modifiers)
        ensures
            modifiers@ == bits,
    {
        Modifiers { bits }
    }

    pub fn bits(&self) -> (bits: u8)
        ensures
            bits == self@,
    {
        self.bits
    }

    /// The modifiers of both sets.
    pub fn union(self, other: Modifiers) -> (both: Modifiers)
        ensures
            both@ == self@ | other@,
    {
        Modifiers { bits: self.bits | other.bits }
    }
}

/// A key with the modifiers it is sent with.
#[derive(Clone, Copy, Debug, PartialEq, Eq, Structural)]
pub struct Key(pub u8, pub Modifiers);

/// Index of a layer.
#[derive(Clone, Copy, Debug, PartialEq, Eq, Structural)]
pub struct Layer(pub usize);

impl Key {
    pub open spec fn spec_value(self) -> u8 {
        self.0
    }

    pub open spec fn spec_modifiers(self) -> u8 {
        self.1@
    }

    /// The key with no modifier.
    pub fn from_keycode(keycode: u8) -> (key: Self)
        ensures
            key.spec_value() == keycode,
            key.spec_modifiers() == MOD_NONE,
    {
        Key(keycode, Modifiers::from_bits(MOD_NONE))
    }

    /// The key with left shift added.
    pub fn shift(self) -> (key: Self)
        ensures
            key.spec_value() == self.spec_value(),
            key.spec_modifiers() == self.spec_modifiers() | MOD_LSHIFT,
    {
        Key(self.0, self.1.union(Modifiers::from_bits(MOD_LSHIFT)))
    }

    /// The key with right alt (AltGr) added.
    pub fn alt_gr(self) -> (key: Self)
        ensures
            key.spec_value() == self.spec_value(),
            key.spec_modifiers() == self.spec_modifiers() | MOD_RALT,
    {
        Key(self.0, self.1.union(Modifiers::from_bits(MOD_RALT)))
    }

    pub fn get_value(&self) -> (value: u8)
        ensures
            value == self.spec_value(),
    {
        self.0
    }

    pub fn get_modifiers(&self) -> (modifiers: Modifiers)
        ensures
            modifiers@ == self.spec_modifiers(),
    {
        self.1
    }
}

/// Actions of special keys, each aimed at a side. Animations and callbacks
/// are named by their index in the keyboard's own tables.
#[derive(Clone, Copy, Debug, PartialEq, Eq, Structural)]
pub enum SpecialAction {
    RemoveBond { side: Side, bond_slot: BondSlot },
    ResetPersistentData { side: Side },
    SetPower { side: Side, state: PowerState },
    SetAnimation { side: Side, index: usize, animation: usize },
    Callback(usize),
}

/// What a tap of a key does.
#[derive(Clone, Copy, Debug, PartialEq, Eq, Structural)]
pub enum TapAction {
    Keycode(u8, Modifiers),
    Special(SpecialAction),
}

/// What holding a key does.
#[derive(Clone, Copy, Debug, PartialEq, Eq, Structural)]
pub enum HoldAction {
    Layer(usize),
    Modifier(Modifiers),
}

/// What a key does on a layer.
#[derive(Clone, Copy, Debug, PartialEq, Eq, Structural)]
pub enum Mapping {
    Tap(TapAction),
    Hold(HoldAction),
    HoldTap(HoldAction, TapAction),
}

/// Values that can be tapped.
pub trait IntoTapAction: Sized {
    spec fn tap_action_of(self) -> TapAction;

    fn into_tap_action(self) -> (action: TapAction)
        ensures
            action == self.tap_action_of(),
    ;
}

impl IntoTapAction for Key {
    open spec fn tap_action_of(self) -> TapAction {
        TapAction::Keycode(self.0, self.1)
    }

    fn into_tap_action(self) -> (action: TapAction) {
        TapAction::Keycode(self.0, self.1)
    }
}

impl IntoTapAction for SpecialAction {
    open spec fn tap_action_of(self) -> TapAction {
        TapAction::Special(self)
    }

    fn into_tap_action(self) -> (action: TapAction) {
        TapAction::Special(self)
    }
}

/// Values that can be held.
pub trait IntoHoldAction: Sized {
    spec fn hold_action_of(self) -> HoldAction;

    fn into_hold_action(self) -> (action: HoldAction)
        ensures
            action == self.hold_action_of(),
    ;
}

impl IntoHoldAction for Layer {
    open spec fn hold_action_of(self) -> HoldAction {
        HoldAction::Layer(self.0)
    }

    fn into_hold_action(self) -> (action: HoldAction) {
        HoldAction::Layer(self.0)
    }
}

impl IntoHoldAction for Modifiers {
    open spec fn hold_action_of(self) -> HoldAction {
        HoldAction::Modifier(self)
    }

    fn into_hold_action(self) -> (action: HoldAction) {
        HoldAction::Modifier(self)
    }
}

/// Values that can be placed in a key table.
pub trait IntoMapping: Sized {
    spec fn mapping_of(self) -> Mapping;

    fn into_mapping(self) -> (mapping: Mapping)
        ensures
            mapping == self.mapping_of(),
    ;
}

impl IntoMapping for Mapping {
    open spec fn mapping_of(self) -> Mapping {
        self
    }

    fn into_mapping(self) -> (mapping: Mapping) {
        self
    }
}

impl IntoMapping for TapAction {
    open spec fn mapping_of(self) -> Mapping {
        Mapping::Tap(self)
    }

    fn into_mapping(self) -> (mapping: Mapping) {
        Mapping::Tap(self)
    }
}

impl IntoMapping for HoldAction {
    open spec fn mapping_of(self) -> Mapping {
        Mapping::Hold(self)
    }

    fn into_mapping(self) -> (mapping: Mapping) {
        Mapping::Hold(self)
    }
}

impl IntoMapping for Key {
    open spec fn mapping_of(self) -> Mapping {
        Mapping::Tap(self.tap_action_of())
    }

    fn into_mapping(self) -> (mapping: Mapping) {
        Mapping::Tap(self.into_tap_action())
    }
}

impl IntoMapping for SpecialAction {
    open spec fn mapping_of(self) -> Mapping {
        Mapping::Tap(self.tap_action_of())
    }

    fn into_mapping(self) -> (mapping: Mapping) {
        Mapping::Tap(self.into_tap_action())
    }
}

impl IntoMapping for Layer {
    open spec fn mapping_of(self) -> Mapping {
        Mapping::Hold(self.hold_action_of())
    }

    fn into_mapping(self) -> (mapping: Mapping) {
        Mapping::Hold(self.into_hold_action())
    }
}

impl IntoMapping for Modifiers {
    open spec fn mapping_of(self) -> Mapping {
        Mapping::Hold(self.hold_action_of())
    }

    fn into_mapping(self) -> (mapping: Mapping) {
        Mapping::Hold(self.into_hold_action())
    }
}

/// A key that does `hold` while held and `tap` when tapped.
pub fn hold_tap<H: IntoHoldAction, T: IntoTapAction>(hold: H, tap: T) -> (mapping: Mapping)
    ensures
        mapping == Mapping::HoldTap(hold.hold_action_of(), tap.tap_action_of()),
{
    Mapping::HoldTap(hold.into_hold_action(), tap.into_tap_action())
}

} // verus!
