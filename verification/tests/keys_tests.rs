use butterware::flash::BondSlot;
use butterware::keys::actions::{
    hold_tap, HoldAction, IntoHoldAction, IntoMapping, IntoTapAction, Key, Layer as ActionLayer, Mapping as ActionMapping, Modifiers,
    SpecialAction, TapAction, MOD_LSHIFT, MOD_RALT,
};
use butterware::keys::codes::{A, ENTER, ERR_OVF, SPACE, Z};
use butterware::keys::{Layer, Mapping, SpecialAction as TableAction};
use butterware::power::PowerState;
use butterware::side::Side;

#[test]
fn key_builders_add_modifiers() {
    let key = Key::from_keycode(A);
    assert_eq!(key.get_value(), 0x04);
    assert_eq!(key.get_modifiers().bits(), 0);
    let key = key.shift();
    assert_eq!(key.get_modifiers().bits(), MOD_LSHIFT);
    let key = key.alt_gr();
    assert_eq!(key.get_modifiers().bits(), MOD_LSHIFT | MOD_RALT);
    assert_eq!(key.get_value(), A);
}

#[test]
fn conversions_into_mappings() {
    let key = Key::from_keycode(Z);
    assert_eq!(key.into_tap_action(), TapAction::Keycode(Z, Modifiers::from_bits(0)));
    assert_eq!(ActionLayer(2).into_hold_action(), HoldAction::Layer(2));
    assert_eq!(ActionLayer(2).into_mapping(), ActionMapping::Hold(HoldAction::Layer(2)));
    let special = SpecialAction::SetPower { side: Side::Both, state: PowerState::Off };
    assert_eq!(special.into_mapping(), ActionMapping::Tap(TapAction::Special(special)));
    assert_eq!(
        hold_tap(Modifiers::from_bits(MOD_LSHIFT), Key::from_keycode(ENTER)),
        ActionMapping::HoldTap(HoldAction::Modifier(Modifiers::from_bits(MOD_LSHIFT)), TapAction::Keycode(ENTER, Modifiers::from_bits(0)))
    );
    assert_eq!(Modifiers::from_bits(1).union(Modifiers::from_bits(2)).bits(), 3);
}

#[test]
fn table_mappings() {
    assert_eq!(Mapping::layer(Layer(3)), Mapping::Layer(3));
    assert_eq!(Mapping::tap_layer(Layer(1), Mapping::Key(SPACE)), Mapping::TapLayer(1, SPACE));
    assert_eq!(Mapping::Key(A).keycode(), A);
    assert_eq!(Mapping::TapLayer(1, SPACE).keycode(), SPACE);
    assert_eq!(ERR_OVF, 1);
    assert_eq!(Mapping::Layer(4).held_layer(), Some(4));
    assert_eq!(Mapping::Special(TableAction::RemoveBond { bond_slot: BondSlot(0) }).held_layer(), None);
}
