use butterware::interface::{KeyboardExtension, Scannable, UnwrapInfelliable, MAXIMUM_ACTIVE_LAYERS};
use butterware::keyboards::butterboard::{BoardAction, Butterboard, Callbacks, Events, Leds, PersistentData};
use butterware::keyboards::meboard::Meboard;
use butterware::power::{power_pin_level, set_power_state, PowerOperation, PowerState};
use butterware::procedural::{keyboard_alias, name_less, source_file_names, DirEntry, EntryName, SourceNamesError};
use butterware::side::{Destination, Half, Side};
use butterware::split::event::trigger_event;

fn board() -> Butterboard {
    Butterboard::new(PersistentData { keys_animation: 5, wings_animation: 0, status_animation: 2, lighting_state: PowerState::On })
}

#[test]
fn animations_cycle_through_the_table() {
    let mut board = board();
    let actions = board.callback(Callbacks::NextKeysAnimation);
    assert_eq!(board.persistent_data.keys_animation, 0);
    assert_eq!(
        actions,
        vec![
            BoardAction::SetAnimation { side: Side::Both, leds: Leds::Keys, animation: 0 },
            BoardAction::StoreBoardFlash { side: Side::Both, data: board.persistent_data },
        ]
    );
    board.callback(Callbacks::NextWingsAnimation);
    board.callback(Callbacks::NextStatusAnimation);
    assert_eq!(board.persistent_data.wings_animation, 1);
    assert_eq!(board.persistent_data.status_animation, 3);
    for _ in 0..6 {
        board.callback(Callbacks::NextKeysAnimation);
    }
    assert_eq!(board.persistent_data.keys_animation, 0);
}

#[test]
fn toggling_lighting_twice_restores_it() {
    let mut board = board();
    let actions = board.callback(Callbacks::ToggleLighting);
    assert_eq!(board.persistent_data.lighting_state, PowerState::Off);
    assert_eq!(actions[0], BoardAction::SetPower { side: Side::Both, state: PowerState::Off });
    board.event(Events::SyncAnimations);
    assert_eq!(board.persistent_data.lighting_state, PowerState::On);
    assert_eq!(PowerState::On.not().not(), PowerState::On);
}

#[test]
fn synchronizing_raises_an_event_on_both_halves() {
    let mut board = board();
    let before = board.persistent_data;
    let actions = board.callback(Callbacks::SyncAnimations);
    assert_eq!(board.persistent_data, before);
    assert_eq!(actions, vec![BoardAction::TriggerEvent { side: Side::Both, event: Events::SyncAnimations }]);
    let routed = trigger_event(Side::Both, Events::SyncAnimations, Half::Left);
    assert_eq!(routed, vec![(Destination::ThisHalf, Events::SyncAnimations), (Destination::OtherHalf, Events::SyncAnimations)]);
}

#[test]
fn connection_restores_this_half() {
    let board = board();
    let actions = board.post_sides_connected(true);
    assert_eq!(actions.len(), 4);
    assert_eq!(actions[1], BoardAction::SetAnimation { side: Side::This, leds: Leds::Wings, animation: 0 });
    assert_eq!(actions[3], BoardAction::SetPower { side: Side::This, state: PowerState::On });
    assert_eq!(board.sides_disconnected(), vec![BoardAction::SetPower { side: Side::This, state: PowerState::On }]);
}

#[test]
fn power_requests_drive_the_pin() {
    let routed = set_power_state(Side::Right, PowerState::Off, Half::Right);
    assert_eq!(routed, vec![(Destination::ThisHalf, PowerOperation::SetPower { state: PowerState::Off })]);
    assert!(power_pin_level(PowerOperation::SetPower { state: PowerState::On }));
    assert!(!power_pin_level(PowerOperation::SetPower { state: PowerState::Off }));
}

#[test]
fn key_counts_follow_the_matrix() {
    assert_eq!(Meboard::columns(), 5);
    assert_eq!(Meboard::rows(), 4);
    assert_eq!(Meboard::keys_per_side(), 20);
    assert_eq!(Butterboard::keys_total(), 40);
    assert_eq!(Meboard::maximum_active_layers(), MAXIMUM_ACTIVE_LAYERS);
    let result: Result<u8, ()> = Ok(3);
    assert_eq!(result.unwrap_infelliable(), 3);
}

fn file(name: &str) -> DirEntry {
    DirEntry { is_file: true, name: EntryName::Unicode(name.to_owned()) }
}

#[test]
fn keyboards_are_the_sorted_source_files() {
    let entries = vec![
        file("meboard.rs"),
        file("mod.rs"),
        file("butterboard.rs"),
        file("README.md"),
        file(".rs"),
        DirEntry { is_file: false, name: EntryName::Unicode("folder.rs".to_owned()) },
        file("lib.rs"),
        file("main.rs"),
        file("a.b.rs"),
    ];
    let names = source_file_names(&entries).unwrap();
    assert_eq!(names, vec!["a.b".to_owned(), "butterboard".to_owned(), "meboard".to_owned()]);
}

#[test]
fn undecodable_source_name_is_an_error() {
    let entries = vec![
        file("meboard.rs"),
        DirEntry { is_file: true, name: EntryName::Other(vec![0xff, b'x', b'.', b'r', b's']) },
        DirEntry { is_file: true, name: EntryName::Other(vec![0xfe, b'.', b'r', b's']) },
        DirEntry { is_file: true, name: EntryName::Other(vec![0x80, b'.', b't', b'x', b't']) },
    ];
    match source_file_names(&entries) {
        Err(SourceNamesError::Utf8(name)) => assert_eq!(name, vec![0xfe, b'.', b'r', b's']),
        _ => panic!("expected a UTF-8 error"),
    }
}

#[test]
fn directory_without_keyboards_is_an_error() {
    let entries = vec![file("mod.rs"), file("notes.txt")];
    assert!(matches!(source_file_names(&entries), Err(SourceNamesError::Empty)));
    assert!(matches!(source_file_names(&vec![]), Err(SourceNamesError::Empty)));
}

#[test]
fn names_compare_by_code_point() {
    assert!(name_less("abc", "abd"));
    assert!(name_less("ab", "abc"));
    assert!(!name_less("abc", "ab"));
    assert!(!name_less("abc", "abc"));
    assert!(name_less("Z", "a"));
    assert!(name_less("z", "é"));
}

#[test]
fn selected_keyboard_is_converted_to_module_and_type_names() {
    assert_eq!(keyboard_alias(None), ("meboard".to_owned(), "Meboard".to_owned()));
    assert_eq!(keyboard_alias(Some("MyBoard".to_owned())), ("my_board".to_owned(), "MyBoard".to_owned()));
    assert_eq!(keyboard_alias(Some("split-board".to_owned())), ("split_board".to_owned(), "SplitBoard".to_owned()));
}

#[test]
fn advancing_one_animation_ignores_the_others() {
    let mut board = Butterboard::new(PersistentData {
        keys_animation: 2,
        wings_animation: 100,
        status_animation: 7,
        lighting_state: PowerState::Off,
    });
    board.callback(Callbacks::NextKeysAnimation);
    assert_eq!(board.persistent_data.keys_animation, 3);
    board.callback(Callbacks::NextWingsAnimation);
    assert_eq!(board.persistent_data.wings_animation, 101 % 6);
    assert_eq!(board.persistent_data.status_animation, 7);
}
