use vstd::prelude::*;

use crate::flash::bytes::{lemma_u32_le, push_u32, read_u32, u32_le};
use crate::flash::storage::BoardFlash;
use crate::interface::Scannable;
use crate::power::PowerState;
use crate::side::Side;

verus! {

/// Number of animations in the Butterboard's animation table (three rainbows
/// of increasing speed, then red, green and blue pulsing).
pub const ANIMATION_COUNT: usize = 6;

/// Columns of one Butterboard half.
pub const COLUMNS: usize = 5;

/// Rows of one Butterboard half.
pub const ROWS: usize = 4;

/// The Butterboard's LED strips.
#[derive(Clone, Copy, Debug, PartialEq, Eq, Structural, Hash)]
pub enum Leds {
    Keys,
    Wings,
    Status,
}

/// The Butterboard's key callbacks.
#[derive(Clone, Copy, Debug, PartialEq, Eq, Structural, Hash)]
pub enum Callbacks {
    NextKeysAnimation,
    NextWingsAnimation,
    NextStatusAnimation,
    ToggleLighting,
    SyncAnimations,
}

/// The Butterboard's events between the halves.
#[derive(Clone, Copy, Debug, PartialEq, Eq, Structural, Hash)]
pub enum Events {
    SyncAnimations,
}

/// The Butterboard's persistent data: the animation of each strip and
/// whether the lighting is on.
#[derive(Clone, Copy, Debug, PartialEq, Eq, Structural)]
pub struct PersistentData {
    pub keys_animation: usize,
    pub wings_animation: usize,
    pub status_animation: usize,
    pub lighting_state: PowerState,
}

impl PersistentData {
    /// Every animation index names an animation of the table.
    pub open spec fn wf(self) -> bool {
        &&& self.keys_animation < ANIMATION_COUNT
        &&& self.wings_animation < ANIMATION_COUNT
        &&& self.status_animation < ANIMATION_COUNT
    }
}

/// What the Butterboard asks the firmware to do.
#[derive(Clone, Copy, Debug, PartialEq, Eq, Structural)]
pub enum BoardAction {
    SetAnimation { side: Side, leds: Leds, animation: usize },
    SetPower { side: Side, state: PowerState },
    StoreBoardFlash { side: Side, data: PersistentData },
    TriggerEvent { side: Side, event: Events },
}

/// The animation after `animation` in the table, wrapping around.
pub open spec fn next_animation(animation: usize) -> usize {
    ((animation + 1) % (ANIMATION_COUNT as int)) as usize
}

/// The persistent data after a key callback.
pub open spec fn after_callback(data: PersistentData, callback: Callbacks) -> PersistentData {
    match callback {
        Callbacks::NextKeysAnimation => PersistentData { keys_animation: next_animation(data.keys_animation), ..data },
        Callbacks::NextWingsAnimation => PersistentData { wings_animation: next_animation(data.wings_animation), ..data },
        Callbacks::NextStatusAnimation => PersistentData { status_animation: next_animation(data.status_animation), ..data },
        Callbacks::ToggleLighting => PersistentData { lighting_state: data.lighting_state.spec_not(), ..data },
        Callbacks::SyncAnimations => data,
    }
}

/// What a key callback asks for, given the persistent data it leaves: a
/// changed animation or lighting state is applied and stored on both
/// halves; a synchronization is an event for both halves.
pub open spec fn callback_actions(data: PersistentData, callback: Callbacks) -> Seq<BoardAction> {
    match callback {
        Callbacks::NextKeysAnimation => seq![
            BoardAction::SetAnimation { side: Side::Both, leds: Leds::Keys, animation: data.keys_animation },
            BoardAction::StoreBoardFlash { side: Side::Both, data },
        ],
        Callbacks::NextWingsAnimation => seq![
            BoardAction::SetAnimation { side: Side::Both, leds: Leds::Wings, animation: data.wings_animation },
            BoardAction::StoreBoardFlash { side: Side::Both, data },
        ],
        Callbacks::NextStatusAnimation => seq![
            BoardAction::SetAnimation { side: Side::Both, leds: Leds::Status, animation: data.status_animation },
            BoardAction::StoreBoardFlash { side: Side::Both, data },
        ],
        Callbacks::ToggleLighting => seq![
            BoardAction::SetPower { side: Side::Both, state: data.lighting_state },
            BoardAction::StoreBoardFlash { side: Side::Both, data },
        ],
        Callbacks::SyncAnimations => seq![BoardAction::TriggerEvent { side: Side::Both, event: Events::SyncAnimations }],
    }
}

/// The split keyboard Butterboard.
pub struct Butterboard {
    pub persistent_data: PersistentData,
}

impl Scannable for Butterboard {
    open spec fn spec_columns() -> usize {
        COLUMNS
    }

    open spec fn spec_rows() -> usize {
        ROWS
    }

    proof fn lemma_matrix_fits() {
    }

    fn columns() -> (columns: usize) {
        COLUMNS
    }

    fn rows() -> (rows: usize) {
        ROWS
    }
}

impl Butterboard {
    /// The keyboard with the persistent data stored in the flash.
    pub fn new(persistent_data: PersistentData) -> (board: Self)
        ensures
            board.persistent_data == persistent_data,
    {
        Butterboard { persistent_data }
    }

    fn next_animation(animation: usize) -> (next: usize)
        requires
            animation < usize::MAX,
        ensures
            next == next_animation(animation),
            next < ANIMATION_COUNT,
    {
        (animation + 1) % ANIMATION_COUNT
    }

    /// Moves the key strip to the next animation on both halves and stores
    /// it on both halves.
    pub fn next_keys_animation(&mut self) -> (actions: Vec<BoardAction>)
        requires
            old(self).persistent_data.keys_animation < usize::MAX,
        ensures
            final(self).persistent_data == (PersistentData {
                keys_animation: next_animation(old(self).persistent_data.keys_animation),
                ..old(self).persistent_data
            }),
            actions@ == seq![
                BoardAction::SetAnimation { side: Side::Both, leds: Leds::Keys, animation: final(self).persistent_data.keys_animation },
                BoardAction::StoreBoardFlash { side: Side::Both, data: final(self).persistent_data },
            ],
    {
        self.persistent_data.keys_animation = Self::next_animation(self.persistent_data.keys_animation);
        let animation = self.persistent_data.keys_animation;
        vec![
            BoardAction::SetAnimation { side: Side::Both, leds: Leds::Keys, animation },
            BoardAction::StoreBoardFlash { side: Side::Both, data: self.persistent_data },
        ]
    }

    /// Moves the wing strips to the next animation on both halves and stores
    /// it on both halves.
    pub fn next_wings_animation(&mut self) -> (actions: Vec<BoardAction>)
        requires
            old(self).persistent_data.wings_animation < usize::MAX,
        ensures
            final(self).persistent_data == (PersistentData {
                wings_animation: next_animation(old(self).persistent_data.wings_animation),
                ..old(self).persistent_data
            }),
            actions@ == seq![
                BoardAction::SetAnimation { side: Side::Both, leds: Leds::Wings, animation: final(self).persistent_data.wings_animation },
                BoardAction::StoreBoardFlash { side: Side::Both, data: final(self).persistent_data },
            ],
    {
        self.persistent_data.wings_animation = Self::next_animation(self.persistent_data.wings_animation);
        let animation = self.persistent_data.wings_animation;
        vec![
            BoardAction::SetAnimation { side: Side::Both, leds: Leds::Wings, animation },
            BoardAction::StoreBoardFlash { side: Side::Both, data: self.persistent_data },
        ]
    }

    /// Moves the status strip to the next animation on both halves and
    /// stores it on both halves.
    pub fn next_status_animation(&mut self) -> (actions: Vec<BoardAction>)
        requires
            old(self).persistent_data.status_animation < usize::MAX,
        ensures
            final(self).persistent_data == (PersistentData {
                status_animation: next_animation(old(self).persistent_data.status_animation),
                ..old(self).persistent_data
            }),
            actions@ == seq![
                BoardAction::SetAnimation { side: Side::Both, leds: Leds::Status, animation: final(self).persistent_data.status_animation },
                BoardAction::StoreBoardFlash { side: Side::Both, data: final(self).persistent_data },
            ],
    {
        self.persistent_data.status_animation = Self::next_animation(self.persistent_data.status_animation);
        let animation = self.persistent_data.status_animation;
        vec![
            BoardAction::SetAnimation { side: Side::Both, leds: Leds::Status, animation },
            BoardAction::StoreBoardFlash { side: Side::Both, data: self.persistent_data },
        ]
    }

    /// Switches the lighting power on both halves and stores the new state on
    /// both halves.
    pub fn toggle_lighting(&mut self) -> (actions: Vec<BoardAction>)
        ensures
            final(self).persistent_data == (PersistentData {
                lighting_state: old(self).persistent_data.lighting_state.spec_not(),
                ..old(self).persistent_data
            }),
            actions@ == seq![
                BoardAction::SetPower { side: Side::Both, state: final(self).persistent_data.lighting_state },
                BoardAction::StoreBoardFlash { side: Side::Both, data: final(self).persistent_data },
            ],
    {
        self.persistent_data.lighting_state = self.persistent_data.lighting_state.not();
        vec![
            BoardAction::SetPower { side: Side::Both, state: self.persistent_data.lighting_state },
            BoardAction::StoreBoardFlash { side: Side::Both, data: self.persistent_data },
        ]
    }

    /// Handles a key callback.
    pub fn callback(&mut self, callback: Callbacks) -> (actions: Vec<BoardAction>)
        requires
            callback == Callbacks::NextKeysAnimation ==> old(self).persistent_data.keys_animation < usize::MAX,
            callback == Callbacks::NextWingsAnimation ==> old(self).persistent_data.wings_animation < usize::MAX,
            callback == Callbacks::NextStatusAnimation ==> old(self).persistent_data.status_animation < usize::MAX,
        ensures
            old(self).persistent_data.wf() ==> final(self).persistent_data.wf(),
            final(self).persistent_data == after_callback(old(self).persistent_data, callback),
            actions@ == callback_actions(final(self).persistent_data, callback),
    {
        match callback {
            Callbacks::NextKeysAnimation => self.next_keys_animation(),
            Callbacks::NextWingsAnimation => self.next_wings_animation(),
            Callbacks::NextStatusAnimation => self.next_status_animation(),
            Callbacks::ToggleLighting => self.toggle_lighting(),
            Callbacks::SyncAnimations => vec![BoardAction::TriggerEvent { side: Side::Both, event: Events::SyncAnimations }],
        }
    }

    /// Handles an event from the other half.
    pub fn event(&mut self, event: Events) -> (actions: Vec<BoardAction>)
        ensures
            final(self).persistent_data == (PersistentData {
                lighting_state: old(self).persistent_data.lighting_state.spec_not(),
                ..old(self).persistent_data
            }),
            actions@ == seq![
                BoardAction::SetPower { side: Side::Both, state: final(self).persistent_data.lighting_state },
                BoardAction::StoreBoardFlash { side: Side::Both, data: final(self).persistent_data },
            ],
    {
        match event {
            Events::SyncAnimations => self.toggle_lighting(),
        }
    }

    /// Restores the stored animations and lighting state on this half once
    /// the halves are connected.
    pub fn post_sides_connected(&self, is_master: bool) -> (actions: Vec<BoardAction>)
        requires
            self.persistent_data.wf(),
        ensures
            actions@ == seq![
                BoardAction::SetAnimation { side: Side::This, leds: Leds::Keys, animation: self.persistent_data.keys_animation },
                BoardAction::SetAnimation { side: Side::This, leds: Leds::Wings, animation: self.persistent_data.wings_animation },
                BoardAction::SetAnimation { side: Side::This, leds: Leds::Status, animation: self.persistent_data.status_animation },
                BoardAction::SetPower { side: Side::This, state: self.persistent_data.lighting_state },
            ],
    {
        vec![
            BoardAction::SetAnimation { side: Side::This, leds: Leds::Keys, animation: self.persistent_data.keys_animation },
            BoardAction::SetAnimation { side: Side::This, leds: Leds::Wings, animation: self.persistent_data.wings_animation },
            BoardAction::SetAnimation { side: Side::This, leds: Leds::Status, animation: self.persistent_data.status_animation },
            BoardAction::SetPower { side: Side::This, state: self.persistent_data.lighting_state },
        ]
    }

    /// Switches the power of this half on once the halves are disconnected.
    pub fn sides_disconnected(&self) -> (actions: Vec<BoardAction>)
        ensures
            actions@ == seq![BoardAction::SetPower { side: Side::This, state: PowerState::On }],
    {
        vec![BoardAction::SetPower { side: Side::This, state: PowerState::On }]
    }
}

/// The byte stored for a lighting state.
pub open spec fn power_byte(state: PowerState) -> u8 {
    match state {
        PowerState::Off => 0,
        PowerState::On => 1,
    }
}

/// The persistent data in the flash: the three animation indices
/// (little-endian, 32 bits each) and the lighting state (0 for off, 1 for
/// on; any other byte is read as on).
impl BoardFlash for PersistentData {
    open spec fn flash_bytes(self) -> Seq<u8> {
        u32_le(self.keys_animation as u32) + u32_le(self.wings_animation as u32) + u32_le(self.status_animation as u32)
            + seq![power_byte(self.lighting_state)]
    }

    open spec fn fits_flash(self) -> bool {
        &&& self.keys_animation <= u32::MAX
        &&& self.wings_animation <= u32::MAX
        &&& self.status_animation <= u32::MAX
    }

    open spec fn spec_flash_size() -> nat {
        13
    }

    proof fn lemma_flash_bytes(a: Self, b: Self) {
        let x = a.flash_bytes();
        let y = b.flash_bytes();
        if x == y {
            assert(x.subrange(0, 4) =~= u32_le(a.keys_animation as u32));
            assert(y.subrange(0, 4) =~= u32_le(b.keys_animation as u32));
            lemma_u32_le(a.keys_animation as u32, b.keys_animation as u32, x.subrange(0, 4));
            assert(x.subrange(4, 8) =~= u32_le(a.wings_animation as u32));
            assert(y.subrange(4, 8) =~= u32_le(b.wings_animation as u32));
            lemma_u32_le(a.wings_animation as u32, b.wings_animation as u32, x.subrange(4, 8));
            assert(x.subrange(8, 12) =~= u32_le(a.status_animation as u32));
            assert(y.subrange(8, 12) =~= u32_le(b.status_animation as u32));
            lemma_u32_le(a.status_animation as u32, b.status_animation as u32, x.subrange(8, 12));
            assert(x[12] == power_byte(a.lighting_state));
            assert(y[12] == power_byte(b.lighting_state));
        }
    }

    proof fn lemma_flash_size() {
    }

    fn flash_size() -> (size: usize) {
        13
    }

    fn write_flash(&self, out: &mut Vec<u8>) {
        push_u32(out, self.keys_animation as u32);
        push_u32(out, self.wings_animation as u32);
        push_u32(out, self.status_animation as u32);
        out.push(
            match self.lighting_state {
                PowerState::Off => 0,
                PowerState::On => 1,
            },
        );
        assert(out@ =~= old(out)@ + self.flash_bytes());
    }

    fn read_flash(bytes: &[u8], at: usize) -> (value: Self) {
        let count = bytes.len();
        let keys_animation = read_u32(bytes, at);
        let wings_animation = read_u32(bytes, at + 4);
        let status_animation = read_u32(bytes, at + 8);
        let lighting_state = if bytes[at + 12] == 0 {
            PowerState::Off
        } else {
            PowerState::On
        };
        let value = PersistentData {
            keys_animation: keys_animation as usize,
            wings_animation: wings_animation as usize,
            status_animation: status_animation as usize,
            lighting_state,
        };
        proof {
            let block = bytes@.subrange(at as int, at + 13);
            assert forall|other: Self|
                other.fits_flash() && #[trigger] other.flash_bytes() == block implies value == other by {
                let x = other.flash_bytes();
                assert(x.subrange(0, 4) =~= u32_le(other.keys_animation as u32));
                assert(x.subrange(0, 4) =~= bytes@.subrange(at as int, at + 4));
                lemma_u32_le(other.keys_animation as u32, 0, x.subrange(0, 4));
                assert(x.subrange(4, 8) =~= u32_le(other.wings_animation as u32));
                assert(x.subrange(4, 8) =~= bytes@.subrange(at + 4, at + 8));
                lemma_u32_le(other.wings_animation as u32, 0, x.subrange(4, 8));
                assert(x.subrange(8, 12) =~= u32_le(other.status_animation as u32));
                assert(x.subrange(8, 12) =~= bytes@.subrange(at + 8, at + 12));
                lemma_u32_le(other.status_animation as u32, 0, x.subrange(8, 12));
                assert(x[12] == bytes@[at + 12]);
            }
        }
        value
    }
}

/// Toggling the lighting twice gives back the stored data.
pub proof fn lemma_toggle_lighting_twice(data: PersistentData)
    ensures
        (PersistentData {
            lighting_state: (PersistentData { lighting_state: data.lighting_state.spec_not(), ..data }).lighting_state.spec_not(),
            ..data
        }) == data,
{
}

/// Cycling an animation `ANIMATION_COUNT` times comes back to it.
pub proof fn lemma_animation_cycle(animation: usize)
    requires
        animation < ANIMATION_COUNT,
    ensures
        next_animation(next_animation(next_animation(next_animation(next_animation(next_animation(animation))))))
            == animation,
        next_animation(animation) < ANIMATION_COUNT,
{
}

} // verus!
