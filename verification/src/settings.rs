//! Team colours and the settings of a game.

use vstd::prelude::*;

verus! {

/// The colour that marks a team.
#[derive(Clone, Copy, Debug, PartialEq, Eq, Hash, Structural)]
pub enum PlayerColor {
    Black,
    Blue,
    Purple,
    Red,
    Yellow,
}

impl PlayerColor {
    /// Red, green and blue of the colour, as sRGB bytes.
    pub open spec fn spec_color(self) -> (u8, u8, u8) {
        match self {
            PlayerColor::Black => (104u8, 128u8, 145u8),
            PlayerColor::Blue => (71u8, 149u8, 167u8),
            PlayerColor::Purple => (163u8, 112u8, 150u8),
            PlayerColor::Red => (222u8, 84u8, 84u8),
            PlayerColor::Yellow => (220u8, 170u8, 70u8),
        }
    }

    /// Red, green and blue of the colour, as sRGB bytes.
    pub fn color(self) -> (rgb: (u8, u8, u8))
        ensures
            rgb == self.spec_color(),
    {
        match self {
            PlayerColor::Black => (104, 128, 145),
            PlayerColor::Blue => (71, 149, 167),
            PlayerColor::Purple => (163, 112, 150),
            PlayerColor::Red => (222, 84, 84),
            PlayerColor::Yellow => (220, 170, 70),
        }
    }

    /// Position of the colour among the images of the interface.
    pub open spec fn spec_index(self) -> usize {
        match self {
            PlayerColor::Black => 4,
            PlayerColor::Blue => 0,
            PlayerColor::Purple => 3,
            PlayerColor::Red => 1,
            PlayerColor::Yellow => 2,
        }
    }

    /// Position of the colour among the images of the interface.
    pub fn index(self) -> (i: usize)
        ensures
            i == self.spec_index(),
            i < 5,
    {
        match self {
            PlayerColor::Black => 4,
            PlayerColor::Blue => 0,
            PlayerColor::Purple => 3,
            PlayerColor::Red => 1,
            PlayerColor::Yellow => 2,
        }
    }
}

/// What the audio output plays.
#[derive(Clone, Copy, Debug, PartialEq, Eq, Structural)]
pub enum AudioState {
    Mute,
    Sound,
    Music,
}

impl Default for AudioState {
    fn default() -> (state: AudioState)
        ensures
            state == AudioState::Sound,
    {
        AudioState::Sound
    }
}

/// The settings of a game. `speed` is the global simulation speed in
/// thousandths: 1000 runs the simulation in real time.
#[derive(Clone, Copy, Debug, PartialEq, Eq, Structural)]
pub struct Settings {
    pub color: PlayerColor,
    pub enemy_color: PlayerColor,
    pub speed: u32,
    pub audio: AudioState,
    pub autosave: bool,
}

impl Default for Settings {
    fn default() -> (settings: Settings)
        ensures
            settings == (Settings {
                color: PlayerColor::Blue,
                enemy_color: PlayerColor::Red,
                speed: 1000,
                audio: AudioState::Sound,
                autosave: true,
            }),
    {
        Settings {
            color: PlayerColor::Blue,
            enemy_color: PlayerColor::Red,
            speed: 1000,
            audio: AudioState::Sound,
            autosave: true,
        }
    }
}

} // verus!
