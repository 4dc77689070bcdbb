//! Game clock speed and the pause toggle.

use vstd::prelude::*;

verus! {

/// Game simulation speed.
#[derive(Debug, Clone, Copy, PartialEq, Eq, Structural)]
pub enum GameSpeed {
    Paused,
    Normal,
    Fast,
    VeryFast,
}

/// Tick interval of each speed, in milliseconds.
pub open spec fn spec_tick_ms(s: GameSpeed) -> u64 {
    match s {
        GameSpeed::Paused => u64::MAX,
        GameSpeed::Normal => 250,
        GameSpeed::Fast => 67,
        GameSpeed::VeryFast => 17,
    }
}

impl GameSpeed {
    /// Tick interval in milliseconds for the UI loop.
    pub fn tick_ms(&self) -> (t: u64)
        ensures
            t == spec_tick_ms(*self),
    {
        match self {
            GameSpeed::Paused => u64::MAX,
            GameSpeed::Normal => 250,
            GameSpeed::Fast => 67,
            GameSpeed::VeryFast => 17,
        }
    }

    pub fn display_name(&self) -> (s: &'static str)
        ensures
            s@ == (match *self {
                GameSpeed::Paused => "Paused"@,
                GameSpeed::Normal => "Normal"@,
                GameSpeed::Fast => "Fast"@,
                GameSpeed::VeryFast => "Very Fast"@,
            }),
    {
        match self {
            GameSpeed::Paused => "Paused",
            GameSpeed::Normal => "Normal",
            GameSpeed::Fast => "Fast",
            GameSpeed::VeryFast => "Very Fast",
        }
    }

    pub fn display_symbol(&self) -> (s: &'static str)
        ensures
            s@ == (match *self {
                GameSpeed::Paused => "⏸"@,
                GameSpeed::Normal => "▶"@,
                GameSpeed::Fast => "▶▶"@,
                GameSpeed::VeryFast => "▶▶▶"@,
            }),
    {
        match self {
            GameSpeed::Paused => "⏸",
            GameSpeed::Normal => "▶",
            GameSpeed::Fast => "▶▶",
            GameSpeed::VeryFast => "▶▶▶",
        }
    }
}

/// The game's speed setting: the current speed and the last non-paused speed, which
/// unpausing restores.
#[derive(Debug, Clone, Copy, PartialEq, Eq, Structural)]
pub struct SpeedControl {
    pub speed: GameSpeed,
    /// Last non-paused speed, for restoring on unpause.
    pub previous_speed: GameSpeed,
}

/// The setting after toggling the pause.
pub open spec fn spec_toggle_pause(c: SpeedControl) -> SpeedControl {
    if c.speed == GameSpeed::Paused {
        SpeedControl { speed: c.previous_speed, previous_speed: c.previous_speed }
    } else {
        SpeedControl { speed: GameSpeed::Paused, previous_speed: c.speed }
    }
}

/// The setting after choosing `speed`.
pub open spec fn spec_set_speed(c: SpeedControl, speed: GameSpeed) -> SpeedControl {
    SpeedControl {
        speed,
        previous_speed: if speed != GameSpeed::Paused {
            speed
        } else {
            c.previous_speed
        },
    }
}

impl SpeedControl {
    /// A new game starts paused and unpauses to normal speed.
    pub fn new() -> (c: Self)
        ensures
            c.speed == GameSpeed::Paused,
            c.previous_speed == GameSpeed::Normal,
    {
        SpeedControl { speed: GameSpeed::Paused, previous_speed: GameSpeed::Normal }
    }

    /// Toggle between paused and the last non-paused speed.
    pub fn toggle_pause(&mut self)
        ensures
            *final(self) == spec_toggle_pause(*old(self)),
    {
        if self.speed == GameSpeed::Paused {
            self.speed = self.previous_speed;
        } else {
            self.previous_speed = self.speed;
            self.speed = GameSpeed::Paused;
        }
    }

    /// Set the speed; a non-paused speed is also remembered for the pause toggle.
    pub fn set_speed(&mut self, speed: GameSpeed)
        ensures
            *final(self) == spec_set_speed(*old(self), speed),
    {
        if speed != GameSpeed::Paused {
            self.previous_speed = speed;
        }
        self.speed = speed;
    }
}

/// Pausing a running game and unpausing it restores its speed; after choosing a running
/// speed, a pause toggle pauses and a second one comes back to that speed.
pub proof fn lemma_pause_round_trip(c: SpeedControl, s: GameSpeed)
    ensures
        c.speed != GameSpeed::Paused ==> spec_toggle_pause(spec_toggle_pause(c)).speed == c.speed,
        s != GameSpeed::Paused ==> spec_toggle_pause(spec_set_speed(c, s)).speed
            == GameSpeed::Paused,
        s != GameSpeed::Paused ==> spec_toggle_pause(spec_toggle_pause(spec_set_speed(c, s))).speed
            == s,
{
}

/// First id handed to contracts of a new game.
pub fn default_next_contract_id() -> (id: u64)
    ensures
        id == 1,
{
    1
}

} // verus!
