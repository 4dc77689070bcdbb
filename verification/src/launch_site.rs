//! Launch pad levels and their upgrades.

use vstd::prelude::*;

verus! {

/// Highest launch pad level.
pub const MAX_PAD_LEVEL: u32 = 5;

/// The launch pad of a launch site; its level (1-5) sets the largest rocket it can launch.
#[derive(Debug, Clone, Copy, PartialEq, Eq, Structural)]
pub struct LaunchPad {
    pub pad_level: u32,
}

/// Display name of a pad level; levels above 5 read as the top level.
pub open spec fn pad_level_display(level: u32) -> Seq<char> {
    if level == 1 {
        "Small Pad"@
    } else if level == 2 {
        "Medium Pad"@
    } else if level == 3 {
        "Large Pad"@
    } else if level == 4 {
        "Heavy Pad"@
    } else {
        "Super Heavy Pad"@
    }
}

impl LaunchPad {
    /// A starter pad (level 1).
    pub fn new() -> (p: Self)
        ensures
            p.pad_level == 1,
    {
        LaunchPad { pad_level: 1 }
    }

    /// Whether the pad can be upgraded.
    pub fn can_upgrade_pad(&self) -> (b: bool)
        ensures
            b == (self.pad_level < MAX_PAD_LEVEL),
    {
        self.pad_level < MAX_PAD_LEVEL
    }

    /// Upgrade the pad one level; refused (false, unchanged) at the top level.
    pub fn upgrade_pad(&mut self) -> (ok: bool)
        ensures
            ok == (old(self).pad_level < MAX_PAD_LEVEL),
            ok ==> final(self).pad_level == old(self).pad_level + 1,
            !ok ==> final(self).pad_level == old(self).pad_level,
    {
        if self.can_upgrade_pad() {
            self.pad_level = self.pad_level + 1;
            true
        } else {
            false
        }
    }

    /// Name of the pad level.
    pub fn pad_level_name(&self) -> (s: &'static str)
        ensures
            s@ == pad_level_display(self.pad_level),
    {
        match self.pad_level {
            1 => "Small Pad",
            2 => "Medium Pad",
            3 => "Large Pad",
            4 => "Heavy Pad",
            _ => "Super Heavy Pad",
        }
    }
}

impl Default for LaunchPad {
    fn default() -> (p: Self)
        ensures
            p.pad_level == 1,
    {
        Self::new()
    }
}

/// Upgrades never take a pad from a level of at most 5 beyond 5.
pub proof fn lemma_pad_level_bounded(level: u32)
    requires
        1 <= level <= MAX_PAD_LEVEL,
    ensures
        level < MAX_PAD_LEVEL ==> 1 <= level + 1 <= MAX_PAD_LEVEL,
{
}

} // verus!
