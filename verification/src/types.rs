//! Shared value types: in-game time, tracking states and backend diagnostics.

use vstd::prelude::*;
use crate::text::{decimal2, decimal2_chars, string_from_chars};

verus! {

/// In-game time in milliseconds.
#[derive(Debug, Clone, Copy, PartialEq, Eq, Structural)]
pub struct GameTime {
    pub total_ms: u32,
}

/// `HH:MM:SS` text: hours, minutes and seconds each zero-padded to two digits.
pub open spec fn hms_text(total_ms: u32) -> Seq<char> {
    let h = total_ms / 3_600_000;
    let m = (total_ms % 3_600_000) / 60_000;
    let s = (total_ms % 60_000) / 1_000;
    decimal2(h as nat) + seq![':'] + decimal2(m as nat) + seq![':'] + decimal2(s as nat)
}

impl GameTime {
    pub fn from_ms(total_ms: u32) -> (t: Self)
        ensures
            t.total_ms == total_ms,
    {
        GameTime { total_ms }
    }

    pub fn hours(&self) -> (h: u32)
        ensures
            h == self.total_ms / 3_600_000,
    {
        self.total_ms / 3_600_000
    }

    pub fn minutes(&self) -> (m: u32)
        ensures
            m == (self.total_ms % 3_600_000) / 60_000,
            m < 60,
    {
        (self.total_ms % 3_600_000) / 60_000
    }

    pub fn seconds(&self) -> (s: u32)
        ensures
            s == (self.total_ms % 60_000) / 1_000,
            s < 60,
    {
        (self.total_ms % 60_000) / 1_000
    }

    /// `HH:MM:SS` (hours are not capped at 99).
    pub fn format_hms(&self) -> (s: String)
        ensures
            s@ == hms_text(self.total_ms),
    {
        let mut v = decimal2_chars(self.hours());
        v.push(':');
        let mut m = decimal2_chars(self.minutes());
        v.append(&mut m);
        v.push(':');
        let mut sec = decimal2_chars(self.seconds());
        v.append(&mut sec);
        string_from_chars(&v)
    }
}

/// Which game-memory backend is in use.
#[derive(Debug, Clone, Copy, PartialEq, Eq, Structural)]
pub enum BackendKind {
    Unavailable,
    FromSoftwareRs,
}

impl Default for BackendKind {
    fn default() -> (b: Self)
        ensures
            b == BackendKind::Unavailable,
    {
        BackendKind::Unavailable
    }
}

/// Which game pointers and tables the reader could resolve.
#[derive(Debug, Clone, Copy)]
pub struct GameStateDiagnostics {
    pub backend: BackendKind,
    pub gamedata_man_resolved: bool,
    pub event_flag_man_resolved: bool,
    pub world_chr_man_resolved: bool,
    pub igt_readable: bool,
    pub death_count_readable: bool,
    pub inventory_readable: bool,
    pub boss_flags_loaded: u32,
    pub great_rune_flags_loaded: u32,
    pub field_area_resolved: bool,
}

impl GameStateDiagnostics {
    /// Nothing resolved, nothing loaded.
    pub open spec fn is_blank(self) -> bool {
        &&& self.backend == BackendKind::Unavailable
        &&& !self.gamedata_man_resolved
        &&& !self.event_flag_man_resolved
        &&& !self.world_chr_man_resolved
        &&& !self.igt_readable
        &&& !self.death_count_readable
        &&& !self.inventory_readable
        &&& self.boss_flags_loaded == 0
        &&& self.great_rune_flags_loaded == 0
        &&& !self.field_area_resolved
    }

    /// The blank diagnostics.
    pub open spec fn blank_spec() -> Self {
        GameStateDiagnostics {
            backend: BackendKind::Unavailable,
            gamedata_man_resolved: false,
            event_flag_man_resolved: false,
            world_chr_man_resolved: false,
            igt_readable: false,
            death_count_readable: false,
            inventory_readable: false,
            boss_flags_loaded: 0,
            great_rune_flags_loaded: 0,
            field_area_resolved: false,
        }
    }

    pub fn blank() -> (d: Self)
        ensures
            d.is_blank(),
            d == Self::blank_spec(),
    {
        GameStateDiagnostics {
            backend: BackendKind::Unavailable,
            gamedata_man_resolved: false,
            event_flag_man_resolved: false,
            world_chr_man_resolved: false,
            igt_readable: false,
            death_count_readable: false,
            inventory_readable: false,
            boss_flags_loaded: 0,
            great_rune_flags_loaded: 0,
            field_area_resolved: false,
        }
    }
}

impl Default for GameStateDiagnostics {
    fn default() -> (d: Self)
        ensures
            d.is_blank(),
    {
        GameStateDiagnostics::blank()
    }
}

/// How a tracked good is shown: owned / not owned, or an inventory count.
#[derive(Debug, Clone, Copy, PartialEq, Eq, Structural)]
pub enum TrackKind {
    Unique { acquired: Option<bool> },
    Countable { count: Option<u32> },
}

} // verus!
