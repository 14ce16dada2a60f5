//! State of the live game reader between polls: engine start-up, the cached boss-kill count,
//! the player's map id and the diagnostics it reports. The game-memory reads themselves are
//! made by the host, which hands their results to these functions.

use vstd::prelude::*;
use crate::boss_table::BossTableData;
use crate::tables::{group_keys, group_size, resolve_keys, GoodsTable};
use crate::types::{BackendKind, GameStateDiagnostics, GameTime};

verus! {

/// Whether challenge counters should be polled this frame: in-game time is running and the
/// menu screen state reads zero (a missing menu manager counts as not ready).
pub open spec fn update_ready(igt_ms: u32, screen_state: Option<i32>) -> bool {
    igt_ms != 0 && screen_state == Some(0i32)
}

pub fn challenge_update_ready(igt_ms: u32, screen_state: Option<i32>) -> (b: bool)
    ensures
        b == update_ready(igt_ms, screen_state),
{
    if igt_ms == 0 {
        return false;
    }
    match screen_state {
        Some(s) => s == 0,
        None => false,
    }
}

/// Map id of a block, the way the boss table keys its subregions: `(area * 100 + block) * 1000`.
pub fn subregion_id_from_block_id(area: u8, block: u8) -> (id: u32)
    ensures
        id == (area * 100 + block) * 1000,
{
    let key = area as u32 * 100 + block as u32;
    key * 1000
}

/// What waiting for the game engine to come up gave.
#[derive(Debug, Clone, Copy, PartialEq, Eq, Structural)]
pub enum SystemInit {
    Ready,
    NotReadyYet,
    Failed,
}

/// Which game singletons could be resolved on this poll.
#[derive(Debug, Clone, Copy, PartialEq, Eq, Structural)]
pub struct PointerStatus {
    pub gamedata_man: bool,
    pub event_flag_man: bool,
    pub world_chr_man: bool,
    pub field_area: bool,
}

/// Cached game-reader state.
pub struct GameStateReader {
    diagnostics: GameStateDiagnostics,
    initialized: bool,
    init_note_logged: bool,
    killed_boss_count: Option<u32>,
    current_subregion_id: Option<u32>,
    bosses_total: u32,
}

/// Abstract state of a [`GameStateReader`].
pub ghost struct ReaderModel {
    pub diagnostics: GameStateDiagnostics,
    pub initialized: bool,
    /// Whether the "engine not ready yet" note was already logged.
    pub init_note_logged: bool,
    pub killed_boss_count: Option<u32>,
    pub current_subregion_id: Option<u32>,
    pub bosses_total: u32,
}

impl View for GameStateReader {
    type V = ReaderModel;

    closed spec fn view(&self) -> ReaderModel {
        ReaderModel {
            diagnostics: self.diagnostics,
            initialized: self.initialized,
            init_note_logged: self.init_note_logged,
            killed_boss_count: self.killed_boss_count,
            current_subregion_id: self.current_subregion_id,
            bosses_total: self.bosses_total,
        }
    }
}

/// A reader that has read nothing yet.
pub open spec fn fresh_reader(bosses_total: u32) -> ReaderModel {
    ReaderModel {
        diagnostics: GameStateDiagnostics::blank_spec(),
        initialized: false,
        init_note_logged: false,
        killed_boss_count: None,
        current_subregion_id: None,
        bosses_total,
    }
}

/// One start-up attempt: an initialized reader stays as it is; otherwise the outcome sets the
/// backend, `Ready` initializes, and the first `NotReadyYet` asks for one note in the log.
/// Returns the new state and whether to log that note.
pub open spec fn init_step(m: ReaderModel, outcome: SystemInit) -> (ReaderModel, bool) {
    if m.initialized {
        (m, false)
    } else {
        match outcome {
            SystemInit::Ready => (
                ReaderModel {
                    diagnostics: GameStateDiagnostics { backend: BackendKind::FromSoftwareRs, ..m.diagnostics },
                    initialized: true,
                    ..m
                },
                false,
            ),
            SystemInit::NotReadyYet => (
                ReaderModel {
                    diagnostics: GameStateDiagnostics { backend: BackendKind::Unavailable, ..m.diagnostics },
                    init_note_logged: true,
                    ..m
                },
                !m.init_note_logged,
            ),
            SystemInit::Failed => (
                ReaderModel {
                    diagnostics: GameStateDiagnostics { backend: BackendKind::Unavailable, ..m.diagnostics },
                    ..m
                },
                false,
            ),
        }
    }
}

/// Number of readings that are `Some(true)`.
pub open spec fn true_count(s: Seq<Option<bool>>) -> nat
    decreases s.len(),
{
    if s.len() == 0 {
        0
    } else {
        true_count(s.drop_last()) + if s.last() == Some(true) {
            1nat
        } else {
            0nat
        }
    }
}

/// Killed-boss count from one reading per boss flag: unknown when any flag could not be read
/// or there is no boss at all, else the number of flags set.
pub open spec fn boss_kill_count(s: Seq<Option<bool>>) -> Option<u32> {
    if s.len() == 0 || exists|i: int| 0 <= i < s.len() && s[i] is None {
        None
    } else {
        Some(true_count(s) as u32)
    }
}

/// Diagnostics after a poll's pointer probes: the probes, the number of boss flags and of
/// great-rune members; the backend and the readability flags are kept.
pub open spec fn probed_diagnostics(
    d: GameStateDiagnostics,
    p: PointerStatus,
    boss_flags: u32,
    great_runes: u32,
) -> GameStateDiagnostics {
    GameStateDiagnostics {
        gamedata_man_resolved: p.gamedata_man,
        event_flag_man_resolved: p.event_flag_man,
        world_chr_man_resolved: p.world_chr_man,
        boss_flags_loaded: boss_flags,
        great_rune_flags_loaded: great_runes,
        field_area_resolved: p.field_area,
        ..d
    }
}

/// Number of resolvable great-rune members.
pub open spec fn great_rune_count(goods: &GoodsTable) -> u32 {
    resolve_keys(goods.goods@, group_keys(*goods, "great_runes"@)).len() as u32
}

/// One poll: a start-up attempt; once initialized, the boss-flag readings and the map id are
/// taken in; the pointer probes always are.
pub open spec fn poll_step(
    m: ReaderModel,
    outcome: SystemInit,
    boss_flags: Seq<Option<bool>>,
    subregion: Option<u32>,
    p: PointerStatus,
    bosses_len: u32,
    great_runes: u32,
) -> ReaderModel {
    let m1 = init_step(m, outcome).0;
    let m2 = if m1.initialized {
        ReaderModel {
            killed_boss_count: boss_kill_count(boss_flags),
            current_subregion_id: subregion,
            ..m1
        }
    } else {
        m1
    };
    ReaderModel { diagnostics: probed_diagnostics(m2.diagnostics, p, bosses_len, great_runes), ..m2 }
}

proof fn lemma_true_count_bound(s: Seq<Option<bool>>)
    ensures
        true_count(s) <= s.len(),
    decreases s.len(),
{
    if s.len() > 0 {
        lemma_true_count_bound(s.drop_last());
    }
}

/// The killed-boss count never exceeds the number of boss flags read, and is known only when
/// every flag was read.
pub proof fn law_kill_count_within_bosses(readings: Seq<Option<bool>>)
    requires
        readings.len() <= u32::MAX,
    ensures
        boss_kill_count(readings) matches Some(k) ==> k <= readings.len() && forall|i: int|
            0 <= i < readings.len() ==> #[trigger] readings[i] is Some,
{
    lemma_true_count_bound(readings);
}

/// Until the engine has come up, challenge counters are never polled, whatever the readings.
pub proof fn law_uninitialized_reader_never_ready(m: ReaderModel, igt_ms: u32, screen_state: Option<i32>)
    requires
        !m.initialized,
    ensures
        !(m.initialized && update_ready(igt_ms, screen_state)),
{
}

impl GameStateReader {
    /// A reader for a boss table of `bosses_total` bosses.
    pub fn new(bosses_total: u32) -> (r: Self)
        ensures
            r@ == fresh_reader(bosses_total),
    {
        GameStateReader {
            diagnostics: GameStateDiagnostics::blank(),
            initialized: false,
            init_note_logged: false,
            killed_boss_count: None,
            current_subregion_id: None,
            bosses_total,
        }
    }

    /// Takes in one start-up attempt; returns whether the "not ready yet" note is to be logged.
    pub fn apply_system_init(&mut self, outcome: SystemInit) -> (log_note: bool)
        ensures
            (final(self)@, log_note) == init_step(old(self)@, outcome),
    {
        if self.initialized {
            return false;
        }
        match outcome {
            SystemInit::Ready => {
                self.diagnostics.backend = BackendKind::FromSoftwareRs;
                self.initialized = true;
                false
            },
            SystemInit::NotReadyYet => {
                let first = !self.init_note_logged;
                self.init_note_logged = true;
                self.diagnostics.backend = BackendKind::Unavailable;
                first
            },
            SystemInit::Failed => {
                self.diagnostics.backend = BackendKind::Unavailable;
                false
            },
        }
    }

    /// Recomputes the killed-boss count from one reading per boss flag.
    pub fn refresh_boss_cache(&mut self, readings: &Vec<Option<bool>>)
        requires
            readings@.len() <= u32::MAX,
        ensures
            final(self)@ == (ReaderModel { killed_boss_count: boss_kill_count(readings@), ..old(self)@ }),
    {
        self.killed_boss_count = kill_count(readings);
    }

    /// Records the player's map id.
    pub fn set_current_subregion(&mut self, id: Option<u32>)
        ensures
            final(self)@ == (ReaderModel { current_subregion_id: id, ..old(self)@ }),
    {
        self.current_subregion_id = id;
    }

    /// Records a poll's pointer probes and the table sizes behind the flag counts.
    pub fn refresh_diag_flags(&mut self, pointers: PointerStatus, bosses: &BossTableData, goods: &GoodsTable)
        requires
            goods.groups.wf(),
            bosses.bosses@.len() <= u32::MAX,
        ensures
            final(self)@ == (ReaderModel {
                diagnostics: probed_diagnostics(
                    old(self)@.diagnostics,
                    pointers,
                    bosses.bosses@.len() as u32,
                    great_rune_count(goods),
                ),
                ..old(self)@
            }),
    {
        self.diagnostics.gamedata_man_resolved = pointers.gamedata_man;
        self.diagnostics.event_flag_man_resolved = pointers.event_flag_man;
        self.diagnostics.world_chr_man_resolved = pointers.world_chr_man;
        self.diagnostics.boss_flags_loaded = bosses.bosses.len() as u32;
        self.diagnostics.great_rune_flags_loaded = group_size(goods, "great_runes");
        self.diagnostics.field_area_resolved = pointers.field_area;
    }

    /// One poll. `boss_flags` and `subregion` are what the game held (they are taken in only
    /// once the reader is initialized).
    pub fn poll(
        &mut self,
        outcome: SystemInit,
        boss_flags: &Vec<Option<bool>>,
        subregion: Option<u32>,
        pointers: PointerStatus,
        bosses: &BossTableData,
        goods: &GoodsTable,
    )
        requires
            goods.groups.wf(),
            bosses.bosses@.len() <= u32::MAX,
            boss_flags@.len() <= u32::MAX,
        ensures
            final(self)@ == poll_step(
                old(self)@,
                outcome,
                boss_flags@,
                subregion,
                pointers,
                bosses.bosses@.len() as u32,
                great_rune_count(goods),
            ),
    {
        let _ = self.apply_system_init(outcome);
        if self.initialized {
            self.refresh_boss_cache(boss_flags);
            self.set_current_subregion(subregion);
        }
        self.refresh_diag_flags(pointers, bosses, goods);
    }

    /// Clears the cached kill count (after the boss table was reloaded).
    pub fn invalidate_boss_cache(&mut self)
        ensures
            final(self)@ == (ReaderModel { killed_boss_count: None, ..old(self)@ }),
    {
        self.killed_boss_count = None;
    }

    /// Whether game-memory reads are available.
    pub fn is_ready(&self) -> (b: bool)
        ensures
            b == self@.initialized,
    {
        self.initialized
    }

    /// Whether challenge counters should be polled: the reader is initialized and, with the
    /// in-game time read (0 when unreadable), the stable-gameplay test passes.
    pub fn challenge_update_ready(&self, igt: Option<GameTime>, screen_state: Option<i32>) -> (b: bool)
        ensures
            b == (self@.initialized && update_ready(
                match igt {
                    Some(t) => t.total_ms,
                    None => 0u32,
                },
                screen_state,
            )),
    {
        if !self.initialized {
            return false;
        }
        let igt_ms = match igt {
            Some(t) => t.total_ms,
            None => 0,
        };
        challenge_update_ready(igt_ms, screen_state)
    }

    pub fn killed_boss_count(&self) -> (r: Option<u32>)
        ensures
            r == self@.killed_boss_count,
    {
        self.killed_boss_count
    }

    pub fn current_subregion_id(&self) -> (r: Option<u32>)
        ensures
            r == self@.current_subregion_id,
    {
        self.current_subregion_id
    }

    pub fn bosses_total(&self) -> (r: u32)
        ensures
            r == self@.bosses_total,
    {
        self.bosses_total
    }

    /// The diagnostics to report, with what this poll could read.
    pub fn status(&self, igt_readable: bool, death_count_readable: bool, inventory_readable: bool) -> (d:
        GameStateDiagnostics)
        ensures
            d == (GameStateDiagnostics {
                igt_readable,
                death_count_readable,
                inventory_readable,
                ..self@.diagnostics
            }),
    {
        let mut d = self.diagnostics;
        d.igt_readable = igt_readable;
        d.death_count_readable = death_count_readable;
        d.inventory_readable = inventory_readable;
        d
    }
}

fn kill_count(readings: &Vec<Option<bool>>) -> (r: Option<u32>)
    requires
        readings@.len() <= u32::MAX,
    ensures
        r == boss_kill_count(readings@),
{
    let mut killed: u32 = 0;
    let mut i: usize = 0;
    while i < readings.len()
        invariant
            i <= readings.len(),
            readings@.len() <= u32::MAX,
            forall|k: int| 0 <= k < i ==> readings@[k] is Some,
            killed == true_count(readings@.take(i as int)),
            killed <= i,
        decreases readings.len() - i,
    {
        match readings[i] {
            None => {
                return None;
            },
            Some(b) => {
                assert(readings@.take(i as int + 1).drop_last() =~= readings@.take(i as int));
                if b {
                    killed += 1;
                }
            },
        }
        i += 1;
    }
    assert(readings@.take(readings.len() as int) =~= readings@);
    if readings.len() == 0 {
        None
    } else {
        Some(killed)
    }
}

} // verus!
