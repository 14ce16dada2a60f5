//! Challenge mode: personal best and failed-run counting, with the same rules as EROverlay's
//! boss challenge. The tracker is a state machine fed with the current budget-metric reading,
//! the PB-metric reading and the run-start event flag.

use vstd::prelude::*;
use crate::text::{str_eq, string_of};

verus! {

/// Event flag 101: the player left the Stranded Graveyard / Cave of Knowledge.
pub const DEFAULT_CHALLENGE_START_FLAG: u32 = 101;

/// Challenge settings from `er_overlay.toml`.
#[derive(Debug, Clone)]
pub struct ChallengeConfig {
    /// When false, challenge metrics show `---` and no state is updated.
    pub enabled: bool,
    /// Metric (relative to the run start) that bounds a run; `deaths` by default.
    pub budget_metric: String,
    /// Cap (`max` PB: the run fails above it) or goal (`min` PB: the run completes at it).
    pub budget_max: u32,
    /// Event flag that marks the start of a run.
    pub start_flag: u32,
}

/// Abstract value of a [`ChallengeConfig`].
pub ghost struct ConfigModel {
    pub enabled: bool,
    pub budget_metric: Seq<char>,
    pub budget_max: u32,
    pub start_flag: u32,
}

impl View for ChallengeConfig {
    type V = ConfigModel;

    open spec fn view(&self) -> ConfigModel {
        ConfigModel {
            enabled: self.enabled,
            budget_metric: self.budget_metric@,
            budget_max: self.budget_max,
            start_flag: self.start_flag,
        }
    }
}

impl ChallengeConfig {
    /// Disabled, `deaths` budget of 0, start flag 101.
    pub fn default_config() -> (c: Self)
        ensures
            !c.enabled,
            c.budget_metric@ == "deaths"@,
            c.budget_max == 0,
            c.start_flag == DEFAULT_CHALLENGE_START_FLAG,
    {
        ChallengeConfig {
            enabled: false,
            budget_metric: string_of("deaths"),
            budget_max: 0,
            start_flag: DEFAULT_CHALLENGE_START_FLAG,
        }
    }
}

impl Default for ChallengeConfig {
    fn default() -> (c: Self)
        ensures
            !c.enabled,
            c.budget_metric@ == "deaths"@,
            c.budget_max == 0,
            c.start_flag == DEFAULT_CHALLENGE_START_FLAG,
    {
        ChallengeConfig::default_config()
    }
}

/// Direction of the personal best: keep the highest (`Max`) or the lowest (`Min`) value.
#[derive(Debug, Clone, Copy, PartialEq, Eq, Structural)]
pub enum PbDirection {
    Max,
    Min,
}

impl Default for PbDirection {
    fn default() -> (d: Self)
        ensures
            d == PbDirection::Max,
    {
        PbDirection::Max
    }
}

/// Progress that survives overlay restarts (`challenge_state.toml`).
#[derive(Debug, Clone)]
pub struct ChallengePersisted {
    pub pb: u32,
    /// Whether `pb` holds a real observation (a `Min` PB is undefined until recorded).
    pub has_pb: bool,
    /// Metric key the PB is computed on; empty in state files written before PB metadata.
    pub pb_source: String,
    pub pb_mode: PbDirection,
    /// Budget metric the PB was recorded against.
    pub budget_metric: String,
    /// Budget threshold the PB was recorded against.
    pub budget_max: u32,
    pub tries: u32,
    /// Budget reading when the current run started.
    pub budget_on_start: u32,
    pub run_failed: bool,
    /// Whether a `Min` PB was already recorded for the current run.
    pub pb_recorded_this_run: bool,
}

pub ghost struct PersistedModel {
    pub pb: u32,
    pub has_pb: bool,
    pub pb_source: Seq<char>,
    pub pb_mode: PbDirection,
    pub budget_metric: Seq<char>,
    pub budget_max: u32,
    pub tries: u32,
    pub budget_on_start: u32,
    pub run_failed: bool,
    pub pb_recorded_this_run: bool,
}

impl View for ChallengePersisted {
    type V = PersistedModel;

    open spec fn view(&self) -> PersistedModel {
        PersistedModel {
            pb: self.pb,
            has_pb: self.has_pb,
            pb_source: self.pb_source@,
            pb_mode: self.pb_mode,
            budget_metric: self.budget_metric@,
            budget_max: self.budget_max,
            tries: self.tries,
            budget_on_start: self.budget_on_start,
            run_failed: self.run_failed,
            pb_recorded_this_run: self.pb_recorded_this_run,
        }
    }
}

impl ChallengePersisted {
    /// The state of a missing or unreadable state file: everything zero, false or empty.
    pub open spec fn is_fresh(m: PersistedModel) -> bool {
        &&& m.pb == 0
        &&& !m.has_pb
        &&& m.pb_source.len() == 0
        &&& m.pb_mode == PbDirection::Max
        &&& m.budget_metric.len() == 0
        &&& m.budget_max == 0
        &&& m.tries == 0
        &&& m.budget_on_start == 0
        &&& !m.run_failed
        &&& !m.pb_recorded_this_run
    }

    pub fn fresh() -> (p: Self)
        ensures
            Self::is_fresh(p@),
    {
        ChallengePersisted {
            pb: 0,
            has_pb: false,
            pb_source: String::new(),
            pb_mode: PbDirection::Max,
            budget_metric: String::new(),
            budget_max: 0,
            tries: 0,
            budget_on_start: 0,
            run_failed: false,
            pb_recorded_this_run: false,
        }
    }
}

impl Default for ChallengePersisted {
    fn default() -> (p: Self)
        ensures
            Self::is_fresh(p@),
    {
        ChallengePersisted::fresh()
    }
}

/// Challenge metrics for the overlay (`pb` and `nbtries` tiles).
#[derive(Debug, Clone, Copy, PartialEq, Eq, Structural)]
pub struct ChallengeSnapshot {
    pub enabled: bool,
    pub pb: u32,
    pub pb_available: bool,
    pub tries: u32,
}

pub open spec fn empty_snapshot() -> ChallengeSnapshot {
    ChallengeSnapshot { enabled: false, pb: 0, pb_available: false, tries: 0 }
}

impl ChallengeSnapshot {
    pub fn empty() -> (s: Self)
        ensures
            s == empty_snapshot(),
    {
        ChallengeSnapshot { enabled: false, pb: 0, pb_available: false, tries: 0 }
    }
}

impl Default for ChallengeSnapshot {
    fn default() -> (s: Self)
        ensures
            s == empty_snapshot(),
    {
        ChallengeSnapshot::empty()
    }
}

/// Tracks the challenge state of one run after another.
pub struct ChallengeTracker {
    config: ChallengeConfig,
    state_path: String,
    persisted: ChallengePersisted,
    reached_start: bool,
    last_budget: Option<u32>,
    dirty: bool,
}

/// Abstract state of a [`ChallengeTracker`].
pub ghost struct TrackerModel {
    pub config: ConfigModel,
    pub state_path: Seq<char>,
    pub persisted: PersistedModel,
    /// Whether the run-start flag was last seen set.
    pub reached_start: bool,
    /// Run-relative budget value seen on the previous update.
    pub last_budget: Option<u32>,
    /// Whether the persisted state changed since the last successful write.
    pub dirty: bool,
}

impl View for ChallengeTracker {
    type V = TrackerModel;

    closed spec fn view(&self) -> TrackerModel {
        TrackerModel {
            config: self.config@,
            state_path: self.state_path@,
            persisted: self.persisted@,
            reached_start: self.reached_start,
            last_budget: self.last_budget,
            dirty: self.dirty,
        }
    }
}

pub open spec fn sat_add(a: u32, b: u32) -> u32 {
    if a + b > u32::MAX {
        u32::MAX
    } else {
        (a + b) as u32
    }
}

pub open spec fn sat_sub(a: u32, b: u32) -> u32 {
    if a < b {
        0
    } else {
        (a - b) as u32
    }
}

/// The snapshot a tracker state shows.
pub open spec fn snapshot_of(m: TrackerModel) -> ChallengeSnapshot {
    ChallengeSnapshot {
        enabled: m.config.enabled,
        pb: m.persisted.pb,
        pb_available: m.persisted.has_pb,
        tries: m.persisted.tries,
    }
}

/// A change of the start flag starts a run (baseline = current budget reading) or resets it
/// (and clears a failed run on a new character with a zero reading). Returns the new state and
/// whether anything changed.
pub open spec fn start_flag_step(m: TrackerModel, budget_value: u32, start_flag: Option<bool>) -> (
    TrackerModel,
    bool,
) {
    match start_flag {
        Some(reached) => if reached != m.reached_start {
            if reached {
                (
                    TrackerModel {
                        reached_start: true,
                        persisted: PersistedModel {
                            budget_on_start: budget_value,
                            pb_recorded_this_run: false,
                            ..m.persisted
                        },
                        ..m
                    },
                    true,
                )
            } else {
                (
                    TrackerModel {
                        reached_start: false,
                        last_budget: Some(0),
                        persisted: PersistedModel {
                            budget_on_start: 0,
                            pb_recorded_this_run: false,
                            run_failed: if budget_value == 0 {
                                false
                            } else {
                                m.persisted.run_failed
                            },
                            ..m.persisted
                        },
                        ..m
                    },
                    true,
                )
            }
        } else {
            (m, false)
        },
        None => (m, false),
    }
}

/// Budget reading relative to the current run's start (0 before the start flag is reached).
pub open spec fn run_budget_of(m: TrackerModel, budget_value: u32) -> u32 {
    if !m.reached_start {
        0
    } else {
        sat_sub(budget_value, m.persisted.budget_on_start)
    }
}

/// Cap semantics: the run fails when the budget exceeds `budget_max`, and one try is counted on
/// the first reading above the cap (whatever it jumped to); the highest PB reading is kept while
/// the run is in budget.
pub open spec fn max_pb_step(
    p: PersistedModel,
    budget: u32,
    budget_max: u32,
    crossed: bool,
    reached_start: bool,
    pb_value: Option<u32>,
) -> (PersistedModel, bool) {
    let p1 = if budget > budget_max {
        PersistedModel { run_failed: true, ..p }
    } else {
        p
    };
    let fail_now = budget > budget_max && !p.run_failed;
    let p2 = if fail_now {
        PersistedModel { run_failed: true, tries: sat_add(p1.tries, 1), ..p1 }
    } else {
        p1
    };
    let improves = match pb_value {
        Some(v) => reached_start && !p2.run_failed && budget <= budget_max && (!p2.has_pb || v
            > p2.pb),
        None => false,
    };
    if improves {
        (PersistedModel { pb: pb_value->0, has_pb: true, ..p2 }, true)
    } else {
        (p2, fail_now)
    }
}

/// Goal semantics: once per run, when the budget reaches `budget_max > 0`, count a try and keep
/// the lowest PB reading.
pub open spec fn min_pb_step(
    p: PersistedModel,
    budget: u32,
    budget_max: u32,
    reached_start: bool,
    pb_value: Option<u32>,
) -> (PersistedModel, bool) {
    if reached_start && !p.pb_recorded_this_run && budget_max > 0 && budget >= budget_max
        && pb_value is Some {
        let v = pb_value->0;
        let p1 = PersistedModel {
            pb_recorded_this_run: true,
            tries: sat_add(p.tries, 1),
            ..p
        };
        if !p1.has_pb || v < p1.pb {
            (PersistedModel { pb: v, has_pb: true, ..p1 }, true)
        } else {
            (p1, true)
        }
    } else {
        (p, false)
    }
}

/// The state after one `update` with the given readings.
pub open spec fn update_model(
    m: TrackerModel,
    budget_value: Option<u32>,
    pb_value: Option<u32>,
    start_flag: Option<bool>,
) -> TrackerModel {
    if !m.config.enabled || budget_value is None {
        m
    } else {
        let bv = budget_value->0;
        let (m1, d1) = start_flag_step(m, bv, start_flag);
        let budget = run_budget_of(m1, bv);
        let crossed = m1.last_budget != Some(budget);
        let (p, d2) = match m1.persisted.pb_mode {
            PbDirection::Max => max_pb_step(
                m1.persisted,
                budget,
                m1.config.budget_max,
                crossed,
                m1.reached_start,
                pb_value,
            ),
            PbDirection::Min => min_pb_step(
                m1.persisted,
                budget,
                m1.config.budget_max,
                m1.reached_start,
                pb_value,
            ),
        };
        TrackerModel { persisted: p, last_budget: Some(budget), dirty: m1.dirty || d1 || d2, ..m1 }
    }
}

/// What `update` returns: nothing while disabled, else the snapshot of the new state.
pub open spec fn update_result(
    m: TrackerModel,
    budget_value: Option<u32>,
    pb_value: Option<u32>,
    start_flag: Option<bool>,
) -> ChallengeSnapshot {
    if !m.config.enabled {
        empty_snapshot()
    } else {
        snapshot_of(update_model(m, budget_value, pb_value, start_flag))
    }
}

/// The state after `configure`: a change of PB source, direction, budget metric or threshold
/// resets the PB (a state file without PB metadata keeps its value instead).
pub open spec fn configure_model(
    m: TrackerModel,
    pb_source: Seq<char>,
    pb_mode: PbDirection,
    budget_metric: Seq<char>,
    budget_max: u32,
) -> TrackerModel {
    let p = m.persisted;
    if p.pb_source == pb_source && p.pb_mode == pb_mode && p.budget_metric == budget_metric
        && p.budget_max == budget_max {
        m
    } else {
        let legacy = p.pb_source.len() == 0 && p.budget_metric.len() == 0;
        let p1 = PersistedModel { pb_source, pb_mode, budget_metric, budget_max, ..p };
        let p2 = if legacy {
            PersistedModel { has_pb: pb_mode == PbDirection::Max || p.pb > 0, ..p1 }
        } else {
            PersistedModel {
                pb: 0,
                has_pb: pb_mode == PbDirection::Max,
                pb_recorded_this_run: false,
                ..p1
            }
        };
        TrackerModel { persisted: p2, dirty: true, ..m }
    }
}

fn saturating_inc(a: u32) -> (r: u32)
    ensures
        r == sat_add(a, 1),
{
    if a == u32::MAX {
        a
    } else {
        a + 1
    }
}

impl ChallengeTracker {
    /// A tracker over the persisted state read from `state_path` (a fresh state when the file is
    /// missing or unreadable). The start flag counts as already reached, so injecting mid-run
    /// does not rebaseline the run.
    pub fn new(config: ChallengeConfig, state_path: String, persisted: ChallengePersisted) -> (t:
        Self)
        ensures
            t@.config == config@,
            t@.state_path == state_path@,
            t@.persisted == persisted@,
            t@.reached_start,
            t@.last_budget is None,
            !t@.dirty,
    {
        ChallengeTracker {
            config,
            state_path,
            persisted,
            reached_start: true,
            last_budget: None,
            dirty: false,
        }
    }

    /// Where the persisted state lives.
    pub fn state_path(&self) -> (p: &str)
        ensures
            p@ == self@.state_path,
    {
        self.state_path.as_str()
    }

    /// Adopts a new configuration; nothing else changes.
    pub fn sync_config(&mut self, config: &ChallengeConfig)
        ensures
            final(self)@ == (TrackerModel { config: config@, ..old(self)@ }),
    {
        let same = self.config.enabled == config.enabled && str_eq(
            self.config.budget_metric.as_str(),
            config.budget_metric.as_str(),
        ) && self.config.budget_max == config.budget_max && self.config.start_flag
            == config.start_flag;
        if !same {
            self.config = ChallengeConfig {
                enabled: config.enabled,
                budget_metric: config.budget_metric.clone(),
                budget_max: config.budget_max,
                start_flag: config.start_flag,
            };
        }
    }

    /// Sets the PB source metric and direction (from the layout `pb` tile) and the budget metric
    /// and threshold (from `[challenge]`); any change resets the PB.
    pub fn configure(&mut self, pb_source: &str, pb_mode: PbDirection, budget_metric: &str, budget_max: u32)
        ensures
            final(self)@ == configure_model(old(self)@, pb_source@, pb_mode, budget_metric@, budget_max),
    {
        let unchanged = str_eq(self.persisted.pb_source.as_str(), pb_source)
            && self.persisted.pb_mode == pb_mode && str_eq(
            self.persisted.budget_metric.as_str(),
            budget_metric,
        ) && self.persisted.budget_max == budget_max;
        if unchanged {
            return;
        }
        let legacy = self.persisted.pb_source.as_str().unicode_len() == 0
            && self.persisted.budget_metric.as_str().unicode_len() == 0;
        self.persisted.pb_source = string_of(pb_source);
        self.persisted.pb_mode = pb_mode;
        self.persisted.budget_metric = string_of(budget_metric);
        self.persisted.budget_max = budget_max;
        if legacy {
            self.persisted.has_pb = pb_mode == PbDirection::Max || self.persisted.pb > 0;
        } else {
            self.persisted.pb = 0;
            self.persisted.has_pb = pb_mode == PbDirection::Max;
            self.persisted.pb_recorded_this_run = false;
        }
        self.mark_dirty();
    }

    /// Feeds one reading of the budget metric, the PB metric and the run-start flag.
    pub fn update(&mut self, budget_value: Option<u32>, pb_value: Option<u32>, start_flag: Option<bool>) -> (s:
        ChallengeSnapshot)
        ensures
            final(self)@ == update_model(old(self)@, budget_value, pb_value, start_flag),
            s == update_result(old(self)@, budget_value, pb_value, start_flag),
    {
        if !self.config.enabled {
            return ChallengeSnapshot::empty();
        }
        let budget_value = match budget_value {
            Some(v) => v,
            None => {
                return self.snapshot();
            },
        };
        let ghost m0 = self@;
        let mut dirty = false;

        if let Some(reached) = start_flag {
            if reached != self.reached_start {
                self.reached_start = reached;
                if reached {
                    self.persisted.budget_on_start = budget_value;
                    self.persisted.pb_recorded_this_run = false;
                } else {
                    self.persisted.budget_on_start = 0;
                    self.last_budget = Some(0);
                    self.persisted.pb_recorded_this_run = false;
                    if budget_value == 0 {
                        self.persisted.run_failed = false;
                    }
                }
                dirty = true;
            }
        }
        let ghost step = start_flag_step(m0, budget_value, start_flag);
        assert(self@ == step.0 && dirty == step.1);

        let budget = self.run_budget(budget_value);
        let budget_max = self.config.budget_max;
        let crossed = match self.last_budget {
            Some(b) => b != budget,
            None => true,
        };
        if crossed {
            self.last_budget = Some(budget);
        }
        let ghost p_before = self.persisted@;

        match self.persisted.pb_mode {
            PbDirection::Max => {
                if budget > budget_max {
                    if !self.persisted.run_failed {
                        self.persisted.tries = saturating_inc(self.persisted.tries);
                        dirty = true;
                    }
                    self.persisted.run_failed = true;
                }
                if self.reached_start && !self.persisted.run_failed && budget <= budget_max {
                    if let Some(value) = pb_value {
                        if !self.persisted.has_pb || value > self.persisted.pb {
                            self.persisted.pb = value;
                            self.persisted.has_pb = true;
                            dirty = true;
                        }
                    }
                }
                assert(self.persisted@ == max_pb_step(
                    p_before,
                    budget,
                    budget_max,
                    crossed,
                    self.reached_start,
                    pb_value,
                ).0);
            },
            PbDirection::Min => {
                if self.reached_start && !self.persisted.pb_recorded_this_run && budget_max > 0
                    && budget >= budget_max {
                    if let Some(value) = pb_value {
                        self.persisted.pb_recorded_this_run = true;
                        self.persisted.tries = saturating_inc(self.persisted.tries);
                        if !self.persisted.has_pb || value < self.persisted.pb {
                            self.persisted.pb = value;
                            self.persisted.has_pb = true;
                        }
                        dirty = true;
                    }
                }
            },
        }

        if dirty {
            self.mark_dirty();
        }
        self.snapshot()
    }

    fn run_budget(&self, budget_value: u32) -> (b: u32)
        ensures
            b == run_budget_of(self@, budget_value),
    {
        if !self.reached_start {
            return 0;
        }
        if budget_value < self.persisted.budget_on_start {
            0
        } else {
            budget_value - self.persisted.budget_on_start
        }
    }

    /// The current metrics, without a new reading.
    pub fn snapshot(&self) -> (s: ChallengeSnapshot)
        ensures
            s == snapshot_of(self@),
    {
        ChallengeSnapshot {
            enabled: self.config.enabled,
            pb: self.persisted.pb,
            pb_available: self.persisted.has_pb,
            tries: self.persisted.tries,
        }
    }

    fn mark_dirty(&mut self)
        ensures
            final(self)@ == (TrackerModel { dirty: true, ..old(self)@ }),
    {
        self.dirty = true;
    }

    /// The persisted state to write, when it changed since the last successful write.
    pub fn pending_state(&self) -> (p: Option<&ChallengePersisted>)
        ensures
            match p {
                Some(state) => self@.dirty && state@ == self@.persisted,
                None => !self@.dirty,
            },
    {
        if self.dirty {
            Some(&self.persisted)
        } else {
            None
        }
    }

    /// Records the outcome of writing the pending state: only a successful write clears the
    /// dirty mark, so a failed write is retried on the next flush.
    pub fn flush(&mut self, written: bool)
        ensures
            final(self)@ == (TrackerModel { dirty: old(self)@.dirty && !written, ..old(self)@ }),
    {
        if !self.dirty {
            return;
        }
        if written {
            self.dirty = false;
        }
    }
}

/// A disabled tracker ignores every reading: its state stays as it was and it reports the
/// empty snapshot.
pub proof fn law_disabled_tracker_is_inert(
    m: TrackerModel,
    budget_value: Option<u32>,
    pb_value: Option<u32>,
    start_flag: Option<bool>,
)
    requires
        !m.config.enabled,
    ensures
        update_model(m, budget_value, pb_value, start_flag) == m,
        update_result(m, budget_value, pb_value, start_flag) == empty_snapshot(),
{
}

/// Without a budget reading an enabled tracker changes nothing and reports its current state.
pub proof fn law_missing_budget_reading_changes_nothing(
    m: TrackerModel,
    pb_value: Option<u32>,
    start_flag: Option<bool>,
)
    requires
        m.config.enabled,
    ensures
        update_model(m, None, pb_value, start_flag) == m,
        update_result(m, None, pb_value, start_flag) == snapshot_of(m),
{
}

/// The failed-run count never goes down, and one reading adds at most one try.
pub proof fn law_tries_grow_by_at_most_one(
    m: TrackerModel,
    budget_value: Option<u32>,
    pb_value: Option<u32>,
    start_flag: Option<bool>,
)
    ensures
        m.persisted.tries <= update_model(m, budget_value, pb_value, start_flag).persisted.tries,
        update_model(m, budget_value, pb_value, start_flag).persisted.tries <= sat_add(
            m.persisted.tries,
            1,
        ),
{
}

/// Feeding the same reading twice is the same as feeding it once: a death that is still on the
/// counter, or a goal that stays reached, is never counted again.
pub proof fn law_repeated_reading_is_idempotent(
    m: TrackerModel,
    budget_value: Option<u32>,
    pb_value: Option<u32>,
    start_flag: Option<bool>,
)
    ensures
        update_model(update_model(m, budget_value, pb_value, start_flag), budget_value, pb_value, start_flag)
            == update_model(m, budget_value, pb_value, start_flag),
{
}

/// Once a PB exists it only improves: a `max` PB never decreases and a `min` PB never
/// increases.
pub proof fn law_pb_only_improves(
    m: TrackerModel,
    budget_value: Option<u32>,
    pb_value: Option<u32>,
    start_flag: Option<bool>,
)
    requires
        m.persisted.has_pb,
    ensures
        ({
            let n = update_model(m, budget_value, pb_value, start_flag);
            &&& n.persisted.has_pb
            &&& n.persisted.pb_mode == m.persisted.pb_mode
            &&& m.persisted.pb_mode == PbDirection::Max ==> n.persisted.pb >= m.persisted.pb
            &&& m.persisted.pb_mode == PbDirection::Min ==> n.persisted.pb <= m.persisted.pb
        }),
{
}

/// After a failed `max` run the PB is frozen until a new game: only clearing the start flag on a
/// zero budget reading (a fresh character) clears the failure.
pub proof fn law_failed_run_freezes_pb(
    m: TrackerModel,
    budget_value: Option<u32>,
    pb_value: Option<u32>,
    start_flag: Option<bool>,
)
    requires
        m.persisted.run_failed,
        m.persisted.pb_mode == PbDirection::Max,
        !(start_flag == Some(false) && m.reached_start && budget_value == Some(0u32)),
    ensures
        update_model(m, budget_value, pb_value, start_flag).persisted.pb == m.persisted.pb,
        update_model(m, budget_value, pb_value, start_flag).persisted.has_pb == m.persisted.has_pb,
        update_model(m, budget_value, pb_value, start_flag).persisted.run_failed,
{
}

/// Readings taken while the run has not started (start flag clear) change neither the PB nor
/// the failed-run count.
pub proof fn law_readings_before_start_are_ignored(
    m: TrackerModel,
    budget_value: Option<u32>,
    pb_value: Option<u32>,
    start_flag: Option<bool>,
)
    requires
        start_flag == Some(false) || (start_flag is None && !m.reached_start),
    ensures
        update_model(m, budget_value, pb_value, start_flag).persisted.pb == m.persisted.pb,
        update_model(m, budget_value, pb_value, start_flag).persisted.has_pb == m.persisted.has_pb,
        update_model(m, budget_value, pb_value, start_flag).persisted.tries == m.persisted.tries,
{
}

/// Configuring twice with the same settings is the same as configuring once.
pub proof fn law_configure_is_idempotent(
    m: TrackerModel,
    pb_source: Seq<char>,
    pb_mode: PbDirection,
    budget_metric: Seq<char>,
    budget_max: u32,
)
    ensures
        configure_model(
            configure_model(m, pb_source, pb_mode, budget_metric, budget_max),
            pb_source,
            pb_mode,
            budget_metric,
            budget_max,
        ) == configure_model(m, pb_source, pb_mode, budget_metric, budget_max),
{
}

/// Changing any PB setting of a state that already carries PB metadata resets the PB: a `max`
/// PB restarts from 0, a `min` PB becomes undefined; the failed-run count is kept.
pub proof fn law_changed_settings_reset_pb(
    m: TrackerModel,
    pb_source: Seq<char>,
    pb_mode: PbDirection,
    budget_metric: Seq<char>,
    budget_max: u32,
)
    requires
        m.persisted.pb_source.len() > 0 || m.persisted.budget_metric.len() > 0,
        !(m.persisted.pb_source == pb_source && m.persisted.pb_mode == pb_mode
            && m.persisted.budget_metric == budget_metric && m.persisted.budget_max == budget_max),
    ensures
        ({
            let n = configure_model(m, pb_source, pb_mode, budget_metric, budget_max);
            &&& n.persisted.pb == 0
            &&& n.persisted.has_pb == (pb_mode == PbDirection::Max)
            &&& n.persisted.tries == m.persisted.tries
            &&& n.dirty
        }),
{
}

} // verus!
