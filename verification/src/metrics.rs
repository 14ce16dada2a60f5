//! Metric references of the layout tiles: what value a metric id names in a view model, when
//! a counter counts as complete, and how a value is written on a tile.

use vstd::prelude::*;
use crate::keyed::lookup;
use crate::text::{decimal, decimal_chars, str_eq, string_from_chars};
use crate::types::{hms_text, GameTime, TrackKind};
use crate::view_model::{OverlayViewModel, TrackedEntryRow};

verus! {

/// Maximum Scadutree Blessing level (fragments spent at Sites of Grace in the DLC).
pub const SCADUTREE_BLESSING_MAX: u32 = 20;

/// The value a metric reference resolves to.
#[derive(Debug, Clone, PartialEq, Eq, Structural)]
pub enum MetricValue {
    Time(GameTime),
    Count { current: Option<u32>, max: Option<u32> },
    NgCycle(Option<u32>),
    Unavailable,
}

/// A tracked good as a counter: its quantity against its cap, or owned (1) / not owned (0)
/// out of one.
pub open spec fn tracked_metric(row: TrackedEntryRow) -> MetricValue {
    match row.kind {
        TrackKind::Countable { count } => MetricValue::Count { current: count, max: row.max },
        TrackKind::Unique { acquired } => MetricValue::Count {
            current: match acquired {
                Some(b) => Some(if b { 1u32 } else { 0u32 }),
                None => None,
            },
            max: Some(1u32),
        },
    }
}

/// What `metric` names: a built-in id (`igt`, `deaths`, `ng_cycle`, `scadutree_blessing`,
/// `bosses`), else an aggregate group, else a tracked good, else nothing.
pub open spec fn metric_of(metric: Seq<char>, vm: OverlayViewModel) -> MetricValue {
    if metric == "igt"@ {
        match vm.igt {
            Some(t) => MetricValue::Time(t),
            None => MetricValue::Unavailable,
        }
    } else if metric == "deaths"@ {
        MetricValue::Count { current: vm.deaths, max: None }
    } else if metric == "ng_cycle"@ {
        MetricValue::NgCycle(vm.ng_cycle)
    } else if metric == "scadutree_blessing"@ {
        MetricValue::Count { current: vm.scadutree_blessing, max: Some(SCADUTREE_BLESSING_MAX) }
    } else if metric == "bosses"@ {
        MetricValue::Count { current: vm.bosses_killed, max: Some(vm.bosses_total) }
    } else {
        match lookup(vm.groups@, metric) {
            Some(g) => MetricValue::Count { current: g.owned, max: Some(g.total) },
            None => match lookup(vm.tracked_by_key@, metric) {
                Some(row) => tracked_metric(row),
                None => MetricValue::Unavailable,
            },
        }
    }
}

fn tracked_value(row: &TrackedEntryRow) -> (v: MetricValue)
    ensures
        v == tracked_metric(*row),
{
    match row.kind {
        TrackKind::Countable { count } => MetricValue::Count { current: count, max: row.max },
        TrackKind::Unique { acquired } => {
            let current = match acquired {
                Some(b) => Some(if b { 1u32 } else { 0u32 }),
                None => None,
            };
            MetricValue::Count { current, max: Some(1) }
        },
    }
}

/// Resolves a metric reference against a view model.
pub fn resolve_metric(metric: &str, vm: &OverlayViewModel) -> (v: MetricValue)
    requires
        vm.wf(),
    ensures
        v == metric_of(metric@, *vm),
{
    if str_eq(metric, "igt") {
        match vm.igt {
            Some(t) => MetricValue::Time(t),
            None => MetricValue::Unavailable,
        }
    } else if str_eq(metric, "deaths") {
        MetricValue::Count { current: vm.deaths, max: None }
    } else if str_eq(metric, "ng_cycle") {
        MetricValue::NgCycle(vm.ng_cycle)
    } else if str_eq(metric, "scadutree_blessing") {
        MetricValue::Count { current: vm.scadutree_blessing, max: Some(SCADUTREE_BLESSING_MAX) }
    } else if str_eq(metric, "bosses") {
        MetricValue::Count { current: vm.bosses_killed, max: Some(vm.bosses_total) }
    } else {
        match vm.group(metric) {
            Some(g) => MetricValue::Count { current: g.owned, max: Some(g.total) },
            None => match vm.tracked_row(metric) {
                Some(row) => tracked_value(row),
                None => MetricValue::Unavailable,
            },
        }
    }
}

/// The tracked row of good `key` in a view model.
pub fn resolve_tracked_key<'a>(key: &str, vm: &'a OverlayViewModel) -> (r: Option<&'a TrackedEntryRow>)
    requires
        vm.wf(),
    ensures
        match r {
            Some(row) => lookup(vm.tracked_by_key@, key@) == Some(*row),
            None => lookup(vm.tracked_by_key@, key@) is None,
        },
{
    vm.tracked_row(key)
}

/// A counter with a positive cap that has reached it.
pub open spec fn is_complete(v: MetricValue) -> bool {
    match v {
        MetricValue::Count { current: Some(c), max: Some(m) } => m > 0 && c >= m,
        _ => false,
    }
}

pub fn metric_is_complete(value: &MetricValue) -> (b: bool)
    ensures
        b == is_complete(*value),
{
    match value {
        MetricValue::Count { current: Some(c), max: Some(m) } => *m > 0 && *c >= *m,
        _ => false,
    }
}

/// The placeholder shown for a value that could not be read.
pub open spec fn dashes() -> Seq<char> {
    seq!['-', '-', '-']
}

/// Tile text of a value: `HH:MM:SS` for a time; `current/max` for a capped counter when
/// `show_max`, else the current count; `NG+n` for the cycle; `---` when nothing was read.
pub open spec fn metric_text(v: MetricValue, show_max: bool) -> Seq<char> {
    match v {
        MetricValue::Time(t) => hms_text(t.total_ms),
        MetricValue::Count { current: Some(c), max: Some(m) } => if show_max {
            decimal(c as nat) + seq!['/'] + decimal(m as nat)
        } else {
            decimal(c as nat)
        },
        MetricValue::Count { current: Some(c), max: None } => decimal(c as nat),
        MetricValue::Count { current: None, .. } => dashes(),
        MetricValue::Unavailable => dashes(),
        MetricValue::NgCycle(Some(n)) => seq!['N', 'G', '+'] + decimal(n as nat),
        MetricValue::NgCycle(None) => dashes(),
    }
}

fn dashes_string() -> (s: String)
    ensures
        s@ == dashes(),
{
    let mut v: Vec<char> = Vec::new();
    v.push('-');
    v.push('-');
    v.push('-');
    assert(v@ =~= dashes());
    string_from_chars(&v)
}

pub fn format_metric_value(value: &MetricValue, show_max: bool) -> (s: String)
    ensures
        s@ == metric_text(*value, show_max),
{
    match value {
        MetricValue::Time(t) => t.format_hms(),
        MetricValue::Count { current: Some(c), max: Some(m) } => {
            let mut v = decimal_chars(*c);
            if show_max {
                v.push('/');
                let mut tail = decimal_chars(*m);
                v.append(&mut tail);
            }
            string_from_chars(&v)
        },
        MetricValue::Count { current: Some(c), max: None } => {
            let v = decimal_chars(*c);
            string_from_chars(&v)
        },
        MetricValue::Count { current: None, .. } => dashes_string(),
        MetricValue::Unavailable => dashes_string(),
        MetricValue::NgCycle(Some(n)) => {
            let mut v: Vec<char> = Vec::new();
            v.push('N');
            v.push('G');
            v.push('+');
            let mut tail = decimal_chars(*n);
            v.append(&mut tail);
            string_from_chars(&v)
        },
        MetricValue::NgCycle(None) => dashes_string(),
    }
}

/// The text a metric tile shows for `value`.
pub fn metric_value_for_tile(value: &MetricValue, show_max: bool) -> (s: String)
    ensures
        s@ == metric_text(*value, show_max),
{
    format_metric_value(value, show_max)
}

/// A metric that is neither a built-in id, nor a group, nor a tracked good renders `---`,
/// whatever the tile asks for.
pub proof fn law_unknown_metric_shows_dashes(metric: Seq<char>, vm: OverlayViewModel, show_max: bool)
    requires
        metric != "igt"@,
        metric != "deaths"@,
        metric != "ng_cycle"@,
        metric != "scadutree_blessing"@,
        metric != "bosses"@,
        lookup(vm.groups@, metric) is None,
        lookup(vm.tracked_by_key@, metric) is None,
    ensures
        metric_of(metric, vm) == MetricValue::Unavailable,
        metric_text(metric_of(metric, vm), show_max) == dashes(),
        !is_complete(metric_of(metric, vm)),
{
}

/// A capped counter is complete exactly when it has a positive cap and has reached it; a
/// time, a cycle or a missing reading never is.
pub proof fn law_complete_only_when_cap_reached(v: MetricValue)
    ensures
        is_complete(v) <==> (v matches MetricValue::Count { current: Some(c), max: Some(m) } && m > 0
            && c >= m),
{
}

/// A tracked good's counter agrees with its tracking status: it is complete exactly when the
/// good reads as acquired (owned, or a count at its positive cap for a countable one), an owned
/// or not-owned unique good counts 1 or 0 out of 1, and a failed reading has no count.
pub proof fn law_tracked_counter_matches_status(row: TrackedEntryRow)
    ensures
        row.kind is Unique ==> {
            let (acquired, unknown) = status_of(row.kind);
            &&& tracked_metric(row) matches MetricValue::Count { current, max: Some(m) }
            &&& m == 1
            &&& (unknown <==> tracked_metric(row)->current is None)
            &&& (!unknown ==> (is_complete(tracked_metric(row)) <==> acquired))
            &&& (tracked_metric(row)->current matches Some(c) ==> c <= 1)
        },
        row.kind matches TrackKind::Countable { count: Some(n) } ==> (is_complete(tracked_metric(row))
            <==> (row.max matches Some(m) && m > 0 && n >= m)),
{
}

/// A metric that names a tracked unique good (and no built-in value or group) resolves to that
/// good's counter: complete exactly when the good is owned.
pub proof fn law_owned_unique_tile_is_complete(metric: Seq<char>, vm: OverlayViewModel, b: bool)
    requires
        metric != "igt"@ && metric != "deaths"@ && metric != "ng_cycle"@ && metric
            != "scadutree_blessing"@ && metric != "bosses"@,
        lookup(vm.groups@, metric) is None,
        lookup(vm.tracked_by_key@, metric) matches Some(row) && row.kind == (TrackKind::Unique {
            acquired: Some(b),
        }),
    ensures
        is_complete(metric_of(metric, vm)) <==> b,
        metric_of(metric, vm) matches MetricValue::Count { current: Some(c), max: Some(m) } && m == 1
            && c <= 1,
{
}

/// `(acquired, unknown)` of a tracked good: a count above zero or an owned unique good is
/// acquired; a failed reading is unknown.
pub open spec fn status_of(kind: TrackKind) -> (bool, bool) {
    match kind {
        TrackKind::Unique { acquired: Some(a) } => (a, false),
        TrackKind::Unique { acquired: None } => (false, true),
        TrackKind::Countable { count: Some(n) } => (n > 0, false),
        TrackKind::Countable { count: None } => (false, true),
    }
}

pub fn track_status(kind: &TrackKind) -> (r: (bool, bool))
    ensures
        r == status_of(*kind),
{
    match kind {
        TrackKind::Unique { acquired: Some(a) } => (*a, false),
        TrackKind::Unique { acquired: None } => (false, true),
        TrackKind::Countable { count: Some(n) } => (*n > 0, false),
        TrackKind::Countable { count: None } => (false, true),
    }
}

} // verus!
