//! The per-poll view model the overlay draws: game readings, tracked goods, group progress and
//! the boss checklist sections.

use vstd::prelude::*;
use crate::boss_table::{bosses_in_region, region_label_for_subregion, BossEntry, BossTableData};
use crate::challenge::ChallengeSnapshot;
use crate::checks_panel::{
    build_checks_panel_sections, check_counts_fit, check_row_shows, covers_regions, done_rows, listed_section,
    region_checks, region_text, check_section_regions, regions_with_checks, sum_done, sum_checks,
};
use crate::checks_table::{
    checks_region_label_for_subregion, clone_opt_string, region_for_map_id, string_map_view,
    ChecksFlagsData, ChecksTableData,
};
use crate::config::BossPanelScope;
use crate::keyed::{
    all_entries, assoc_insert, lemma_all_entries_after_insert, lemma_lookup_after_insert, lookup,
    StrMap,
};
use crate::tables::{
    good_by_key, good_named, group_keys, group_names, group_progress, group_size, item_owned,
    item_owned_historic, resolve_keys, GameStateSource, GoodsTable, group_read, historic_read,
    owned_read,
};
use crate::lot_flags::LotFlagsData;
use crate::text::str_eq;
use crate::types::{GameStateDiagnostics, GameTime, TrackKind};

verus! {

/// One tracked good as shown on the HUD.
#[derive(Debug)]
pub struct TrackedEntryRow {
    pub name: String,
    pub kind: TrackKind,
    pub icon_key: String,
    /// Display cap of a countable good.
    pub max: Option<u32>,
    /// Present when the layout asks to track whether the good is equipped.
    pub equipped: Option<bool>,
}

/// Owned / total members of an aggregate group.
#[derive(Debug, Clone, Copy, PartialEq, Eq, Structural)]
pub struct GroupValue {
    pub owned: Option<u32>,
    pub total: u32,
}

/// One boss line of the checklist panel.
#[derive(Debug)]
pub struct BossPanelRow {
    pub name: String,
    pub place: Option<String>,
    pub killed: Option<bool>,
    pub dlc: bool,
}

/// The bosses of one region in the checklist panel.
#[derive(Debug)]
pub struct BossPanelSection {
    pub region: String,
    pub is_current: bool,
    pub bosses: Vec<BossPanelRow>,
    pub killed: u32,
    pub total: u32,
}

/// One line of the checks panel: a boss to kill or an item to pick up.
#[derive(Debug)]
pub struct CheckPanelRow {
    pub name: String,
    pub place: Option<String>,
    pub dlc: bool,
    /// Whether the check resolves to a flag (a relocated lot holding a flagless item does not).
    pub traceable: bool,
    /// The flag reading; none for an untraceable check.
    pub done: Option<bool>,
}

/// The checks of one region in the checks panel.
#[derive(Debug)]
pub struct CheckPanelSection {
    pub region: String,
    pub is_current: bool,
    pub rows: Vec<CheckPanelRow>,
    pub done: u32,
    pub total: u32,
}

/// Everything the overlay draws for one poll.
pub struct OverlayViewModel {
    pub igt: Option<GameTime>,
    pub bosses_killed: Option<u32>,
    pub bosses_total: u32,
    pub deaths: Option<u32>,
    pub ng_cycle: Option<u32>,
    pub scadutree_blessing: Option<u32>,
    pub groups: StrMap<GroupValue>,
    pub tracked_by_key: StrMap<TrackedEntryRow>,
    pub diagnostics: GameStateDiagnostics,
    pub current_subregion_id: Option<u32>,
    pub current_region: Option<String>,
    pub boss_panel_scope: BossPanelScope,
    pub boss_panel_sections: Vec<BossPanelSection>,
    pub boss_panel_killed: u32,
    pub boss_panel_total: u32,
    pub checks_panel_scope: BossPanelScope,
    pub checks_panel_sections: Vec<CheckPanelSection>,
    pub checks_panel_done: u32,
    pub checks_panel_total: u32,
    /// The player's region as the checks table names it.
    pub checks_current_region: Option<String>,
    /// Whether a per-seed flag mapping is loaded.
    pub checks_seed_active: bool,
    pub challenge: ChallengeSnapshot,
}

impl OverlayViewModel {
    pub open spec fn wf(&self) -> bool {
        self.groups.wf() && self.tracked_by_key.wf()
    }

    /// The tracked row of good `key`.
    pub fn tracked_row(&self, key: &str) -> (r: Option<&TrackedEntryRow>)
        requires
            self.wf(),
        ensures
            match r {
                Some(row) => lookup(self.tracked_by_key@, key@) == Some(*row),
                None => lookup(self.tracked_by_key@, key@) is None,
            },
    {
        self.tracked_by_key.get(key)
    }

    /// The progress of group `name`.
    pub fn group(&self, name: &str) -> (r: Option<&GroupValue>)
        requires
            self.wf(),
        ensures
            match r {
                Some(g) => lookup(self.groups@, name@) == Some(*g),
                None => lookup(self.groups@, name@) is None,
            },
    {
        self.groups.get(name)
    }
}

/// Number of rows read as killed.
pub open spec fn killed_rows(rows: Seq<BossPanelRow>) -> nat
    decreases rows.len(),
{
    if rows.len() == 0 {
        0
    } else {
        killed_rows(rows.drop_last()) + if rows.last().killed == Some(true) {
            1nat
        } else {
            0nat
        }
    }
}

/// Row `r` shows boss `b`: its name, place and DLC tag, and as kill state the reading of the
/// boss's flag.
pub open spec fn row_shows<S: GameStateSource>(source: &S, r: BossPanelRow, b: BossEntry) -> bool {
    &&& r.name == b.name && r.place == b.place && r.dlc == b.dlc
    &&& source.flag_read(b.flag_id, r.killed)
}

/// The bosses of `region` in table order.
pub open spec fn region_bosses(table: &BossTableData, region: Seq<char>) -> Seq<BossEntry> {
    table.bosses@.filter(|b: BossEntry| b.region@ == region)
}

/// Checklist rows of one region, with the number read as killed and the number of rows.
pub fn boss_rows_for_region<S: GameStateSource>(table: &BossTableData, source: &S, region: &str) -> (r: (
    Vec<BossPanelRow>,
    u32,
    u32,
))
    requires
        table.bosses@.len() <= u32::MAX,
    ensures
        r.0@.len() == region_bosses(table, region@).len(),
        forall|i: int| 0 <= i < r.0@.len() ==> row_shows(source, #[trigger] r.0@[i], region_bosses(table, region@)[i]),
        r.1 == killed_rows(r.0@),
        r.2 == r.0@.len(),
{
    let bosses = bosses_in_region(table, region);
    proof {
        table.bosses@.filter_lemma(|b: BossEntry| b.region@ == region@);
    }
    let mut rows: Vec<BossPanelRow> = Vec::new();
    let mut killed: u32 = 0;
    let mut i: usize = 0;
    while i < bosses.len()
        invariant
            i <= bosses.len(),
            bosses@ == region_bosses(table, region@),
            bosses@.len() <= u32::MAX,
            rows@.len() == i,
            forall|k: int| 0 <= k < i ==> row_shows(source, #[trigger] rows@[k], bosses@[k]),
            killed == killed_rows(rows@),
            killed <= i,
        decreases bosses.len() - i,
    {
        let boss = &bosses[i];
        let is_killed = source.get_flag(boss.flag_id);
        if is_killed == Some(true) {
            killed += 1;
        }
        let ghost before = rows@;
        rows.push(
            BossPanelRow {
                name: boss.name.clone(),
                place: clone_opt_string(&boss.place),
                killed: is_killed,
                dlc: boss.dlc,
            },
        );
        assert(rows@.drop_last() =~= before);
        i += 1;
    }
    let total = rows.len() as u32;
    (rows, killed, total)
}

/// Number of checklist rows over the first `n` display regions (a region listed twice counts
/// twice).
pub open spec fn boss_rows_upto(table: &BossTableData, n: int) -> int
    decreases n,
{
    if n <= 0 {
        0
    } else {
        boss_rows_upto(table, n - 1) + region_bosses(table, table.region_names@[n - 1]@).len()
    }
}

/// Number of rows of the full checklist.
pub open spec fn boss_row_count(table: &BossTableData) -> int {
    boss_rows_upto(table, table.region_names@.len() as int)
}

/// What the panel's `u32` counters need: the table, and the full checklist, each have at most
/// `u32::MAX` rows.
pub open spec fn boss_counts_fit(table: &BossTableData) -> bool {
    table.bosses@.len() <= u32::MAX && boss_row_count(table) <= u32::MAX
}

proof fn lemma_boss_rows_monotone(table: &BossTableData, i: int, j: int)
    requires
        0 <= i <= j,
    ensures
        boss_rows_upto(table, i) <= boss_rows_upto(table, j),
    decreases j - i,
{
    if i < j {
        lemma_boss_rows_monotone(table, i, j - 1);
    }
}

/// Whether the boss panel's counters fit (see [`boss_counts_fit`]).
pub fn boss_table_fits(table: &BossTableData) -> (r: bool)
    ensures
        r == boss_counts_fit(table),
{
    if table.bosses.len() as u64 > 4294967295u64 {
        return false;
    }
    let mut rows: u64 = 0;
    let mut i: usize = 0;
    while i < table.region_names.len()
        invariant
            i <= table.region_names@.len(),
            rows == boss_rows_upto(table, i as int),
            rows <= u32::MAX,
        decreases table.region_names@.len() - i,
    {
        let n = bosses_in_region(table, table.region_names[i].as_str()).len() as u64;
        if n > 4294967295u64 - rows {
            proof {
                lemma_boss_rows_monotone(table, i + 1, table.region_names@.len() as int);
            }
            return false;
        }
        rows = rows + n;
        i += 1;
    }
    true
}

/// What every section of an all-regions boss list satisfies.
pub open spec fn listed_boss_section<S: GameStateSource>(
    source: &S,
    s: BossPanelSection,
    table: &BossTableData,
    current_region: Option<Seq<char>>,
) -> bool {
    let bosses = region_bosses(table, s.region@);
    &&& s.bosses@.len() > 0
    &&& s.bosses@.len() == bosses.len()
    &&& forall|k: int| 0 <= k < s.bosses@.len() ==> row_shows(source, #[trigger] s.bosses@[k], bosses[k])
    &&& s.killed == killed_rows(s.bosses@)
    &&& s.total == s.bosses@.len()
    &&& table.region_names@.contains(s.region)
    &&& s.is_current == (current_region == Some(s.region@))
}

/// The regions of a list of sections, in order.
pub open spec fn boss_section_regions(sections: Seq<BossPanelSection>) -> Seq<String> {
    sections.map_values(|s: BossPanelSection| s.region)
}

/// The first `n` display regions that have bosses, in display order.
pub open spec fn regions_with_bosses_upto(table: &BossTableData, n: int) -> Seq<String> {
    table.region_names@.take(n).filter(|name: String| region_bosses(table, name@).len() > 0)
}

/// The display regions that have bosses, in display order.
pub open spec fn regions_with_bosses(table: &BossTableData) -> Seq<String> {
    regions_with_bosses_upto(table, table.region_names@.len() as int)
}

/// Sum of the sections' kill counts.
pub open spec fn sum_killed(sections: Seq<BossPanelSection>) -> int
    decreases sections.len(),
{
    if sections.len() == 0 {
        0
    } else {
        sum_killed(sections.drop_last()) + sections.last().killed
    }
}

/// Sum of the sections' boss counts.
pub open spec fn sum_total(sections: Seq<BossPanelSection>) -> int
    decreases sections.len(),
{
    if sections.len() == 0 {
        0
    } else {
        sum_total(sections.drop_last()) + sections.last().total
    }
}

proof fn lemma_regions_with_bosses_step(table: &BossTableData, i: int)
    requires
        0 <= i < table.region_names@.len(),
    ensures
        regions_with_bosses_upto(table, i + 1) == if region_bosses(table, table.region_names@[i]@).len() > 0 {
            regions_with_bosses_upto(table, i).push(table.region_names@[i])
        } else {
            regions_with_bosses_upto(table, i)
        },
{
    let names = table.region_names@;
    assert(names.take(i + 1).drop_last() =~= names.take(i));
    assert(names.take(i + 1).last() == names[i]);
    reveal_with_fuel(Seq::filter, 1);
}

/// Whether some section is the one of region `name`.
pub open spec fn boss_region_listed(sections: Seq<BossPanelSection>, name: String) -> bool {
    exists|j: int| 0 <= j < sections.len() && #[trigger] sections[j].region == name
}

/// Every one of the first `n` display regions that has bosses has a section.
pub open spec fn covers_boss_regions(sections: Seq<BossPanelSection>, table: &BossTableData, n: int) -> bool {
    forall|k: int|
        0 <= k < n && region_bosses(table, table.region_names@[k]@).len() > 0 ==> #[trigger] boss_region_listed(
            sections,
            table.region_names@[k],
        )
}

/// The checklist sections: one section per display region that has bosses (in display order;
/// the player's region is marked current), with summed kill and boss counts.
pub fn build_all_region_sections<S: GameStateSource>(
    table: &BossTableData,
    source: &S,
    current_region: Option<&str>,
) -> (r: (Vec<BossPanelSection>, u32, u32))
    requires
        boss_counts_fit(table),
    ensures
        forall|i: int|
            0 <= i < r.0@.len() ==> listed_boss_section(source, #[trigger] r.0@[i], table, region_text(current_region)),
        covers_boss_regions(r.0@, table, table.region_names@.len() as int),
        boss_section_regions(r.0@) == regions_with_bosses(table),
        r.1 == sum_killed(r.0@),
        r.2 == sum_total(r.0@),
        r.1 <= r.2,
{
    proof {
        assert(table.region_names@.take(0).filter(|name: String| region_bosses(table, name@).len() > 0)
            =~= Seq::<String>::empty()) by {
            reveal_with_fuel(Seq::filter, 1);
        }
        assert(table.region_names@.take(table.region_names@.len() as int) =~= table.region_names@);
    }
    let regions = crate::boss_table::region_names(table);
    let mut sections: Vec<BossPanelSection> = Vec::new();
    let mut killed_total: u32 = 0;
    let mut boss_total: u32 = 0;
    let mut i: usize = 0;
    while i < regions.len()
        invariant
            i <= regions.len(),
            regions@ == table.region_names@,
            boss_counts_fit(table),
            boss_total == boss_rows_upto(table, i as int),
            killed_total <= boss_total,
            forall|k: int|
                0 <= k < sections@.len() ==> listed_boss_section(source, #[trigger] sections@[k], table, region_text(current_region)),
            covers_boss_regions(sections@, table, i as int),
            boss_section_regions(sections@) == regions_with_bosses_upto(table, i as int),
            killed_total == sum_killed(sections@),
            boss_total == sum_total(sections@),
        decreases regions.len() - i,
    {
        let region = &regions[i];
        let (bosses, killed, total) = boss_rows_for_region(table, source, region.as_str());
        proof {
            table.bosses@.filter_lemma(|b: BossEntry| b.region@ == region@);
            lemma_killed_rows_bound(bosses@);
            lemma_regions_with_bosses_step(table, i as int);
            lemma_boss_rows_monotone(table, i + 1, table.region_names@.len() as int);
        }
        if bosses.len() > 0 {
            killed_total += killed;
            boss_total += total;
            let is_current = match current_region {
                Some(c) => str_eq(c, region.as_str()),
                None => false,
            };
            assert(table.region_names@[i as int] == *region);
            let ghost before = sections@;
            sections.push(
                BossPanelSection { region: region.clone(), is_current, bosses, killed, total },
            );
            proof {
                assert(sections@.drop_last() =~= before);
                assert(boss_section_regions(sections@) =~= boss_section_regions(before).push(*region));
                assert forall|k: int|
                    0 <= k < i + 1 && region_bosses(table, table.region_names@[k]@).len() > 0 implies #[trigger] boss_region_listed(
                    sections@,
                    table.region_names@[k],
                ) by {
                    if k < i {
                        assert(boss_region_listed(before, table.region_names@[k]));
                        let j = choose|j: int| 0 <= j < before.len() && #[trigger] before[j].region == table.region_names@[k];
                        assert(sections@[j] == before[j]);
                    } else {
                        assert(sections@[before.len() as int].region == table.region_names@[k]);
                    }
                }
            }
        } else {
            proof {
                assert forall|k: int|
                    0 <= k < i + 1 && region_bosses(table, table.region_names@[k]@).len() > 0 implies #[trigger] boss_region_listed(
                    sections@,
                    table.region_names@[k],
                ) by {
                    if k == i {
                        assert(table.region_names@[k] == *region);
                    }
                }
            }
        }
        i += 1;
    }
    (sections, killed_total, boss_total)
}

proof fn lemma_killed_rows_bound(rows: Seq<BossPanelRow>)
    ensures
        killed_rows(rows) <= rows.len(),
    decreases rows.len(),
{
    if rows.len() > 0 {
        lemma_killed_rows_bound(rows.drop_last());
    }
}

/// The checklist for a scope: in current-region scope with a known region, that region's
/// single section; otherwise (all regions, or the map id has no region) every region.
pub fn build_boss_panel_sections<S: GameStateSource>(
    table: &BossTableData,
    source: &S,
    scope: BossPanelScope,
    current_region: Option<&str>,
) -> (r: (Vec<BossPanelSection>, u32, u32))
    requires
        boss_counts_fit(table),
    ensures
        r.1 <= r.2,
        (scope == BossPanelScope::CurrentRegion && current_region is Some) ==> {
            let bosses = region_bosses(table, current_region->0@);
            let s = r.0@[0];
            &&& r.0@.len() == 1
            &&& s.region@ == current_region->0@
            &&& s.is_current
            &&& s.bosses@.len() == bosses.len()
            &&& forall|k: int| 0 <= k < s.bosses@.len() ==> row_shows(source, #[trigger] s.bosses@[k], bosses[k])
            &&& s.killed == killed_rows(s.bosses@) && s.total == s.bosses@.len()
            &&& r.1 == s.killed && r.2 == s.total
        },
        !(scope == BossPanelScope::CurrentRegion && current_region is Some) ==> {
            &&& forall|i: int|
                0 <= i < r.0@.len() ==> listed_boss_section(source, #[trigger] r.0@[i], table, region_text(current_region))
            &&& covers_boss_regions(r.0@, table, table.region_names@.len() as int)
            &&& boss_section_regions(r.0@) == regions_with_bosses(table)
            &&& r.1 == sum_killed(r.0@) && r.2 == sum_total(r.0@)
        },
{
    match scope {
        BossPanelScope::CurrentRegion => {
            if let Some(region) = current_region {
                let (bosses, killed, total) = boss_rows_for_region(table, source, region);
                proof {
                    lemma_killed_rows_bound(bosses@);
                }
                let section = BossPanelSection {
                    region: crate::text::string_of(region),
                    is_current: true,
                    bosses,
                    killed,
                    total,
                };
                let mut v: Vec<BossPanelSection> = Vec::new();
                v.push(section);
                (v, killed, total)
            } else {
                build_all_region_sections(table, source, current_region)
            }
        },
        BossPanelScope::AllRegions => build_all_region_sections(table, source, current_region),
    }
}

/// A view model with no readings.
pub fn empty_view_model(
    table: &BossTableData,
    boss_panel_scope: BossPanelScope,
    checks_panel_scope: BossPanelScope,
) -> (vm: OverlayViewModel)
    ensures
        vm.wf(),
        vm.igt is None && vm.bosses_killed is None && vm.deaths is None && vm.ng_cycle is None
            && vm.scadutree_blessing is None,
        vm.bosses_total == table.bosses@.len() as u32,
        vm.boss_panel_total == vm.bosses_total,
        vm.boss_panel_killed == 0,
        vm.boss_panel_sections@.len() == 0,
        vm.groups@.len() == 0 && vm.tracked_by_key@.len() == 0,
        vm.current_subregion_id is None && vm.current_region is None,
        vm.boss_panel_scope == boss_panel_scope,
        vm.checks_panel_scope == checks_panel_scope,
        vm.checks_panel_sections@.len() == 0 && vm.checks_panel_done == 0 && vm.checks_panel_total == 0,
        vm.checks_current_region is None && !vm.checks_seed_active,
        vm.challenge == crate::challenge::empty_snapshot(),
        vm.diagnostics.is_blank(),
{
    let bosses_total = table.bosses.len() as u32;
    OverlayViewModel {
        igt: None,
        bosses_killed: None,
        bosses_total,
        deaths: None,
        ng_cycle: None,
        scadutree_blessing: None,
        groups: StrMap::new(),
        tracked_by_key: StrMap::new(),
        diagnostics: GameStateDiagnostics::blank(),
        current_subregion_id: None,
        current_region: None,
        boss_panel_scope,
        boss_panel_sections: Vec::new(),
        boss_panel_killed: 0,
        boss_panel_total: bosses_total,
        checks_panel_scope,
        checks_panel_sections: Vec::new(),
        checks_panel_done: 0,
        checks_panel_total: 0,
        checks_current_region: None,
        checks_seed_active: false,
        challenge: ChallengeSnapshot::empty(),
    }
}

/// The owned count of a group's progress, if known.
pub open spec fn owned_part(r: Option<(u32, u32)>) -> Option<u32> {
    match r {
        Some((o, _)) => Some(o),
        None => None,
    }
}

pub open spec fn strings_seq(v: Seq<String>) -> Seq<Seq<char>> {
    v.map_values(|s: String| s@)
}

/// What a built view model holds: the source's readings of in-game time, bosses killed, deaths,
/// NG+ cycle, Scadutree blessing, map id, boss total and diagnostics; a row for every referenced good key showing that
/// good's readings ([`row_reads`]), rows only for referenced keys, equipped state only where
/// asked; every group with its size and the owned count its members' readings give; the
/// player's region as the boss table names it for the map id read; and the boss and checks
/// panels, each line showing the reading of its flag.
pub open spec fn built_view_model<S: GameStateSource>(
    source: &S,
    vm: OverlayViewModel,
    goods: GoodsTable,
    bosses: BossTableData,
    checks: &ChecksTableData,
    checks_seed: Option<&ChecksFlagsData>,
    lot_seed: Option<&LotFlagsData>,
    referenced_keys: Seq<String>,
    equipped_keys: Seq<String>,
    historic_keys: Seq<String>,
    boss_panel_scope: BossPanelScope,
    checks_panel_scope: BossPanelScope,
) -> bool {
    &&& vm.wf()
    &&& source.igt_read(vm.igt)
    &&& source.killed_bosses_read(vm.bosses_killed)
    &&& source.deaths_read(vm.deaths)
    &&& source.ng_cycle_read(vm.ng_cycle)
    &&& source.blessing_read(vm.scadutree_blessing)
    &&& source.subregion_read(vm.current_subregion_id)
    &&& source.bosses_total_read(vm.bosses_total)
    &&& source.status_read(vm.diagnostics)
    &&& forall|k: int|
        0 <= k < referenced_keys.len() ==> key_shown(
            source,
            vm.tracked_by_key@,
            goods.goods@,
            #[trigger] referenced_keys[k]@,
            strings_seq(equipped_keys),
            strings_seq(historic_keys),
            lot_seed,
        )
    &&& rows_from_refs(vm.tracked_by_key@, referenced_keys)
    &&& equipped_only_if_listed(vm.tracked_by_key@, equipped_keys)
    &&& vm.groups@.len() == goods.groups@.len()
    &&& forall|k: int|
        0 <= k < vm.groups@.len() ==> {
            &&& #[trigger] vm.groups@[k].0 == goods.groups@[k].0
            &&& vm.groups@[k].1.total == resolve_keys(goods.goods@, group_keys(goods, goods.groups@[k].0)).len() as u32
            &&& exists|r: Option<(u32, u32)>|
                group_read(source, goods, goods.groups@[k].0, r) && vm.groups@[k].1.owned == owned_part(r)
        }
    &&& match vm.current_subregion_id {
        Some(id) => match vm.current_region {
            Some(s) => region_for_map_id(string_map_view(bosses.subregion_to_region@), id) == Some(s@),
            None => region_for_map_id(string_map_view(bosses.subregion_to_region@), id) is None,
        },
        None => vm.current_region is None,
    }
    &&& vm.boss_panel_scope == boss_panel_scope
    &&& vm.boss_panel_killed <= vm.boss_panel_total
    &&& boss_panel_built(source, vm, bosses)
    &&& match vm.current_subregion_id {
        Some(id) => match vm.checks_current_region {
            Some(s) => region_for_map_id(string_map_view(checks.subregion_to_region@), id) == Some(s@),
            None => region_for_map_id(string_map_view(checks.subregion_to_region@), id) is None,
        },
        None => vm.checks_current_region is None,
    }
    &&& vm.checks_panel_scope == checks_panel_scope
    &&& vm.checks_seed_active == checks_seed.is_some()
    &&& checks_panel_built(source, vm, checks, checks_seed)
}

/// The boss panel of a view model: in current-region scope with a known region, that region's
/// single section; otherwise one section per region that has bosses, in display order, each
/// complete and marked current exactly for the player's region, the panel counts being the sums
/// of the sections' counts.
pub open spec fn boss_panel_built<S: GameStateSource>(source: &S, vm: OverlayViewModel, bosses: BossTableData) -> bool {
    let sections = vm.boss_panel_sections@;
    match vm.current_region {
        Some(r) if vm.boss_panel_scope == BossPanelScope::CurrentRegion => {
            let bs = region_bosses(&bosses, r@);
            &&& sections.len() == 1
            &&& sections[0].region@ == r@ && sections[0].is_current
            &&& sections[0].bosses@.len() == bs.len()
            &&& forall|k: int| 0 <= k < bs.len() ==> row_shows(source, #[trigger] sections[0].bosses@[k], bs[k])
            &&& vm.boss_panel_killed == sections[0].killed && sections[0].killed == killed_rows(sections[0].bosses@)
            &&& vm.boss_panel_total == sections[0].total && sections[0].total == bs.len()
        },
        _ => {
            &&& forall|i: int|
                0 <= i < sections.len() ==> listed_boss_section(
                    source,
                    #[trigger] sections[i],
                    &bosses,
                    match vm.current_region {
                        Some(r) => Some(r@),
                        None => None,
                    },
                )
            &&& covers_boss_regions(sections, &bosses, bosses.region_names@.len() as int)
            &&& boss_section_regions(sections) == regions_with_bosses(&bosses)
            &&& vm.boss_panel_killed == sum_killed(sections) && vm.boss_panel_total == sum_total(sections)
        },
    }
}

/// The checks panel of a view model: in current-region scope with a known region, that
/// region's single section; otherwise one section per region that has checks, in display
/// order, each complete and marked current exactly for the player's region, the panel counts
/// being the sums of the sections' counts; the done count within the total.
pub open spec fn checks_panel_built<S: GameStateSource>(
    source: &S,
    vm: OverlayViewModel,
    checks: &ChecksTableData,
    seed: Option<&ChecksFlagsData>,
) -> bool {
    let sections = vm.checks_panel_sections@;
    &&& vm.checks_panel_done <= vm.checks_panel_total
    &&& match vm.checks_current_region {
        Some(r) if vm.checks_panel_scope == BossPanelScope::CurrentRegion => {
            let cs = region_checks(checks, r@);
            &&& sections.len() == 1
            &&& sections[0].region@ == r@ && sections[0].is_current
            &&& sections[0].rows@.len() == cs.len()
            &&& forall|k: int|
                0 <= k < cs.len() ==> check_row_shows(source, #[trigger] sections[0].rows@[k], cs[k], seed)
            &&& vm.checks_panel_done == sections[0].done && sections[0].done == done_rows(sections[0].rows@)
            &&& vm.checks_panel_total == sections[0].total && sections[0].total == cs.len()
        },
        _ => {
            &&& forall|i: int|
                0 <= i < sections.len() ==> listed_section(
                    source,
                    #[trigger] sections[i],
                    checks,
                    seed,
                    match vm.checks_current_region {
                        Some(r) => Some(r@),
                        None => None,
                    },
                )
            &&& covers_regions(sections, checks, checks.region_names@.len() as int)
            &&& check_section_regions(sections) == regions_with_checks(checks)
            &&& vm.checks_panel_done == sum_done(sections) && vm.checks_panel_total == sum_checks(sections)
        },
    }
}

/// Builds the view model. `referenced_keys` are the data refs of the active layout: only goods
/// among them are read from the inventory; `equipped_keys` are the goods whose equipped state is
/// tracked, `historic_keys` those kept owned once obtained (their acquisition flag resolved
/// under `lot_seed`). Every aggregate group is resolved; the checks panel is built from `checks`
/// under `checks_seed`.
pub fn build_view_model<S: GameStateSource>(
    source: &S,
    goods: &GoodsTable,
    bosses: &BossTableData,
    checks: &ChecksTableData,
    checks_seed: Option<&ChecksFlagsData>,
    lot_seed: Option<&LotFlagsData>,
    referenced_keys: &Vec<String>,
    equipped_keys: &Vec<String>,
    historic_keys: &Vec<String>,
    boss_panel_scope: BossPanelScope,
    checks_panel_scope: BossPanelScope,
    challenge: ChallengeSnapshot,
) -> (vm: OverlayViewModel)
    requires
        goods.groups.wf(),
        match lot_seed {
            Some(d) => d.wf(),
            None => true,
        },
        boss_counts_fit(bosses),
        check_counts_fit(checks),
    ensures
        built_view_model(
            source,
            vm,
            *goods,
            *bosses,
            checks,
            checks_seed,
            lot_seed,
            referenced_keys@,
            equipped_keys@,
            historic_keys@,
            boss_panel_scope,
            checks_panel_scope,
        ),
        vm.challenge == challenge,
{
    let tracked_by_key = build_tracked_rows(source, goods, referenced_keys, equipped_keys, historic_keys, lot_seed);
    let names = group_names(goods);
    let mut groups: StrMap<GroupValue> = StrMap::new();
    let mut g: usize = 0;
    while g < names.len()
        invariant
            g <= names.len(),
            goods.groups.wf(),
            groups.wf(),
            names@.len() == goods.groups@.len(),
            forall|k: int| 0 <= k < names@.len() ==> #[trigger] names@[k]@ == goods.groups@[k].0,
            groups@.len() == g,
            forall|k: int|
                0 <= k < g ==> {
                    &&& #[trigger] groups@[k].0 == goods.groups@[k].0
                    &&& groups@[k].1.total == resolve_keys(goods.goods@, group_keys(*goods, goods.groups@[k].0)).len() as u32
                    &&& exists|r: Option<(u32, u32)>|
                        group_read(source, *goods, goods.groups@[k].0, r) && groups@[k].1.owned == owned_part(r)
                },
        decreases names.len() - g,
    {
        let name = &names[g];
        let total = group_size(goods, name.as_str());
        let progress = group_progress(goods, source, name.as_str());
        let owned = match progress {
            Some((o, _)) => Some(o),
            None => None,
        };
        assert(group_read(source, *goods, goods.groups@[g as int].0, progress) && owned == owned_part(progress));
        let ghost before = groups@;
        assert forall|k: int| 0 <= k < before.len() implies before[k].0 != name@ by {
            assert(before[k].0 == goods.groups@[k].0);
        }
        groups.insert(name.clone(), GroupValue { owned, total });
        assert(groups@ =~= before.push((name@, GroupValue { owned, total })));
        g += 1;
    }
    let current_subregion_id = source.get_current_subregion_id();
    let current_region = match current_subregion_id {
        Some(id) => region_label_for_subregion(bosses, id),
        None => None,
    };
    let (boss_panel_sections, boss_panel_killed, boss_panel_total) = match &current_region {
        Some(r) => build_boss_panel_sections(bosses, source, boss_panel_scope, Some(r.as_str())),
        None => build_boss_panel_sections(bosses, source, boss_panel_scope, None),
    };
    let checks_current_region = match current_subregion_id {
        Some(id) => checks_region_label_for_subregion(checks, id),
        None => None,
    };
    let (checks_panel_sections, checks_panel_done, checks_panel_total) = match &checks_current_region {
        Some(r) => build_checks_panel_sections(checks, source, checks_seed, checks_panel_scope, Some(r.as_str())),
        None => build_checks_panel_sections(checks, source, checks_seed, checks_panel_scope, None),
    };
    OverlayViewModel {
        igt: source.get_igt(),
        bosses_killed: source.get_killed_boss_count(),
        bosses_total: source.bosses_total(),
        deaths: source.get_death_count(),
        ng_cycle: source.get_ng_cycle(),
        scadutree_blessing: source.get_scadutree_blessing(),
        groups,
        tracked_by_key,
        diagnostics: source.get_status(),
        current_subregion_id,
        current_region,
        boss_panel_scope,
        boss_panel_sections,
        boss_panel_killed,
        boss_panel_total,
        checks_panel_scope,
        checks_panel_sections,
        checks_panel_done,
        checks_panel_total,
        checks_current_region,
        checks_seed_active: checks_seed.is_some(),
        challenge,
    }
}

/// For a key that names a good: the view model has a row for that good's key describing it,
/// with the readings of [`row_reads`] (equipped state when `key` is in `equipped`, historic
/// ownership when it is in `historic`).
#[verifier::opaque]
pub open spec fn key_shown<S: GameStateSource>(
    source: &S,
    m: Seq<(Seq<char>, TrackedEntryRow)>,
    goods: Seq<crate::tables::GoodEntry>,
    key: Seq<char>,
    equipped: Seq<Seq<char>>,
    historic: Seq<Seq<char>>,
    lot_seed: Option<&LotFlagsData>,
) -> bool {
    match good_named(goods, key) {
        Some(g) => match lookup(m, g.key@) {
            Some(row) => row_describes(row, g) && row_reads(
                source,
                row,
                g,
                equipped.contains(key),
                historic.contains(key),
                lot_seed,
            ),
            None => false,
        },
        None => true,
    }
}

/// What the view model shows of good `g` besides its readings.
pub open spec fn row_describes(row: TrackedEntryRow, g: crate::tables::GoodEntry) -> bool {
    &&& row.name == g.name && row.icon_key == g.key && row.max == g.max
    &&& (row.kind is Countable) == g.countable
}

/// The readings a row of good `g` shows: a countable good's inventory quantity; otherwise its
/// ownership check ([`owned_read`]), or with `historic` its historic ownership check
/// ([`historic_read`], acquisition flag under `lot_seed`); and with `track_equipped` the
/// reading of its equipped state, else none.
pub open spec fn row_reads<S: GameStateSource>(
    source: &S,
    row: TrackedEntryRow,
    g: crate::tables::GoodEntry,
    track_equipped: bool,
    historic: bool,
    lot_seed: Option<&LotFlagsData>,
) -> bool {
    &&& match row.kind {
        TrackKind::Countable { count } => source.quantity_read(g.item_id, count),
        TrackKind::Unique { acquired } => if historic {
            historic_read(
                source,
                lot_seed,
                g.key@,
                g.item_id,
                g.category,
                g.pickup_flag,
                g.historic_lot,
                acquired,
            )
        } else {
            owned_read(source, g.item_id, g.category, g.pickup_flag, acquired)
        },
    }
    &&& if track_equipped {
        source.equipped_read(g.item_id, g.category, row.equipped)
    } else {
        row.equipped is None
    }
}

/// The row of one tracked good: its quantity when countable, else whether it is owned (with
/// `historic`, ever obtained, its acquisition flag read under the loaded lot mapping); its
/// equipped state when `track_equipped`.
fn tracked_row_for<S: GameStateSource>(
    source: &S,
    good: &crate::tables::GoodEntry,
    track_equipped: bool,
    historic: bool,
    lot_seed: Option<&LotFlagsData>,
) -> (row: TrackedEntryRow)
    requires
        match lot_seed {
            Some(d) => d.wf(),
            None => true,
        },
    ensures
        row_describes(row, *good),
        row_reads(source, row, *good, track_equipped, historic, lot_seed),
{
    let kind = if good.countable {
        TrackKind::Countable { count: source.get_goods_quantity(good.item_id) }
    } else if historic {
        TrackKind::Unique {
            acquired: item_owned_historic(
                source,
                lot_seed,
                good.key.as_str(),
                good.item_id,
                good.category,
                good.pickup_flag,
                good.historic_lot,
            ),
        }
    } else {
        TrackKind::Unique {
            acquired: item_owned(source, good.item_id, good.category, good.pickup_flag),
        }
    };
    let equipped = if track_equipped {
        source.is_item_equipped(good.item_id, good.category)
    } else {
        None
    };
    TrackedEntryRow {
        name: good.name.clone(),
        kind,
        icon_key: good.key.clone(),
        max: good.max,
        equipped,
    }
}

/// Every row's key is one of `refs`.
pub open spec fn rows_from_refs(m: Seq<(Seq<char>, TrackedEntryRow)>, refs: Seq<String>) -> bool {
    all_entries(m, |e: (Seq<char>, TrackedEntryRow)| strings_seq(refs).contains(e.0))
}

/// Rows whose key is not in `equipped` carry no equipped state.
pub open spec fn equipped_only_if_listed(m: Seq<(Seq<char>, TrackedEntryRow)>, equipped: Seq<String>) -> bool {
    all_entries(
        m,
        |e: (Seq<char>, TrackedEntryRow)| strings_seq(equipped).contains(e.0) || e.1.equipped is None,
    )
}

proof fn lemma_keys_shown_after_insert<S: GameStateSource>(
    source: &S,
    before: Seq<(Seq<char>, TrackedEntryRow)>,
    goods: Seq<crate::tables::GoodEntry>,
    refs: Seq<Seq<char>>,
    i: int,
    good: crate::tables::GoodEntry,
    rv: TrackedEntryRow,
    eq: Seq<Seq<char>>,
    hi: Seq<Seq<char>>,
    lot_seed: Option<&LotFlagsData>,
)
    requires
        crate::keyed::keys_unique(before),
        0 <= i < refs.len(),
        forall|k: int| 0 <= k < i ==> key_shown(source, before, goods, #[trigger] refs[k], eq, hi, lot_seed),
        good_named(goods, refs[i]) == Some(good),
        row_describes(rv, good),
        row_reads(source, rv, good, eq.contains(refs[i]), hi.contains(refs[i]), lot_seed),
    ensures
        forall|k: int|
            0 <= k < i + 1 ==> key_shown(
                source,
                assoc_insert(before, good.key@, rv),
                goods,
                #[trigger] refs[k],
                eq,
                hi,
                lot_seed,
            ),
{
    assert forall|k: int| 0 <= k < i + 1 implies key_shown(
        source,
        assoc_insert(before, good.key@, rv),
        goods,
        #[trigger] refs[k],
        eq,
        hi,
        lot_seed,
    ) by {
        if k < i {
            assert(key_shown(source, before, goods, refs[k], eq, hi, lot_seed));
        }
        lemma_key_shown_one(source, before, goods, refs[k], refs[i], good, rv, eq, hi, lot_seed);
    }
}

proof fn lemma_key_shown_one<S: GameStateSource>(
    source: &S,
    before: Seq<(Seq<char>, TrackedEntryRow)>,
    goods: Seq<crate::tables::GoodEntry>,
    rk: Seq<char>,
    ri: Seq<char>,
    good: crate::tables::GoodEntry,
    rv: TrackedEntryRow,
    eq: Seq<Seq<char>>,
    hi: Seq<Seq<char>>,
    lot_seed: Option<&LotFlagsData>,
)
    requires
        crate::keyed::keys_unique(before),
        rk == ri || key_shown(source, before, goods, rk, eq, hi, lot_seed),
        good_named(goods, ri) == Some(good),
        row_describes(rv, good),
        row_reads(source, rv, good, eq.contains(ri), hi.contains(ri), lot_seed),
    ensures
        key_shown(source, assoc_insert(before, good.key@, rv), goods, rk, eq, hi, lot_seed),
{
    reveal(key_shown);
    crate::tables::lemma_good_named_key(goods, rk);
    crate::tables::lemma_good_named_key(goods, ri);
    match good_named(goods, rk) {
        None => {},
        Some(g2) => {
            lemma_lookup_after_insert(before, good.key@, rv, g2.key@);
            if g2.key@ == good.key@ {
                assert(rk == ri);
            } else if rk == ri {
                assert(g2 == good);
            }
        },
    }
}

proof fn lemma_key_shown_unnamed<S: GameStateSource>(
    source: &S,
    m: Seq<(Seq<char>, TrackedEntryRow)>,
    goods: Seq<crate::tables::GoodEntry>,
    key: Seq<char>,
    eq: Seq<Seq<char>>,
    hi: Seq<Seq<char>>,
    lot_seed: Option<&LotFlagsData>,
)
    requires
        good_named(goods, key) is None,
    ensures
        key_shown(source, m, goods, key, eq, hi, lot_seed),
{
    reveal(key_shown);
}

/// Rows of the referenced keys that name goods, keyed by good key.
fn build_tracked_rows<S: GameStateSource>(
    source: &S,
    goods: &GoodsTable,
    referenced_keys: &Vec<String>,
    equipped_keys: &Vec<String>,
    historic_keys: &Vec<String>,
    lot_seed: Option<&LotFlagsData>,
) -> (m: StrMap<TrackedEntryRow>)
    requires
        match lot_seed {
            Some(d) => d.wf(),
            None => true,
        },
    ensures
        m.wf(),
        forall|k: int|
            0 <= k < referenced_keys@.len() ==> key_shown(
                source,
                m@,
                goods.goods@,
                #[trigger] referenced_keys@[k]@,
                strings_seq(equipped_keys@),
                strings_seq(historic_keys@),
                lot_seed,
            ),
        rows_from_refs(m@, referenced_keys@),
        equipped_only_if_listed(m@, equipped_keys@),
{
    let mut m: StrMap<TrackedEntryRow> = StrMap::new();
    let mut i: usize = 0;
    while i < referenced_keys.len()
        invariant
            i <= referenced_keys.len(),
            m.wf(),
            match lot_seed {
                Some(d) => d.wf(),
                None => true,
            },
            forall|k: int|
                0 <= k < i ==> key_shown(
                    source,
                    m@,
                    goods.goods@,
                    #[trigger] referenced_keys@[k]@,
                    strings_seq(equipped_keys@),
                    strings_seq(historic_keys@),
                    lot_seed,
                ),
            rows_from_refs(m@, referenced_keys@),
            equipped_only_if_listed(m@, equipped_keys@),
        decreases referenced_keys.len() - i,
    {
        let key = &referenced_keys[i];
        match good_by_key(goods, key.as_str()) {
            None => {
                proof {
                    lemma_key_shown_unnamed(
                        source,
                        m@,
                        goods.goods@,
                        key@,
                        strings_seq(equipped_keys@),
                        strings_seq(historic_keys@),
                        lot_seed,
                    );
                }
            },
            Some(good) => {
                let track = contains_key(equipped_keys, key.as_str());
                let historic = contains_key(historic_keys, key.as_str());
                let row = tracked_row_for(source, &good, track, historic, lot_seed);
                let ghost before = m@;
                let ghost gk = good.key@;
                let ghost rv = row;
                m.insert(good.key, row);
                proof {
                    assert(strings_seq(referenced_keys@)[i as int] == key@);
                    assert forall|k: int| 0 <= k < i implies key_shown(
                        source,
                        before,
                        goods.goods@,
                        #[trigger] strings_seq(referenced_keys@)[k],
                        strings_seq(equipped_keys@),
                        strings_seq(historic_keys@),
                        lot_seed,
                    ) by {
                        assert(strings_seq(referenced_keys@)[k] == referenced_keys@[k]@);
                    }
                    lemma_all_entries_after_insert(
                        before,
                        gk,
                        rv,
                        |e: (Seq<char>, TrackedEntryRow)| strings_seq(referenced_keys@).contains(e.0),
                    );
                    lemma_all_entries_after_insert(
                        before,
                        gk,
                        rv,
                        |e: (Seq<char>, TrackedEntryRow)|
                            strings_seq(equipped_keys@).contains(e.0) || e.1.equipped is None,
                    );
                    lemma_keys_shown_after_insert(
                        source,
                        before,
                        goods.goods@,
                        strings_seq(referenced_keys@),
                        i as int,
                        good,
                        rv,
                        strings_seq(equipped_keys@),
                        strings_seq(historic_keys@),
                        lot_seed,
                    );
                    assert forall|k: int| 0 <= k < i + 1 implies key_shown(
                        source,
                        m@,
                        goods.goods@,
                        #[trigger] referenced_keys@[k]@,
                        strings_seq(equipped_keys@),
                        strings_seq(historic_keys@),
                        lot_seed,
                    ) by {
                        assert(strings_seq(referenced_keys@)[k] == referenced_keys@[k]@);
                    }
                }
            },
        }
        i += 1;
    }
    m
}

fn contains_key(keys: &Vec<String>, k: &str) -> (b: bool)
    ensures
        b == strings_seq(keys@).contains(k@),
{
    let mut i: usize = 0;
    while i < keys.len()
        invariant
            i <= keys.len(),
            forall|j: int| 0 <= j < i ==> keys@[j]@ != k@,
        decreases keys.len() - i,
    {
        if str_eq(keys[i].as_str(), k) {
            assert(strings_seq(keys@)[i as int] == k@);
            return true;
        }
        i += 1;
    }
    assert forall|j: int| 0 <= j < strings_seq(keys@).len() implies strings_seq(keys@)[j] != k@ by {
        assert(strings_seq(keys@)[j] == keys@[j]@);
    }
    false
}

} // verus!
