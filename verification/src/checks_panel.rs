//! The checks panel: the bosses and key loot of a run grouped by region, each line resolved to
//! the flag that says it is done (per seed for relocated ground loot). The host draws the text.

use vstd::prelude::*;
use crate::checks_table::{
    check_flag, checks_in_region, checks_region_names, clone_opt_string, effective_flag,
    CheckEntry, ChecksFlagsData, ChecksTableData,
};
use crate::config::BossPanelScope;
use crate::tables::GameStateSource;
use crate::text::{append_str, decimal, decimal_chars, str_eq, string_from_chars, string_of};
use crate::view_model::{CheckPanelRow, CheckPanelSection, OverlayViewModel};

verus! {

/// Number of rows read as done.
pub open spec fn done_rows(rows: Seq<CheckPanelRow>) -> nat
    decreases rows.len(),
{
    if rows.len() == 0 {
        0
    } else {
        done_rows(rows.drop_last()) + if rows.last().done == Some(true) {
            1nat
        } else {
            0nat
        }
    }
}

proof fn lemma_done_rows_bound(rows: Seq<CheckPanelRow>)
    ensures
        done_rows(rows) <= rows.len(),
    decreases rows.len(),
{
    if rows.len() > 0 {
        lemma_done_rows_bound(rows.drop_last());
    }
}

/// Row `r` shows check `c` under the mapping `seed`: its name, place and DLC tag, traceable
/// exactly when the check resolves to a flag; its done state is the reading of that flag, and
/// none when there is no flag.
pub open spec fn check_row_shows<S: GameStateSource>(
    source: &S,
    r: CheckPanelRow,
    c: CheckEntry,
    seed: Option<&ChecksFlagsData>,
) -> bool {
    &&& r.name == c.name && r.place == c.place && r.dlc == c.dlc
    &&& r.traceable == (check_flag(seed, c) is Some)
    &&& match check_flag(seed, c) {
        Some(f) => source.flag_read(f, r.done),
        None => r.done is None,
    }
}

/// The checks of `region` in table order.
pub open spec fn region_checks(table: &ChecksTableData, region: Seq<char>) -> Seq<CheckEntry> {
    table.checks@.filter(|c: CheckEntry| c.region@ == region)
}

/// The line of one check: its flag read when it resolves to one.
pub fn check_row<S: GameStateSource>(source: &S, seed: Option<&ChecksFlagsData>, check: &CheckEntry) -> (r:
    CheckPanelRow)
    ensures
        check_row_shows(source, r, *check, seed),
{
    let flag = effective_flag(seed, check);
    let done = match flag {
        Some(f) => source.get_flag(f),
        None => None,
    };
    CheckPanelRow {
        name: check.name.clone(),
        place: clone_opt_string(&check.place),
        dlc: check.dlc,
        traceable: flag.is_some(),
        done,
    }
}

/// Number of panel lines over the first `n` display regions (a region listed twice counts
/// twice).
pub open spec fn check_rows_upto(table: &ChecksTableData, n: int) -> int
    decreases n,
{
    if n <= 0 {
        0
    } else {
        check_rows_upto(table, n - 1) + region_checks(table, table.region_names@[n - 1]@).len()
    }
}

/// Number of lines of the full panel.
pub open spec fn check_row_count(table: &ChecksTableData) -> int {
    check_rows_upto(table, table.region_names@.len() as int)
}

/// What the panel's `u32` counters need: the table, and the full panel, each have at most
/// `u32::MAX` lines.
pub open spec fn check_counts_fit(table: &ChecksTableData) -> bool {
    table.checks@.len() <= u32::MAX && check_row_count(table) <= u32::MAX
}

proof fn lemma_check_rows_monotone(table: &ChecksTableData, i: int, j: int)
    requires
        0 <= i <= j,
    ensures
        check_rows_upto(table, i) <= check_rows_upto(table, j),
    decreases j - i,
{
    if i < j {
        lemma_check_rows_monotone(table, i, j - 1);
    }
}

/// Whether the checks panel's counters fit (see [`check_counts_fit`]).
pub fn checks_table_fits(table: &ChecksTableData) -> (r: bool)
    ensures
        r == check_counts_fit(table),
{
    if table.checks.len() as u64 > 4294967295u64 {
        return false;
    }
    let mut rows: u64 = 0;
    let mut i: usize = 0;
    while i < table.region_names.len()
        invariant
            i <= table.region_names@.len(),
            rows == check_rows_upto(table, i as int),
            rows <= u32::MAX,
        decreases table.region_names@.len() - i,
    {
        let n = checks_in_region(table, table.region_names[i].as_str()).len() as u64;
        if n > 4294967295u64 - rows {
            proof {
                lemma_check_rows_monotone(table, i + 1, table.region_names@.len() as int);
            }
            return false;
        }
        rows = rows + n;
        i += 1;
    }
    true
}

/// The lines of one region, with the number read as done and the number of lines.
pub fn check_rows_for_region<S: GameStateSource>(
    table: &ChecksTableData,
    source: &S,
    seed: Option<&ChecksFlagsData>,
    region: &str,
) -> (r: (Vec<CheckPanelRow>, u32, u32))
    requires
        table.checks@.len() <= u32::MAX,
    ensures
        r.0@.len() == region_checks(table, region@).len(),
        forall|i: int|
            0 <= i < r.0@.len() ==> check_row_shows(source, #[trigger] r.0@[i], region_checks(table, region@)[i], seed),
        r.1 == done_rows(r.0@),
        r.2 == r.0@.len(),
{
    let checks = checks_in_region(table, region);
    proof {
        table.checks@.filter_lemma(|c: CheckEntry| c.region@ == region@);
    }
    let mut rows: Vec<CheckPanelRow> = Vec::new();
    let mut done: u32 = 0;
    let mut i: usize = 0;
    while i < checks.len()
        invariant
            i <= checks.len(),
            checks@ == region_checks(table, region@),
            checks@.len() <= u32::MAX,
            rows@.len() == i,
            forall|k: int| 0 <= k < i ==> check_row_shows(source, #[trigger] rows@[k], checks@[k], seed),
            done == done_rows(rows@),
            done <= i,
        decreases checks.len() - i,
    {
        let row = check_row(source, seed, &checks[i]);
        if row.done == Some(true) {
            done += 1;
        }
        let ghost before = rows@;
        rows.push(row);
        assert(rows@.drop_last() =~= before);
        i += 1;
    }
    let total = rows.len() as u32;
    (rows, done, total)
}

/// What every section of an all-regions list satisfies.
pub open spec fn listed_section<S: GameStateSource>(
    source: &S,
    s: CheckPanelSection,
    table: &ChecksTableData,
    seed: Option<&ChecksFlagsData>,
    current_region: Option<Seq<char>>,
) -> bool {
    let checks = region_checks(table, s.region@);
    &&& s.rows@.len() > 0
    &&& s.rows@.len() == checks.len()
    &&& forall|k: int| 0 <= k < s.rows@.len() ==> check_row_shows(source, #[trigger] s.rows@[k], checks[k], seed)
    &&& s.done == done_rows(s.rows@)
    &&& s.total == s.rows@.len()
    &&& table.region_names@.contains(s.region)
    &&& s.is_current == (current_region == Some(s.region@))
}

/// The text of an optional region name.
pub open spec fn region_text(o: Option<&str>) -> Option<Seq<char>> {
    match o {
        Some(r) => Some(r@),
        None => None,
    }
}

/// Whether some section is the one of region `name`.
pub open spec fn listed(sections: Seq<CheckPanelSection>, name: String) -> bool {
    exists|j: int| 0 <= j < sections.len() && #[trigger] sections[j].region == name
}

/// Every one of the first `n` display regions that has checks has a section.
pub open spec fn covers_regions(sections: Seq<CheckPanelSection>, table: &ChecksTableData, n: int) -> bool {
    forall|k: int|
        0 <= k < n && region_checks(table, table.region_names@[k]@).len() > 0 ==> #[trigger] listed(
            sections,
            table.region_names@[k],
        )
}

/// The regions of a list of sections, in order.
pub open spec fn check_section_regions(sections: Seq<CheckPanelSection>) -> Seq<String> {
    sections.map_values(|s: CheckPanelSection| s.region)
}

/// The first `n` display regions that have checks, in display order.
pub open spec fn regions_with_checks_upto(table: &ChecksTableData, n: int) -> Seq<String> {
    table.region_names@.take(n).filter(|name: String| region_checks(table, name@).len() > 0)
}

/// The display regions that have checks, in display order.
pub open spec fn regions_with_checks(table: &ChecksTableData) -> Seq<String> {
    regions_with_checks_upto(table, table.region_names@.len() as int)
}

/// Sum of the sections' done counts.
pub open spec fn sum_done(sections: Seq<CheckPanelSection>) -> int
    decreases sections.len(),
{
    if sections.len() == 0 {
        0
    } else {
        sum_done(sections.drop_last()) + sections.last().done
    }
}

/// Sum of the sections' check counts.
pub open spec fn sum_checks(sections: Seq<CheckPanelSection>) -> int
    decreases sections.len(),
{
    if sections.len() == 0 {
        0
    } else {
        sum_checks(sections.drop_last()) + sections.last().total
    }
}

proof fn lemma_regions_with_checks_step(table: &ChecksTableData, i: int)
    requires
        0 <= i < table.region_names@.len(),
    ensures
        regions_with_checks_upto(table, i + 1) == if region_checks(table, table.region_names@[i]@).len() > 0 {
            regions_with_checks_upto(table, i).push(table.region_names@[i])
        } else {
            regions_with_checks_upto(table, i)
        },
{
    let names = table.region_names@;
    assert(names.take(i + 1).drop_last() =~= names.take(i));
    assert(names.take(i + 1).last() == names[i]);
    reveal_with_fuel(Seq::filter, 1);
}

/// One section per display region that has checks, in display order (the player's region is
/// marked current), with summed done and check counts.
pub fn build_all_check_sections<S: GameStateSource>(
    table: &ChecksTableData,
    source: &S,
    seed: Option<&ChecksFlagsData>,
    current_region: Option<&str>,
) -> (r: (Vec<CheckPanelSection>, u32, u32))
    requires
        check_counts_fit(table),
    ensures
        forall|i: int| 0 <= i < r.0@.len() ==> listed_section(source, #[trigger] r.0@[i], table, seed, region_text(current_region)),
        covers_regions(r.0@, table, table.region_names@.len() as int),
        check_section_regions(r.0@) == regions_with_checks(table),
        r.1 == sum_done(r.0@),
        r.2 == sum_checks(r.0@),
        r.1 <= r.2,
{
    proof {
        assert(table.region_names@.take(0).filter(|name: String| region_checks(table, name@).len() > 0)
            =~= Seq::<String>::empty()) by {
            reveal_with_fuel(Seq::filter, 1);
        }
        assert(table.region_names@.take(table.region_names@.len() as int) =~= table.region_names@);
    }
    let regions = checks_region_names(table);
    let mut sections: Vec<CheckPanelSection> = Vec::new();
    let mut done_total: u32 = 0;
    let mut check_total: u32 = 0;
    let mut i: usize = 0;
    while i < regions.len()
        invariant
            i <= regions.len(),
            regions@ == table.region_names@,
            check_counts_fit(table),
            check_total == check_rows_upto(table, i as int),
            done_total <= check_total,
            forall|k: int| 0 <= k < sections@.len() ==> listed_section(source, #[trigger] sections@[k], table, seed, region_text(current_region)),
            covers_regions(sections@, table, i as int),
            check_section_regions(sections@) == regions_with_checks_upto(table, i as int),
            done_total == sum_done(sections@),
            check_total == sum_checks(sections@),
        decreases regions.len() - i,
    {
        let region = &regions[i];
        let (rows, done, total) = check_rows_for_region(table, source, seed, region.as_str());
        proof {
            table.checks@.filter_lemma(|c: CheckEntry| c.region@ == region@);
            lemma_done_rows_bound(rows@);
            lemma_regions_with_checks_step(table, i as int);
            lemma_check_rows_monotone(table, i + 1, table.region_names@.len() as int);
        }
        if rows.len() > 0 {
            done_total += done;
            check_total += total;
            let is_current = match current_region {
                Some(c) => str_eq(c, region.as_str()),
                None => false,
            };
            assert(table.region_names@[i as int] == *region);
            let ghost before = sections@;
            sections.push(CheckPanelSection { region: region.clone(), is_current, rows, done, total });
            proof {
                assert(sections@.drop_last() =~= before);
                assert(check_section_regions(sections@) =~= check_section_regions(before).push(*region));
                assert forall|k: int|
                    0 <= k < i + 1 && region_checks(table, table.region_names@[k]@).len() > 0 implies #[trigger] listed(
                    sections@,
                    table.region_names@[k],
                ) by {
                    if k < i {
                        assert(listed(before, table.region_names@[k]));
                        let j = choose|j: int| 0 <= j < before.len() && #[trigger] before[j].region == table.region_names@[k];
                        assert(sections@[j] == before[j]);
                    } else {
                        assert(sections@[before.len() as int].region == table.region_names@[k]);
                    }
                }
            }
        } else {
            proof {
                assert forall|k: int|
                    0 <= k < i + 1 && region_checks(table, table.region_names@[k]@).len() > 0 implies #[trigger] listed(
                    sections@,
                    table.region_names@[k],
                ) by {
                    if k == i {
                        assert(table.region_names@[k] == *region);
                    }
                }
            }
        }
        i += 1;
    }
    (sections, done_total, check_total)
}

/// The checks panel for a scope: in current-region scope with a known region, that region's
/// single section (possibly empty); otherwise every region that has checks.
pub fn build_checks_panel_sections<S: GameStateSource>(
    table: &ChecksTableData,
    source: &S,
    seed: Option<&ChecksFlagsData>,
    scope: BossPanelScope,
    current_region: Option<&str>,
) -> (r: (Vec<CheckPanelSection>, u32, u32))
    requires
        check_counts_fit(table),
    ensures
        r.1 <= r.2,
        (scope == BossPanelScope::CurrentRegion && current_region is Some) ==> {
            let checks = region_checks(table, current_region->0@);
            let s = r.0@[0];
            &&& r.0@.len() == 1
            &&& s.region@ == current_region->0@
            &&& s.is_current
            &&& s.rows@.len() == checks.len()
            &&& forall|k: int| 0 <= k < s.rows@.len() ==> check_row_shows(source, #[trigger] s.rows@[k], checks[k], seed)
            &&& s.done == done_rows(s.rows@) && s.total == s.rows@.len()
            &&& r.1 == s.done && r.2 == s.total
        },
        !(scope == BossPanelScope::CurrentRegion && current_region is Some) ==> {
            &&& forall|i: int| 0 <= i < r.0@.len() ==> listed_section(source, #[trigger] r.0@[i], table, seed, region_text(current_region))
            &&& covers_regions(r.0@, table, table.region_names@.len() as int)
            &&& check_section_regions(r.0@) == regions_with_checks(table)
            &&& r.1 == sum_done(r.0@) && r.2 == sum_checks(r.0@)
        },
{
    match scope {
        BossPanelScope::CurrentRegion => {
            if let Some(region) = current_region {
                let (rows, done, total) = check_rows_for_region(table, source, seed, region);
                proof {
                    lemma_done_rows_bound(rows@);
                }
                let section = CheckPanelSection {
                    region: string_of(region),
                    is_current: true,
                    rows,
                    done,
                    total,
                };
                let mut v: Vec<CheckPanelSection> = Vec::new();
                v.push(section);
                (v, done, total)
            } else {
                build_all_check_sections(table, source, seed, current_region)
            }
        },
        BossPanelScope::AllRegions => build_all_check_sections(table, source, seed, current_region),
    }
}

fn push_u32(out: &mut Vec<char>, n: u32)
    ensures
        final(out)@ == old(out)@ + decimal(n as nat),
{
    let mut d = decimal_chars(n);
    out.append(&mut d);
}

/// `region (done/total)`.
pub open spec fn check_section_text(region: Seq<char>, done: u32, total: u32) -> Seq<char> {
    region + " ("@ + decimal(done as nat) + "/"@ + decimal(total as nat) + ")"@
}

/// The label of a region's section: its name and its done count.
pub fn check_section_label(section: &CheckPanelSection) -> (s: String)
    ensures
        s@ == check_section_text(section.region@, section.done, section.total),
{
    let mut v: Vec<char> = Vec::new();
    append_str(&mut v, section.region.as_str());
    append_str(&mut v, " (");
    push_u32(&mut v, section.done);
    append_str(&mut v, "/");
    push_u32(&mut v, section.total);
    append_str(&mut v, ")");
    assert(v@ =~= check_section_text(section.region@, section.done, section.total));
    string_from_chars(&v)
}

/// The ` [seed]` tag shown while a per-seed mapping is loaded.
pub open spec fn seed_tag(active: bool) -> Seq<char> {
    if active {
        " [seed]"@
    } else {
        Seq::empty()
    }
}

/// The panel header: in current-region scope the first section's label (none without a
/// section); in all-regions scope the overall count and the player's region (`?` if unknown);
/// either way followed by the seed tag.
pub open spec fn checks_header_text(vm: OverlayViewModel) -> Option<Seq<char>> {
    match vm.checks_panel_scope {
        BossPanelScope::CurrentRegion => if vm.checks_panel_sections@.len() > 0 {
            let s = vm.checks_panel_sections@[0];
            Some(check_section_text(s.region@, s.done, s.total) + seed_tag(vm.checks_seed_active))
        } else {
            None
        },
        BossPanelScope::AllRegions => Some(
            "Checks "@ + decimal(vm.checks_panel_done as nat) + "/"@ + decimal(
                vm.checks_panel_total as nat,
            ) + " - region: "@ + match vm.checks_current_region {
                Some(r) => r@,
                None => "?"@,
            } + seed_tag(vm.checks_seed_active),
        ),
    }
}

pub fn checks_panel_header(vm: &OverlayViewModel) -> (s: Option<String>)
    ensures
        match s {
            Some(t) => checks_header_text(*vm) == Some(t@),
            None => checks_header_text(*vm) is None,
        },
{
    let mut v: Vec<char> = Vec::new();
    match vm.checks_panel_scope {
        BossPanelScope::CurrentRegion => {
            if vm.checks_panel_sections.len() == 0 {
                return None;
            }
            let s = &vm.checks_panel_sections[0];
            append_str(&mut v, s.region.as_str());
            append_str(&mut v, " (");
            push_u32(&mut v, s.done);
            append_str(&mut v, "/");
            push_u32(&mut v, s.total);
            append_str(&mut v, ")");
        },
        BossPanelScope::AllRegions => {
            append_str(&mut v, "Checks ");
            push_u32(&mut v, vm.checks_panel_done);
            append_str(&mut v, "/");
            push_u32(&mut v, vm.checks_panel_total);
            append_str(&mut v, " - region: ");
            match &vm.checks_current_region {
                Some(r) => append_str(&mut v, r.as_str()),
                None => append_str(&mut v, "?"),
            }
        },
    }
    let ghost base = v@;
    if vm.checks_seed_active {
        append_str(&mut v, " [seed]");
    }
    assert(v@ =~= base + seed_tag(vm.checks_seed_active));
    proof {
        match vm.checks_panel_scope {
            BossPanelScope::CurrentRegion => {
                let s = vm.checks_panel_sections@[0];
                assert(base =~= check_section_text(s.region@, s.done, s.total));
            },
            BossPanelScope::AllRegions => {
                assert(base =~= "Checks "@ + decimal(vm.checks_panel_done as nat) + "/"@ + decimal(
                    vm.checks_panel_total as nat,
                ) + " - region: "@ + match vm.checks_current_region {
                    Some(r) => r@,
                    None => "?"@,
                });
            },
        }
    }
    assert(Some(v@) == checks_header_text(*vm));
    Some(string_from_chars(&v))
}

/// A check line: its name, marked ` [DLC]` for the expansion; an untraceable line is
/// prefixed with `- ` (it is listed, not ticked).
pub open spec fn check_label_text(row: CheckPanelRow) -> Seq<char> {
    let name = if row.dlc {
        row.name@ + " [DLC]"@
    } else {
        row.name@
    };
    if row.traceable {
        name
    } else {
        "- "@ + name
    }
}

pub fn check_row_label(row: &CheckPanelRow) -> (s: String)
    ensures
        s@ == check_label_text(*row),
{
    let mut v: Vec<char> = Vec::new();
    if !row.traceable {
        append_str(&mut v, "- ");
    }
    append_str(&mut v, row.name.as_str());
    if row.dlc {
        append_str(&mut v, " [DLC]");
    }
    assert(v@ =~= check_label_text(*row));
    string_from_chars(&v)
}

/// Whether a check line is drawn ticked: only a traceable check read as done.
pub fn check_row_ticked(row: &CheckPanelRow) -> (b: bool)
    ensures
        b == (row.traceable && row.done == Some(true)),
{
    row.traceable && match row.done {
        Some(d) => d,
        None => false,
    }
}

/// The tooltip of a check line: its place (for a traceable line, a note when it is unknown),
/// and for an untraceable line a note that it cannot be tracked this seed.
pub open spec fn check_tooltip_lines(row: CheckPanelRow) -> Seq<Seq<char>> {
    if row.traceable {
        match row.place {
            Some(p) => seq![p@],
            None => seq!["(unknown location)"@],
        }
    } else {
        match row.place {
            Some(p) => seq![p@, "Untraceable this seed (no acquisition flag)"@],
            None => seq!["Untraceable this seed (no acquisition flag)"@],
        }
    }
}

pub fn check_tooltip(row: &CheckPanelRow) -> (lines: Vec<String>)
    ensures
        lines@.map_values(|s: String| s@) == check_tooltip_lines(*row),
{
    let mut lines: Vec<String> = Vec::new();
    match &row.place {
        Some(p) => lines.push(p.clone()),
        None => if row.traceable {
            lines.push(string_of("(unknown location)"));
        },
    }
    if !row.traceable {
        lines.push(string_of("Untraceable this seed (no acquisition flag)"));
    }
    assert(lines@.map_values(|s: String| s@) =~= check_tooltip_lines(*row));
    lines
}

/// Index of the first section marked current.
pub fn current_check_section_index(sections: &Vec<CheckPanelSection>) -> (r: Option<usize>)
    ensures
        match r {
            Some(i) => i < sections@.len() && sections@[i as int].is_current && forall|j: int|
                0 <= j < i ==> !(#[trigger] sections@[j]).is_current,
            None => forall|j: int| 0 <= j < sections@.len() ==> !(#[trigger] sections@[j]).is_current,
        },
{
    let mut i: usize = 0;
    while i < sections.len()
        invariant
            i <= sections.len(),
            forall|j: int| 0 <= j < i ==> !(#[trigger] sections@[j]).is_current,
        decreases sections.len() - i,
    {
        if sections[i].is_current {
            return Some(i);
        }
        i += 1;
    }
    None
}

/// Which region trees the all-regions list forces open or closed: on the frame the player's
/// region changes, the current region's tree is opened and every other one closed; on other
/// frames the trees keep whatever state the user gave them.
pub struct RegionFollow {
    last_current_section: Option<usize>,
}

impl View for RegionFollow {
    type V = Option<usize>;

    closed spec fn view(&self) -> Option<usize> {
        self.last_current_section
    }
}

/// Forced state of tree `i` on a frame: `None` leaves it as it is.
pub open spec fn forced_open(just_changed: bool, current_index: Option<usize>, i: usize) -> Option<bool> {
    if just_changed {
        Some(current_index == Some(i))
    } else {
        None
    }
}

impl RegionFollow {
    pub fn new() -> (f: Self)
        ensures
            f@ is None,
    {
        RegionFollow { last_current_section: None }
    }

    /// One frame: whether the current region changed since the last frame.
    pub fn frame(&mut self, current_index: Option<usize>) -> (just_changed: bool)
        ensures
            just_changed == (old(self)@ != current_index),
            final(self)@ == current_index,
    {
        let changed = self.last_current_section != current_index;
        if changed {
            self.last_current_section = current_index;
        }
        changed
    }

    /// Forced state of tree `i` on a frame (see [`forced_open`]).
    pub fn tree_state(just_changed: bool, current_index: Option<usize>, i: usize) -> (r: Option<bool>)
        ensures
            r == forced_open(just_changed, current_index, i),
    {
        if just_changed {
            Some(current_index == Some(i))
        } else {
            None
        }
    }
}

} // verus!
