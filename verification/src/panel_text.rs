//! What the boss checklist panel writes, and when it scrolls to the player's region. The host
//! draws the text and places the window.

use vstd::prelude::*;
use crate::config::BossPanelScope;
use crate::text::{append_str, decimal, decimal_chars, string_from_chars};
use crate::view_model::{BossPanelRow, BossPanelSection, OverlayViewModel};

verus! {

/// `region (killed/total)`.
pub open spec fn section_label_text(region: Seq<char>, killed: u32, total: u32) -> Seq<char> {
    region + " ("@ + decimal(killed as nat) + "/"@ + decimal(total as nat) + ")"@
}

fn push_u32(out: &mut Vec<char>, n: u32)
    ensures
        final(out)@ == old(out)@ + decimal(n as nat),
{
    let mut d = decimal_chars(n);
    out.append(&mut d);
}

/// The label of a region's section: its name and its kill count.
pub fn section_label(section: &BossPanelSection) -> (s: String)
    ensures
        s@ == section_label_text(section.region@, section.killed, section.total),
{
    let mut v: Vec<char> = Vec::new();
    append_str(&mut v, section.region.as_str());
    append_str(&mut v, " (");
    push_u32(&mut v, section.killed);
    append_str(&mut v, "/");
    push_u32(&mut v, section.total);
    append_str(&mut v, ")");
    assert(v@ =~= section_label_text(section.region@, section.killed, section.total));
    string_from_chars(&v)
}

/// A boss line: its name, marked ` [DLC]` for the expansion.
pub open spec fn boss_label_text(row: BossPanelRow) -> Seq<char> {
    if row.dlc {
        row.name@ + " [DLC]"@
    } else {
        row.name@
    }
}

pub fn boss_row_label(row: &BossPanelRow) -> (s: String)
    ensures
        s@ == boss_label_text(*row),
{
    let mut v: Vec<char> = Vec::new();
    append_str(&mut v, row.name.as_str());
    if row.dlc {
        append_str(&mut v, " [DLC]");
    }
    assert(v@ =~= boss_label_text(*row));
    string_from_chars(&v)
}

/// Whether a boss line is drawn checked: only a kill that was read.
pub fn boss_row_checked(row: &BossPanelRow) -> (b: bool)
    ensures
        b == (row.killed == Some(true)),
{
    match row.killed {
        Some(k) => k,
        None => false,
    }
}

/// The tooltip of a boss line: its place, or a note that it is unknown.
pub open spec fn boss_tooltip_text(row: BossPanelRow) -> Seq<char> {
    match row.place {
        Some(p) => p@,
        None => "(unknown location)"@,
    }
}

pub fn boss_tooltip(row: &BossPanelRow) -> (s: String)
    ensures
        s@ == boss_tooltip_text(*row),
{
    let mut v: Vec<char> = Vec::new();
    match &row.place {
        Some(p) => append_str(&mut v, p.as_str()),
        None => append_str(&mut v, "(unknown location)"),
    }
    assert(v@ =~= boss_tooltip_text(*row));
    string_from_chars(&v)
}

/// The panel header: in current-region scope the first section's label (none without a
/// section); in all-regions scope the overall count and the player's region (`?` if unknown).
pub open spec fn header_text(vm: OverlayViewModel) -> Option<Seq<char>> {
    match vm.boss_panel_scope {
        BossPanelScope::CurrentRegion => if vm.boss_panel_sections@.len() > 0 {
            let s = vm.boss_panel_sections@[0];
            Some(section_label_text(s.region@, s.killed, s.total))
        } else {
            None
        },
        BossPanelScope::AllRegions => Some(
            "Bosses "@ + decimal(vm.boss_panel_killed as nat) + "/"@ + decimal(
                vm.boss_panel_total as nat,
            ) + " — region: "@ + match vm.current_region {
                Some(r) => r@,
                None => "?"@,
            },
        ),
    }
}

pub fn boss_panel_header(vm: &OverlayViewModel) -> (s: Option<String>)
    ensures
        match s {
            Some(t) => header_text(*vm) == Some(t@),
            None => header_text(*vm) is None,
        },
{
    match vm.boss_panel_scope {
        BossPanelScope::CurrentRegion => {
            if vm.boss_panel_sections.len() > 0 {
                Some(section_label(&vm.boss_panel_sections[0]))
            } else {
                None
            }
        },
        BossPanelScope::AllRegions => {
            let mut v: Vec<char> = Vec::new();
            append_str(&mut v, "Bosses ");
            push_u32(&mut v, vm.boss_panel_killed);
            append_str(&mut v, "/");
            push_u32(&mut v, vm.boss_panel_total);
            append_str(&mut v, " — region: ");
            match &vm.current_region {
                Some(r) => append_str(&mut v, r.as_str()),
                None => append_str(&mut v, "?"),
            }
            assert(Some(v@) == header_text(*vm));
            Some(string_from_chars(&v))
        },
    }
}

/// The second line shown when the player's region is unknown: the raw map id and its table
/// key, or a note that nothing could be read.
pub open spec fn unknown_region_text(id: Option<u32>) -> Seq<char> {
    match id {
        Some(i) => "map_id: "@ + decimal(i as nat) + " (key: "@ + decimal((i / 1000) as nat) + ")"@,
        None => "(not in-game or data unavailable)"@,
    }
}

pub fn unknown_region_detail(id: Option<u32>) -> (s: String)
    ensures
        s@ == unknown_region_text(id),
{
    let mut v: Vec<char> = Vec::new();
    match id {
        Some(i) => {
            append_str(&mut v, "map_id: ");
            push_u32(&mut v, i);
            append_str(&mut v, " (key: ");
            push_u32(&mut v, i / 1000);
            append_str(&mut v, ")");
        },
        None => append_str(&mut v, "(not in-game or data unavailable)"),
    }
    assert(v@ =~= unknown_region_text(id));
    string_from_chars(&v)
}

/// Index of the first section marked current.
pub fn current_section_index(sections: &Vec<BossPanelSection>) -> (r: Option<usize>)
    ensures
        match r {
            Some(i) => i < sections@.len() && sections@[i as int].is_current && forall|j: int|
                0 <= j < i ==> !(#[trigger] sections@[j]).is_current,
            None => forall|j: int| 0 <= j < sections@.len() ==> !(#[trigger] sections@[j]).is_current,
        },
{
    let mut i: usize = 0;
    while i < sections.len()
        invariant
            i <= sections.len(),
            forall|j: int| 0 <= j < i ==> !(#[trigger] sections@[j]).is_current,
        decreases sections.len() - i,
    {
        if sections[i].is_current {
            return Some(i);
        }
        i += 1;
    }
    None
}

/// When the all-regions list scrolls to the player's region: on the frame where the index of
/// the current region differs from the one last scrolled to (reopening the panel forgets it).
pub struct SectionScroll {
    last_scrolled_section: Option<usize>,
    follow_up_frames: u8,
}

pub ghost struct ScrollModel {
    /// Index of the region last scrolled to (`None`: none, or no current region).
    pub last: Option<usize>,
    /// Pending extra scroll frames.
    pub follow_up_frames: u8,
}

impl View for SectionScroll {
    type V = ScrollModel;

    closed spec fn view(&self) -> ScrollModel {
        ScrollModel { last: self.last_scrolled_section, follow_up_frames: self.follow_up_frames }
    }
}

/// One frame: a change of the current region scrolls and arms one follow-up frame, which the
/// same frame consumes; otherwise a pending follow-up frame scrolls.
pub open spec fn scroll_step(m: ScrollModel, current_index: Option<usize>) -> (ScrollModel, bool) {
    let changed = m.last != current_index;
    let armed: u8 = if changed {
        1
    } else {
        m.follow_up_frames
    };
    let consumed = armed > 0;
    (
        ScrollModel {
            last: current_index,
            follow_up_frames: if consumed {
                (armed - 1) as u8
            } else {
                0
            },
        },
        changed || consumed,
    )
}

impl SectionScroll {
    pub fn new() -> (s: Self)
        ensures
            s@ == (ScrollModel { last: None, follow_up_frames: 0 }),
    {
        SectionScroll { last_scrolled_section: None, follow_up_frames: 0 }
    }

    /// The panel is shown again.
    pub fn on_reopened(&mut self)
        ensures
            final(self)@ == (ScrollModel { last: None, follow_up_frames: 0 }),
    {
        self.last_scrolled_section = None;
        self.follow_up_frames = 0;
    }

    /// One frame: whether to scroll the current region into view, given its index.
    pub fn frame(&mut self, current_index: Option<usize>) -> (scroll: bool)
        ensures
            (final(self)@, scroll) == scroll_step(old(self)@, current_index),
    {
        let changed = self.last_scrolled_section != current_index;
        if changed {
            self.last_scrolled_section = current_index;
            self.follow_up_frames = 1;
        }
        let follow_up = if self.follow_up_frames > 0 {
            self.follow_up_frames = self.follow_up_frames - 1;
            true
        } else {
            false
        };
        changed || follow_up
    }
}

} // verus!
