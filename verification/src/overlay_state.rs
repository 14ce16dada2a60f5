//! What the overlay shows, as a state machine driven by the host: which layout section is
//! active, whether the HUD and the boss / checks panels are visible, and the hotkeys parsed
//! from the configuration. The host reads keys and files and hands the events in.

use vstd::prelude::*;
use crate::hotkey::{parse_hotkey, HotkeyBinding};
use crate::layout::{strings_view, LayoutConfig};
use crate::text::{str_eq, string_of};

verus! {

/// Which section of the layout is active, and the section names it was chosen among.
pub struct LayoutSectionState {
    pub active_index: usize,
    pub known_sections: Vec<String>,
}

/// Visibility of the HUD and of the two side panels.
#[derive(Debug, Clone, Copy, PartialEq, Eq, Structural)]
pub struct PanelVisibility {
    pub show_overlay: bool,
    pub show_boss_panel: bool,
    pub show_checks_panel: bool,
}

impl PanelVisibility {
    /// The boss and checks panels are never open together.
    pub open spec fn exclusive(self) -> bool {
        !(self.show_boss_panel && self.show_checks_panel)
    }

    /// Start-up visibility from the configuration: when both panels are configured visible the
    /// boss panel wins.
    pub fn from_config(overlay_visible: bool, boss_panel_visible: bool, checks_panel_visible: bool) -> (p: Self)
        ensures
            p.exclusive(),
            p.show_overlay == overlay_visible,
            p.show_boss_panel == boss_panel_visible,
            p.show_checks_panel == (checks_panel_visible && !boss_panel_visible),
    {
        PanelVisibility {
            show_overlay: overlay_visible,
            show_boss_panel: boss_panel_visible,
            show_checks_panel: checks_panel_visible && !boss_panel_visible,
        }
    }

    /// The boss-panel hotkey: flips the boss panel and shows the HUD; opening it closes the
    /// checks panel. Returns whether the panel was opened.
    pub fn toggle_boss_panel(&mut self) -> (opening: bool)
        ensures
            opening == !old(self).show_boss_panel,
            final(self).show_boss_panel == opening,
            final(self).show_overlay,
            final(self).show_checks_panel == (old(self).show_checks_panel && !opening),
            final(self).exclusive(),
    {
        let opening = !self.show_boss_panel;
        self.show_boss_panel = opening;
        self.show_overlay = true;
        if opening {
            self.show_checks_panel = false;
        }
        opening
    }

    /// The checks-panel hotkey: flips the checks panel and shows the HUD; opening it closes the
    /// boss panel. Returns whether the panel was opened.
    pub fn toggle_checks_panel(&mut self) -> (opening: bool)
        ensures
            opening == !old(self).show_checks_panel,
            final(self).show_checks_panel == opening,
            final(self).show_overlay,
            final(self).show_boss_panel == (old(self).show_boss_panel && !opening),
            final(self).exclusive(),
    {
        let opening = !self.show_checks_panel;
        self.show_checks_panel = opening;
        self.show_overlay = true;
        if opening {
            self.show_boss_panel = false;
        }
        opening
    }

    /// The hide-all hotkey: flips the whole overlay, panels untouched.
    pub fn toggle_overlay(&mut self)
        ensures
            *final(self) == (PanelVisibility { show_overlay: !old(self).show_overlay, ..*old(self) }),
    {
        self.show_overlay = !self.show_overlay;
    }

    /// Closes both panels (an extended section is shown).
    pub fn hide_panels(&mut self)
        ensures
            *final(self) == (PanelVisibility {
                show_boss_panel: false,
                show_checks_panel: false,
                ..*old(self)
            }),
    {
        self.show_boss_panel = false;
        self.show_checks_panel = false;
    }

    /// `(boss, checks)` panels actually drawn: only beside the compact section.
    pub fn panels_drawn(&self, section_allows: bool) -> (r: (bool, bool))
        ensures
            r == (self.show_boss_panel && section_allows, self.show_checks_panel && section_allows),
    {
        (self.show_boss_panel && section_allows, self.show_checks_panel && section_allows)
    }
}

/// The compact (minimalist) section: the configured default section if the layout has it, else
/// the layout's own default; 0 without a layout.
pub open spec fn compact_index(layout: Option<&LayoutConfig>, default_section: Option<Seq<char>>) -> nat {
    match layout {
        None => 0,
        Some(l) => match default_section {
            Some(n) if l.spec_section_index(n) is Some => l.spec_section_index(n)->0,
            _ => l.spec_default_section_index(None),
        },
    }
}

pub fn compact_layout_section_index(layout: Option<&LayoutConfig>, default_section: Option<&str>) -> (i:
    usize)
    ensures
        i == compact_index(
            layout,
            match default_section {
                Some(s) => Some(s@),
                None => None,
            },
        ),
{
    match layout {
        None => 0,
        Some(l) => {
            if let Some(name) = default_section {
                if let Some(idx) = l.section_index(name) {
                    return idx;
                }
            }
            l.resolve_default_section_index(None)
        },
    }
}

/// The section-cycle hotkey moves to the next section, wrapping around. It applies only to a
/// layout of two sections or more.
pub fn next_section(active_index: usize, section_count: usize) -> (i: usize)
    requires
        section_count >= 2,
    ensures
        i == (active_index as int + 1) % (section_count as int),
{
    if active_index >= section_count {
        proof {
            vstd::arithmetic::div_mod::lemma_add_mod_noop(active_index as int, 1, section_count as int);
            vstd::arithmetic::div_mod::lemma_small_mod(1, section_count as nat);
            vstd::arithmetic::div_mod::lemma_mod_pos_bound(active_index as int, section_count as int);
        }
        ((active_index % section_count) + 1) % section_count
    } else if active_index + 1 == section_count {
        proof {
            vstd::arithmetic::div_mod::lemma_mod_self_0(section_count as int);
        }
        0
    } else {
        proof {
            vstd::arithmetic::div_mod::lemma_small_mod((active_index + 1) as nat, section_count as nat);
        }
        active_index + 1
    }
}

pub open spec fn min_nat(a: nat, b: nat) -> nat {
    if a <= b {
        a
    } else {
        b
    }
}

/// The section state after a (re)load of `layout`. Without a layout: section 0, no names.
/// With unchanged section names the index is clamped and, on an empty section, moved to the
/// default section. With new names the previously active section is looked up by name
/// (else the default section), clamped, and moved to the default section if it has no tiles.
pub open spec fn synced_section(
    active: nat,
    known: Seq<Seq<char>>,
    layout: Option<&LayoutConfig>,
    default_section: Option<Seq<char>>,
) -> (nat, Seq<Seq<char>>) {
    match layout {
        None => (0, Seq::empty()),
        Some(l) => {
            let names = l.spec_section_names();
            let count = l.spec_section_count();
            let max: nat = if count == 0 {
                0
            } else {
                (count - 1) as nat
            };
            let d = min_nat(l.spec_default_section_index(default_section), max);
            if known == names {
                let a1 = min_nat(active, max);
                if l.spec_tiles_for_section(a1 as int).len() == 0 && max > 0 {
                    (d, known)
                } else {
                    (a1, known)
                }
            } else {
                let found = if active < known.len() {
                    l.spec_section_index(known[active as int])
                } else {
                    None
                };
                let new_index = match found {
                    Some(i) => i,
                    None => l.spec_default_section_index(default_section),
                };
                let a1 = min_nat(new_index, max);
                if l.spec_tiles_for_section(a1 as int).len() == 0 {
                    (d, names)
                } else {
                    (a1, names)
                }
            }
        },
    }
}

fn same_strings(a: &Vec<String>, b: &Vec<String>) -> (r: bool)
    ensures
        r == (strings_view(a@) == strings_view(b@)),
{
    if a.len() != b.len() {
        assert(strings_view(a@).len() != strings_view(b@).len());
        return false;
    }
    let mut i: usize = 0;
    while i < a.len()
        invariant
            i <= a.len(),
            a.len() == b.len(),
            forall|k: int| 0 <= k < i ==> a@[k]@ == b@[k]@,
        decreases a.len() - i,
    {
        if !str_eq(a[i].as_str(), b[i].as_str()) {
            assert(strings_view(a@)[i as int] != strings_view(b@)[i as int]);
            return false;
        }
        i += 1;
    }
    assert(strings_view(a@) =~= strings_view(b@));
    true
}

fn owned_names(names: &Vec<&str>) -> (v: Vec<String>)
    ensures
        strings_view(v@) == names@.map_values(|s: &str| s@),
{
    let mut v: Vec<String> = Vec::new();
    let mut i: usize = 0;
    while i < names.len()
        invariant
            i <= names.len(),
            strings_view(v@) =~= names@.take(i as int).map_values(|s: &str| s@),
        decreases names.len() - i,
    {
        let ghost before = v@;
        v.push(string_of(names[i]));
        assert(strings_view(v@) =~= strings_view(before).push(names@[i as int]@));
        assert(names@.take(i + 1) =~= names@.take(i as int).push(names@[i as int]));
        i += 1;
    }
    assert(names@.take(names.len() as int) =~= names@);
    v
}

impl LayoutSectionState {
    pub fn new() -> (s: Self)
        ensures
            s.active_index == 0,
            s.known_sections@.len() == 0,
    {
        LayoutSectionState { active_index: 0, known_sections: Vec::new() }
    }

    /// Re-chooses the active section after the layout was (re)loaded.
    pub fn sync(&mut self, layout: Option<&LayoutConfig>, default_section: Option<&str>)
        ensures
            (final(self).active_index as nat, strings_view(final(self).known_sections@)) == synced_section(
                old(self).active_index as nat,
                strings_view(old(self).known_sections@),
                layout,
                match default_section {
                    Some(s) => Some(s@),
                    None => None,
                },
            ),
    {
        let l = match layout {
            None => {
                self.active_index = 0;
                self.known_sections = Vec::new();
                assert(strings_view(self.known_sections@) =~= Seq::<Seq<char>>::empty());
                return;
            },
            Some(l) => l,
        };
        let name_refs = l.section_names();
        let names = owned_names(&name_refs);
        let count = l.section_count();
        let max = if count == 0 {
            0
        } else {
            count - 1
        };
        let d0 = l.resolve_default_section_index(default_section);
        let d = if d0 <= max {
            d0
        } else {
            max
        };
        if same_strings(&self.known_sections, &names) {
            if self.active_index > max {
                self.active_index = max;
            }
            if l.tiles_for_section(self.active_index).len() == 0 && max > 0 {
                self.active_index = d;
            }
            return;
        }
        let found = if self.active_index < self.known_sections.len() {
            l.section_index(self.known_sections[self.active_index].as_str())
        } else {
            None
        };
        let new_index = match found {
            Some(i) => i,
            None => d0,
        };
        self.active_index = if new_index <= max {
            new_index
        } else {
            max
        };
        self.known_sections = names;
        if l.tiles_for_section(self.active_index).len() == 0 {
            self.active_index = d;
        }
    }

    /// The section-cycle hotkey on `layout`; returns whether it applied (two sections or more)
    /// and, if so, whether the new section is not the compact one (the panels are then hidden).
    pub fn cycle(&mut self, layout: &LayoutConfig, default_section: Option<&str>) -> (r: (bool, bool))
        ensures
            r.0 == (layout.spec_section_count() >= 2),
            !r.0 ==> final(self).active_index == old(self).active_index,
            r.0 ==> final(self).active_index == (old(self).active_index as int + 1) % (
            layout.spec_section_count() as int),
            r.1 == (r.0 && final(self).active_index != compact_index(
                Some(layout),
                match default_section {
                    Some(s) => Some(s@),
                    None => None,
                },
            )),
            final(self).known_sections@ == old(self).known_sections@,
    {
        let count = layout.section_count();
        if count < 2 {
            return (false, false);
        }
        self.active_index = next_section(self.active_index, count);
        let compact = compact_layout_section_index(Some(layout), default_section);
        (true, self.active_index != compact)
    }
}

/// The section-cycle hotkey on `layout`, as `(active index, panels)`: with two sections or
/// more it shows the HUD and moves to the next section, wrapping around, and away from the
/// compact section it closes both panels; with fewer it changes nothing.
pub open spec fn cycled(
    active: nat,
    panels: PanelVisibility,
    layout: &LayoutConfig,
    default_section: Option<Seq<char>>,
) -> (nat, PanelVisibility) {
    let count = layout.spec_section_count();
    if count >= 2 {
        let a = ((active + 1) as int % (count as int)) as nat;
        if a != compact_index(Some(layout), default_section) {
            (a, PanelVisibility { show_overlay: true, show_boss_panel: false, show_checks_panel: false })
        } else {
            (a, PanelVisibility { show_overlay: true, ..panels })
        }
    } else {
        (active, panels)
    }
}

/// A panel hotkey, as `(active index, panels, opened)`: it flips that panel and shows the HUD;
/// opening it closes the other panel and returns to the compact section.
pub open spec fn toggled(
    panel: Panel,
    active: nat,
    panels: PanelVisibility,
    layout: Option<&LayoutConfig>,
    default_section: Option<Seq<char>>,
) -> (nat, PanelVisibility, bool) {
    let opening = if panel == Panel::Boss {
        !panels.show_boss_panel
    } else {
        !panels.show_checks_panel
    };
    let p = if panel == Panel::Boss {
        PanelVisibility {
            show_overlay: true,
            show_boss_panel: opening,
            show_checks_panel: panels.show_checks_panel && !opening,
        }
    } else {
        PanelVisibility {
            show_overlay: true,
            show_boss_panel: panels.show_boss_panel && !opening,
            show_checks_panel: opening,
        }
    };
    (
        if opening {
            compact_index(layout, default_section)
        } else {
            active
        },
        p,
        opening,
    )
}

/// The section-cycle hotkey, applied to the section state and the panels: on a layout of two
/// sections or more it shows the HUD, moves to the next section and, away from the compact
/// section, closes both panels. Returns whether it applied.
pub fn cycle_section(
    sections: &mut LayoutSectionState,
    panels: &mut PanelVisibility,
    layout: &LayoutConfig,
    default_section: Option<&str>,
) -> (applied: bool)
    ensures
        applied == (layout.spec_section_count() >= 2),
        (final(sections).active_index as nat, *final(panels)) == cycled(
            old(sections).active_index as nat,
            *old(panels),
            layout,
            opt_s(default_section),
        ),
        final(sections).known_sections@ == old(sections).known_sections@,
        old(panels).exclusive() ==> final(panels).exclusive(),
{
    let (applied, leave_compact) = sections.cycle(layout, default_section);
    if applied {
        panels.show_overlay = true;
        if leave_compact {
            panels.hide_panels();
        }
    }
    applied
}

/// Which panel a hotkey toggles.
#[derive(Debug, Clone, Copy, PartialEq, Eq, Structural)]
pub enum Panel {
    Boss,
    Checks,
}

/// A panel hotkey: flips that panel and shows the HUD; opening it closes the other panel and
/// returns to the compact section. Returns whether the panel was opened (the host then resets
/// its scroll state and refreshes the view model).
pub fn toggle_panel(
    panel: Panel,
    sections: &mut LayoutSectionState,
    panels: &mut PanelVisibility,
    layout: Option<&LayoutConfig>,
    default_section: Option<&str>,
) -> (opening: bool)
    ensures
        (final(sections).active_index as nat, *final(panels), opening) == toggled(
            panel,
            old(sections).active_index as nat,
            *old(panels),
            layout,
            opt_s(default_section),
        ),
        final(panels).exclusive(),
        final(sections).known_sections@ == old(sections).known_sections@,
{
    let opening = match panel {
        Panel::Boss => panels.toggle_boss_panel(),
        Panel::Checks => panels.toggle_checks_panel(),
    };
    if opening {
        sections.active_index = compact_layout_section_index(layout, default_section);
    }
    opening
}

/// A hotkey setting as last applied: its raw text and what it parsed to.
pub struct HotkeySetting {
    pub raw: Option<String>,
    pub parsed: Option<HotkeyBinding>,
}

pub open spec fn opt_view(o: Option<String>) -> Option<Seq<char>> {
    match o {
        Some(s) => Some(s@),
        None => None,
    }
}

impl HotkeySetting {
    /// Applies a configured hotkey text: when it differs from the last one it is re-parsed.
    /// Returns whether the new text is set but invalid (to be reported).
    pub fn sync(&mut self, raw: Option<&str>) -> (invalid: bool)
        ensures
            opt_view(final(self).raw) == match raw {
                Some(s) => Some(s@),
                None => None,
            },
            opt_view(old(self).raw) == opt_view(final(self).raw) ==> final(self).parsed == old(self).parsed,
            opt_view(old(self).raw) != opt_view(final(self).raw) ==> final(self).parsed == match raw {
                Some(s) => crate::hotkey::hotkey_from_text(s@),
                None => None,
            },
            invalid == (opt_view(old(self).raw) != opt_view(final(self).raw) && raw is Some
                && final(self).parsed is None),
    {
        let same = match (&self.raw, raw) {
            (None, None) => true,
            (Some(a), Some(b)) => str_eq(a.as_str(), b),
            _ => false,
        };
        if same {
            return false;
        }
        match raw {
            Some(r) => {
                self.raw = Some(string_of(r));
                self.parsed = parse_hotkey(r);
                self.parsed.is_none()
            },
            None => {
                self.raw = None;
                self.parsed = None;
                false
            },
        }
    }
}

/// Everything the overlay shows besides the game data: the active section, the panels, and the
/// four hotkeys.
pub struct OverlayUiState {
    pub sections: LayoutSectionState,
    pub panels: PanelVisibility,
    pub section_hotkey: HotkeySetting,
    pub boss_hotkey: HotkeySetting,
    pub checks_hotkey: HotkeySetting,
    pub hide_all_hotkey: HotkeySetting,
}

/// The hotkey texts of the configuration.
pub struct HotkeyTexts<'a> {
    pub section: Option<&'a str>,
    pub boss: Option<&'a str>,
    pub checks: Option<&'a str>,
    pub hide_all: Option<&'a str>,
}

/// Which configured hotkeys are set but invalid (to be reported).
#[derive(Debug, Clone, Copy, PartialEq, Eq, Structural)]
pub struct InvalidHotkeys {
    pub section: bool,
    pub boss: bool,
    pub checks: bool,
    pub hide_all: bool,
}

/// Which hotkeys were pressed this frame (with their modifiers).
#[derive(Debug, Clone, Copy, PartialEq, Eq, Structural)]
pub struct HotkeyPresses {
    pub hide_all: bool,
    pub section: bool,
    pub boss: bool,
    pub checks: bool,
}

/// What the host does after a frame's hotkeys: reset a reopened panel's scroll state and
/// refresh the view model.
#[derive(Debug, Clone, Copy, PartialEq, Eq, Structural)]
pub struct HotkeyEffects {
    pub boss_opened: bool,
    pub checks_opened: bool,
}

pub open spec fn opt_s(o: Option<&str>) -> Option<Seq<char>> {
    match o {
        Some(s) => Some(s@),
        None => None,
    }
}

pub open spec fn parsed_text(o: Option<&str>) -> Option<HotkeyBinding> {
    match o {
        Some(s) => crate::hotkey::hotkey_from_text(s@),
        None => None,
    }
}

/// Which hotkeys parsed (a press of another one does nothing).
pub open spec fn armed(ui: OverlayUiState) -> HotkeyPresses {
    HotkeyPresses {
        hide_all: ui.hide_all_hotkey.parsed is Some,
        section: ui.section_hotkey.parsed is Some,
        boss: ui.boss_hotkey.parsed is Some,
        checks: ui.checks_hotkey.parsed is Some,
    }
}

/// One frame's hotkeys on `(active index, panels)`, in order: hide-all flips the HUD; the
/// section hotkey cycles sections (with a layout, see [`cycled`]); the boss then the checks
/// hotkey toggle their panel (see [`toggled`]). Only presses of `armed` hotkeys count. The
/// effects say which panel was opened (the checks panel when both were).
pub open spec fn after_hotkeys(
    active: nat,
    panels: PanelVisibility,
    presses: HotkeyPresses,
    armed: HotkeyPresses,
    layout: Option<&LayoutConfig>,
    default_section: Option<Seq<char>>,
) -> (nat, PanelVisibility, HotkeyEffects) {
    let p1 = if presses.hide_all && armed.hide_all {
        PanelVisibility { show_overlay: !panels.show_overlay, ..panels }
    } else {
        panels
    };
    let s2 = if presses.section && armed.section && layout is Some {
        cycled(active, p1, layout->0, default_section)
    } else {
        (active, p1)
    };
    let s3 = if presses.boss && armed.boss {
        toggled(Panel::Boss, s2.0, s2.1, layout, default_section)
    } else {
        (s2.0, s2.1, false)
    };
    let s4 = if presses.checks && armed.checks {
        toggled(Panel::Checks, s3.0, s3.1, layout, default_section)
    } else {
        (s3.0, s3.1, false)
    };
    (s4.0, s4.1, HotkeyEffects { boss_opened: s3.2 && !s4.2, checks_opened: s4.2 })
}

/// The boss panel, the checks panel and the other (extended) sections are mutually exclusive:
/// from a state where at most one panel is open, and only on the compact section, any frame's
/// hotkeys lead to such a state again.
pub proof fn law_panels_exclusive_with_extended_sections(
    active: nat,
    panels: PanelVisibility,
    presses: HotkeyPresses,
    armed: HotkeyPresses,
    layout: Option<&LayoutConfig>,
    default_section: Option<Seq<char>>,
)
    requires
        panels.exclusive(),
        (panels.show_boss_panel || panels.show_checks_panel) ==> active == compact_index(layout, default_section),
    ensures
        ({
            let r = after_hotkeys(active, panels, presses, armed, layout, default_section);
            &&& r.1.exclusive()
            &&& (r.1.show_boss_panel || r.1.show_checks_panel) ==> r.0 == compact_index(layout, default_section)
        }),
{
}

impl OverlayUiState {
    /// Start-up state: the hotkeys parsed from their texts, the panels as configured (boss
    /// wins), and the section chosen for the layout. Returns the invalid hotkeys too.
    pub fn new(
        texts: &HotkeyTexts,
        overlay_visible: bool,
        boss_panel_visible: bool,
        checks_panel_visible: bool,
        layout: Option<&LayoutConfig>,
        default_section: Option<&str>,
    ) -> (r: (Self, InvalidHotkeys))
        ensures
            r.0.panels == (PanelVisibility {
                show_overlay: overlay_visible,
                show_boss_panel: boss_panel_visible,
                show_checks_panel: checks_panel_visible && !boss_panel_visible,
            }),
            r.0.panels.exclusive(),
            opt_view(r.0.section_hotkey.raw) == opt_s(texts.section),
            r.0.section_hotkey.parsed == parsed_text(texts.section),
            opt_view(r.0.boss_hotkey.raw) == opt_s(texts.boss),
            r.0.boss_hotkey.parsed == parsed_text(texts.boss),
            opt_view(r.0.checks_hotkey.raw) == opt_s(texts.checks),
            r.0.checks_hotkey.parsed == parsed_text(texts.checks),
            opt_view(r.0.hide_all_hotkey.raw) == opt_s(texts.hide_all),
            r.0.hide_all_hotkey.parsed == parsed_text(texts.hide_all),
            r.1.section == (texts.section is Some && parsed_text(texts.section) is None),
            r.1.boss == (texts.boss is Some && parsed_text(texts.boss) is None),
            r.1.checks == (texts.checks is Some && parsed_text(texts.checks) is None),
            r.1.hide_all == (texts.hide_all is Some && parsed_text(texts.hide_all) is None),
            (r.0.sections.active_index as nat, strings_view(r.0.sections.known_sections@)) == synced_section(
                0,
                Seq::empty(),
                layout,
                opt_s(default_section),
            ),
    {
        let mut section_hotkey = HotkeySetting { raw: None, parsed: None };
        let mut boss_hotkey = HotkeySetting { raw: None, parsed: None };
        let mut checks_hotkey = HotkeySetting { raw: None, parsed: None };
        let mut hide_all_hotkey = HotkeySetting { raw: None, parsed: None };
        let invalid = InvalidHotkeys {
            section: section_hotkey.sync(texts.section),
            boss: boss_hotkey.sync(texts.boss),
            checks: checks_hotkey.sync(texts.checks),
            hide_all: hide_all_hotkey.sync(texts.hide_all),
        };
        let mut sections = LayoutSectionState::new();
        assert(strings_view(sections.known_sections@) =~= Seq::<Seq<char>>::empty());
        sections.sync(layout, default_section);
        let panels = PanelVisibility::from_config(overlay_visible, boss_panel_visible, checks_panel_visible);
        (
            OverlayUiState { sections, panels, section_hotkey, boss_hotkey, checks_hotkey, hide_all_hotkey },
            invalid,
        )
    }

    /// Applies the hotkey texts of a reloaded configuration.
    pub fn sync_hotkeys(&mut self, texts: &HotkeyTexts) -> (invalid: InvalidHotkeys)
        ensures
            opt_view(final(self).section_hotkey.raw) == opt_s(texts.section),
            opt_view(final(self).boss_hotkey.raw) == opt_s(texts.boss),
            opt_view(final(self).checks_hotkey.raw) == opt_s(texts.checks),
            opt_view(final(self).hide_all_hotkey.raw) == opt_s(texts.hide_all),
            final(self).panels == old(self).panels,
            final(self).sections.active_index == old(self).sections.active_index,
    {
        InvalidHotkeys {
            section: self.section_hotkey.sync(texts.section),
            boss: self.boss_hotkey.sync(texts.boss),
            checks: self.checks_hotkey.sync(texts.checks),
            hide_all: self.hide_all_hotkey.sync(texts.hide_all),
        }
    }

    /// One frame's hotkeys, in order: hide-all, section cycle, boss panel, checks panel (see
    /// [`after_hotkeys`]). A press counts only for a hotkey that parsed.
    pub fn handle_hotkeys(&mut self, presses: HotkeyPresses, layout: Option<&LayoutConfig>, default_section: Option<&str>) -> (e:
        HotkeyEffects)
        requires
            old(self).panels.exclusive(),
        ensures
            (final(self).sections.active_index as nat, final(self).panels, e) == after_hotkeys(
                old(self).sections.active_index as nat,
                old(self).panels,
                presses,
                armed(*old(self)),
                layout,
                opt_s(default_section),
            ),
            final(self).panels.exclusive(),
            final(self).sections.known_sections@ == old(self).sections.known_sections@,
    {
        if presses.hide_all && self.hide_all_hotkey.parsed.is_some() {
            self.panels.toggle_overlay();
        }
        if presses.section && self.section_hotkey.parsed.is_some() {
            match layout {
                Some(l) => {
                    cycle_section(&mut self.sections, &mut self.panels, l, default_section);
                },
                None => {},
            }
        }
        let mut boss_opened = false;
        let mut checks_opened = false;
        if presses.boss && self.boss_hotkey.parsed.is_some() {
            boss_opened = toggle_panel(Panel::Boss, &mut self.sections, &mut self.panels, layout, default_section);
        }
        if presses.checks && self.checks_hotkey.parsed.is_some() {
            checks_opened = toggle_panel(Panel::Checks, &mut self.sections, &mut self.panels, layout, default_section);
            if checks_opened {
                boss_opened = false;
            }
        }
        HotkeyEffects { boss_opened, checks_opened }
    }
}

/// What the overlay asks of the game's input on a frame: whether to capture the mouse and
/// the keyboard, and whether the game cursor is to be shown (`Some`) or left alone (`None`).
#[derive(Debug, Clone, Copy, PartialEq, Eq, Structural)]
pub struct InputCapture {
    pub mouse: bool,
    pub keyboard: bool,
    pub show_cursor: Option<bool>,
}

/// With focus-keeping off the overlay captures nothing; with the overlay hidden it captures
/// nothing and hides the cursor; otherwise it captures what the UI wants and shows the cursor
/// while a panel, the debug window or a hovered window needs it.
pub fn input_capture(
    keep_focus: bool,
    show_overlay: bool,
    interactive_visible: bool,
    hovered: bool,
    want_mouse: bool,
    want_keyboard: bool,
) -> (c: InputCapture)
    ensures
        !keep_focus ==> c == (InputCapture { mouse: false, keyboard: false, show_cursor: None }),
        keep_focus && !show_overlay ==> c == (InputCapture {
            mouse: false,
            keyboard: false,
            show_cursor: Some(false),
        }),
        keep_focus && show_overlay ==> c == (InputCapture {
            mouse: want_mouse,
            keyboard: want_keyboard,
            show_cursor: Some(interactive_visible || hovered),
        }),
{
    if !keep_focus {
        InputCapture { mouse: false, keyboard: false, show_cursor: None }
    } else if !show_overlay {
        InputCapture { mouse: false, keyboard: false, show_cursor: Some(false) }
    } else {
        InputCapture { mouse: want_mouse, keyboard: want_keyboard, show_cursor: Some(interactive_visible || hovered) }
    }
}

} // verus!
