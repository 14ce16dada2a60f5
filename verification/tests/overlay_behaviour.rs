use er_overlay::config::BossPanelScope;
use er_overlay::config_keys::{collect_missing_keys, ConfigValue};
use er_overlay::field_area::{current_map_id, rip_relative_target};
use er_overlay::frame_timing::FrameTimingAccum;
use er_overlay::game_version::{
    any_pointer_resolved, from_lang_version, Detection, ExeLanguage, GameExeProbe,
    SupportedGameVersion,
};
use er_overlay::hotkey::OverlayKey;
use er_overlay::layout::{LayoutConfig, LayoutSection, TileDef, TilePosition};
use er_overlay::metrics::{metric_is_complete, metric_value_for_tile, track_status, MetricValue};
use er_overlay::overlay_state::{
    compact_layout_section_index, cycle_section, next_section, toggle_panel, HotkeySetting,
    LayoutSectionState, Panel, PanelVisibility,
};
use er_overlay::panel_text::{
    boss_panel_header, boss_row_checked, boss_row_label, boss_tooltip, current_section_index,
    section_label, unknown_region_detail, SectionScroll,
};
use er_overlay::process::{eac_module_hits, find_process_by_name, ProcessEntry, TARGET_PROCESS};
use er_overlay::reader::{subregion_id_from_block_id, GameStateReader, PointerStatus, SystemInit};
use er_overlay::reload::{
    config_reload_effects, flags_file_name, flags_reload, FileStamp, FlagsReload, TableReload,
    TableWatch,
};
use er_overlay::types::{BackendKind, GameTime, TrackKind};
use er_overlay::update::{answer_is_yes, changelog_lines, file_action, release_asset_index, FileAction};
use er_overlay::view_model::{BossPanelRow, BossPanelSection};

// ---------------------------------------------------------------------------------------------
// Layout sections and panels.

fn label_tile(col: u32, row: u32) -> TileDef {
    TileDef::Label {
        id: None,
        position: TilePosition { col, row, col_span: 1, row_span: 1 },
        label: "x".to_string(),
    }
}

fn section(name: &str, tiles: Vec<TileDef>) -> LayoutSection {
    LayoutSection { name: name.to_string(), tiles }
}

fn three_sections() -> LayoutConfig {
    LayoutConfig {
        columns: 4,
        default_section: Some("minimalist".to_string()),
        tiles: vec![],
        sections: vec![
            section("minimalist", vec![label_tile(0, 0)]),
            section("extended", vec![label_tile(0, 0), label_tile(1, 0)]),
            section("challenge", vec![label_tile(0, 0)]),
        ],
    }
}

#[test]
fn both_panels_configured_boss_wins() {
    let p = PanelVisibility::from_config(true, true, true);
    assert!(p.show_boss_panel);
    assert!(!p.show_checks_panel);
    let q = PanelVisibility::from_config(false, false, true);
    assert!(q.show_checks_panel && !q.show_overlay);
}

#[test]
fn opening_one_panel_closes_the_other() {
    let layout = three_sections();
    let mut sections = LayoutSectionState::new();
    sections.active_index = 1;
    let mut panels = PanelVisibility::from_config(false, false, true);
    assert!(toggle_panel(Panel::Boss, &mut sections, &mut panels, Some(&layout), None));
    assert!(panels.show_boss_panel && !panels.show_checks_panel && panels.show_overlay);
    assert_eq!(sections.active_index, 0);
    assert!(toggle_panel(Panel::Checks, &mut sections, &mut panels, Some(&layout), None));
    assert!(!panels.show_boss_panel && panels.show_checks_panel);
    assert!(!toggle_panel(Panel::Checks, &mut sections, &mut panels, Some(&layout), None));
    assert!(!panels.show_boss_panel && !panels.show_checks_panel);
}

#[test]
fn cycling_to_extended_hides_panels_and_wraps() {
    let layout = three_sections();
    let mut sections = LayoutSectionState::new();
    let mut panels = PanelVisibility::from_config(false, true, false);
    assert!(cycle_section(&mut sections, &mut panels, &layout, None));
    assert_eq!(sections.active_index, 1);
    assert!(panels.show_overlay);
    assert!(!panels.show_boss_panel && !panels.show_checks_panel);
    cycle_section(&mut sections, &mut panels, &layout, None);
    cycle_section(&mut sections, &mut panels, &layout, None);
    assert_eq!(sections.active_index, 0);
}

#[test]
fn cycling_a_single_section_layout_does_nothing() {
    let layout = LayoutConfig {
        columns: 4,
        default_section: None,
        tiles: vec![label_tile(0, 0)],
        sections: vec![],
    };
    let mut sections = LayoutSectionState::new();
    let mut panels = PanelVisibility::from_config(false, true, false);
    assert!(!cycle_section(&mut sections, &mut panels, &layout, None));
    assert!(panels.show_boss_panel && !panels.show_overlay);
}

#[test]
fn next_section_wraps() {
    assert_eq!(next_section(0, 3), 1);
    assert_eq!(next_section(2, 3), 0);
    assert_eq!(next_section(7, 3), 2);
}

#[test]
fn compact_section_prefers_the_configured_one() {
    let layout = three_sections();
    assert_eq!(compact_layout_section_index(Some(&layout), Some("challenge")), 2);
    assert_eq!(compact_layout_section_index(Some(&layout), Some("nope")), 0);
    assert_eq!(compact_layout_section_index(None, Some("challenge")), 0);
}

#[test]
fn section_state_follows_renamed_sections() {
    let layout = three_sections();
    let mut s = LayoutSectionState::new();
    s.sync(Some(&layout), None);
    assert_eq!(s.known_sections, vec!["minimalist", "extended", "challenge"]);
    assert_eq!(s.active_index, 0);
    s.active_index = 2;
    let mut reordered = three_sections();
    reordered.sections.swap(0, 2);
    s.sync(Some(&reordered), None);
    assert_eq!(s.active_index, 0, "the challenge section moved to index 0");
    s.active_index = 9;
    s.sync(Some(&reordered), None);
    assert_eq!(s.active_index, 2, "an index past the end is clamped");
    s.sync(None, None);
    assert_eq!(s.active_index, 0);
    assert!(s.known_sections.is_empty());
}

#[test]
fn hotkey_setting_reparses_only_on_change() {
    let mut h = HotkeySetting { raw: None, parsed: None };
    assert!(!h.sync(Some("F7")));
    assert_eq!(h.parsed.unwrap().key, OverlayKey::F7);
    assert!(!h.sync(Some("F7")));
    assert!(h.sync(Some("Nope")));
    assert!(h.parsed.is_none());
    assert!(!h.sync(None));
    assert!(h.raw.is_none());
}

// ---------------------------------------------------------------------------------------------
// Reader, timing and reload decisions.

#[test]
fn block_ids_encode_to_table_keys() {
    assert_eq!(subregion_id_from_block_id(61, 0), 6_100_000);
    assert_eq!(subregion_id_from_block_id(30, 2), 3_002_000);
}

#[test]
fn limgrave_overworld_block_encodes_to_6100_key() {
    assert_eq!(subregion_id_from_block_id(61, 0), 6_100_000);
}

#[test]
fn stormfoot_catacombs_block_encodes_to_3002_key() {
    assert_eq!(subregion_id_from_block_id(30, 2), 3_002_000);
}

#[test]
fn reader_counts_kills_only_when_every_flag_reads() {
    let mut r = GameStateReader::new(3);
    assert!(r.apply_system_init(SystemInit::NotReadyYet));
    assert!(!r.apply_system_init(SystemInit::NotReadyYet), "the note is logged once");
    assert!(!r.is_ready());
    r.apply_system_init(SystemInit::Ready);
    assert!(r.is_ready());
    assert_eq!(r.status(true, true, true).backend, BackendKind::FromSoftwareRs);
    r.refresh_boss_cache(&vec![Some(true), Some(false), Some(true)]);
    assert_eq!(r.killed_boss_count(), Some(2));
    r.refresh_boss_cache(&vec![Some(true), None, Some(true)]);
    assert_eq!(r.killed_boss_count(), None);
    r.refresh_boss_cache(&vec![]);
    assert_eq!(r.killed_boss_count(), None);
    r.refresh_boss_cache(&vec![Some(true)]);
    r.invalidate_boss_cache();
    assert_eq!(r.killed_boss_count(), None);
}

#[test]
fn reader_challenge_gate() {
    let mut r = GameStateReader::new(0);
    let igt = Some(GameTime::from_ms(1000));
    assert!(!r.challenge_update_ready(igt, Some(0)));
    r.apply_system_init(SystemInit::Ready);
    assert!(r.challenge_update_ready(igt, Some(0)));
    assert!(!r.challenge_update_ready(None, Some(0)));
    assert!(!r.challenge_update_ready(igt, Some(3)));
    let _ = PointerStatus { gamedata_man: true, event_flag_man: true, world_chr_man: false, field_area: false };
}

#[test]
fn frame_timing_publishes_window_statistics() {
    let mut acc = FrameTimingAccum::new();
    acc.record(1, 2, 3, 4, 10, false);
    acc.record(1, 2, 3, 4, 30, false);
    let mid = acc.snapshot();
    assert_eq!(mid.total_us, 30);
    assert_eq!(mid.samples, 0);
    acc.record(5, 6, 7, 8, 20, true);
    let s = acc.snapshot();
    assert_eq!(s.samples, 3);
    assert_eq!(s.avg_total_us, 20);
    assert_eq!(s.max_total_us, 30);
    assert_eq!((s.reload_us, s.drain_us, s.draw_us, s.cursor_us), (5, 6, 7, 8));
    acc.record(0, 0, 0, 0, 4, true);
    assert_eq!(acc.snapshot().samples, 1);
    assert_eq!(acc.snapshot().max_total_us, 4);
}

#[test]
fn table_reload_decisions() {
    let t1 = FileStamp { secs: 10, nanos: 0 };
    let t2 = FileStamp { secs: 11, nanos: 0 };
    let mut w = TableWatch::new();
    assert_eq!(w.plan("fr", Some(t1), true), TableReload::LoadFile);
    w.record_loaded("fr", Some(t1));
    assert_eq!(w.plan("fr", Some(t1), true), TableReload::Nothing);
    assert_eq!(w.plan("fr", Some(t2), true), TableReload::LoadFile);
    assert_eq!(w.plan("de", None, false), TableReload::UseEmbedded);
    w.record_embedded("de");
    assert_eq!(w.plan("de", None, false), TableReload::Nothing);
    w.reset();
    assert_eq!(w.plan("de", None, false), TableReload::UseEmbedded);
}

#[test]
fn flags_reload_decisions() {
    let t = FileStamp { secs: 1, nanos: 5 };
    assert_eq!(flags_reload(None, Some(t), false), FlagsReload::Load(t));
    assert_eq!(flags_reload(Some(t), Some(t), true), FlagsReload::Nothing);
    assert_eq!(flags_reload(Some(t), None, false), FlagsReload::Clear);
    assert_eq!(flags_reload(None, None, true), FlagsReload::Clear);
    assert_eq!(flags_reload(None, None, false), FlagsReload::Nothing);
    assert_eq!(flags_file_name(true), "lot_flags.toml");
    assert_eq!(flags_file_name(false), "checks_flags.toml");
}

#[test]
fn config_reload_effects_compare_settings() {
    let e = config_reload_effects(Some("fr"), Some("fr"), None, Some("r.bin"), true, false);
    assert!(!e.locale_changed);
    assert!(e.regulation_changed);
    assert!(e.release_cursor);
    let f = config_reload_effects(None, Some("en"), Some("a"), Some("a"), false, true);
    assert!(f.locale_changed && !f.regulation_changed && !f.release_cursor);
}

// ---------------------------------------------------------------------------------------------
// Metrics on tiles and the boss panel text.

#[test]
fn tile_text_and_completion() {
    let full = MetricValue::Count { current: Some(7), max: Some(7) };
    assert!(metric_is_complete(&full));
    assert_eq!(metric_value_for_tile(&full, true), "7/7");
    assert_eq!(metric_value_for_tile(&full, false), "7");
    assert!(!metric_is_complete(&MetricValue::Count { current: Some(3), max: Some(0) }));
    assert!(!metric_is_complete(&MetricValue::NgCycle(Some(9))));
    assert_eq!(metric_value_for_tile(&MetricValue::Count { current: None, max: Some(3) }, true), "---");
    assert_eq!(metric_value_for_tile(&MetricValue::Count { current: Some(5), max: None }, true), "5");
    assert_eq!(metric_value_for_tile(&MetricValue::NgCycle(None), true), "---");
    assert_eq!(metric_value_for_tile(&MetricValue::Time(GameTime::from_ms(59_000)), true), "00:00:59");
}

#[test]
fn track_status_of_each_kind() {
    assert_eq!(track_status(&TrackKind::Unique { acquired: Some(true) }), (true, false));
    assert_eq!(track_status(&TrackKind::Unique { acquired: Some(false) }), (false, false));
    assert_eq!(track_status(&TrackKind::Unique { acquired: None }), (false, true));
    assert_eq!(track_status(&TrackKind::Countable { count: Some(3) }), (true, false));
    assert_eq!(track_status(&TrackKind::Countable { count: Some(0) }), (false, false));
    assert_eq!(track_status(&TrackKind::Countable { count: None }), (false, true));
}

fn boss_row(name: &str, dlc: bool, killed: Option<bool>, place: Option<&str>) -> BossPanelRow {
    BossPanelRow { name: name.to_string(), place: place.map(str::to_string), killed, dlc }
}

#[test]
fn boss_panel_labels() {
    let s = BossPanelSection {
        region: "Limgrave".to_string(),
        is_current: true,
        bosses: vec![boss_row("Tree Sentinel", false, Some(true), Some("Church of Elleh"))],
        killed: 1,
        total: 3,
    };
    assert_eq!(section_label(&s), "Limgrave (1/3)");
    assert_eq!(boss_row_label(&boss_row("Rellana", true, None, None)), "Rellana [DLC]");
    assert_eq!(boss_row_label(&s.bosses[0]), "Tree Sentinel");
    assert!(boss_row_checked(&s.bosses[0]));
    assert!(!boss_row_checked(&boss_row("X", false, None, None)));
    assert_eq!(boss_tooltip(&s.bosses[0]), "Church of Elleh");
    assert_eq!(boss_tooltip(&boss_row("X", false, None, None)), "(unknown location)");
    assert_eq!(unknown_region_detail(Some(6_100_123)), "map_id: 6100123 (key: 6100)");
    assert_eq!(unknown_region_detail(None), "(not in-game or data unavailable)");
    let other = BossPanelSection { is_current: false, ..s };
    assert_eq!(current_section_index(&vec![other]), None);
}

#[test]
fn section_scroll_happens_on_region_change() {
    let mut s = SectionScroll::new();
    assert!(!s.frame(None));
    assert!(s.frame(Some(2)));
    assert!(!s.frame(Some(2)));
    assert!(s.frame(Some(3)));
    s.on_reopened();
    assert!(s.frame(Some(3)));
}

#[test]
fn boss_panel_header_by_scope() {
    let mut vm = empty_vm(BossPanelScope::AllRegions);
    vm.boss_panel_killed = 4;
    vm.boss_panel_total = 9;
    assert_eq!(boss_panel_header(&vm).unwrap(), "Bosses 4/9 — region: ?");
    vm.current_region = Some("Caelid".to_string());
    assert_eq!(boss_panel_header(&vm).unwrap(), "Bosses 4/9 — region: Caelid");
    let cur = empty_vm(BossPanelScope::CurrentRegion);
    assert!(boss_panel_header(&cur).is_none());
}

fn empty_vm(scope: BossPanelScope) -> er_overlay::view_model::OverlayViewModel {
    let table = er_overlay::boss_table::BossTableData {
        bosses: vec![],
        region_names: vec![],
        subregion_to_region: std::collections::HashMap::new(),
    };
    er_overlay::view_model::empty_view_model(&table, scope, BossPanelScope::CurrentRegion)
}

// ---------------------------------------------------------------------------------------------
// Game version, process lookup and self-update rules.

#[test]
fn supported_versions_and_probe() {
    assert_eq!(SupportedGameVersion::Ww270.label(), "2.7.0.0 WW");
    assert_eq!(from_lang_version(ExeLanguage::Japanese, "2.7.0.1"), Some(SupportedGameVersion::Jp2701));
    assert_eq!(from_lang_version(ExeLanguage::English, "2.7.0.1"), None);
    let ok = GameExeProbe::from_detection(Detection::Supported(SupportedGameVersion::Ww271));
    assert!(ok.is_supported());
    assert_eq!(ok.detected_version.as_deref(), Some("2.7.1.0 WW"));
    let old = GameExeProbe::from_detection(Detection::UnsupportedVersion {
        version: "2.6.2.0".to_string(),
        message: "unsupported".to_string(),
    });
    assert!(!old.is_supported());
    assert_eq!(old.detected_version.as_deref(), Some("2.6.2.0"));
    assert!(!any_pointer_resolved(false, false, false, false));
    assert!(any_pointer_resolved(false, false, false, true));
}

fn entry(pid: u32, name: &str) -> ProcessEntry {
    let mut exe_file: Vec<u16> = name.encode_utf16().collect();
    exe_file.resize(260, 0);
    ProcessEntry { pid, exe_file }
}

#[test]
fn process_lookup_ignores_ascii_case() {
    let snapshot = vec![entry(4, "explorer.exe"), entry(7, "EldenRing.exe"), entry(9, "eldenring.exe")];
    let found = find_process_by_name(TARGET_PROCESS, &snapshot).unwrap();
    assert_eq!(found.pid, 7);
    assert_eq!(found.image_name, "EldenRing.exe");
    assert!(find_process_by_name("nope.exe", &snapshot).is_none());
}

#[test]
fn anti_cheat_modules_are_spotted() {
    let modules = vec![
        "ntdll.dll".to_string(),
        "easyanticheat_eos.dll".to_string(),
        "START_PROTECTED_GAME.EXE".to_string(),
    ];
    assert_eq!(eac_module_hits(&modules), vec!["easyanticheat_eos.dll", "START_PROTECTED_GAME.EXE"]);
    assert!(eac_module_hits(&vec!["kernel32.dll".to_string()]).is_empty());
}

#[test]
fn release_notes_are_cleaned() {
    let body = "## Added\r\n* new tile\n- fix\n\n**Full Changelog**: x...y\n  plain text  \n#\n";
    assert_eq!(
        changelog_lines(body),
        vec!["Added", "- new tile", "- fix", "plain text", "#"]
    );
    assert!(changelog_lines("").is_empty());
}

#[test]
fn update_prompt_answers() {
    for yes in ["", "y", "YES", " oui ", "O\n"] {
        assert!(answer_is_yes(yes), "{yes:?}");
    }
    for no in ["n", "no", "yess"] {
        assert!(!answer_is_yes(no), "{no:?}");
    }
}

#[test]
fn release_asset_is_the_overlay_zip() {
    let names = vec![
        "source.zip".to_string(),
        "er-overlay-v1.2.0.7z".to_string(),
        "er-overlay-v1.2.0.zip".to_string(),
    ];
    assert_eq!(release_asset_index(&names), Some(2));
    assert_eq!(release_asset_index(&vec!["a.zip".to_string()]), None);
}

#[test]
fn update_file_actions() {
    assert_eq!(file_action("er_overlay_injector.exe", "ER_OVERLAY_INJECTOR.exe", true), FileAction::SkipRunningExe);
    assert_eq!(file_action("layouts\\dashboard.toml", "x.exe", true), FileAction::KeepAndWriteNew);
    assert_eq!(file_action("ER_OVERLAY.TOML", "x.exe", false), FileAction::Copy);
    assert_eq!(file_action("er_overlay.dll", "x.exe", true), FileAction::Copy);
}

// ---------------------------------------------------------------------------------------------
// Changelog, extractor and the whole UI state.

use er_overlay::extractor::{extractor_args, extractor_candidates, extractor_step, ExtractorStep, RegulationSig};
use er_overlay::overlay_state::{input_capture, HotkeyPresses, HotkeyTexts, InputCapture, OverlayUiState};
use er_overlay::update::{changelog_report, ReleaseNotes};

fn notes(version: &str, body: &str) -> ReleaseNotes {
    ReleaseNotes { version: version.to_string(), body: body.to_string() }
}

#[test]
fn changelog_for_a_single_release() {
    let lines = changelog_report("1.0.0", "1.1.0", &vec![notes("1.1.0", "## Fixes\n* crash on load\n")]);
    assert_eq!(
        lines,
        vec![
            "",
            "What's new in v1.1.0:",
            "  Fixes",
            "  - crash on load",
            "  Full changelog: https://github.com/Sully-/ER_DynamicOverlay/compare/v1.0.0...v1.1.0",
        ]
    );
}

#[test]
fn changelog_for_several_releases_is_cut_at_the_budget() {
    let long_body: String = (0..60).map(|i| format!("line {i}\n")).collect();
    let lines = changelog_report(
        "1.0.0",
        "1.2.0",
        &vec![notes("1.1.0", ""), notes("1.2.0", &long_body)],
    );
    assert_eq!(lines[1], "What's new since v1.0.0:");
    assert_eq!(lines[2], "");
    assert_eq!(lines[3], "--- v1.1.0 ---");
    assert_eq!(lines[4], "  (no release notes)");
    assert_eq!(lines[6], "--- v1.2.0 ---");
    assert_eq!(lines[7], "  line 0");
    // 40 lines of budget: 2 + 1 for the first release, 2 for the second heading, 35 notes.
    assert_eq!(lines.len(), 2 + 3 + 2 + 35 + 2);
    assert_eq!(lines[lines.len() - 2], "  …");
}

#[test]
fn extractor_runs_once_per_regulation() {
    let sig = RegulationSig { modified: FileStamp { secs: 5, nanos: 0 }, len: 100 };
    let other = RegulationSig { len: 101, ..sig };
    assert_eq!(extractor_step(None, sig, false, true), (ExtractorStep::Run, Some(sig)));
    assert_eq!(extractor_step(Some(sig), sig, false, true), (ExtractorStep::Skip, Some(sig)));
    assert_eq!(extractor_step(Some(sig), other, true, true), (ExtractorStep::Skip, Some(sig)));
    assert_eq!(extractor_step(None, other, false, false), (ExtractorStep::MarkHandled, Some(other)));
}

#[test]
fn extractor_paths_and_arguments() {
    assert_eq!(
        extractor_candidates(None, "C:/ov"),
        vec!["C:/ov/companion/er_checks_extractor.exe", "C:/ov/er_checks_extractor.exe"]
    );
    assert_eq!(extractor_candidates(Some("tools/x.exe"), "C:/ov"), vec!["C:/ov/tools/x.exe"]);
    assert_eq!(extractor_candidates(Some("D:\\x.exe"), "C:/ov"), vec!["D:\\x.exe"]);
    assert_eq!(extractor_candidates(Some(""), "C:/ov").len(), 2);
    let args = extractor_args("C:/ov", "fr", "en", false, "R:/regulation.bin", Some("G:/game"), true, Some("C:/ov/layouts/d.toml"));
    assert_eq!(
        args,
        vec![
            "R:/regulation.bin",
            "C:/ov/tables/en/checks.toml",
            "C:/ov/lot_flags.toml",
            "G:/game",
            "--goods",
            "C:/ov/tables/goods.toml",
            "--layout",
            "C:/ov/layouts/d.toml",
        ]
    );
    let plain = extractor_args("C:/ov", "fr", "en", true, "r.bin", None, false, None);
    assert_eq!(plain, vec!["r.bin", "C:/ov/tables/fr/checks.toml", "C:/ov/lot_flags.toml"]);
}

#[test]
fn ui_state_start_and_hotkeys() {
    let layout = three_sections();
    let texts = HotkeyTexts { section: Some("F8"), boss: Some("F7"), checks: Some("F6"), hide_all: Some("Nope") };
    let (mut ui, invalid) = OverlayUiState::new(&texts, true, true, true, Some(&layout), Some("challenge"));
    assert!(invalid.hide_all && !invalid.section && !invalid.boss && !invalid.checks);
    assert_eq!(ui.sections.active_index, 2);
    assert!(ui.panels.show_boss_panel && !ui.panels.show_checks_panel);

    let press = |hide_all, section, boss, checks| HotkeyPresses { hide_all, section, boss, checks };
    // The hide-all hotkey did not parse: pressing it does nothing.
    ui.handle_hotkeys(press(true, false, false, false), Some(&layout), Some("challenge"));
    assert!(ui.panels.show_overlay);
    let e = ui.handle_hotkeys(press(false, false, false, true), Some(&layout), Some("challenge"));
    assert!(e.checks_opened && !e.boss_opened);
    assert!(ui.panels.show_checks_panel && !ui.panels.show_boss_panel);
    ui.handle_hotkeys(press(false, true, false, false), Some(&layout), Some("challenge"));
    assert_eq!(ui.sections.active_index, 0);
    assert!(!ui.panels.show_checks_panel);

    let fixed = HotkeyTexts { section: Some("F8"), boss: Some("F7"), checks: Some("F6"), hide_all: Some("F9") };
    let inv = ui.sync_hotkeys(&fixed);
    assert!(!inv.hide_all);
    ui.handle_hotkeys(press(true, false, false, false), Some(&layout), Some("challenge"));
    assert!(!ui.panels.show_overlay);
}

#[test]
fn opening_a_panel_returns_to_the_compact_section() {
    let layout = three_sections();
    let texts = HotkeyTexts { section: Some("F8"), boss: Some("F7"), checks: Some("F6"), hide_all: Some("F9") };
    let (mut ui, _) = OverlayUiState::new(&texts, true, false, false, Some(&layout), Some("challenge"));
    let press = |hide_all, section, boss, checks| HotkeyPresses { hide_all, section, boss, checks };
    ui.handle_hotkeys(press(false, true, false, false), Some(&layout), Some("challenge"));
    assert_eq!(ui.sections.active_index, 0);
    let e = ui.handle_hotkeys(press(false, false, true, false), Some(&layout), Some("challenge"));
    assert!(e.boss_opened);
    assert_eq!(ui.sections.active_index, 2);
    // Both panel hotkeys on one frame: the checks panel ends open, alone.
    let e = ui.handle_hotkeys(press(false, false, true, true), Some(&layout), Some("challenge"));
    assert!(e.checks_opened && !e.boss_opened);
    assert!(ui.panels.show_checks_panel && !ui.panels.show_boss_panel);
}

#[test]
fn input_capture_rules() {
    assert_eq!(input_capture(false, true, true, true, true, true), InputCapture { mouse: false, keyboard: false, show_cursor: None });
    assert_eq!(input_capture(true, false, true, true, true, true), InputCapture { mouse: false, keyboard: false, show_cursor: Some(false) });
    assert_eq!(input_capture(true, true, false, true, true, false), InputCapture { mouse: true, keyboard: false, show_cursor: Some(true) });
    assert_eq!(input_capture(true, true, false, false, false, false).show_cursor, Some(false));
}

// ---------------------------------------------------------------------------------------------
// Settings a new release adds.

fn table(entries: Vec<(&str, ConfigValue)>) -> ConfigValue {
    ConfigValue::Table(entries.into_iter().map(|(k, v)| (k.to_string(), v)).collect())
}

fn value(text: &str) -> ConfigValue {
    ConfigValue::Value(text.to_string())
}

#[test]
fn missing_keys_are_reported_by_dotted_path() {
    let user = table(vec![
        ("overlay", table(vec![("scale", value("1.0"))])),
        ("locale", value("\"en\"")),
    ]);
    let release = table(vec![
        ("locale", value("\"fr\"")),
        ("overlay", table(vec![("opacity", value("0.8")), ("scale", value("2.0"))])),
        ("hotkeys", table(vec![("toggle", value("\"F9\""))])),
        ("debug", value("false")),
    ]);
    let mut out = vec![("kept".to_string(), "1".to_string())];
    collect_missing_keys("", &user, &release, &mut out);
    assert_eq!(
        out,
        vec![
            ("kept".to_string(), "1".to_string()),
            ("overlay.opacity".to_string(), "0.8".to_string()),
            ("hotkeys".to_string(), "{ ... }".to_string()),
            ("debug".to_string(), "false".to_string()),
        ]
    );
}

#[test]
fn missing_keys_ignore_values_that_changed_kind() {
    let user = table(vec![("overlay", value("true"))]);
    let release = table(vec![("overlay", table(vec![("scale", value("1.0"))]))]);
    let mut out = Vec::new();
    collect_missing_keys("", &user, &release, &mut out);
    assert!(out.is_empty());
    collect_missing_keys("", &value("1"), &release, &mut out);
    assert!(out.is_empty());
}

#[test]
fn missing_keys_under_a_prefix() {
    let user = table(vec![]);
    let release = table(vec![("scale", value("1.5"))]);
    let mut out = Vec::new();
    collect_missing_keys("overlay", &user, &release, &mut out);
    assert_eq!(out, vec![("overlay.scale".to_string(), "1.5".to_string())]);
}

// ---------------------------------------------------------------------------------------------
// Where the player is.

#[test]
fn field_area_map_id_wins_over_the_player() {
    assert_eq!(current_map_id(Some(6_100_000), Some((30, 2)), Some(5)), Some(6_100_000));
}

#[test]
fn player_block_then_play_region_are_fallbacks() {
    assert_eq!(current_map_id(Some(0), Some((61, 0)), Some(5)), Some(6_100_000));
    assert_eq!(current_map_id(None, Some((30, 2)), None), Some(3_002_000));
    assert_eq!(current_map_id(None, None, Some(1234)), Some(1234));
    assert_eq!(current_map_id(None, None, Some(0)), None);
    assert_eq!(current_map_id(None, None, None), None);
}

#[test]
fn rip_relative_target_adds_the_signed_displacement() {
    assert_eq!(rip_relative_target(0x1000, [0x10, 0, 0, 0]), 0x1017);
    assert_eq!(rip_relative_target(0x1000, [0xE0, 0xFF, 0xFF, 0xFF]), 0xFE7);
    assert_eq!(rip_relative_target(0x1_0000_0000, [0x00, 0x00, 0x00, 0x80]), 0x8000_0007);
    assert_eq!(rip_relative_target(3, [0xF0, 0xFF, 0xFF, 0xFF]), u64::MAX - 5);
}

// ---------------------------------------------------------------------------------------------
// Layout rules.

fn rules_tile(col: u32, row: u32, w: u32, h: u32) -> TileDef {
    TileDef::Label {
        id: None,
        position: TilePosition { col, row, col_span: w, row_span: h },
        label: "x".to_string(),
    }
}

fn one_section(tiles: Vec<TileDef>) -> LayoutConfig {
    LayoutConfig {
        columns: 4,
        default_section: None,
        tiles: vec![],
        sections: vec![LayoutSection { name: "main".to_string(), tiles }],
    }
}

#[test]
fn adjacent_tiles_pass_and_a_shared_cell_fails() {
    assert!(one_section(vec![rules_tile(0, 0, 2, 2), rules_tile(2, 0, 2, 1), rules_tile(0, 2, 4, 1)])
        .validate()
        .is_ok());
    assert!(one_section(vec![rules_tile(0, 0, 2, 2), rules_tile(1, 1, 2, 1)]).validate().is_err());
    assert!(one_section(vec![rules_tile(3, 0, 2, 1)]).validate().is_err());
}

fn metric_tile(id: Option<&str>, metric: &str, col: u32, row: u32, label: &str) -> TileDef {
    TileDef::Metric {
        id: id.map(str::to_string),
        metric: metric.to_string(),
        position: TilePosition { col, row, col_span: 1, row_span: 1 },
        label: label.to_string(),
        show_max: false,
        icon: None,
    }
}

fn item_tile(key: &str, col: u32, row: u32, track_equipped: bool, historic: bool) -> TileDef {
    TileDef::Item {
        id: Some(key.to_string()),
        good_key: key.to_string(),
        position: TilePosition { col, row, col_span: 1, row_span: 1 },
        track_equipped,
        historic,
    }
}

fn sample_layout() -> LayoutConfig {
    LayoutConfig {
        columns: 8,
        default_section: None,
        tiles: vec![metric_tile(Some("igt"), "igt", 0, 0, "IGT"), item_tile("godrick_rune", 1, 1, false, false)],
        sections: vec![],
    }
}

#[test]
fn layout_validates_no_overlap() {
    let mut layout = sample_layout();
    assert!(layout.validate().is_ok());
    layout.tiles.push(metric_tile(Some("dup"), "deaths", 0, 0, "DEATHS"));
    assert!(layout.validate().is_err());
}

#[test]
fn parse_sections_toml() {
    let layout = LayoutConfig {
        columns: 8,
        default_section: None,
        tiles: vec![],
        sections: vec![
            LayoutSection { name: "minimalist".to_string(), tiles: vec![metric_tile(None, "igt", 0, 0, "IGT")] },
            LayoutSection { name: "extended".to_string(), tiles: vec![metric_tile(None, "bosses", 0, 0, "BOSS")] },
        ],
    };
    assert_eq!(layout.section_count(), 2);
    assert_eq!(layout.section_name(0), Some("minimalist"));
    assert_eq!(layout.section_name(1), Some("extended"));
    assert_eq!(layout.tiles_for_section(0).len(), 1);
    assert_eq!(layout.tiles_for_section(1).len(), 1);
    layout.validate().unwrap();
}

#[test]
fn sections_allow_same_coords_across_sections() {
    let layout = LayoutConfig {
        columns: 8,
        default_section: None,
        tiles: vec![],
        sections: vec![
            LayoutSection { name: "a".to_string(), tiles: vec![metric_tile(None, "igt", 0, 0, "IGT")] },
            LayoutSection { name: "b".to_string(), tiles: vec![metric_tile(None, "igt", 0, 0, "IGT")] },
        ],
    };
    layout.validate().unwrap();
}

#[test]
fn equipped_and_historic_refs_come_from_item_tiles() {
    let layout = LayoutConfig {
        columns: 8,
        default_section: None,
        tiles: vec![],
        sections: vec![
            LayoutSection {
                name: "a".to_string(),
                tiles: vec![
                    item_tile("fire_scorpion_charm", 0, 0, true, true),
                    item_tile("godrick_rune", 1, 0, false, true),
                    metric_tile(None, "igt", 2, 0, "IGT"),
                ],
            },
            LayoutSection {
                name: "b".to_string(),
                tiles: vec![item_tile("fire_scorpion_charm", 0, 0, true, false), item_tile("kindling", 1, 0, true, false)],
            },
        ],
    };
    assert_eq!(layout.collect_equipped_refs(), vec!["fire_scorpion_charm", "kindling"]);
    assert_eq!(layout.collect_historic_refs(), vec!["fire_scorpion_charm", "godrick_rune"]);
    assert_eq!(layout.collect_data_refs(), vec!["fire_scorpion_charm", "godrick_rune", "igt", "kindling"]);
}

/// The shipped dashboard's section shape: a five-tile `minimalist` section first, then a larger
/// `extended` one.
fn dashboard_shape() -> LayoutConfig {
    let row_of = |n: u32| (0..n).map(|i| label_tile(i % 6, i / 6)).collect::<Vec<_>>();
    LayoutConfig {
        columns: 6,
        default_section: Some("minimalist".to_string()),
        tiles: vec![],
        sections: vec![section("minimalist", row_of(5)), section("extended", row_of(14))],
    }
}

#[test]
fn resolve_section_tiles_clamps_index() {
    let layout = dashboard_shape();
    let (idx, tiles) = layout.resolve_section_tiles(99, Some("minimalist"));
    assert_eq!(idx, 0);
    assert_eq!(tiles.len(), 5);
}
