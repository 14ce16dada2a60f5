use std::collections::{HashMap, HashSet};

use er_overlay::boss_table::BossTableData;
use er_overlay::challenge::ChallengeSnapshot;
use er_overlay::checks_panel::{
    build_checks_panel_sections, check_row_label, check_row_ticked, check_section_label,
    check_tooltip, checks_panel_header, RegionFollow,
};
use er_overlay::checks_table::{
    parse_checks_table, CheckEntry, ChecksFlagsData, ChecksTableData, ChecksTableFile, LotParam,
    RegionRow,
};
use er_overlay::config::BossPanelScope;
use er_overlay::keyed::StrMap;
use er_overlay::lot_flags::LotTable;
use er_overlay::tables::{goods_table_from_rows, GameStateSource, GoodRow, ItemKind};
use er_overlay::types::TrackKind;
use er_overlay::types::{GameStateDiagnostics, GameTime};
use er_overlay::view_model::{build_view_model, OverlayViewModel};

struct FlagsOnly {
    set: HashSet<u32>,
    subregion: Option<u32>,
}

impl GameStateSource for FlagsOnly {
    fn get_igt(&self) -> Option<GameTime> {
        None
    }
    fn get_death_count(&self) -> Option<u32> {
        None
    }
    fn get_ng_cycle(&self) -> Option<u32> {
        None
    }
    fn get_scadutree_blessing(&self) -> Option<u32> {
        None
    }
    fn get_killed_boss_count(&self) -> Option<u32> {
        None
    }
    fn get_goods_quantity(&self, _item_id: u32) -> Option<u32> {
        None
    }
    fn has_item(&self, _item_id: u32, _category: ItemKind) -> Option<bool> {
        None
    }
    fn is_item_equipped(&self, _item_id: u32, _category: ItemKind) -> Option<bool> {
        None
    }
    fn get_flag(&self, flag_id: u32) -> Option<bool> {
        Some(self.set.contains(&flag_id))
    }
    fn get_current_subregion_id(&self) -> Option<u32> {
        self.subregion
    }
    fn get_status(&self) -> GameStateDiagnostics {
        GameStateDiagnostics::blank()
    }
    fn bosses_total(&self) -> u32 {
        0
    }
}

fn fixed(name: &str, region: &str, flag: u32, dlc: bool, place: Option<&str>) -> CheckEntry {
    CheckEntry {
        name: name.to_string(),
        place: place.map(str::to_string),
        region: region.to_string(),
        dlc,
        dynamic: false,
        lot_id: None,
        lot_param: LotParam::MapTable,
        vanilla_flag: None,
        flag: Some(flag),
    }
}

fn dynamic(name: &str, region: &str, lot: u32, vanilla: u32) -> CheckEntry {
    CheckEntry {
        name: name.to_string(),
        place: None,
        region: region.to_string(),
        dlc: false,
        dynamic: true,
        lot_id: Some(lot),
        lot_param: LotParam::MapTable,
        vanilla_flag: Some(vanilla),
        flag: None,
    }
}

fn checks() -> ChecksTableData {
    let file = ChecksTableFile {
        region_display_order: vec!["Limgrave".to_string(), "Liurnia".to_string(), "Caelid".to_string()],
        region: vec![
            RegionRow { name: "Limgrave".to_string(), subregions: vec![6100] },
            RegionRow { name: "Liurnia".to_string(), subregions: vec![1001] },
            RegionRow { name: "Caelid".to_string(), subregions: vec![6300] },
        ],
        check: vec![
            fixed("Tree Sentinel", "Limgrave", 100, false, Some("Church of Elleh")),
            dynamic("Golden Seed", "Limgrave", 500, 200),
            dynamic("Stormhawk Feather", "Limgrave", 600, 300),
            fixed("Rennala", "Liurnia", 400, true, None),
        ],
    };
    parse_checks_table(file).unwrap()
}

fn seed() -> ChecksFlagsData {
    let mut flags = HashMap::new();
    flags.insert(500u32, 201u32);
    ChecksFlagsData { regulation_sha256: Some("abc".to_string()), flags }
}

fn game(subregion: Option<u32>) -> FlagsOnly {
    FlagsOnly { set: [100u32, 201, 300].into_iter().collect(), subregion }
}

fn view(subregion: Option<u32>, seed: Option<&ChecksFlagsData>, scope: BossPanelScope) -> OverlayViewModel {
    let bosses = BossTableData { bosses: vec![], region_names: vec![], subregion_to_region: HashMap::new() };
    let goods = goods_table_from_rows(vec![], StrMap::new());
    build_view_model(
        &game(subregion),
        &goods,
        &bosses,
        &checks(),
        seed,
        None,
        &vec![],
        &vec![],
        &vec![],
        BossPanelScope::AllRegions,
        scope,
        ChallengeSnapshot::empty(),
    )
}

#[test]
fn current_region_checks_use_vanilla_flags_without_a_seed() {
    let vm = view(Some(6_100_000), None, BossPanelScope::CurrentRegion);
    assert_eq!(vm.checks_current_region.as_deref(), Some("Limgrave"));
    assert!(!vm.checks_seed_active);
    assert_eq!(vm.checks_panel_sections.len(), 1);
    let s = &vm.checks_panel_sections[0];
    assert!(s.is_current);
    let done: Vec<Option<bool>> = s.rows.iter().map(|r| r.done).collect();
    assert_eq!(done, vec![Some(true), Some(false), Some(true)]);
    assert!(s.rows.iter().all(|r| r.traceable));
    assert_eq!((s.done, s.total), (2, 3));
    assert_eq!((vm.checks_panel_done, vm.checks_panel_total), (2, 3));
    assert_eq!(checks_panel_header(&vm).unwrap(), "Limgrave (2/3)");
}

#[test]
fn seed_mapping_resolves_relocated_loot_and_marks_untraceable_lines() {
    let mapping = seed();
    let vm = view(Some(6_100_000), Some(&mapping), BossPanelScope::CurrentRegion);
    assert!(vm.checks_seed_active);
    let rows = &vm.checks_panel_sections[0].rows;
    assert_eq!(rows[1].done, Some(true));
    assert!(!rows[2].traceable);
    assert_eq!(rows[2].done, None);
    assert_eq!(check_row_label(&rows[2]), "- Stormhawk Feather");
    assert!(!check_row_ticked(&rows[2]));
    assert!(check_row_ticked(&rows[0]));
    assert_eq!(check_tooltip(&rows[2]), vec!["Untraceable this seed (no acquisition flag)".to_string()]);
    assert_eq!(check_tooltip(&rows[0]), vec!["Church of Elleh".to_string()]);
    assert_eq!(check_tooltip(&rows[1]), vec!["(unknown location)".to_string()]);
    assert_eq!(checks_panel_header(&vm).unwrap(), "Limgrave (2/3) [seed]");
}

#[test]
fn all_regions_lists_regions_with_checks() {
    let vm = view(Some(1_001_000), None, BossPanelScope::AllRegions);
    let names: Vec<&str> = vm.checks_panel_sections.iter().map(|s| s.region.as_str()).collect();
    assert_eq!(names, vec!["Limgrave", "Liurnia"]);
    let current: Vec<bool> = vm.checks_panel_sections.iter().map(|s| s.is_current).collect();
    assert_eq!(current, vec![false, true]);
    assert_eq!((vm.checks_panel_done, vm.checks_panel_total), (2, 4));
    assert_eq!(checks_panel_header(&vm).unwrap(), "Checks 2/4 - region: Liurnia");
    assert_eq!(check_section_label(&vm.checks_panel_sections[1]), "Liurnia (0/1)");
    assert_eq!(check_row_label(&vm.checks_panel_sections[1].rows[0]), "Rennala [DLC]");
}

#[test]
fn unknown_region_falls_back_to_every_region() {
    let vm = view(None, None, BossPanelScope::CurrentRegion);
    assert_eq!(vm.checks_current_region, None);
    assert_eq!(vm.checks_panel_sections.len(), 2);
    assert!(vm.checks_panel_sections.iter().all(|s| !s.is_current));
    let table = checks();
    let (sections, done, total) =
        build_checks_panel_sections(&table, &game(None), None, BossPanelScope::CurrentRegion, Some("Caelid"));
    assert_eq!(sections.len(), 1);
    assert!(sections[0].rows.is_empty());
    assert_eq!((done, total), (0, 0));
}

#[test]
fn region_trees_follow_the_player_only_when_the_region_changes() {
    let mut follow = RegionFollow::new();
    assert!(follow.frame(Some(1)));
    assert_eq!(RegionFollow::tree_state(true, Some(1), 1), Some(true));
    assert_eq!(RegionFollow::tree_state(true, Some(1), 0), Some(false));
    assert!(!follow.frame(Some(1)));
    assert_eq!(RegionFollow::tree_state(false, Some(1), 1), None);
    assert!(follow.frame(None));
}

#[test]
fn historic_tiles_stay_owned_once_the_acquisition_flag_is_set() {
    let charm = GoodRow {
        key: "fire_scorpion_charm".to_string(),
        item_id: 1170,
        name: "Fire Scorpion Charm".to_string(),
        file: None,
        category: ItemKind::Accessory,
        pickup_flag: None,
        historic_lot_table: Some(LotTable::MapTable),
        historic_lot_id: Some(123456),
        historic_vanilla_flag: Some(40001234),
        max: None,
        count: false,
    };
    let goods = goods_table_from_rows(vec![charm], StrMap::new());
    let bosses = BossTableData { bosses: vec![], region_names: vec![], subregion_to_region: HashMap::new() };
    let game = FlagsOnly { set: [40001234u32].into_iter().collect(), subregion: None };
    let refs = vec!["fire_scorpion_charm".to_string()];
    let build = |historic: &Vec<String>| {
        build_view_model(
            &game,
            &goods,
            &bosses,
            &checks(),
            None,
            None,
            &refs,
            &refs,
            historic,
            BossPanelScope::AllRegions,
            BossPanelScope::AllRegions,
            ChallengeSnapshot::empty(),
        )
    };
    let plain = build(&vec![]);
    let row = plain.tracked_row("fire_scorpion_charm").unwrap();
    assert_eq!(row.kind, TrackKind::Unique { acquired: None });
    assert_eq!(row.equipped, None);
    let historic = build(&refs);
    let row = historic.tracked_row("fire_scorpion_charm").unwrap();
    assert_eq!(row.kind, TrackKind::Unique { acquired: Some(true) });
}

#[test]
fn sample_checks_table_fits_the_panel_counters() {
    assert!(er_overlay::checks_panel::checks_table_fits(&checks()));
}
