use std::collections::HashMap;

use er_overlay::boss_table::{
    boss_entries_full, bosses_in_region, bosses_total_count, map_steam_language,
    normalize_locale_id, parse_boss_table, region_label_for_subregion, region_names,
    resolve_locale_id, BossEntry,
    BossStore, BossTableData, BossTableFile, DEFAULT_LOCALE_ID,
};
use er_overlay::challenge::ChallengeSnapshot;
use er_overlay::checks_table::{
    effective_flag, parse_checks_flags, CheckEntry, ChecksFlagsData, ChecksFlagsFile, ChecksTableData,
    LotParam,
    RegionRow,
};
use er_overlay::config::{resolve_boss_table_path, BossPanelScope};
use er_overlay::keyed::StrMap;
use er_overlay::lot_flags::{
    effective_good_flag, effective_lot_flag, parse_lot_flags, LotFlagsData, LotFlagsFile, LotRef,
    LotTable,
};
use er_overlay::metrics::{
    format_metric_value, resolve_metric, resolve_tracked_key, MetricValue, SCADUTREE_BLESSING_MAX,
};
use er_overlay::reader::{challenge_update_ready, GameStateReader};
use er_overlay::tables::{
    good_by_key, goods_table_from_rows, group_members, group_names, group_progress, group_size,
    item_owned_historic, GameStateSource, GoodRow, GoodsTable, ItemKind,
};
use er_overlay::types::{BackendKind, GameStateDiagnostics, GameTime};
use er_overlay::view_model::{build_view_model, OverlayViewModel};

// ---------------------------------------------------------------------------------------------
// Fixtures: a small goods table and boss table with the rows the assertions name, and the mock
// game state of the overlay's own tests.

fn row(key: &str, item_id: u32, category: ItemKind, count: bool) -> GoodRow {
    GoodRow {
        key: key.to_string(),
        item_id,
        name: key.replace('_', " "),
        file: None,
        category,
        pickup_flag: None,
        historic_lot_table: None,
        historic_lot_id: None,
        historic_vanilla_flag: None,
        max: None,
        count,
    }
}

fn goods() -> GoodsTable {
    let runes = [
        ("godrick_rune", 191u32, 171u32),
        ("radahn_rune", 192, 172),
        ("morgott_rune", 193, 173),
        ("rykard_rune", 194, 174),
        ("mohg_rune", 195, 175),
        ("malenia_rune", 196, 176),
        ("great_rune_of_the_unborn", 10080, 197),
    ];
    let mut rows = Vec::new();
    for (key, id, flag) in runes {
        let mut r = row(key, id, ItemKind::Goods, false);
        r.pickup_flag = Some(flag);
        rows.push(r);
    }
    rows.push(row("daedicar_s_woe", 1190, ItemKind::Accessory, false));
    rows.push(row("crimson_amber_medallion", 1000, ItemKind::Accessory, false));
    let mut scadutree = row("scadutree", 2010000, ItemKind::Goods, true);
    scadutree.max = Some(50);
    rows.push(scadutree);
    rows.push(row("kindling", 2008000, ItemKind::Goods, true));
    rows.push(row("smithing_stone_1", 10100, ItemKind::Goods, true));
    rows.push(row("somber_ancient_dragon_smithing_stone", 10168, ItemKind::Goods, true));
    let mut charm = row("fire_scorpion_charm", 1170, ItemKind::Accessory, false);
    charm.historic_lot_table = Some(LotTable::MapTable);
    charm.historic_lot_id = Some(123456);
    charm.historic_vanilla_flag = Some(40001234);
    rows.push(charm);

    let mut groups: StrMap<Vec<String>> = StrMap::new();
    groups.insert(
        "great_runes".to_string(),
        runes.iter().map(|(k, _, _)| k.to_string()).collect(),
    );
    goods_table_from_rows(rows, groups)
}

fn boss(flag_id: u32, name: &str, region: &str, place: Option<&str>) -> BossEntry {
    BossEntry {
        flag_id,
        name: name.to_string(),
        region: region.to_string(),
        icon: name.to_lowercase().replace(' ', "_"),
        place: place.map(str::to_string),
        dlc: false,
    }
}

fn bosses() -> BossTableData {
    let file = BossTableFile {
        region_display_order: vec![
            "Limgrave".to_string(),
            "Weeping Peninsula".to_string(),
            "Liurnia of the Lakes".to_string(),
        ],
        region: vec![
            RegionRow { name: "Limgrave".to_string(), subregions: vec![6100, 3002, 1800] },
            RegionRow { name: "Weeping Peninsula".to_string(), subregions: vec![6102, 3001] },
            RegionRow { name: "Liurnia of the Lakes".to_string(), subregions: vec![1001, 6200] },
        ],
        boss: vec![
            boss(1042360800, "Tree Sentinel", "Limgrave", Some("Church of Elleh")),
            boss(1042370800, "Flying Dragon Agheel", "Limgrave", Some("Dragon-Burnt Ruins")),
            boss(30020800, "Black Knife Assassin", "Limgrave", Some("Deathtouched Catacombs")),
            boss(1044320800, "Leonine Misbegotten", "Weeping Peninsula", Some("Castle Morne")),
            boss(14000800, "Rennala", "Liurnia of the Lakes", Some("Raya Lucaria")),
        ],
    };
    parse_boss_table(file).unwrap()
}

struct MockGameState {
    igt: Option<GameTime>,
    deaths: Option<u32>,
    ng_cycle: Option<u32>,
    scadutree_blessing: Option<u32>,
    bosses_killed: Option<u32>,
    subregion_id: Option<u32>,
    bosses_total: u32,
}

impl MockGameState {
    fn new(table: &BossTableData) -> Self {
        MockGameState {
            igt: Some(GameTime::from_ms(3_661_000)),
            deaths: Some(42),
            ng_cycle: Some(2),
            scadutree_blessing: Some(12),
            bosses_killed: Some(8),
            subregion_id: Some(6_100_000),
            bosses_total: bosses_total_count(table) as u32,
        }
    }
}

impl GameStateSource for MockGameState {
    fn get_igt(&self) -> Option<GameTime> {
        self.igt
    }
    fn get_death_count(&self) -> Option<u32> {
        self.deaths
    }
    fn get_ng_cycle(&self) -> Option<u32> {
        self.ng_cycle
    }
    fn get_scadutree_blessing(&self) -> Option<u32> {
        self.scadutree_blessing
    }
    fn get_killed_boss_count(&self) -> Option<u32> {
        self.bosses_killed
    }
    fn get_goods_quantity(&self, _item_id: u32) -> Option<u32> {
        Some(0)
    }
    fn has_item(&self, _item_id: u32, _category: ItemKind) -> Option<bool> {
        Some(false)
    }
    fn is_item_equipped(&self, _item_id: u32, _category: ItemKind) -> Option<bool> {
        Some(false)
    }
    fn get_flag(&self, _flag_id: u32) -> Option<bool> {
        Some(false)
    }
    fn get_current_subregion_id(&self) -> Option<u32> {
        self.subregion_id
    }
    fn get_status(&self) -> GameStateDiagnostics {
        let mut d = GameStateDiagnostics::blank();
        d.backend = BackendKind::Unavailable;
        d.boss_flags_loaded = self.bosses_total;
        d
    }
    fn bosses_total(&self) -> u32 {
        self.bosses_total
    }
}

fn no_checks() -> ChecksTableData {
    ChecksTableData { checks: vec![], region_names: vec![], subregion_to_region: HashMap::new() }
}

fn keys(list: &[&str]) -> Vec<String> {
    list.iter().map(|s| s.to_string()).collect()
}

fn view_model(refs: &[&str], equipped: &[&str], scope: BossPanelScope) -> OverlayViewModel {
    let table = bosses();
    let mock = MockGameState::new(&table);
    build_view_model(
        &mock,
        &goods(),
        &table,
        &no_checks(),
        None,
        None,
        &keys(refs),
        &keys(equipped),
        &vec![],
        scope,
        BossPanelScope::CurrentRegion,
        ChallengeSnapshot::empty(),
    )
}

// ---------------------------------------------------------------------------------------------
// Goods and boss tables.

#[test]
fn boss_table_non_empty() {
    let mut store = BossStore { table: bosses(), locale: String::new() };
    er_overlay::boss_table::apply_boss_table(&mut store, bosses(), "en");
    assert!(!boss_entries_full(&store).bosses.is_empty());
}

#[test]
fn boss_total_counts_rows_not_unique_flags() {
    let table = bosses();
    assert_eq!(bosses_total_count(&table), table.bosses.len());
}

#[test]
fn goods_unique_keys() {
    let table = goods();
    let keys: Vec<_> = table.goods.iter().map(|g| g.key.as_str()).collect();
    let mut sorted = keys.clone();
    sorted.sort_unstable();
    sorted.dedup();
    assert_eq!(sorted.len(), keys.len(), "duplicate good key in the goods table");
}

#[test]
fn great_runes_group() {
    let table = goods();
    assert!(group_names(&table).iter().any(|n| n == "great_runes"));
    assert_eq!(group_size(&table, "great_runes"), 7);
    let runes = group_members(&table, "great_runes");
    assert_eq!(runes.len(), 7);
    assert_eq!(runes[0].item_id, 191);
    assert_eq!(runes[0].pickup_flag, Some(171));
    assert!(!runes[0].countable, "runes are owned-checks, not counters");
}

#[test]
fn runes_and_talismans_are_owned_checks() {
    let table = goods();
    assert!(!good_by_key(&table, "godrick_rune").unwrap().countable);
    assert!(!good_by_key(&table, "daedicar_s_woe").unwrap().countable);
}

#[test]
fn good_categories_are_tagged() {
    let table = goods();
    assert_eq!(good_by_key(&table, "godrick_rune").unwrap().category, ItemKind::Goods);
    assert_eq!(good_by_key(&table, "scadutree").unwrap().category, ItemKind::Goods);
    assert_eq!(
        good_by_key(&table, "crimson_amber_medallion").unwrap().category,
        ItemKind::Accessory
    );
    for m in group_members(&table, "great_runes") {
        assert_eq!(m.category, ItemKind::Goods, "{} should be goods", m.key);
    }
}

#[test]
fn stackable_goods_are_counters() {
    let table = goods();
    assert!(good_by_key(&table, "scadutree").unwrap().countable);
    assert_eq!(good_by_key(&table, "scadutree").unwrap().max, Some(50));
    assert!(good_by_key(&table, "kindling").unwrap().countable);
    assert!(good_by_key(&table, "smithing_stone_1").unwrap().countable);
}

#[test]
fn goods_table_parses_historic_lot() {
    let mut r = row("fire_scorpion_charm", 1170, ItemKind::Accessory, false);
    r.name = "Fire Scorpion Charm".to_string();
    r.historic_lot_table = Some(LotTable::MapTable);
    r.historic_lot_id = Some(123456);
    r.historic_vanilla_flag = Some(40001234);
    let lot = r.historic_lot().unwrap();
    assert_eq!(lot.table, LotTable::MapTable);
    assert_eq!(lot.lot_id, 123456);
    assert_eq!(lot.vanilla_flag, Some(40001234));
    let table = goods_table_from_rows(vec![r], StrMap::new());
    assert_eq!(table.goods[0].historic_lot, Some(lot));
    assert_eq!(table.goods[0].file, "fire_scorpion_charm.png");
}

struct FlagOnlySource;

impl GameStateSource for FlagOnlySource {
    fn get_igt(&self) -> Option<GameTime> {
        None
    }
    fn get_death_count(&self) -> Option<u32> {
        None
    }
    fn get_ng_cycle(&self) -> Option<u32> {
        None
    }
    fn get_scadutree_blessing(&self) -> Option<u32> {
        None
    }
    fn get_killed_boss_count(&self) -> Option<u32> {
        None
    }
    fn get_goods_quantity(&self, _item_id: u32) -> Option<u32> {
        None
    }
    fn has_item(&self, _item_id: u32, _category: ItemKind) -> Option<bool> {
        Some(false)
    }
    fn is_item_equipped(&self, _item_id: u32, _category: ItemKind) -> Option<bool> {
        None
    }
    fn get_flag(&self, flag_id: u32) -> Option<bool> {
        Some(flag_id == 40001234)
    }
    fn get_current_subregion_id(&self) -> Option<u32> {
        None
    }
    fn get_status(&self) -> GameStateDiagnostics {
        GameStateDiagnostics::blank()
    }
    fn bosses_total(&self) -> u32 {
        0
    }
}

#[test]
fn historic_ownership_uses_lot_flag_when_inventory_is_empty() {
    assert_eq!(
        item_owned_historic(
            &FlagOnlySource,
            None,
            "fire_scorpion_charm",
            1170,
            ItemKind::Accessory,
            None,
            Some(LotRef { table: LotTable::MapTable, lot_id: 123456, vanilla_flag: Some(40001234) }),
        ),
        Some(true)
    );
}

#[test]
fn historic_ownership_without_any_flag_keeps_inventory_reading() {
    assert_eq!(
        item_owned_historic(&FlagOnlySource, None, "missing", 1, ItemKind::Goods, None, None),
        Some(false)
    );
}

#[test]
fn group_progress_counts_owned_members() {
    let table = bosses();
    let source = MockGameState::new(&table);
    assert_eq!(group_progress(&goods(), &source, "great_runes"), Some((0, 7)));
}

#[test]
fn group_progress_of_unknown_group_is_none() {
    let table = bosses();
    let source = MockGameState::new(&table);
    assert_eq!(group_progress(&goods(), &source, "no_such_group"), None);
}

#[test]
fn boss_entries_have_metadata() {
    let mut store = BossStore { table: bosses(), locale: String::new() };
    er_overlay::boss_table::apply_boss_table(&mut store, bosses(), "en");
    let table = boss_entries_full(&store);
    let b = table.bosses.first().unwrap();
    assert!(!b.name.is_empty());
    assert!(!b.region.is_empty());
    assert!(!b.icon.is_empty());
}

#[test]
fn region_map_resolves_limgrave() {
    let table = bosses();
    assert_eq!(region_label_for_subregion(&table, 6_100_000).as_deref(), Some("Limgrave"));
    assert_eq!(region_label_for_subregion(&table, 3_002_000).as_deref(), Some("Limgrave"));
    assert_eq!(region_label_for_subregion(&table, 6100).as_deref(), Some("Limgrave"));
    assert_eq!(
        region_label_for_subregion(&table, 1_001_001).as_deref(),
        Some("Liurnia of the Lakes")
    );
    assert_eq!(region_label_for_subregion(&table, 9_999_000), None);
}

#[test]
fn bosses_in_region_non_empty() {
    let table = bosses();
    assert!(!bosses_in_region(&table, "Limgrave").is_empty());
    assert_eq!(bosses_in_region(&table, "Limgrave").len(), 3);
    assert!(bosses_in_region(&table, "Caelid").is_empty());
}

#[test]
fn region_names_non_empty() {
    assert!(!region_names(&bosses()).is_empty());
}

#[test]
fn region_names_follow_bosses_json_order() {
    let names = region_names(&bosses());
    assert_eq!(names.first().map(String::as_str), Some("Limgrave"));
    assert_eq!(names.get(1).map(String::as_str), Some("Weeping Peninsula"));
    let limgrave_pos = names.iter().position(|r| r == "Limgrave").unwrap();
    let liurnia_pos = names.iter().position(|r| r == "Liurnia of the Lakes").unwrap();
    assert!(limgrave_pos < liurnia_pos);
}

#[test]
fn tree_sentinel_has_place() {
    let table = bosses();
    let sentinel = table
        .bosses
        .iter()
        .find(|b| b.flag_id == 1042360800)
        .expect("Tree Sentinel");
    assert_eq!(sentinel.place.as_deref(), Some("Church of Elleh"));
}

#[test]
fn parse_boss_table_counts_entries() {
    let file = BossTableFile {
        region_display_order: vec![],
        region: vec![],
        boss: vec![boss(1, "A", "Limgrave", None), boss(2, "B", "Limgrave", None)],
    };
    assert_eq!(parse_boss_table(file).unwrap().bosses.len(), 2);
}

#[test]
fn parse_boss_table_rejects_duplicate_flags_and_empty_tables() {
    let dup = BossTableFile {
        region_display_order: vec![],
        region: vec![],
        boss: vec![boss(7, "A", "Limgrave", None), boss(7, "B", "Limgrave", None)],
    };
    assert!(matches!(
        parse_boss_table(dup),
        Err(er_overlay::boss_table::BossTableError::DuplicateFlag { flag_id: 7 })
    ));
    let empty = BossTableFile { region_display_order: vec![], region: vec![], boss: vec![] };
    assert!(matches!(parse_boss_table(empty), Err(er_overlay::boss_table::BossTableError::NoBosses)));
}

// ---------------------------------------------------------------------------------------------
// Locale and paths.

#[test]
fn normalize_locale_aliases() {
    assert_eq!(normalize_locale_id("french", "en"), "fr");
    assert_eq!(normalize_locale_id("frafr", "en"), "fr");
    assert_eq!(normalize_locale_id("engUS", "en"), DEFAULT_LOCALE_ID);
}

#[test]
fn resolve_boss_table_path_layout() {
    let path = resolve_boss_table_path("C:/game", "fr");
    assert_eq!(path, "C:/game/tables/fr/bosses.toml");
}

#[test]
fn steam_language_maps_to_short_codes() {
    assert_eq!(map_steam_language("french"), "fr");
    assert_eq!(map_steam_language("english"), "en");
    assert_eq!(map_steam_language("schinese"), "zh-cn");
    assert_eq!(map_steam_language("klingon"), "en");
}

// ---------------------------------------------------------------------------------------------
// Seed mappings.

fn map_lot() -> LotRef {
    LotRef { table: LotTable::MapTable, lot_id: 100, vanilla_flag: Some(200) }
}

#[test]
fn effective_lot_flag_prefers_seed_then_vanilla() {
    let lot = map_lot();
    assert_eq!(effective_lot_flag(None, lot), Some(200));

    let mut data = LotFlagsData::empty();
    data.map.insert(100, 300);
    assert_eq!(effective_lot_flag(Some(&data), lot), Some(300));

    let empty = LotFlagsData::empty();
    assert_eq!(effective_lot_flag(Some(&empty), lot), None);
}

#[test]
fn effective_good_flag_prefers_seed_item_mapping_then_vanilla_lot() {
    let lot = map_lot();
    assert_eq!(effective_good_flag(None, "fire_scorpion_charm", Some(lot)), Some(200));

    let mut data = LotFlagsData::empty();
    data.goods.insert("fire_scorpion_charm".to_string(), 700);
    assert_eq!(effective_good_flag(Some(&data), "fire_scorpion_charm", Some(lot)), Some(700));
    assert_eq!(effective_good_flag(Some(&data), "missing", Some(lot)), None);
}

#[test]
fn parse_lot_flags_supports_new_and_legacy_sections() {
    let mut goods_section: StrMap<u32> = StrMap::new();
    goods_section.insert("fire_scorpion_charm".to_string(), 700);
    let file = LotFlagsFile {
        regulation_sha256: Some("abc".to_string()),
        flags: vec![("100".to_string(), 200)],
        map: vec![("300".to_string(), 400)],
        enemy: vec![("500".to_string(), 600)],
        goods: goods_section,
    };
    let data = parse_lot_flags(file).unwrap();
    assert_eq!(data.regulation_sha256.as_deref(), Some("abc"));
    assert_eq!(data.map.get(&100), Some(&200));
    assert_eq!(data.map.get(&300), Some(&400));
    assert_eq!(data.enemy.get(&500), Some(&600));
    assert_eq!(data.goods.get("fire_scorpion_charm"), Some(&700));
}

#[test]
fn parse_lot_flags_reports_the_bad_key() {
    let file = LotFlagsFile {
        regulation_sha256: None,
        flags: vec![],
        map: vec![("12".to_string(), 1), ("x7".to_string(), 2)],
        enemy: vec![],
        goods: StrMap::new(),
    };
    let err = parse_lot_flags(file).err().unwrap();
    assert_eq!(err.section, "map");
    assert_eq!(err.key, "x7");
}

fn dynamic_check() -> CheckEntry {
    CheckEntry {
        name: "X".into(),
        place: None,
        region: "R".into(),
        dlc: false,
        dynamic: true,
        lot_id: Some(1034450100),
        lot_param: LotParam::MapTable,
        vanilla_flag: Some(1034457100),
        flag: None,
    }
}

#[test]
fn dynamic_check_resolution_prefers_seed_then_vanilla() {
    let check = dynamic_check();
    assert_eq!(effective_flag(None, &check), Some(1034457100));

    let mut flags = HashMap::new();
    flags.insert(1034450100u32, 65160u32);
    let seed = ChecksFlagsData { regulation_sha256: Some("abc".into()), flags };
    assert_eq!(effective_flag(Some(&seed), &check), Some(65160));

    let empty = ChecksFlagsData { regulation_sha256: None, flags: HashMap::new() };
    assert_eq!(effective_flag(Some(&empty), &check), None);
}

#[test]
fn fixed_check_uses_flag() {
    let check = CheckEntry {
        name: "Boss".into(),
        place: None,
        region: "R".into(),
        dlc: false,
        dynamic: false,
        lot_id: None,
        lot_param: LotParam::MapTable,
        vanilla_flag: None,
        flag: Some(10000800),
    };
    assert_eq!(effective_flag(None, &check), Some(10000800));
}

#[test]
fn parse_checks_flags_numeric_keys() {
    let file = ChecksFlagsFile {
        regulation_sha256: Some("deadbeef".to_string()),
        flags: vec![("1034450100".to_string(), 65160), ("10000500".to_string(), 1)],
    };
    let data = parse_checks_flags(file).unwrap();
    assert_eq!(data.regulation_sha256.as_deref(), Some("deadbeef"));
    assert_eq!(data.flags.get(&1034450100), Some(&65160));
}

// ---------------------------------------------------------------------------------------------
// Reader.

#[test]
fn reader_constructed() {
    let table = bosses();
    let r = GameStateReader::new(bosses_total_count(&table) as u32);
    assert_eq!(r.bosses_total(), bosses_total_count(&table) as u32);
    assert!(!r.is_ready());
    assert_eq!(r.killed_boss_count(), None);
}

#[test]
fn challenge_ready_requires_running_igt_and_zero_screen_state() {
    assert!(!challenge_update_ready(0, Some(0)));
    assert!(!challenge_update_ready(1000, None));
    assert!(!challenge_update_ready(1000, Some(1)));
    assert!(challenge_update_ready(1000, Some(0)));
}

// ---------------------------------------------------------------------------------------------
// Metrics and the view model.

#[test]
fn active_metrics_resolve_from_mock() {
    let vm = view_model(
        &["godrick_rune", "smithing_stone_1", "somber_ancient_dragon_smithing_stone"],
        &[],
        BossPanelScope::CurrentRegion,
    );
    assert!(matches!(resolve_metric("igt", &vm), MetricValue::Time(_)));
    assert!(resolve_tracked_key("godrick_rune", &vm).is_some());
    assert!(resolve_tracked_key("smithing_stone_1", &vm).is_some());
    assert!(resolve_tracked_key("somber_ancient_dragon_smithing_stone", &vm).is_some());
}

#[test]
fn great_runes_group_resolves_as_count() {
    let vm = view_model(&[], &[], BossPanelScope::CurrentRegion);
    assert_eq!(
        resolve_metric("great_runes", &vm),
        MetricValue::Count { current: Some(0), max: Some(7) }
    );
}

#[test]
fn scadutree_blessing_resolves_from_mock() {
    let vm = view_model(&[], &[], BossPanelScope::CurrentRegion);
    assert_eq!(
        resolve_metric("scadutree_blessing", &vm),
        MetricValue::Count { current: Some(12), max: Some(SCADUTREE_BLESSING_MAX) }
    );
    assert_eq!(
        format_metric_value(
            &MetricValue::Count { current: Some(12), max: Some(SCADUTREE_BLESSING_MAX) },
            true
        ),
        "12/20"
    );
}

#[test]
fn ng_cycle_formats_as_ng_plus() {
    let vm = view_model(&[], &[], BossPanelScope::CurrentRegion);
    assert_eq!(resolve_metric("ng_cycle", &vm), MetricValue::NgCycle(Some(2)));
    assert_eq!(format_metric_value(&MetricValue::NgCycle(Some(0)), false), "NG+0");
    assert_eq!(format_metric_value(&MetricValue::NgCycle(Some(2)), false), "NG+2");
}

#[test]
fn talisman_item_resolves_from_mock() {
    let vm = view_model(&["daedicar_s_woe"], &[], BossPanelScope::CurrentRegion);
    assert!(resolve_tracked_key("daedicar_s_woe", &vm).is_some());
}

#[test]
fn equipped_tracking_populates_row_when_requested() {
    let vm = view_model(&["daedicar_s_woe"], &["daedicar_s_woe"], BossPanelScope::CurrentRegion);
    let row = resolve_tracked_key("daedicar_s_woe", &vm).unwrap();
    assert_eq!(row.equipped, Some(false));
}

#[test]
fn equipped_state_absent_when_not_requested() {
    let vm = view_model(&["daedicar_s_woe"], &[], BossPanelScope::CurrentRegion);
    let row = resolve_tracked_key("daedicar_s_woe", &vm).unwrap();
    assert_eq!(row.equipped, None);
}

#[test]
fn view_model_builds() {
    let vm = view_model(&[], &[], BossPanelScope::CurrentRegion);
    assert!(vm.igt.is_some());
    assert_eq!(vm.deaths, Some(42));
}

#[test]
fn current_region_scope_filters_bosses() {
    let vm = view_model(&[], &[], BossPanelScope::CurrentRegion);
    assert_eq!(vm.boss_panel_sections.len(), 1);
    assert_eq!(vm.boss_panel_sections[0].region, "Limgrave");
    assert_eq!(vm.boss_panel_sections[0].total, 3);
    assert_eq!(vm.boss_panel_sections[0].killed, 0);
}

#[test]
fn all_regions_scope_lists_every_region() {
    let table = bosses();
    let vm = view_model(&[], &[], BossPanelScope::AllRegions);
    assert!(vm.boss_panel_sections.len() > 1);
    assert_eq!(vm.boss_panel_total, bosses_total_count(&table) as u32);
    assert!(vm.boss_panel_sections.iter().any(|s| s.is_current));
}

#[test]
fn unknown_metric_is_unavailable_and_shows_dashes() {
    let vm = view_model(&[], &[], BossPanelScope::CurrentRegion);
    let v = resolve_metric("no_such_metric", &vm);
    assert_eq!(v, MetricValue::Unavailable);
    assert_eq!(format_metric_value(&v, true), "---");
}

#[test]
fn builtin_metrics_resolve_exactly() {
    let vm = view_model(&["scadutree", "godrick_rune"], &[], BossPanelScope::CurrentRegion);
    assert_eq!(resolve_metric("deaths", &vm), MetricValue::Count { current: Some(42), max: None });
    assert_eq!(
        resolve_metric("bosses", &vm),
        MetricValue::Count { current: Some(8), max: Some(5) }
    );
    assert_eq!(
        resolve_metric("scadutree", &vm),
        MetricValue::Count { current: Some(0), max: Some(50) }
    );
    assert_eq!(
        resolve_metric("godrick_rune", &vm),
        MetricValue::Count { current: Some(0), max: Some(1) }
    );
    assert_eq!(format_metric_value(&resolve_metric("igt", &vm), false), "01:01:01");
}

#[test]
fn small_tables_fit_the_panel_counters() {
    assert!(er_overlay::view_model::boss_table_fits(&bosses()));
    assert!(er_overlay::checks_panel::checks_table_fits(&no_checks()));
}

#[test]
fn resolving_a_setting_normalizes_it() {
    for raw in ["  AUTO ", "auto", "", "   ", " French", "deUDE", "xx", " Zh-TW "] {
        assert_eq!(resolve_locale_id(Some(raw), "en"), normalize_locale_id(raw, "en"));
    }
    assert_eq!(resolve_locale_id(Some("  Auto "), "ja"), "ja");
    assert_eq!(resolve_locale_id(Some(" French"), "ja"), "fr");
    assert_eq!(resolve_locale_id(None, "ja"), "ja");
}

#[test]
fn normalizing_twice_is_normalizing_once() {
    for raw in ["French", " frafr ", "engUS", "", "AUTO", "Xx-Yy", "zh-TW", "koreana"] {
        let once = normalize_locale_id(raw, "en");
        assert_eq!(normalize_locale_id(&once, "en"), once);
    }
    assert_eq!(normalize_locale_id(" Xx-Yy ", "en"), "xx-yy");
}

#[test]
fn installed_checks_mapping_is_reported_until_cleared() {
    let file = ChecksFlagsFile {
        regulation_sha256: Some("deadbeef".to_string()),
        flags: vec![("1034450100".to_string(), 65160)],
    };
    let mut store: Option<ChecksFlagsData> = None;
    assert_eq!(er_overlay::checks_table::checks_seed_regulation_hash(&store), None);
    let bad = ChecksFlagsFile { regulation_sha256: None, flags: vec![("lot".to_string(), 1)] };
    assert!(er_overlay::checks_table::load_checks_flags(&mut store, bad).is_err());
    assert!(store.is_none());
    assert!(er_overlay::checks_table::load_checks_flags(&mut store, file).is_ok());
    assert_eq!(er_overlay::checks_table::checks_seed_regulation_hash(&store), Some("deadbeef".to_string()));
    let seed = er_overlay::checks_table::checks_seed_flags(&store).unwrap();
    assert_eq!(seed.flags.get(&1034450100), Some(&65160));
    assert!(er_overlay::checks_table::clear_checks_seed_flags(&mut store));
    assert_eq!(er_overlay::checks_table::checks_seed_regulation_hash(&store), None);
    assert!(!er_overlay::checks_table::clear_checks_seed_flags(&mut store));
}
