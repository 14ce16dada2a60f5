//! Checks: one checklist of things to validate in a run (a boss to kill or an item to loot),
//! each resolved to an event flag. Fixed checks carry their flag; dynamic checks (ground loot
//! the item randomizer relocates) are anchored on a lot id and resolved through the per-seed
//! mapping, falling back to their vanilla flag when no mapping is loaded.

use vstd::prelude::*;
use std::collections::HashMap;
use crate::config::{is_separator, table_path};
use crate::text::{chars_of, eq_str, parse_u32, parse_u32_seq, str_eq, string_of};
use crate::lot_flags::{first_bad_key, insert_parsed, raw_view, InvalidLotKey, parse_flag_map};

verus! {

broadcast use vstd::std_specs::hash::group_hash_axioms;

/// Which `ItemLotParam` table a dynamic check's lot id lives in.
#[derive(Debug, Clone, Copy, PartialEq, Eq, Structural)]
pub enum LotParam {
    MapTable,
    Enemy,
}

impl Default for LotParam {
    fn default() -> (p: Self)
        ensures
            p == LotParam::MapTable,
    {
        LotParam::MapTable
    }
}

/// One check of the checklist.
#[derive(Debug)]
pub struct CheckEntry {
    pub name: String,
    pub place: Option<String>,
    pub region: String,
    pub dlc: bool,
    /// Whether the flag is resolved per seed (relocated ground loot).
    pub dynamic: bool,
    /// Stable anchor of a dynamic check: its `ItemLotParam` row id.
    pub lot_id: Option<u32>,
    pub lot_param: LotParam,
    /// Vanilla pickup flag of the lot (fallback without a seed mapping).
    pub vanilla_flag: Option<u32>,
    /// Flag of a fixed check.
    pub flag: Option<u32>,
}

pub fn clone_opt_string(o: &Option<String>) -> (r: Option<String>)
    ensures
        r == *o,
{
    match o {
        Some(s) => Some(s.clone()),
        None => None,
    }
}

impl CheckEntry {
    /// A field-by-field copy.
    pub fn copy(&self) -> (c: Self)
        ensures
            c == *self,
    {
        CheckEntry {
            name: self.name.clone(),
            place: clone_opt_string(&self.place),
            region: self.region.clone(),
            dlc: self.dlc,
            dynamic: self.dynamic,
            lot_id: self.lot_id,
            lot_param: self.lot_param,
            vanilla_flag: self.vanilla_flag,
            flag: self.flag,
        }
    }
}

/// A region and the map ids (`map_id / 1000` keys) that belong to it.
#[derive(Debug)]
pub struct RegionRow {
    pub name: String,
    pub subregions: Vec<u32>,
}

/// A loaded checks table.
pub struct ChecksTableData {
    pub checks: Vec<CheckEntry>,
    pub region_names: Vec<String>,
    pub subregion_to_region: HashMap<u32, String>,
}

/// The content of a `checks.toml` file.
pub struct ChecksTableFile {
    pub region_display_order: Vec<String>,
    pub region: Vec<RegionRow>,
    pub check: Vec<CheckEntry>,
}

/// Why a checks table is rejected.
#[derive(Debug)]
pub enum ChecksTableError {
    /// A dynamic check with neither `lot_id` nor `vanilla_flag`.
    DynamicWithoutAnchor { name: String },
    /// A fixed check without `flag`.
    FixedWithoutFlag { name: String },
}

/// Whether a check carries what it needs to resolve a flag.
pub open spec fn check_is_complete(c: CheckEntry) -> bool {
    if c.dynamic {
        c.lot_id is Some || c.vanilla_flag is Some
    } else {
        c.flag is Some
    }
}

/// Index of the first incomplete check.
pub open spec fn first_incomplete(checks: Seq<CheckEntry>) -> Option<int> {
    if exists|i: int| 0 <= i < checks.len() && !check_is_complete(checks[i]) {
        Some(choose|i: int| 0 <= i < checks.len() && !check_is_complete(checks[i]) && forall|j: int|
            0 <= j < i ==> check_is_complete(checks[j]))
    } else {
        None
    }
}

/// Region names in display order: the explicit order when given, else the regions in file order.
pub open spec fn display_order(order: Seq<String>, regions: Seq<RegionRow>) -> Seq<Seq<char>> {
    if order.len() > 0 {
        order.map_values(|s: String| s@)
    } else {
        regions.map_values(|r: RegionRow| r.name@)
    }
}

/// Map id → region name: every listed map id of every region, later listings winning.
pub open spec fn region_map(regions: Seq<RegionRow>) -> Map<u32, Seq<char>>
    decreases regions.len(),
{
    if regions.len() == 0 {
        Map::empty()
    } else {
        let r = regions.last();
        add_ids(region_map(regions.drop_last()), r.subregions@, r.name@)
    }
}

pub open spec fn add_ids(m: Map<u32, Seq<char>>, ids: Seq<u32>, name: Seq<char>) -> Map<u32, Seq<char>>
    decreases ids.len(),
{
    if ids.len() == 0 {
        m
    } else {
        add_ids(m, ids.drop_last(), name).insert(ids.last(), name)
    }
}

pub open spec fn string_map_view(m: Map<u32, String>) -> Map<u32, Seq<char>> {
    m.map_values(|s: String| s@)
}

pub open spec fn strings_of(v: Seq<String>) -> Seq<Seq<char>> {
    v.map_values(|s: String| s@)
}

/// Copies a list of strings.
pub fn copy_strings(v: &Vec<String>) -> (r: Vec<String>)
    ensures
        r@ == v@,
{
    let mut r: Vec<String> = Vec::new();
    let mut i: usize = 0;
    while i < v.len()
        invariant
            i <= v.len(),
            r@ == v@.take(i as int),
        decreases v.len() - i,
    {
        r.push(v[i].clone());
        assert(v@.take(i + 1) =~= v@.take(i as int).push(v@[i as int]));
        i += 1;
    }
    assert(v@.take(v.len() as int) =~= v@);
    r
}

/// Region names in display order (see [`display_order`]).
pub fn region_display_names(order: &Vec<String>, regions: &Vec<RegionRow>) -> (r: Vec<String>)
    ensures
        strings_of(r@) == display_order(order@, regions@),
{
    if order.len() > 0 {
        let r = copy_strings(order);
        assert(strings_of(r@) =~= display_order(order@, regions@));
        return r;
    }
    let mut r: Vec<String> = Vec::new();
    let mut i: usize = 0;
    while i < regions.len()
        invariant
            i <= regions.len(),
            strings_of(r@) =~= regions@.take(i as int).map_values(|x: RegionRow| x.name@),
        decreases regions.len() - i,
    {
        let ghost before = r@;
        let nm = regions[i].name.clone();
        r.push(nm);
        assert(strings_of(r@) =~= strings_of(before).push(nm@));
        assert(regions@.take(i + 1) =~= regions@.take(i as int).push(regions@[i as int]));
        assert(regions@.take(i + 1).map_values(|x: RegionRow| x.name@) =~= regions@.take(
            i as int,
        ).map_values(|x: RegionRow| x.name@).push(nm@));
        i += 1;
    }
    assert(regions@.take(i as int) =~= regions@);
    r
}

/// Builds the map id → region lookup (see [`region_map`]).
pub fn build_region_map(regions: &Vec<RegionRow>) -> (m: HashMap<u32, String>)
    ensures
        string_map_view(m@) == region_map(regions@),
{
    let mut m: HashMap<u32, String> = HashMap::new();
    let mut i: usize = 0;
    assert(string_map_view(m@) =~= region_map(regions@.take(0)));
    while i < regions.len()
        invariant
            i <= regions.len(),
            string_map_view(m@) == region_map(regions@.take(i as int)),
        decreases regions.len() - i,
    {
        let row = &regions[i];
        let ghost before = string_map_view(m@);
        let mut k: usize = 0;
        assert(row.subregions@.take(0) =~= Seq::<u32>::empty());
        while k < row.subregions.len()
            invariant
                k <= row.subregions.len(),
                string_map_view(m@) == add_ids(before, row.subregions@.take(k as int), row.name@),
            decreases row.subregions.len() - k,
        {
            let ghost mid = m@;
            m.insert(row.subregions[k], row.name.clone());
            assert(row.subregions@.take(k + 1).drop_last() =~= row.subregions@.take(k as int));
            assert(string_map_view(m@) =~= string_map_view(mid).insert(row.subregions@[k as int], row.name@));
            k += 1;
        }
        assert(row.subregions@.take(k as int) =~= row.subregions@);
        assert(regions@.take(i + 1).drop_last() =~= regions@.take(i as int));
        assert(regions@.take(i + 1).last() == regions@[i as int]);
        i += 1;
    }
    assert(regions@.take(i as int) =~= regions@);
    m
}

/// Validates the checks (in file order) and builds the table.
pub fn parse_checks_table(file: ChecksTableFile) -> (r: Result<ChecksTableData, ChecksTableError>)
    ensures
        match first_incomplete(file.check@) {
            Some(i) => r matches Err(e) && match e {
                ChecksTableError::DynamicWithoutAnchor { name } => file.check@[i].dynamic && name@
                    == file.check@[i].name@,
                ChecksTableError::FixedWithoutFlag { name } => !file.check@[i].dynamic && name@
                    == file.check@[i].name@,
            },
            None => r matches Ok(d) && d.checks@ == file.check@ && strings_of(d.region_names@)
                == display_order(file.region_display_order@, file.region@) && string_map_view(
                d.subregion_to_region@,
            ) == region_map(file.region@),
        },
{
    let mut i: usize = 0;
    while i < file.check.len()
        invariant
            i <= file.check.len(),
            forall|j: int| 0 <= j < i ==> check_is_complete(#[trigger] file.check@[j]),
        decreases file.check.len() - i,
    {
        let c = &file.check[i];
        if c.dynamic && c.lot_id.is_none() && c.vanilla_flag.is_none() {
            proof {
                assert(!check_is_complete(file.check@[i as int]));
                let w = choose|w: int| 0 <= w < file.check@.len() && !check_is_complete(file.check@[w])
                    && forall|j: int| 0 <= j < w ==> check_is_complete(file.check@[j]);
                assert(w == i);
            }
            return Err(ChecksTableError::DynamicWithoutAnchor { name: c.name.clone() });
        }
        if !c.dynamic && c.flag.is_none() {
            proof {
                assert(!check_is_complete(file.check@[i as int]));
                let w = choose|w: int| 0 <= w < file.check@.len() && !check_is_complete(file.check@[w])
                    && forall|j: int| 0 <= j < w ==> check_is_complete(file.check@[j]);
                assert(w == i);
            }
            return Err(ChecksTableError::FixedWithoutFlag { name: c.name.clone() });
        }
        i += 1;
    }
    let region_names = region_display_names(&file.region_display_order, &file.region);
    let subregion_to_region = build_region_map(&file.region);
    Ok(ChecksTableData { checks: file.check, region_names, subregion_to_region })
}

/// Number of checks in a table.
pub fn checks_total_count(table: &ChecksTableData) -> (n: usize)
    ensures
        n == table.checks@.len(),
{
    table.checks.len()
}

/// The checks of `region`, in table order.
pub fn checks_in_region(table: &ChecksTableData, region: &str) -> (r: Vec<CheckEntry>)
    ensures
        r@ == table.checks@.filter(|c: CheckEntry| c.region@ == region@),
{
    let mut r: Vec<CheckEntry> = Vec::new();
    let mut i: usize = 0;
    while i < table.checks.len()
        invariant
            i <= table.checks.len(),
            r@ == table.checks@.take(i as int).filter(|c: CheckEntry| c.region@ == region@),
        decreases table.checks.len() - i,
    {
        let c = &table.checks[i];
        assert(table.checks@.take(i + 1).drop_last() =~= table.checks@.take(i as int));
        reveal_with_fuel(Seq::filter, 1);
        if str_eq(c.region.as_str(), region) {
            r.push(c.copy());
        }
        i += 1;
    }
    assert(table.checks@.take(i as int) =~= table.checks@);
    r
}

/// Region names in display order.
pub fn checks_region_names(table: &ChecksTableData) -> (r: Vec<String>)
    ensures
        r@ == table.region_names@,
{
    copy_strings(&table.region_names)
}

/// The region a live map id is in: looked up by `map_id / 1000`, then by the id itself.
pub open spec fn region_for_map_id(m: Map<u32, Seq<char>>, map_id: u32) -> Option<Seq<char>> {
    let key = map_id / 1000;
    if m.contains_key(key) {
        Some(m[key])
    } else if m.contains_key(map_id) {
        Some(m[map_id])
    } else {
        None
    }
}

/// Region label of a map id in a map id → region lookup.
pub fn region_label_in(m: &HashMap<u32, String>, map_id: u32) -> (r: Option<String>)
    ensures
        match r {
            Some(s) => region_for_map_id(string_map_view(m@), map_id) == Some(s@),
            None => region_for_map_id(string_map_view(m@), map_id) is None,
        },
{
    let key = map_id / 1000;
    match m.get(&key) {
        Some(s) => Some(s.clone()),
        None => match m.get(&map_id) {
            Some(s) => Some(s.clone()),
            None => None,
        },
    }
}

pub fn checks_region_label_for_subregion(table: &ChecksTableData, map_id: u32) -> (r: Option<String>)
    ensures
        match r {
            Some(s) => region_for_map_id(string_map_view(table.subregion_to_region@), map_id) == Some(s@),
            None => region_for_map_id(string_map_view(table.subregion_to_region@), map_id) is None,
        },
{
    region_label_in(&table.subregion_to_region, map_id)
}

/// Which file a table is loaded from: an existing override file, else the locale's file when it
/// exists, else the default-locale file when the locale is another one and that file exists,
/// else the locale's file (which will then be found missing).
pub open spec fn load_path_choice(
    locale_path: Seq<char>,
    fallback_path: Seq<char>,
    locale_is_default: bool,
    override_path: Option<Seq<char>>,
    override_is_file: bool,
    locale_is_file: bool,
    fallback_is_file: bool,
) -> Seq<char> {
    if override_path is Some && override_is_file {
        override_path->0
    } else if locale_is_file {
        locale_path
    } else if !locale_is_default && fallback_is_file {
        fallback_path
    } else {
        locale_path
    }
}

/// `tables/<locale>/checks.toml`, or the override / English fallback (see
/// [`load_path_choice`]); the `*_is_file` arguments are the file-system probes of the override,
/// of the locale's file and of `tables/en/checks.toml`.
pub fn resolve_load_path(
    base: &str,
    locale_id: &str,
    override_path: Option<&str>,
    override_is_file: bool,
    locale_is_file: bool,
    fallback_is_file: bool,
) -> (p: String)
    ensures
        p@ == load_path_choice(
            table_path(base@, locale_id@, "checks.toml"@),
            table_path(base@, "en"@, "checks.toml"@),
            locale_id@ == "en"@,
            match override_path {
                Some(o) => Some(o@),
                None => None,
            },
            override_is_file,
            locale_is_file,
            fallback_is_file,
        ),
{
    if let Some(o) = override_path {
        if override_is_file {
            return string_of(o);
        }
    }
    let path = crate::config::resolve_checks_table_path(base, locale_id);
    if locale_is_file {
        path
    } else if !str_eq(locale_id, "en") && fallback_is_file {
        crate::config::resolve_checks_table_path(base, "en")
    } else {
        path
    }
}

/// The active checks table and its language.
pub struct ChecksStore {
    pub table: ChecksTableData,
    pub locale: String,
}

/// Installs a newly loaded table.
pub fn apply_checks_table(store: &mut ChecksStore, data: ChecksTableData, locale_id: &str)
    ensures
        final(store).table == data,
        final(store).locale@ == locale_id@,
{
    store.table = data;
    store.locale = string_of(locale_id);
}

/// The active table.
pub fn checks_table(store: &ChecksStore) -> (t: &ChecksTableData)
    ensures
        *t == store.table,
{
    &store.table
}

/// Language of the active table.
pub fn active_checks_locale(store: &ChecksStore) -> (l: String)
    ensures
        l@ == store.locale@,
{
    store.locale.clone()
}

/// A loaded per-seed mapping: lot id → current flag.
pub struct ChecksFlagsData {
    pub regulation_sha256: Option<String>,
    pub flags: HashMap<u32, u32>,
}

/// The content of a `checks_flags.toml` file, lot ids still textual.
pub struct ChecksFlagsFile {
    pub regulation_sha256: Option<String>,
    pub flags: Vec<(String, u32)>,
}

/// Parses the lot-id keys of the mapping (the first bad key is reported).
pub fn parse_checks_flags(file: ChecksFlagsFile) -> (r: Result<ChecksFlagsData, InvalidLotKey>)
    ensures
        match first_bad_key(raw_view(file.flags@)) {
            Some(k) => r matches Err(e) && e.key@ == k,
            None => r matches Ok(d) && d.flags@ == insert_parsed(Map::empty(), raw_view(file.flags@))
                && d.regulation_sha256 == file.regulation_sha256,
        },
{
    let mut flags: HashMap<u32, u32> = HashMap::new();
    parse_flag_map("flags", &file.flags, &mut flags)?;
    Ok(ChecksFlagsData { regulation_sha256: file.regulation_sha256, flags })
}

/// Loads the mapping of a `checks_flags.toml` file into the store: on a bad lot key the error
/// comes back and the store keeps its previous mapping; otherwise the file's mapping (its
/// regulation hash and parsed flags) is the loaded one.
pub fn load_checks_flags(store: &mut Option<ChecksFlagsData>, file: ChecksFlagsFile) -> (r: Result<
    (),
    InvalidLotKey,
>)
    ensures
        match first_bad_key(raw_view(file.flags@)) {
            Some(k) => r matches Err(e) && e.key@ == k && *final(store) == *old(store),
            None => r is Ok && (*final(store) matches Some(d) && d.flags@ == insert_parsed(
                Map::empty(),
                raw_view(file.flags@),
            ) && d.regulation_sha256 == file.regulation_sha256),
        },
{
    match parse_checks_flags(file) {
        Ok(d) => {
            *store = Some(d);
            Ok(())
        },
        Err(e) => Err(e),
    }
}

/// The loaded mapping, if any.
pub fn checks_seed_flags(store: &Option<ChecksFlagsData>) -> (r: Option<&ChecksFlagsData>)
    ensures
        match store {
            Some(d) => r == Some(d),
            None => r is None,
        },
{
    match store {
        Some(d) => Some(d),
        None => None,
    }
}

pub fn checks_seed_flags_loaded(store: &Option<ChecksFlagsData>) -> (b: bool)
    ensures
        b == store.is_some(),
{
    store.is_some()
}

pub fn checks_seed_regulation_hash(store: &Option<ChecksFlagsData>) -> (r: Option<String>)
    ensures
        match store {
            Some(d) => r == d.regulation_sha256,
            None => r is None,
        },
{
    match store {
        Some(d) => clone_opt_string(&d.regulation_sha256),
        None => None,
    }
}

pub fn set_checks_flags(store: &mut Option<ChecksFlagsData>, data: Option<ChecksFlagsData>)
    ensures
        *final(store) == data,
{
    *store = data;
}

/// Drops the loaded mapping; returns whether one was loaded.
pub fn clear_checks_seed_flags(store: &mut Option<ChecksFlagsData>) -> (cleared: bool)
    ensures
        cleared == old(store).is_some(),
        final(store).is_none(),
{
    if store.is_some() {
        *store = None;
        true
    } else {
        false
    }
}

/// The flag to read for a check: a fixed check's own flag; for a dynamic check with a seed
/// mapping, the mapping's flag for its lot (none when the lot is absent: untraceable this seed)
/// or its vanilla flag when it has no lot id; without a mapping, its vanilla flag.
pub open spec fn check_flag(seed: Option<&ChecksFlagsData>, check: CheckEntry) -> Option<u32> {
    if !check.dynamic {
        check.flag
    } else {
        match seed {
            Some(d) => match check.lot_id {
                Some(lot) => if d.flags@.contains_key(lot) {
                    Some(d.flags@[lot])
                } else {
                    None
                },
                None => check.vanilla_flag,
            },
            None => check.vanilla_flag,
        }
    }
}

/// Fixed checks (bosses, chest loot) resolve to the same flag with or without a seed mapping,
/// whatever mapping is loaded; a dynamic check without a mapping uses its vanilla flag.
pub proof fn law_fixed_checks_ignore_the_seed(
    a: Option<&ChecksFlagsData>,
    b: Option<&ChecksFlagsData>,
    check: CheckEntry,
)
    ensures
        !check.dynamic ==> check_flag(a, check) == check_flag(b, check) && check_flag(a, check) == check.flag,
        check.dynamic ==> check_flag(None, check) == check.vanilla_flag,
{
}

/// With a seed mapping, a relocated check (dynamic, with a lot id) resolves to the mapping's
/// flag for its lot, whatever its vanilla flag, and to no flag when the mapping lacks the lot.
pub proof fn law_dynamic_checks_follow_the_mapping(d: &ChecksFlagsData, check: CheckEntry, lot: u32)
    requires
        check.dynamic,
        check.lot_id == Some(lot),
    ensures
        d.flags@.contains_key(lot) ==> check_flag(Some(d), check) == Some(d.flags@[lot]),
        !d.flags@.contains_key(lot) ==> check_flag(Some(d), check) is None,
        check_flag(Some(d), check) == check_flag(Some(d), CheckEntry { vanilla_flag: None, ..check }),
{
}

pub fn effective_flag(seed: Option<&ChecksFlagsData>, check: &CheckEntry) -> (r: Option<u32>)
    ensures
        r == check_flag(seed, *check),
{
    if !check.dynamic {
        return check.flag;
    }
    match seed {
        Some(data) => match check.lot_id {
            Some(lot) => match data.flags.get(&lot) {
                Some(f) => Some(*f),
                None => None,
            },
            None => check.vanilla_flag,
        },
        None => check.vanilla_flag,
    }
}

} // verus!
