//! Tracked goods (`goods.toml`): item ids, inventory category, pickup flags, aggregate groups;
//! and how ownership and group progress are read from a game-state source.

use vstd::prelude::*;
use crate::checks_table::clone_opt_string;
use crate::keyed::{lookup, StrMap};
use crate::lot_flags::{effective_good_flag, good_flag, LotFlagsData, LotRef, LotTable};
use crate::text::{chars_of, str_eq, string_from_chars};
use crate::types::{GameStateDiagnostics, GameTime};

verus! {

/// Inventory category of a tracked good.
#[derive(Debug, Clone, Copy, PartialEq, Eq, Structural)]
pub enum ItemKind {
    /// `EquipParamGoods`: consumables, runes, key items.
    Goods,
    /// `EquipParamAccessory`: talismans.
    Accessory,
}

impl Default for ItemKind {
    fn default() -> (k: Self)
        ensures
            k == ItemKind::Goods,
    {
        ItemKind::Goods
    }
}

/// A tracked good.
#[derive(Debug)]
pub struct GoodEntry {
    pub key: String,
    pub item_id: u32,
    pub name: String,
    /// Icon file name.
    pub file: String,
    pub category: ItemKind,
    /// Event flag that proves ownership once the item left the inventory.
    pub pickup_flag: Option<u32>,
    /// Vanilla lot metadata for historic tracking.
    pub historic_lot: Option<LotRef>,
    /// Display cap of a counter.
    pub max: Option<u32>,
    /// Stackable good: shown as a quantity rather than owned / not owned.
    pub countable: bool,
}

impl GoodEntry {
    /// A field-by-field copy.
    pub fn copy(&self) -> (c: Self)
        ensures
            c == *self,
    {
        GoodEntry {
            key: self.key.clone(),
            item_id: self.item_id,
            name: self.name.clone(),
            file: self.file.clone(),
            category: self.category,
            pickup_flag: self.pickup_flag,
            historic_lot: self.historic_lot,
            max: self.max,
            countable: self.countable,
        }
    }
}

/// One `[[good]]` row of `goods.toml`.
pub struct GoodRow {
    pub key: String,
    pub item_id: u32,
    pub name: String,
    pub file: Option<String>,
    pub category: ItemKind,
    pub pickup_flag: Option<u32>,
    pub historic_lot_table: Option<LotTable>,
    pub historic_lot_id: Option<u32>,
    pub historic_vanilla_flag: Option<u32>,
    pub max: Option<u32>,
    pub count: bool,
}

/// The lot metadata of a row: present when both the table and the lot id are given.
pub open spec fn row_historic_lot(r: GoodRow) -> Option<LotRef> {
    match (r.historic_lot_table, r.historic_lot_id) {
        (Some(table), Some(lot_id)) => Some(LotRef { table, lot_id, vanilla_flag: r.historic_vanilla_flag }),
        _ => None,
    }
}

impl GoodRow {
    pub fn historic_lot(&self) -> (l: Option<LotRef>)
        ensures
            l == row_historic_lot(*self),
    {
        match (self.historic_lot_table, self.historic_lot_id) {
            (Some(table), Some(lot_id)) => Some(
                LotRef { table, lot_id, vanilla_flag: self.historic_vanilla_flag },
            ),
            _ => None,
        }
    }
}

/// The good a row describes: the icon file defaults to `<key>.png`.
pub open spec fn entry_of_row(r: GoodRow, e: GoodEntry) -> bool {
    &&& e.key == r.key
    &&& e.item_id == r.item_id
    &&& e.name == r.name
    &&& e.file@ == match r.file {
        Some(f) => f@,
        None => r.key@ + ".png"@,
    }
    &&& e.category == r.category
    &&& e.pickup_flag == r.pickup_flag
    &&& e.historic_lot == row_historic_lot(r)
    &&& e.max == r.max
    &&& e.countable == r.count
}

/// The goods table: goods in file order and the aggregate groups (group name → member keys).
pub struct GoodsTable {
    pub goods: Vec<GoodEntry>,
    pub groups: StrMap<Vec<String>>,
}

/// Builds the goods table from the rows of `goods.toml`.
pub fn goods_table_from_rows(rows: Vec<GoodRow>, groups: StrMap<Vec<String>>) -> (t: GoodsTable)
    ensures
        t.goods@.len() == rows@.len(),
        forall|i: int| 0 <= i < rows@.len() ==> entry_of_row(rows@[i], #[trigger] t.goods@[i]),
        t.groups@ == groups@,
{
    let mut goods: Vec<GoodEntry> = Vec::new();
    let mut i: usize = 0;
    while i < rows.len()
        invariant
            i <= rows.len(),
            goods@.len() == i,
            forall|k: int| 0 <= k < i ==> entry_of_row(rows@[k], #[trigger] goods@[k]),
        decreases rows.len() - i,
    {
        let r = &rows[i];
        let file = match &r.file {
            Some(f) => f.clone(),
            None => {
                let mut v = chars_of(r.key.as_str());
                let mut ext = chars_of(".png");
                v.append(&mut ext);
                string_from_chars(&v)
            },
        };
        goods.push(
            GoodEntry {
                key: r.key.clone(),
                item_id: r.item_id,
                name: r.name.clone(),
                file,
                category: r.category,
                pickup_flag: r.pickup_flag,
                historic_lot: r.historic_lot(),
                max: r.max,
                countable: r.count,
            },
        );
        i += 1;
    }
    GoodsTable { goods, groups }
}

/// Index of the first good with key `key`.
pub open spec fn good_index(goods: Seq<GoodEntry>, key: Seq<char>) -> Option<int> {
    if exists|i: int| 0 <= i < goods.len() && goods[i].key@ == key {
        Some(choose|i: int| 0 <= i < goods.len() && goods[i].key@ == key && forall|j: int|
            0 <= j < i ==> goods[j].key@ != key)
    } else {
        None
    }
}

/// The first good with key `key`.
pub open spec fn good_named(goods: Seq<GoodEntry>, key: Seq<char>) -> Option<GoodEntry> {
    match good_index(goods, key) {
        Some(i) => Some(goods[i]),
        None => None,
    }
}

proof fn lemma_min_key_witness(goods: Seq<GoodEntry>, key: Seq<char>, i: int)
    requires
        0 <= i < goods.len(),
        goods[i].key@ == key,
    ensures
        exists|w: int| 0 <= w < goods.len() && goods[w].key@ == key && forall|j: int| 0 <= j < w ==> goods[j].key@ != key,
    decreases i,
{
    if exists|j: int| 0 <= j < i && goods[j].key@ == key {
        let j = choose|j: int| 0 <= j < i && goods[j].key@ == key;
        lemma_min_key_witness(goods, key, j);
    } else {
        assert(forall|j: int| 0 <= j < i ==> goods[j].key@ != key);
    }
}

/// The good found for a key carries that key.
pub proof fn lemma_good_named_key(goods: Seq<GoodEntry>, key: Seq<char>)
    ensures
        good_named(goods, key) matches Some(g) ==> g.key@ == key,
{
    if exists|i: int| 0 <= i < goods.len() && goods[i].key@ == key {
        let i = choose|i: int| 0 <= i < goods.len() && goods[i].key@ == key;
        lemma_min_key_witness(goods, key, i);
    }
}

pub fn good_by_key(table: &GoodsTable, key: &str) -> (r: Option<GoodEntry>)
    ensures
        r == good_named(table.goods@, key@),
        r matches Some(g) ==> g.key@ == key@,
{
    let mut i: usize = 0;
    while i < table.goods.len()
        invariant
            i <= table.goods.len(),
            forall|j: int| 0 <= j < i ==> table.goods@[j].key@ != key@,
        decreases table.goods.len() - i,
    {
        if str_eq(table.goods[i].key.as_str(), key) {
            proof {
                let w = choose|w: int| 0 <= w < table.goods@.len() && table.goods@[w].key@ == key@
                    && forall|j: int| 0 <= j < w ==> table.goods@[j].key@ != key@;
                assert(w == i);
            }
            return Some(table.goods[i].copy());
        }
        i += 1;
    }
    None
}

/// Names of every aggregate group.
pub fn group_names(table: &GoodsTable) -> (names: Vec<String>)
    requires
        table.groups.wf(),
    ensures
        names@.len() == table.groups@.len(),
        forall|i: int| 0 <= i < names@.len() ==> #[trigger] names@[i]@ == table.groups@[i].0,
{
    let mut names: Vec<String> = Vec::new();
    let mut i: usize = 0;
    while i < table.groups.len()
        invariant
            i <= table.groups@.len(),
            names@.len() == i,
            forall|k: int| 0 <= k < i ==> #[trigger] names@[k]@ == table.groups@[k].0,
        decreases table.groups@.len() - i,
    {
        let (name, _) = table.groups.entry(i);
        names.push(name.clone());
        i += 1;
    }
    names
}

/// The member keys of a group (none for an unknown group).
pub open spec fn group_keys(table: GoodsTable, name: Seq<char>) -> Seq<Seq<char>> {
    match lookup(table.groups@, name) {
        Some(keys) => keys@.map_values(|k: String| k@),
        None => Seq::empty(),
    }
}

/// The goods a list of keys resolves to, skipping unknown keys.
pub open spec fn resolve_keys(goods: Seq<GoodEntry>, keys: Seq<Seq<char>>) -> Seq<GoodEntry>
    decreases keys.len(),
{
    if keys.len() == 0 {
        Seq::empty()
    } else {
        let rest = resolve_keys(goods, keys.drop_last());
        match good_named(goods, keys.last()) {
            Some(g) => rest.push(g),
            None => rest,
        }
    }
}

/// The goods of a group, in member order (unknown member keys are skipped).
pub fn group_members(table: &GoodsTable, name: &str) -> (m: Vec<GoodEntry>)
    requires
        table.groups.wf(),
    ensures
        m@ == resolve_keys(table.goods@, group_keys(*table, name@)),
{
    let mut out: Vec<GoodEntry> = Vec::new();
    match table.groups.get(name) {
        None => {
            assert(group_keys(*table, name@) =~= Seq::<Seq<char>>::empty());
            out
        },
        Some(keys) => {
            let ghost ks = keys@.map_values(|k: String| k@);
            let mut i: usize = 0;
            assert(ks.take(0) =~= Seq::<Seq<char>>::empty());
            while i < keys.len()
                invariant
                    i <= keys.len(),
                    ks == keys@.map_values(|k: String| k@),
                    out@ == resolve_keys(table.goods@, ks.take(i as int)),
                decreases keys.len() - i,
            {
                assert(ks.take(i + 1).drop_last() =~= ks.take(i as int));
                assert(ks.take(i + 1).last() == keys@[i as int]@);
                match good_by_key(table, keys[i].as_str()) {
                    Some(g) => out.push(g),
                    None => {},
                }
                i += 1;
            }
            assert(ks.take(i as int) =~= ks);
            out
        },
    }
}

/// Number of resolvable members of a group.
pub fn group_size(table: &GoodsTable, name: &str) -> (n: u32)
    requires
        table.groups.wf(),
    ensures
        n == resolve_keys(table.goods@, group_keys(*table, name@)).len() as u32,
{
    let m = group_members(table, name);
    m.len() as u32
}

/// Reads of live (or mock) game state. Every read may be unavailable (`None`).
///
/// Each read comes with a relation of the implementing type, `..._read`, that holds of the
/// value a read returns: `flag_read(id, r)` says that `r` is what reading flag `id` gave. The
/// relations say which read a value came from, not what the game holds: two reads of the same
/// thing may give different values, and nothing here relates one read to another. By default a
/// relation holds of every value; code generic over the source cannot see that default, so it
/// can claim a relation of a value only by making the read.
pub trait GameStateSource {
    open spec fn igt_read(&self, r: Option<GameTime>) -> bool {
        true
    }

    open spec fn deaths_read(&self, r: Option<u32>) -> bool {
        true
    }

    open spec fn ng_cycle_read(&self, r: Option<u32>) -> bool {
        true
    }

    open spec fn blessing_read(&self, r: Option<u32>) -> bool {
        true
    }

    open spec fn killed_bosses_read(&self, r: Option<u32>) -> bool {
        true
    }

    open spec fn quantity_read(&self, item_id: u32, r: Option<u32>) -> bool {
        true
    }

    open spec fn has_item_read(&self, item_id: u32, category: ItemKind, r: Option<bool>) -> bool {
        true
    }

    open spec fn equipped_read(&self, item_id: u32, category: ItemKind, r: Option<bool>) -> bool {
        true
    }

    open spec fn flag_read(&self, flag_id: u32, r: Option<bool>) -> bool {
        true
    }

    open spec fn subregion_read(&self, r: Option<u32>) -> bool {
        true
    }

    open spec fn status_read(&self, r: GameStateDiagnostics) -> bool {
        true
    }

    open spec fn bosses_total_read(&self, r: u32) -> bool {
        true
    }

    fn get_igt(&self) -> (r: Option<GameTime>)
        ensures
            self.igt_read(r),
    ;

    fn get_death_count(&self) -> (r: Option<u32>)
        ensures
            self.deaths_read(r),
    ;

    fn get_ng_cycle(&self) -> (r: Option<u32>)
        ensures
            self.ng_cycle_read(r),
    ;

    /// Scadutree Blessing level (not the fragment count).
    fn get_scadutree_blessing(&self) -> (r: Option<u32>)
        ensures
            self.blessing_read(r),
    ;

    fn get_killed_boss_count(&self) -> (r: Option<u32>)
        ensures
            self.killed_bosses_read(r),
    ;

    /// Inventory quantity of a good.
    fn get_goods_quantity(&self, item_id: u32) -> (r: Option<u32>)
        ensures
            self.quantity_read(item_id, r),
    ;

    /// Whether an item of the given category is in the inventory.
    fn has_item(&self, item_id: u32, category: ItemKind) -> (r: Option<bool>)
        ensures
            self.has_item_read(item_id, category, r),
    ;

    /// Whether an item is currently equipped.
    fn is_item_equipped(&self, item_id: u32, category: ItemKind) -> (r: Option<bool>)
        ensures
            self.equipped_read(item_id, category, r),
    ;

    /// State of an event flag.
    fn get_flag(&self, flag_id: u32) -> (r: Option<bool>)
        ensures
            self.flag_read(flag_id, r),
    ;

    /// Raw map id of the player's location (divide by 1000 for the region lookup).
    fn get_current_subregion_id(&self) -> (r: Option<u32>)
        ensures
            self.subregion_read(r),
    ;

    fn get_status(&self) -> (r: GameStateDiagnostics)
        ensures
            self.status_read(r),
    ;

    fn bosses_total(&self) -> (r: u32)
        ensures
            self.bosses_total_read(r),
    ;
}

/// Ownership from an inventory reading and a flag reading (`None` when there is no flag to
/// read): owned when in the inventory; otherwise the flag decides, and without a flag reading
/// the inventory reading stands.
pub open spec fn owned_from_readings(has: Option<bool>, flag: Option<bool>) -> Option<bool> {
    if has == Some(true) {
        Some(true)
    } else {
        match flag {
            Some(f) => Some(f),
            None => has,
        }
    }
}

/// How the two ownership readings combine: a good reads as owned exactly when the inventory
/// shows it or its pickup flag is set; with a flag reading the answer is always known (not owned
/// only when neither shows it); without one, the inventory reading stands. In particular a set
/// pickup flag makes the good owned whatever the inventory says.
pub proof fn law_ownership_readings(has: Option<bool>, flag: Option<bool>)
    ensures
        (owned_from_readings(has, flag) == Some(true)) <==> (has == Some(true) || flag == Some(true)),
        flag is Some ==> owned_from_readings(has, flag) is Some,
        owned_from_readings(has, Some(true)) == Some(true),
        owned_from_readings(Some(true), flag) == Some(true),
        owned_from_readings(has, None) == has,
        (owned_from_readings(has, flag) == Some(false)) <==> (has != Some(true) && (flag == Some(false)
            || (flag is None && has == Some(false)))),
{
}

pub fn owned_from(has: Option<bool>, flag: Option<bool>) -> (r: Option<bool>)
    ensures
        r == owned_from_readings(has, flag),
{
    match has {
        Some(true) => Some(true),
        _ => match flag {
            Some(f) => Some(f),
            None => has,
        },
    }
}

/// The flag reading of an ownership check: the pickup flag's reading when the inventory reading
/// `has` does not show the item and the good has a pickup flag, else none.
pub open spec fn pickup_flag_read<S: GameStateSource>(
    source: &S,
    pickup_flag: Option<u32>,
    has: Option<bool>,
    flag: Option<bool>,
) -> bool {
    match pickup_flag {
        Some(f) if has != Some(true) => source.flag_read(f, flag),
        _ => flag is None,
    }
}

/// `r` is what an ownership check of the good gives: the inventory reading of `item_id` in
/// `category`, and (when that does not show the item) the reading of its pickup flag, combined
/// by [`owned_from_readings`].
pub open spec fn owned_read<S: GameStateSource>(
    source: &S,
    item_id: u32,
    category: ItemKind,
    pickup_flag: Option<u32>,
    r: Option<bool>,
) -> bool {
    exists|has: Option<bool>, flag: Option<bool>|
        #![trigger source.has_item_read(item_id, category, has), pickup_flag_read(source, pickup_flag, has, flag)]
        {
            &&& source.has_item_read(item_id, category, has)
            &&& pickup_flag_read(source, pickup_flag, has, flag)
            &&& r == owned_from_readings(has, flag)
        }
}

/// Whether a good is owned: present in the inventory, or its pickup flag is set. The flag is
/// only read when the inventory does not show the item; the readings are combined by
/// [`owned_from`].
pub fn item_owned<S: GameStateSource>(source: &S, item_id: u32, category: ItemKind, pickup_flag: Option<u32>) -> (r:
    Option<bool>)
    ensures
        owned_read(source, item_id, category, pickup_flag, r),
{
    let has = source.has_item(item_id, category);
    if has == Some(true) {
        assert(pickup_flag_read(source, pickup_flag, has, None));
        assert(Some(true) == owned_from_readings(has, None));
        return Some(true);
    }
    let flag = match pickup_flag {
        Some(f) => source.get_flag(f),
        None => None,
    };
    let r = owned_from(has, flag);
    assert(pickup_flag_read(source, pickup_flag, has, flag));
    r
}

/// Historic ownership: owned now, else the good's acquisition flag (per seed, see
/// [`good_flag`]) when it has one.
pub open spec fn historic_from_readings(current: Option<bool>, flag: Option<bool>) -> Option<bool> {
    if current == Some(true) {
        current
    } else {
        match flag {
            Some(f) => Some(f),
            None => current,
        }
    }
}

/// Historic tracking keeps an item owned once obtained: whenever its acquisition flag reads as
/// set, or it is held now, it shows as owned, whatever the other reading.
pub proof fn law_historic_keeps_obtained_items(current: Option<bool>, flag: Option<bool>)
    ensures
        flag == Some(true) ==> historic_from_readings(current, flag) == Some(true),
        current == Some(true) ==> historic_from_readings(current, flag) == Some(true),
{
}

pub fn historic_from(current: Option<bool>, flag: Option<bool>) -> (r: Option<bool>)
    ensures
        r == historic_from_readings(current, flag),
{
    if current == Some(true) {
        return current;
    }
    match flag {
        Some(f) => Some(f),
        None => current,
    }
}

/// `r` is what a historic ownership check of the good gives: its ownership check
/// ([`owned_read`]), and (when that does not show it owned) the reading of the acquisition flag
/// [`good_flag`] selects for `key` and `historic_lot` under `seed`, combined by
/// [`historic_from_readings`].
pub open spec fn historic_read<S: GameStateSource>(
    source: &S,
    seed: Option<&LotFlagsData>,
    key: Seq<char>,
    item_id: u32,
    category: ItemKind,
    pickup_flag: Option<u32>,
    historic_lot: Option<LotRef>,
    r: Option<bool>,
) -> bool {
    exists|current: Option<bool>, flag: Option<bool>|
        #![trigger owned_read(source, item_id, category, pickup_flag, current), historic_from_readings(current, flag)]
        {
            &&& owned_read(source, item_id, category, pickup_flag, current)
            &&& pickup_flag_read(source, good_flag(seed, key, historic_lot), current, flag)
            &&& r == historic_from_readings(current, flag)
        }
}

/// Whether a good was ever obtained: owned now, or its acquisition flag is set. The flag read is
/// the one [`good_flag`] selects for `key` and `historic_lot` under the loaded seed mapping;
/// the readings are combined by [`historic_from`].
pub fn item_owned_historic<S: GameStateSource>(
    source: &S,
    seed: Option<&LotFlagsData>,
    key: &str,
    item_id: u32,
    category: ItemKind,
    pickup_flag: Option<u32>,
    historic_lot: Option<LotRef>,
) -> (r: Option<bool>)
    requires
        match seed {
            Some(d) => d.wf(),
            None => true,
        },
    ensures
        historic_read(source, seed, key@, item_id, category, pickup_flag, historic_lot, r),
{
    let current = item_owned(source, item_id, category, pickup_flag);
    if current == Some(true) {
        assert(pickup_flag_read(source, good_flag(seed, key@, historic_lot), current, None));
        assert(current == historic_from_readings(current, None));
        return current;
    }
    let flag = match effective_good_flag(seed, key, historic_lot) {
        Some(f) => source.get_flag(f),
        None => None,
    };
    assert(pickup_flag_read(source, good_flag(seed, key@, historic_lot), current, flag));
    historic_from(current, flag)
}

/// Number of `Some(true)` readings.
pub open spec fn count_owned(states: Seq<Option<bool>>) -> nat
    decreases states.len(),
{
    if states.len() == 0 {
        0
    } else {
        count_owned(states.drop_last()) + if states.last() == Some(true) {
            1nat
        } else {
            0nat
        }
    }
}

/// `(owned, total)` of a group from its members' ownership readings: unknown for an empty group
/// or as soon as one reading is unknown.
pub open spec fn progress_from_readings(states: Seq<Option<bool>>) -> Option<(u32, u32)> {
    if states.len() == 0 || exists|i: int| 0 <= i < states.len() && states[i] is None {
        None
    } else {
        Some((count_owned(states) as u32, states.len() as u32))
    }
}

proof fn lemma_count_all_owned(states: Seq<Option<bool>>)
    requires
        forall|i: int| 0 <= i < states.len() ==> states[i] == Some(true),
    ensures
        count_owned(states) == states.len(),
    decreases states.len(),
{
    if states.len() > 0 {
        lemma_count_all_owned(states.drop_last());
    }
}

proof fn lemma_count_none_owned(states: Seq<Option<bool>>)
    requires
        forall|i: int| 0 <= i < states.len() ==> states[i] != Some(true),
    ensures
        count_owned(states) == 0,
    decreases states.len(),
{
    if states.len() > 0 {
        lemma_count_none_owned(states.drop_last());
    }
}

/// A group's progress: unknown for an empty group or when any member's ownership is unknown;
/// otherwise it counts every member, owned ones among them, so a group whose members are all
/// owned is complete and one with none owned is at zero.
pub proof fn law_group_progress_counts(states: Seq<Option<bool>>)
    requires
        states.len() <= u32::MAX,
    ensures
        states.len() == 0 ==> progress_from_readings(states) is None,
        (exists|i: int| 0 <= i < states.len() && #[trigger] states[i] is None) ==> progress_from_readings(
            states,
        ) is None,
        progress_from_readings(states) matches Some((o, t)) ==> t == states.len() && o <= t,
        states.len() > 0 && (forall|i: int| 0 <= i < states.len() ==> states[i] == Some(true))
            ==> progress_from_readings(states) == Some((states.len() as u32, states.len() as u32)),
        states.len() > 0 && (forall|i: int| 0 <= i < states.len() ==> states[i] == Some(false))
            ==> progress_from_readings(states) == Some((0u32, states.len() as u32)),
{
    lemma_count_owned_bound(states);
    if forall|i: int| 0 <= i < states.len() ==> states[i] == Some(true) {
        lemma_count_all_owned(states);
    }
    if forall|i: int| 0 <= i < states.len() ==> states[i] == Some(false) {
        lemma_count_none_owned(states);
    }
}

proof fn lemma_count_owned_bound(states: Seq<Option<bool>>)
    ensures
        count_owned(states) <= states.len(),
    decreases states.len(),
{
    if states.len() > 0 {
        lemma_count_owned_bound(states.drop_last());
    }
}

pub fn group_progress_from(states: &Vec<Option<bool>>) -> (r: Option<(u32, u32)>)
    requires
        states@.len() <= u32::MAX,
    ensures
        r == progress_from_readings(states@),
        r matches Some((o, t)) ==> o <= t && t == states@.len(),
{
    if states.len() == 0 {
        return None;
    }
    let mut owned: u32 = 0;
    let mut i: usize = 0;
    while i < states.len()
        invariant
            i <= states.len(),
            states@.len() <= u32::MAX,
            owned == count_owned(states@.take(i as int)),
            forall|k: int| 0 <= k < i ==> states@[k] is Some,
        decreases states.len() - i,
    {
        assert(states@.take(i + 1).drop_last() =~= states@.take(i as int));
        proof {
            lemma_count_owned_bound(states@.take(i as int));
        }
        match states[i] {
            Some(true) => {
                owned += 1;
            },
            Some(false) => {},
            None => {
                return None;
            },
        }
        i += 1;
    }
    assert(states@.take(i as int) =~= states@);
    proof {
        lemma_count_owned_bound(states@);
    }
    Some((owned, states.len() as u32))
}

/// `r` is what resolving group `name` gives: `None` for an empty group or one listing more
/// than `u32::MAX` members; otherwise the members' ownership checks ([`owned_read`]) in member
/// order, stopping after the first unknown one, combined by [`progress_from_readings`].
pub open spec fn group_read<S: GameStateSource>(
    source: &S,
    table: GoodsTable,
    name: Seq<char>,
    r: Option<(u32, u32)>,
) -> bool {
    let members = resolve_keys(table.goods@, group_keys(table, name));
    if members.len() == 0 || members.len() > u32::MAX {
        r is None
    } else {
        exists|states: Seq<Option<bool>>|
            {
                &&& states.len() <= members.len()
                &&& forall|k: int|
                    0 <= k < states.len() ==> owned_read(
                        source,
                        members[k].item_id,
                        members[k].category,
                        members[k].pickup_flag,
                        #[trigger] states[k],
                    )
                &&& forall|k: int| 0 <= k < states.len() - 1 ==> #[trigger] states[k] is Some
                &&& states.len() < members.len() ==> states.len() > 0 && states.last() is None
                &&& r == #[trigger] progress_from_readings(states)
            }
    }
}

/// `(owned, total)` for an aggregate group, or `None` for an unknown or empty group or while a
/// member's ownership cannot be read. Reading stops at the first unknown member; the readings
/// are combined by [`group_progress_from`]. (A group listing more than `u32::MAX` members is
/// reported as unknown.)
pub fn group_progress<S: GameStateSource>(table: &GoodsTable, source: &S, name: &str) -> (r: Option<
    (u32, u32),
>)
    requires
        table.groups.wf(),
    ensures
        group_read(source, *table, name@, r),
        r matches Some((o, t)) ==> o <= t && t == resolve_keys(
            table.goods@,
            group_keys(*table, name@),
        ).len(),
{
    let members = group_members(table, name);
    let ghost ms = members@;
    if members.len() == 0 || members.len() > u32::MAX as usize {
        return None;
    }
    let mut states: Vec<Option<bool>> = Vec::new();
    let mut i: usize = 0;
    while i < members.len()
        invariant
            i <= members.len(),
            members@ == ms,
            ms == resolve_keys(table.goods@, group_keys(*table, name@)),
            states@.len() == i,
            forall|k: int| 0 <= k < i ==> #[trigger] states@[k] is Some,
            forall|k: int|
                0 <= k < i ==> owned_read(
                    source,
                    ms[k].item_id,
                    ms[k].category,
                    ms[k].pickup_flag,
                    #[trigger] states@[k],
                ),
        decreases members.len() - i,
    {
        let m = &members[i];
        let s = item_owned(source, m.item_id, m.category, m.pickup_flag);
        if s.is_none() {
            proof {
                let w = states@.push(s);
                assert forall|k: int| 0 <= k < w.len() implies owned_read(
                    source,
                    ms[k].item_id,
                    ms[k].category,
                    ms[k].pickup_flag,
                    #[trigger] w[k],
                ) by {
                    if k < i {
                        assert(w[k] == states@[k]);
                    }
                }
                assert forall|k: int| 0 <= k < w.len() - 1 implies #[trigger] w[k] is Some by {
                    assert(w[k] == states@[k]);
                }
                assert(w[i as int] is None);
                assert(progress_from_readings(w) is None);
            }
            return None;
        }
        states.push(s);
        i += 1;
    }
    let r = group_progress_from(&states);
    proof {
        let w = states@;
        assert(forall|k: int| 0 <= k < w.len() - 1 ==> #[trigger] w[k] is Some);
        assert(progress_from_readings(w) == r);
    }
    r
}

} // verus!
