//! Per-seed item-lot flag mapping written by the checks extractor (`lot_flags.toml`, or the
//! legacy `checks_flags.toml`), and how a lot or a historically tracked good resolves to the
//! event flag that records its pickup.

use vstd::prelude::*;
use std::collections::HashMap;
use crate::keyed::{lookup, StrMap};
use crate::text::{chars_of, parse_u32, parse_u32_seq};

verus! {

broadcast use vstd::std_specs::hash::group_hash_axioms;

/// Which `ItemLotParam` table a lot id lives in.
#[derive(Debug, Clone, Copy, PartialEq, Eq, Hash, Structural)]
pub enum LotTable {
    MapTable,
    Enemy,
}

/// Vanilla lot metadata of a good: where it is placed and its vanilla pickup flag.
#[derive(Debug, Clone, Copy, PartialEq, Eq, Hash, Structural)]
pub struct LotRef {
    pub table: LotTable,
    pub lot_id: u32,
    pub vanilla_flag: Option<u32>,
}

/// A loaded seed mapping.
pub struct LotFlagsData {
    pub regulation_sha256: Option<String>,
    /// `ItemLotParam_map` lot id → current flag.
    pub map: HashMap<u32, u32>,
    /// `ItemLotParam_enemy` lot id → current flag.
    pub enemy: HashMap<u32, u32>,
    /// Good key → flag of the lot the seed placed it in.
    pub goods: StrMap<u32>,
}

impl LotFlagsData {
    pub open spec fn wf(&self) -> bool {
        self.goods.wf()
    }

    /// No hash, no entries.
    pub fn empty() -> (d: Self)
        ensures
            d.wf(),
            d.regulation_sha256 is None,
            d.map@ == Map::<u32, u32>::empty(),
            d.enemy@ == Map::<u32, u32>::empty(),
            d.goods@.len() == 0,
    {
        LotFlagsData {
            regulation_sha256: None,
            map: HashMap::new(),
            enemy: HashMap::new(),
            goods: StrMap::new(),
        }
    }
}

/// The sections of a lot-flags file with their raw (textual) lot-id keys, in file order.
pub struct LotFlagsFile {
    pub regulation_sha256: Option<String>,
    /// Legacy `[flags]` section: map lots.
    pub flags: Vec<(String, u32)>,
    pub map: Vec<(String, u32)>,
    pub enemy: Vec<(String, u32)>,
    pub goods: StrMap<u32>,
}

/// A lot-id key that is not a `u32`.
#[derive(Debug, Clone)]
pub struct InvalidLotKey {
    /// Section the key was found in (`map`, `flags`, `enemy`).
    pub section: String,
    pub key: String,
}

pub open spec fn raw_view(raw: Seq<(String, u32)>) -> Seq<(Seq<char>, u32)> {
    raw.map_values(|e: (String, u32)| (e.0@, e.1))
}

/// First raw key that does not parse as a lot id.
pub open spec fn first_bad_key(raw: Seq<(Seq<char>, u32)>) -> Option<Seq<char>>
    decreases raw.len(),
{
    if raw.len() == 0 {
        None
    } else if parse_u32_seq(raw[0].0) is None {
        Some(raw[0].0)
    } else {
        first_bad_key(raw.drop_first())
    }
}

/// `m` after inserting every entry of `raw` in order (later entries win).
pub open spec fn insert_parsed(m: Map<u32, u32>, raw: Seq<(Seq<char>, u32)>) -> Map<u32, u32>
    decreases raw.len(),
{
    if raw.len() == 0 {
        m
    } else {
        insert_parsed(m.insert(parse_u32_seq(raw[0].0)->0, raw[0].1), raw.drop_first())
    }
}

/// Inserts the entries of one section into `flags`, parsing each key as a lot id; the first
/// key that is not a `u32` is reported with the section name.
pub fn parse_flag_map(name: &str, raw: &Vec<(String, u32)>, flags: &mut HashMap<u32, u32>) -> (r: Result<
    (),
    InvalidLotKey,
>)
    ensures
        match first_bad_key(raw_view(raw@)) {
            Some(k) => r matches Err(e) && e.section@ == name@ && e.key@ == k,
            None => r is Ok && final(flags)@ == insert_parsed(old(flags)@, raw_view(raw@)),
        },
{
    let ghost start = flags@;
    let mut i: usize = 0;
    assert(raw_view(raw@).skip(0) =~= raw_view(raw@));
    while i < raw.len()
        invariant
            i <= raw.len(),
            first_bad_key(raw_view(raw@)) == first_bad_key(raw_view(raw@).skip(i as int)),
            insert_parsed(start, raw_view(raw@)) == insert_parsed(
                flags@,
                raw_view(raw@).skip(i as int),
            ),
        decreases raw.len() - i,
    {
        let ghost rest = raw_view(raw@).skip(i as int);
        assert(rest.drop_first() =~= raw_view(raw@).skip(i + 1));
        assert(rest[0] == (raw@[i as int].0@, raw@[i as int].1));
        let key = chars_of(raw[i].0.as_str());
        match parse_u32(&key) {
            None => {
                return Err(
                    InvalidLotKey { section: crate::text::string_of(name), key: raw[i].0.clone() },
                );
            },
            Some(lot) => {
                flags.insert(lot, raw[i].1);
            },
        }
        i += 1;
    }
    Ok(())
}

/// The mapping a lot-flags file describes: `[map]` entries, then the legacy `[flags]` entries
/// (which win on a repeated lot), `[enemy]` entries and the good-key table.
pub open spec fn lot_flags_result(f: LotFlagsFile) -> Result<
    (Map<u32, u32>, Map<u32, u32>),
    (Seq<char>, Seq<char>),
> {
    let map = raw_view(f.map@);
    let flags = raw_view(f.flags@);
    let enemy = raw_view(f.enemy@);
    if first_bad_key(map) is Some {
        Err(("map"@, first_bad_key(map)->0))
    } else if first_bad_key(flags) is Some {
        Err(("flags"@, first_bad_key(flags)->0))
    } else if first_bad_key(enemy) is Some {
        Err(("enemy"@, first_bad_key(enemy)->0))
    } else {
        Ok(
            (
                insert_parsed(insert_parsed(Map::empty(), map), flags),
                insert_parsed(Map::empty(), enemy),
            ),
        )
    }
}

/// Builds the seed mapping from the file's sections.
pub fn parse_lot_flags(file: LotFlagsFile) -> (r: Result<LotFlagsData, InvalidLotKey>)
    requires
        file.goods.wf(),
    ensures
        match lot_flags_result(file) {
            Ok((map, enemy)) => r matches Ok(d) && d.wf() && d.map@ == map && d.enemy@ == enemy
                && d.goods@ == file.goods@ && d.regulation_sha256 == file.regulation_sha256,
            Err((section, key)) => r matches Err(e) && e.section@ == section && e.key@ == key,
        },
{
    let mut map: HashMap<u32, u32> = HashMap::new();
    parse_flag_map("map", &file.map, &mut map)?;
    parse_flag_map("flags", &file.flags, &mut map)?;
    let mut enemy: HashMap<u32, u32> = HashMap::new();
    parse_flag_map("enemy", &file.enemy, &mut enemy)?;
    Ok(LotFlagsData { regulation_sha256: file.regulation_sha256, map, enemy, goods: file.goods })
}

/// The loaded seed mapping, if any.
pub fn lot_seed_flags(store: &Option<LotFlagsData>) -> (r: Option<&LotFlagsData>)
    ensures
        match store {
            Some(d) => r == Some(d),
            None => r is None,
        },
{
    match store {
        Some(d) => Some(d),
        None => None,
    }
}

pub fn lot_seed_flags_loaded(store: &Option<LotFlagsData>) -> (b: bool)
    ensures
        b == store.is_some(),
{
    store.is_some()
}

/// Hash of the regulation the loaded mapping came from.
pub fn lot_seed_regulation_hash(store: &Option<LotFlagsData>) -> (r: Option<String>)
    ensures
        match store {
            Some(d) => match d.regulation_sha256 {
                Some(h) => r matches Some(s) && s@ == h@,
                None => r is None,
            },
            None => r is None,
        },
{
    match store {
        Some(d) => match &d.regulation_sha256 {
            Some(h) => Some(h.clone()),
            None => None,
        },
        None => None,
    }
}

/// Replaces the loaded mapping.
pub fn set_lot_flags(store: &mut Option<LotFlagsData>, data: Option<LotFlagsData>)
    ensures
        *final(store) == data,
{
    *store = data;
}

/// Drops the loaded mapping; returns whether one was loaded.
pub fn clear_lot_seed_flags(store: &mut Option<LotFlagsData>) -> (cleared: bool)
    ensures
        cleared == old(store).is_some(),
        final(store).is_none(),
{
    if store.is_some() {
        *store = None;
        true
    } else {
        false
    }
}

/// The flag that records a lot's pickup: from the seed mapping when one is loaded (none when
/// the seed gave the lot a flagless item), else the vanilla flag.
pub open spec fn lot_flag(seed: Option<&LotFlagsData>, lot: LotRef) -> Option<u32> {
    match seed {
        Some(d) => {
            let m = match lot.table {
                LotTable::MapTable => d.map@,
                LotTable::Enemy => d.enemy@,
            };
            if m.contains_key(lot.lot_id) {
                Some(m[lot.lot_id])
            } else {
                None
            }
        },
        None => lot.vanilla_flag,
    }
}

/// With a seed mapping loaded, a lot resolves through the table it lives in: an enemy lot to the
/// mapping's enemy-table entry for its id (no flag when the entry is missing), a map lot to the
/// map-table entry, whatever the other table holds; without a mapping, to its vanilla flag.
pub proof fn law_lot_resolves_in_its_own_table(d: &LotFlagsData, other: &LotFlagsData, lot: LotRef)
    ensures
        lot.table == LotTable::Enemy ==> {
            &&& (d.enemy@.contains_key(lot.lot_id) ==> lot_flag(Some(d), lot) == Some(d.enemy@[lot.lot_id]))
            &&& (!d.enemy@.contains_key(lot.lot_id) ==> lot_flag(Some(d), lot) is None)
            &&& (other.enemy@ == d.enemy@ ==> lot_flag(Some(other), lot) == lot_flag(Some(d), lot))
        },
        lot.table == LotTable::MapTable ==> {
            &&& (d.map@.contains_key(lot.lot_id) ==> lot_flag(Some(d), lot) == Some(d.map@[lot.lot_id]))
            &&& (!d.map@.contains_key(lot.lot_id) ==> lot_flag(Some(d), lot) is None)
            &&& (other.map@ == d.map@ ==> lot_flag(Some(other), lot) == lot_flag(Some(d), lot))
        },
        lot_flag(None, lot) == lot.vanilla_flag,
{
}

pub fn effective_lot_flag(seed: Option<&LotFlagsData>, lot: LotRef) -> (r: Option<u32>)
    ensures
        r == lot_flag(seed, lot),
{
    match seed {
        Some(data) => {
            let flags = match lot.table {
                LotTable::MapTable => &data.map,
                LotTable::Enemy => &data.enemy,
            };
            match flags.get(&lot.lot_id) {
                Some(f) => Some(*f),
                None => None,
            }
        },
        None => lot.vanilla_flag,
    }
}

/// The flag for a historically tracked good: with a seed mapping, the flag the mapping lists
/// for the good's key; without one, its vanilla lot's flag.
pub open spec fn good_flag(seed: Option<&LotFlagsData>, key: Seq<char>, vanilla_lot: Option<LotRef>) -> Option<
    u32,
> {
    match seed {
        Some(d) => lookup(d.goods@, key),
        None => match vanilla_lot {
            Some(l) => lot_flag(None, l),
            None => None,
        },
    }
}

/// With a seed mapping loaded, a historically tracked good resolves to the mapping's entry for
/// its key (no flag without one), whatever its vanilla lot; without a mapping, to its vanilla
/// lot's vanilla flag.
pub proof fn law_good_flag_follows_the_seed(
    d: &LotFlagsData,
    key: Seq<char>,
    a: Option<LotRef>,
    b: Option<LotRef>,
)
    ensures
        good_flag(Some(d), key, a) == good_flag(Some(d), key, b),
        good_flag(Some(d), key, a) == lookup(d.goods@, key),
        good_flag(None, key, a) == match a {
            Some(l) => l.vanilla_flag,
            None => None,
        },
{
}

pub fn effective_good_flag(seed: Option<&LotFlagsData>, key: &str, vanilla_lot: Option<LotRef>) -> (r:
    Option<u32>)
    requires
        match seed {
            Some(d) => d.wf(),
            None => true,
        },
    ensures
        r == good_flag(seed, key@, vanilla_lot),
{
    match seed {
        Some(data) => match data.goods.get(key) {
            Some(f) => Some(*f),
            None => None,
        },
        None => match vanilla_lot {
            Some(l) => effective_lot_flag(None, l),
            None => None,
        },
    }
}

} // verus!
