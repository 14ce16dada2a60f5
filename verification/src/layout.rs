//! Dashboard layout: tiles placed on a grid, grouped in named sections, and the rules a layout
//! file must satisfy. Pixel geometry (unit sizes, gaps, scale) is handled by the renderer.

use vstd::prelude::*;
use crate::text::{chars_of, eq_chars, eq_str, str_eq, string_from_chars, string_of};

verus! {

broadcast use vstd::string::group_string_axioms;

/// Position and size of a tile in grid units.
#[derive(Debug, Clone, Copy, PartialEq, Eq, Structural)]
pub struct TilePosition {
    pub col: u32,
    pub row: u32,
    pub col_span: u32,
    pub row_span: u32,
}

/// One tile of a layout.
#[derive(Debug, Clone)]
pub enum TileDef {
    /// Counter, time or aggregate (`metric` is a built-in id, a group name or a good key).
    Metric {
        id: Option<String>,
        metric: String,
        position: TilePosition,
        label: String,
        show_max: bool,
        icon: Option<String>,
    },
    /// A tracked good or boss, by key; it may also show whether the good is equipped, and keep
    /// it owned once obtained (`historic`).
    Item {
        id: Option<String>,
        good_key: String,
        position: TilePosition,
        track_equipped: bool,
        historic: bool,
    },
    /// Decorative text.
    Label { id: Option<String>, position: TilePosition, label: String },
}

/// A named group of tiles; only one section is shown at a time.
#[derive(Debug, Clone)]
pub struct LayoutSection {
    pub name: String,
    pub tiles: Vec<TileDef>,
}

/// The grid-level content of a layout file.
#[derive(Debug, Clone)]
pub struct LayoutConfig {
    /// Placement width of the grid (`grid.columns`).
    pub columns: u32,
    pub default_section: Option<String>,
    /// Flat tile list: an implicit `default` section when `sections` is empty.
    pub tiles: Vec<TileDef>,
    pub sections: Vec<LayoutSection>,
}

/// Why a layout is rejected.
#[derive(Debug, Clone)]
pub enum LayoutError {
    ZeroColumns,
    NoTiles,
    EmptySectionName,
    DuplicateSection { name: String },
    EmptySection { name: String },
    /// An item tile with an empty key (its `id`, if any).
    EmptyItemKey { id: Option<String> },
    ZeroSpan { tile: String },
    ExceedsWidth { section: String, tile: String, col: u32, col_span: u32, columns: u32 },
    Overlap {
        section: String,
        tile: String,
        col: u32,
        row: u32,
        other: String,
        other_col: u32,
        other_row: u32,
    },
}

/// Abstract value of a [`LayoutError`].
pub ghost enum LayoutErrorModel {
    ZeroColumns,
    NoTiles,
    EmptySectionName,
    DuplicateSection { name: Seq<char> },
    EmptySection { name: Seq<char> },
    EmptyItemKey { id: Option<Seq<char>> },
    ZeroSpan { tile: Seq<char> },
    ExceedsWidth { section: Seq<char>, tile: Seq<char>, col: u32, col_span: u32, columns: u32 },
    Overlap {
        section: Seq<char>,
        tile: Seq<char>,
        col: u32,
        row: u32,
        other: Seq<char>,
        other_col: u32,
        other_row: u32,
    },
}

pub open spec fn opt_view(o: Option<String>) -> Option<Seq<char>> {
    match o {
        Some(s) => Some(s@),
        None => None,
    }
}

impl View for LayoutError {
    type V = LayoutErrorModel;

    open spec fn view(&self) -> LayoutErrorModel {
        match *self {
            LayoutError::ZeroColumns => LayoutErrorModel::ZeroColumns,
            LayoutError::NoTiles => LayoutErrorModel::NoTiles,
            LayoutError::EmptySectionName => LayoutErrorModel::EmptySectionName,
            LayoutError::DuplicateSection { name } => LayoutErrorModel::DuplicateSection {
                name: name@,
            },
            LayoutError::EmptySection { name } => LayoutErrorModel::EmptySection { name: name@ },
            LayoutError::EmptyItemKey { id } => LayoutErrorModel::EmptyItemKey { id: opt_view(id) },
            LayoutError::ZeroSpan { tile } => LayoutErrorModel::ZeroSpan { tile: tile@ },
            LayoutError::ExceedsWidth { section, tile, col, col_span, columns } =>
                LayoutErrorModel::ExceedsWidth { section: section@, tile: tile@, col, col_span, columns },
            LayoutError::Overlap { section, tile, col, row, other, other_col, other_row } =>
                LayoutErrorModel::Overlap {
                section: section@,
                tile: tile@,
                col,
                row,
                other: other@,
                other_col,
                other_row,
            },
        }
    }
}

pub open spec fn tile_position(t: TileDef) -> TilePosition {
    match t {
        TileDef::Metric { position, .. } => position,
        TileDef::Item { position, .. } => position,
        TileDef::Label { position, .. } => position,
    }
}

/// The name a tile is reported under: its `id`, else `metric`, the item key, or `label`.
pub open spec fn tile_name(t: TileDef) -> Seq<char> {
    match t {
        TileDef::Metric { id, .. } => match id {
            Some(s) => s@,
            None => "metric"@,
        },
        TileDef::Item { id, good_key, .. } => match id {
            Some(s) => s@,
            None => good_key@,
        },
        TileDef::Label { id, .. } => match id {
            Some(s) => s@,
            None => "label"@,
        },
    }
}

/// Cells already taken: column, row and the name of the tile that holds it.
pub type Occupied = Seq<(u32, u32, Seq<char>)>;

/// First recorded occupant of cell `(c, r)`.
pub open spec fn occupant(occ: Occupied, c: u32, r: u32) -> Option<(u32, u32, Seq<char>)>
    decreases occ.len(),
{
    if occ.len() == 0 {
        None
    } else if occ[0].0 == c && occ[0].1 == r {
        Some(occ[0])
    } else {
        occupant(occ.drop_first(), c, r)
    }
}

/// Places the cells of one tile row by row (`dr`), column by column (`dc`); the first cell
/// already taken is an overlap.
pub open spec fn place_cells(
    section: Seq<char>,
    name: Seq<char>,
    p: TilePosition,
    dr: u32,
    dc: u32,
    occ: Occupied,
) -> Result<Occupied, LayoutErrorModel>
    decreases p.row_span - dr, p.col_span - dc,
{
    if dr >= p.row_span {
        Ok(occ)
    } else if dc >= p.col_span {
        place_cells(section, name, p, (dr + 1) as u32, 0, occ)
    } else {
        let c = (p.col + dc) as u32;
        let r = (p.row + dr) as u32;
        match occupant(occ, c, r) {
            Some(o) => Err(
                LayoutErrorModel::Overlap {
                    section,
                    tile: name,
                    col: c,
                    row: r,
                    other: o.2,
                    other_col: o.0,
                    other_row: o.1,
                },
            ),
            None => place_cells(section, name, p, dr, (dc + 1) as u32, occ.push((c, r, name))),
        }
    }
}

/// For an item tile with an empty key: the tile's `id`.
pub open spec fn empty_item_key(t: TileDef) -> Option<Option<Seq<char>>> {
    match t {
        TileDef::Item { id, good_key, .. } => if good_key@.len() == 0 {
            Some(opt_view(id))
        } else {
            None
        },
        _ => None,
    }
}

/// Checks the tiles of one section in order, with the cells taken so far.
pub open spec fn check_tiles_from(
    tiles: Seq<TileDef>,
    section: Seq<char>,
    columns: u32,
    occ: Occupied,
) -> Result<(), LayoutErrorModel>
    decreases tiles.len(),
{
    if tiles.len() == 0 {
        Ok(())
    } else {
        let t = tiles[0];
        let p = tile_position(t);
        let name = tile_name(t);
        if empty_item_key(t) is Some {
            Err(LayoutErrorModel::EmptyItemKey { id: empty_item_key(t)->0 })
        } else if p.col_span == 0 || p.row_span == 0 {
            Err(LayoutErrorModel::ZeroSpan { tile: name })
        } else if p.col + p.col_span > columns {
            Err(
                LayoutErrorModel::ExceedsWidth {
                    section,
                    tile: name,
                    col: p.col,
                    col_span: p.col_span,
                    columns,
                },
            )
        } else {
            match place_cells(section, name, p, 0, 0, occ) {
                Err(e) => Err(e),
                Ok(occ2) => check_tiles_from(tiles.drop_first(), section, columns, occ2),
            }
        }
    }
}

/// Whether every tile's far edges fit in a `u32`.
pub open spec fn tiles_fit(tiles: Seq<TileDef>) -> bool {
    forall|i: int|
        0 <= i < tiles.len() ==> {
            let p = tile_position(#[trigger] tiles[i]);
            p.col + p.col_span <= u32::MAX && p.row + p.row_span <= u32::MAX
        }
}

pub open spec fn section_tiles_view(sections: Seq<LayoutSection>) -> Seq<Seq<TileDef>> {
    sections.map_values(|s: LayoutSection| s.tiles@)
}

/// Index of the first section named `name`.
pub open spec fn first_section_named(sections: Seq<LayoutSection>, name: Seq<char>) -> Option<nat>
    decreases sections.len(),
{
    if sections.len() == 0 {
        None
    } else if sections[0].name@ == name {
        Some(0)
    } else {
        match first_section_named(sections.drop_first(), name) {
            Some(i) => Some(i + 1),
            None => None,
        }
    }
}

/// Checks sections in order: a name must be non-empty and unique, a section must have tiles,
/// and its tiles must pass; `seen` holds the names checked so far.
pub open spec fn check_sections_from(sections: Seq<LayoutSection>, columns: u32, seen: Set<Seq<char>>) -> Result<
    (),
    LayoutErrorModel,
>
    decreases sections.len(),
{
    if sections.len() == 0 {
        Ok(())
    } else {
        let s = sections[0];
        if s.name@.len() == 0 {
            Err(LayoutErrorModel::EmptySectionName)
        } else if seen.contains(s.name@) {
            Err(LayoutErrorModel::DuplicateSection { name: s.name@ })
        } else if s.tiles@.len() == 0 {
            Err(LayoutErrorModel::EmptySection { name: s.name@ })
        } else {
            match check_tiles_from(s.tiles@, s.name@, columns, Seq::empty()) {
                Err(e) => Err(e),
                Ok(()) => check_sections_from(sections.drop_first(), columns, seen.insert(s.name@)),
            }
        }
    }
}

impl LayoutConfig {
    /// Every tile of the layout (flat and in sections) fits the `u32` grid coordinates.
    pub open spec fn coordinates_fit(&self) -> bool {
        &&& tiles_fit(self.tiles@)
        &&& forall|i: int| 0 <= i < self.sections@.len() ==> tiles_fit(#[trigger] self.sections@[i].tiles@)
    }

    /// The outcome of validating the layout.
    pub open spec fn validation(&self) -> Result<(), LayoutErrorModel> {
        if self.columns == 0 {
            Err(LayoutErrorModel::ZeroColumns)
        } else if self.sections@.len() == 0 {
            if self.tiles@.len() == 0 {
                Err(LayoutErrorModel::NoTiles)
            } else {
                check_tiles_from(self.tiles@, "default"@, self.columns, Seq::empty())
            }
        } else {
            check_sections_from(self.sections@, self.columns, Set::empty())
        }
    }

    pub open spec fn spec_section_count(&self) -> nat {
        if self.sections@.len() == 0 {
            if self.tiles@.len() == 0 {
                0
            } else {
                1
            }
        } else {
            self.sections@.len()
        }
    }

    /// Number of sections (the flat tile list counts as one section named `default`).
    pub fn section_count(&self) -> (n: usize)
        ensures
            n == self.spec_section_count(),
    {
        if self.sections.len() == 0 {
            if self.tiles.len() == 0 {
                0
            } else {
                1
            }
        } else {
            self.sections.len()
        }
    }

    pub open spec fn spec_section_name(&self, index: int) -> Option<Seq<char>> {
        if self.sections@.len() == 0 {
            if index == 0 && self.tiles@.len() > 0 {
                Some("default"@)
            } else {
                None
            }
        } else if 0 <= index < self.sections@.len() {
            Some(self.sections@[index].name@)
        } else {
            None
        }
    }

    pub fn section_name(&self, index: usize) -> (r: Option<&str>)
        ensures
            match r {
                Some(s) => self.spec_section_name(index as int) == Some(s@),
                None => self.spec_section_name(index as int) is None,
            },
    {
        if self.sections.len() == 0 {
            if index == 0 && self.tiles.len() > 0 {
                Some("default")
            } else {
                None
            }
        } else if index < self.sections.len() {
            Some(self.sections[index].name.as_str())
        } else {
            None
        }
    }

    pub open spec fn spec_section_index(&self, name: Seq<char>) -> Option<nat> {
        if self.sections@.len() == 0 {
            if name == "default"@ && self.tiles@.len() > 0 {
                Some(0)
            } else {
                None
            }
        } else {
            first_section_named(self.sections@, name)
        }
    }

    /// Index of the section called `name` (first match).
    pub fn section_index(&self, name: &str) -> (r: Option<usize>)
        ensures
            match r {
                Some(i) => self.spec_section_index(name@) == Some(i as nat),
                None => self.spec_section_index(name@) is None,
            },
    {
        if self.sections.len() == 0 {
            if str_eq(name, "default") && self.tiles.len() > 0 {
                Some(0)
            } else {
                None
            }
        } else {
            let mut i: usize = 0;
            assert(self.sections@.skip(0) =~= self.sections@);
            while i < self.sections.len()
                invariant
                    self.sections@.len() > 0,
                    i <= self.sections.len(),
                    first_section_named(self.sections@, name@) == match first_section_named(
                        self.sections@.skip(i as int),
                        name@,
                    ) {
                        Some(k) => Some((k + i) as nat),
                        None => None,
                    },
                decreases self.sections.len() - i,
            {
                assert(self.sections@.skip(i as int).drop_first() =~= self.sections@.skip(i + 1));
                if str_eq(self.sections[i].name.as_str(), name) {
                    return Some(i);
                }
                i += 1;
            }
            None
        }
    }

    pub open spec fn spec_default_section_index(&self, config_default: Option<Seq<char>>) -> nat {
        match config_default {
            Some(n) if self.spec_section_index(n) is Some => self.spec_section_index(n)->0,
            _ => match self.default_section {
                Some(d) if self.spec_section_index(d@) is Some => self.spec_section_index(d@)->0,
                _ => 0,
            },
        }
    }

    /// The section to start on: the config's choice if it names a section, else the layout's
    /// `default_section` if it names one, else the first.
    pub fn resolve_default_section_index(&self, config_default: Option<&str>) -> (i: usize)
        ensures
            i == self.spec_default_section_index(
                match config_default {
                    Some(s) => Some(s@),
                    None => None,
                },
            ),
    {
        if let Some(name) = config_default {
            if let Some(idx) = self.section_index(name) {
                return idx;
            }
        }
        if let Some(name) = &self.default_section {
            if let Some(idx) = self.section_index(name.as_str()) {
                return idx;
            }
        }
        0
    }

    pub open spec fn spec_tiles_for_section(&self, index: int) -> Seq<TileDef> {
        if self.sections@.len() == 0 {
            if index == 0 {
                self.tiles@
            } else {
                Seq::empty()
            }
        } else if 0 <= index < self.sections@.len() {
            self.sections@[index].tiles@
        } else {
            Seq::empty()
        }
    }

    /// The tiles of section `index` (none for an index out of range).
    pub fn tiles_for_section(&self, index: usize) -> (t: &[TileDef])
        ensures
            t@ == self.spec_tiles_for_section(index as int),
    {
        if self.sections.len() == 0 {
            if index == 0 {
                self.tiles.as_slice()
            } else {
                &[]
            }
        } else if index < self.sections.len() {
            self.sections[index].tiles.as_slice()
        } else {
            &[]
        }
    }

    /// Section index actually shown for a requested index: out-of-range requests go to the first
    /// section, and a section without tiles falls back to the default section.
    pub open spec fn spec_resolved_section(&self, index: int, config_default: Option<Seq<char>>) -> nat {
        let count = self.spec_section_count();
        let i = if index >= count {
            0
        } else {
            index
        };
        if self.spec_tiles_for_section(i).len() == 0 {
            let d = self.spec_default_section_index(config_default);
            if d < count - 1 {
                d
            } else {
                (count - 1) as nat
            }
        } else {
            i as nat
        }
    }

    /// Clamps `index` and falls back to the default section when the chosen one has no tiles.
    pub fn resolve_section_tiles(&self, index: usize, config_default: Option<&str>) -> (r: (
        usize,
        &[TileDef],
    ))
        ensures
            self.spec_section_count() == 0 ==> r.0 == 0 && r.1@.len() == 0,
            self.spec_section_count() > 0 ==> {
                &&& r.0 == self.spec_resolved_section(
                    index as int,
                    match config_default {
                        Some(s) => Some(s@),
                        None => None,
                    },
                )
                &&& r.1@ == self.spec_tiles_for_section(r.0 as int)
            },
    {
        let count = self.section_count();
        if count == 0 {
            return (0, &[]);
        }
        let mut index = index;
        if index >= count {
            index = 0;
        }
        let tiles = self.tiles_for_section(index);
        if tiles.len() == 0 {
            let d = self.resolve_default_section_index(config_default);
            index = if d < count - 1 {
                d
            } else {
                count - 1
            };
            return (index, self.tiles_for_section(index));
        }
        (index, tiles)
    }

    pub open spec fn spec_section_names(&self) -> Seq<Seq<char>> {
        if self.sections@.len() == 0 {
            if self.tiles@.len() == 0 {
                Seq::empty()
            } else {
                seq!["default"@]
            }
        } else {
            self.sections@.map_values(|s: LayoutSection| s.name@)
        }
    }

    /// Names of all sections, in order.
    pub fn section_names(&self) -> (names: Vec<&str>)
        ensures
            names@.map_values(|s: &str| s@) == self.spec_section_names(),
    {
        let mut names: Vec<&str> = Vec::new();
        if self.sections.len() == 0 {
            if self.tiles.len() > 0 {
                names.push("default");
            }
            assert(names@.map_values(|s: &str| s@) =~= self.spec_section_names());
            return names;
        }
        let mut i: usize = 0;
        while i < self.sections.len()
            invariant
                i <= self.sections.len(),
                names@.map_values(|s: &str| s@) =~= self.sections@.take(i as int).map_values(
                    |s: LayoutSection| s.name@,
                ),
            decreases self.sections.len() - i,
        {
            let ghost old_names = names@;
            let nm = self.sections[i].name.as_str();
            names.push(nm);
            assert(names@ == old_names.push(nm));
            assert(names@.map_values(|s: &str| s@) =~= old_names.map_values(|s: &str| s@).push(nm@));
            assert(self.sections@.take(i + 1) =~= self.sections@.take(i as int).push(
                self.sections@[i as int],
            ));
            assert(self.sections@.take(i + 1).map_values(|s: LayoutSection| s.name@)
                =~= self.sections@.take(i as int).map_values(|s: LayoutSection| s.name@).push(
                nm@,
            ));
            i += 1;
        }
        assert(self.sections@.take(i as int) =~= self.sections@);
        names
    }

    /// Tile lists that make up the layout: the flat list, or every section's tiles.
    pub open spec fn tile_lists(&self) -> Seq<Seq<TileDef>> {
        if self.sections@.len() == 0 {
            seq![self.tiles@]
        } else {
            section_tiles_view(self.sections@)
        }
    }

    /// Icon keys referenced by the tiles: item keys and metric `icon` fields, first occurrence
    /// order, without empty keys or repeats.
    pub fn collect_icon_keys(&self) -> (keys: Vec<String>)
        ensures
            strings_view(keys@) == dedup_keys(flat_refs(self.tile_lists(), RefKind::Icons), Seq::empty()),
    {
        self.collect_refs(RefKind::Icons)
    }

    /// Data keys referenced by the tiles: item keys and metric refs (built-ins, group names,
    /// good keys), first occurrence order, without empty keys or repeats.
    pub fn collect_data_refs(&self) -> (keys: Vec<String>)
        ensures
            strings_view(keys@) == dedup_keys(flat_refs(self.tile_lists(), RefKind::Data), Seq::empty()),
    {
        self.collect_refs(RefKind::Data)
    }

    /// Keys of the item tiles that track whether their good is equipped, first occurrence
    /// order, without empty keys or repeats.
    pub fn collect_equipped_refs(&self) -> (keys: Vec<String>)
        ensures
            strings_view(keys@) == dedup_keys(flat_refs(self.tile_lists(), RefKind::Equipped), Seq::empty()),
    {
        self.collect_refs(RefKind::Equipped)
    }

    /// Keys of the item tiles that keep their good owned once obtained, first occurrence
    /// order, without empty keys or repeats.
    pub fn collect_historic_refs(&self) -> (keys: Vec<String>)
        ensures
            strings_view(keys@) == dedup_keys(flat_refs(self.tile_lists(), RefKind::Historic), Seq::empty()),
    {
        self.collect_refs(RefKind::Historic)
    }

    fn collect_refs(&self, kind: RefKind) -> (keys: Vec<String>)
        ensures
            strings_view(keys@) == dedup_keys(flat_refs(self.tile_lists(), kind), Seq::empty()),
    {
        let mut keys: Vec<String> = Vec::new();
        assert(strings_view(keys@) =~= Seq::<Seq<char>>::empty());
        if self.sections.len() == 0 {
            collect_from_tiles(&self.tiles, kind, &mut keys);
            proof {
                lemma_flat_refs_one(self.tiles@, kind);
            }
            return keys;
        }
        let mut i: usize = 0;
        while i < self.sections.len()
            invariant
                i <= self.sections.len(),
                self.sections@.len() > 0,
                strings_view(keys@) == dedup_keys(
                    flat_refs(section_tiles_view(self.sections@.take(i as int)), kind),
                    Seq::empty(),
                ),
            decreases self.sections.len() - i,
        {
            let ghost before = strings_view(keys@);
            collect_from_tiles(&self.sections[i].tiles, kind, &mut keys);
            proof {
                let lists = section_tiles_view(self.sections@.take(i as int));
                assert(section_tiles_view(self.sections@.take(i + 1)) =~= lists.push(
                    self.sections@[i as int].tiles@,
                ));
                lemma_flat_refs_push(lists, self.sections@[i as int].tiles@, kind);
                lemma_dedup_append(
                    flat_refs(lists, kind),
                    refs_of_tiles(self.sections@[i as int].tiles@, kind),
                    Seq::empty(),
                );
            }
            i += 1;
        }
        assert(self.sections@.take(i as int) =~= self.sections@);
        keys
    }

    /// Validates the grid, the sections and the tile placement.
    pub fn validate(&self) -> (r: Result<(), LayoutError>)
        requires
            self.coordinates_fit(),
        ensures
            match r {
                Ok(()) => self.validation() == Ok::<(), LayoutErrorModel>(()),
                Err(e) => self.validation() == Err::<(), LayoutErrorModel>(e@),
            },
    {
        if self.columns == 0 {
            return Err(LayoutError::ZeroColumns);
        }
        if self.sections.len() == 0 {
            if self.tiles.len() == 0 {
                return Err(LayoutError::NoTiles);
            }
            return validate_tiles(&self.tiles, "default", self.columns);
        }
        let mut seen: Vec<String> = Vec::new();
        let mut i: usize = 0;
        assert(self.sections@.skip(0) =~= self.sections@);
        assert(strings_view(seen@).to_set() =~= Set::<Seq<char>>::empty());
        while i < self.sections.len()
            invariant
                i <= self.sections.len(),
                self.coordinates_fit(),
                self.columns > 0,
                check_sections_from(self.sections@, self.columns, Set::empty())
                    == check_sections_from(
                    self.sections@.skip(i as int),
                    self.columns,
                    strings_view(seen@).to_set(),
                ),
            decreases self.sections.len() - i,
        {
            let ghost rest = self.sections@.skip(i as int);
            assert(rest.drop_first() =~= self.sections@.skip(i + 1));
            assert(rest[0] == self.sections@[i as int]);
            let section = &self.sections[i];
            if section.name.as_str().unicode_len() == 0 {
                return Err(LayoutError::EmptySectionName);
            }
            if contains_string(&seen, section.name.as_str()) {
                return Err(LayoutError::DuplicateSection { name: section.name.clone() });
            }
            if section.tiles.len() == 0 {
                return Err(LayoutError::EmptySection { name: section.name.clone() });
            }
            assert(tiles_fit(self.sections@[i as int].tiles@));
            match validate_tiles(&section.tiles, section.name.as_str(), self.columns) {
                Err(e) => {
                    return Err(e);
                },
                Ok(()) => {},
            }
            let ghost old_seen = strings_view(seen@);
            assert(!old_seen.to_set().contains(section.name@));
            seen.push(section.name.clone());
            assert(strings_view(seen@) =~= old_seen.push(section.name@));
            proof {
                old_seen.lemma_push_to_set_commute(section.name@);
            }
            assert(check_sections_from(rest, self.columns, old_seen.to_set()) == check_sections_from(
                self.sections@.skip(i + 1),
                self.columns,
                old_seen.to_set().insert(section.name@),
            ));
            i += 1;
        }
        Ok(())
    }
}

pub open spec fn strings_view(v: Seq<String>) -> Seq<Seq<char>> {
    v.map_values(|s: String| s@)
}

fn contains_string(v: &Vec<String>, s: &str) -> (b: bool)
    ensures
        b == strings_view(v@).contains(s@),
{
    let mut i: usize = 0;
    while i < v.len()
        invariant
            i <= v.len(),
            forall|k: int| 0 <= k < i ==> v@[k]@ != s@,
        decreases v.len() - i,
    {
        if str_eq(v[i].as_str(), s) {
            assert(strings_view(v@)[i as int] == s@);
            return true;
        }
        i += 1;
    }
    assert forall|k: int| 0 <= k < strings_view(v@).len() implies strings_view(v@)[k] != s@ by {
        assert(strings_view(v@)[k] == v@[k]@);
    }
    false
}

/// Which keys are collected from the tiles.
#[derive(Debug, Clone, Copy, PartialEq, Eq, Structural)]
pub enum RefKind {
    /// Item keys and metric icons.
    Icons,
    /// Item keys and metric refs.
    Data,
    /// Keys of item tiles tracking the equipped state.
    Equipped,
    /// Keys of item tiles tracking historic ownership.
    Historic,
}

/// The key a tile contributes to a collection of `kind`. Label tiles contribute nothing.
pub open spec fn tile_ref(t: TileDef, kind: RefKind) -> Option<Seq<char>> {
    match t {
        TileDef::Item { good_key, track_equipped, historic, .. } => match kind {
            RefKind::Icons | RefKind::Data => Some(good_key@),
            RefKind::Equipped => if track_equipped {
                Some(good_key@)
            } else {
                None
            },
            RefKind::Historic => if historic {
                Some(good_key@)
            } else {
                None
            },
        },
        TileDef::Metric { metric, icon, .. } => match kind {
            RefKind::Icons => opt_view(icon),
            RefKind::Data => Some(metric@),
            _ => None,
        },
        TileDef::Label { .. } => None,
    }
}

pub open spec fn refs_of_tiles(tiles: Seq<TileDef>, kind: RefKind) -> Seq<Seq<char>>
    decreases tiles.len(),
{
    if tiles.len() == 0 {
        Seq::empty()
    } else {
        let head = match tile_ref(tiles[0], kind) {
            Some(k) => seq![k],
            None => Seq::empty(),
        };
        head + refs_of_tiles(tiles.drop_first(), kind)
    }
}

pub open spec fn flat_refs(lists: Seq<Seq<TileDef>>, kind: RefKind) -> Seq<Seq<char>>
    decreases lists.len(),
{
    if lists.len() == 0 {
        Seq::empty()
    } else {
        flat_refs(lists.drop_last(), kind) + refs_of_tiles(lists.last(), kind)
    }
}

/// Keys in order, skipping empty ones and ones already kept (`kept` holds those so far).
pub open spec fn dedup_keys(keys: Seq<Seq<char>>, kept: Seq<Seq<char>>) -> Seq<Seq<char>>
    decreases keys.len(),
{
    if keys.len() == 0 {
        kept
    } else {
        let k = keys[0];
        let kept2 = if k.len() == 0 || kept.contains(k) {
            kept
        } else {
            kept.push(k)
        };
        dedup_keys(keys.drop_first(), kept2)
    }
}

proof fn lemma_dedup_append(a: Seq<Seq<char>>, b: Seq<Seq<char>>, kept: Seq<Seq<char>>)
    ensures
        dedup_keys(a + b, kept) == dedup_keys(b, dedup_keys(a, kept)),
    decreases a.len(),
{
    if a.len() == 0 {
        assert(a + b =~= b);
    } else {
        assert((a + b).drop_first() =~= a.drop_first() + b);
        let k = a[0];
        let kept2 = if k.len() == 0 || kept.contains(k) {
            kept
        } else {
            kept.push(k)
        };
        lemma_dedup_append(a.drop_first(), b, kept2);
    }
}

proof fn lemma_flat_refs_one(tiles: Seq<TileDef>, kind: RefKind)
    ensures
        flat_refs(seq![tiles], kind) == refs_of_tiles(tiles, kind),
{
    assert(seq![tiles].drop_last() =~= Seq::<Seq<TileDef>>::empty());
    assert(seq![tiles].last() == tiles);
    assert(flat_refs(Seq::<Seq<TileDef>>::empty(), kind) =~= Seq::<Seq<char>>::empty());
    assert(Seq::<Seq<char>>::empty() + refs_of_tiles(tiles, kind) =~= refs_of_tiles(tiles, kind));
}

proof fn lemma_flat_refs_push(lists: Seq<Seq<TileDef>>, tiles: Seq<TileDef>, kind: RefKind)
    ensures
        flat_refs(lists.push(tiles), kind) == flat_refs(lists, kind) + refs_of_tiles(tiles, kind),
{
    assert(lists.push(tiles).drop_last() =~= lists);
}

/// Appends the keys `tiles` contribute to `keys`, skipping empty and repeated ones.
fn collect_from_tiles(tiles: &Vec<TileDef>, kind: RefKind, keys: &mut Vec<String>)
    ensures
        strings_view(final(keys)@) == dedup_keys(refs_of_tiles(tiles@, kind), strings_view(old(keys)@)),
{
    let ghost start = strings_view(keys@);
    let mut i: usize = 0;
    assert(tiles@.skip(0) =~= tiles@);
    while i < tiles.len()
        invariant
            i <= tiles.len(),
            dedup_keys(refs_of_tiles(tiles@, kind), start) == dedup_keys(
                refs_of_tiles(tiles@.skip(i as int), kind),
                strings_view(keys@),
            ),
        decreases tiles.len() - i,
    {
        let ghost rest = tiles@.skip(i as int);
        assert(rest.drop_first() =~= tiles@.skip(i + 1));
        assert(rest[0] == tiles@[i as int]);
        let key: Option<&String> = match &tiles[i] {
            TileDef::Item { good_key, track_equipped, historic, .. } => match kind {
                RefKind::Icons | RefKind::Data => Some(good_key),
                RefKind::Equipped => if *track_equipped {
                    Some(good_key)
                } else {
                    None
                },
                RefKind::Historic => if *historic {
                    Some(good_key)
                } else {
                    None
                },
            },
            TileDef::Metric { metric, icon, .. } => match kind {
                RefKind::Icons => match icon {
                    Some(s) => Some(s),
                    None => None,
                },
                RefKind::Data => Some(metric),
                _ => None,
            },
            TileDef::Label { .. } => None,
        };
        match key {
            Some(k) => {
                let ghost ks = strings_view(keys@);
                assert(refs_of_tiles(rest, kind) =~= seq![k@] + refs_of_tiles(rest.drop_first(), kind));
                assert((seq![k@] + refs_of_tiles(rest.drop_first(), kind)).drop_first()
                    =~= refs_of_tiles(rest.drop_first(), kind));
                if k.as_str().unicode_len() > 0 && !contains_string(keys, k.as_str()) {
                    keys.push(k.clone());
                    assert(strings_view(keys@) =~= ks.push(k@));
                }
            },
            None => {
                assert(refs_of_tiles(rest, kind) =~= refs_of_tiles(rest.drop_first(), kind));
            },
        }
        i += 1;
    }
    assert(tiles@.skip(i as int) =~= Seq::<TileDef>::empty());
}

/// Name of a tile as `Vec<char>` (its `id`, else the kind's default name or the item key).
fn tile_name_chars(t: &TileDef) -> (n: Vec<char>)
    ensures
        n@ == tile_name(*t),
{
    match t {
        TileDef::Metric { id, .. } => match id {
            Some(s) => chars_of(s.as_str()),
            None => chars_of("metric"),
        },
        TileDef::Item { id, good_key, .. } => match id {
            Some(s) => chars_of(s.as_str()),
            None => chars_of(good_key.as_str()),
        },
        TileDef::Label { id, .. } => match id {
            Some(s) => chars_of(s.as_str()),
            None => chars_of("label"),
        },
    }
}

pub open spec fn occ_view(occ: Seq<(u32, u32, Vec<char>)>) -> Occupied {
    occ.map_values(|e: (u32, u32, Vec<char>)| (e.0, e.1, e.2@))
}

fn find_occupant(occ: &Vec<(u32, u32, Vec<char>)>, c: u32, r: u32) -> (o: Option<usize>)
    ensures
        match o {
            Some(k) => k < occ.len() && occupant(occ_view(occ@), c, r) == Some(occ_view(occ@)[k as int]),
            None => occupant(occ_view(occ@), c, r) is None,
        },
{
    let mut k: usize = 0;
    assert(occ_view(occ@).skip(0) =~= occ_view(occ@));
    while k < occ.len()
        invariant
            k <= occ.len(),
            occupant(occ_view(occ@), c, r) == occupant(occ_view(occ@).skip(k as int), c, r),
        decreases occ.len() - k,
    {
        let ghost rest = occ_view(occ@).skip(k as int);
        assert(rest.drop_first() =~= occ_view(occ@).skip(k + 1));
        if occ[k].0 == c && occ[k].1 == r {
            return Some(k);
        }
        k += 1;
    }
    None
}

fn place_tile_cells(section: &str, name: &Vec<char>, p: TilePosition, occ: &mut Vec<(u32, u32, Vec<char>)>) -> (r:
    Result<(), LayoutError>)
    requires
        p.col + p.col_span <= u32::MAX,
        p.row + p.row_span <= u32::MAX,
    ensures
        match place_cells(section@, name@, p, 0, 0, occ_view(old(occ)@)) {
            Ok(o) => r is Ok && occ_view(final(occ)@) == o,
            Err(e) => r matches Err(err) && err@ == e,
        },
{
    let mut dr: u32 = 0;
    while dr < p.row_span
        invariant
            p.col + p.col_span <= u32::MAX,
            p.row + p.row_span <= u32::MAX,
            dr <= p.row_span,
            place_cells(section@, name@, p, 0, 0, occ_view(old(occ)@)) == place_cells(
                section@,
                name@,
                p,
                dr,
                0,
                occ_view(occ@),
            ),
        decreases p.row_span - dr,
    {
        let mut dc: u32 = 0;
        while dc < p.col_span
            invariant
                p.col + p.col_span <= u32::MAX,
                p.row + p.row_span <= u32::MAX,
                dr < p.row_span,
                dc <= p.col_span,
                place_cells(section@, name@, p, 0, 0, occ_view(old(occ)@)) == place_cells(
                    section@,
                    name@,
                    p,
                    dr,
                    dc,
                    occ_view(occ@),
                ),
            decreases p.col_span - dc,
        {
            let c = p.col + dc;
            let r = p.row + dr;
            match find_occupant(occ, c, r) {
                Some(k) => {
                    let other = string_from_chars(&occ[k].2);
                    return Err(
                        LayoutError::Overlap {
                            section: string_of(section),
                            tile: string_from_chars(name),
                            col: c,
                            row: r,
                            other,
                            other_col: occ[k].0,
                            other_row: occ[k].1,
                        },
                    );
                },
                None => {
                    let ghost before = occ_view(occ@);
                    occ.push((c, r, name.clone()));
                    assert(occ_view(occ@) =~= before.push((c, r, name@)));
                },
            }
            dc += 1;
        }
        dr += 1;
    }
    Ok(())
}

/// Validates one section's tiles: non-empty item keys, positive spans, inside the grid width,
/// and no two tiles on the same cell.
pub fn validate_tiles(tiles: &Vec<TileDef>, section_name: &str, columns: u32) -> (r: Result<(), LayoutError>)
    requires
        tiles_fit(tiles@),
    ensures
        match r {
            Ok(()) => check_tiles_from(tiles@, section_name@, columns, Seq::empty())
                == Ok::<(), LayoutErrorModel>(()),
            Err(e) => check_tiles_from(tiles@, section_name@, columns, Seq::empty())
                == Err::<(), LayoutErrorModel>(e@),
        },
{
    let mut occ: Vec<(u32, u32, Vec<char>)> = Vec::new();
    let mut i: usize = 0;
    assert(tiles@.skip(0) =~= tiles@);
    assert(occ_view(occ@) =~= Seq::<(u32, u32, Seq<char>)>::empty());
    while i < tiles.len()
        invariant
            i <= tiles.len(),
            tiles_fit(tiles@),
            check_tiles_from(tiles@, section_name@, columns, Seq::empty()) == check_tiles_from(
                tiles@.skip(i as int),
                section_name@,
                columns,
                occ_view(occ@),
            ),
        decreases tiles.len() - i,
    {
        let ghost rest = tiles@.skip(i as int);
        assert(rest.drop_first() =~= tiles@.skip(i + 1));
        assert(rest[0] == tiles@[i as int]);
        let t = &tiles[i];
        let name = tile_name_chars(t);
        let p = match t {
            TileDef::Metric { position, .. } => *position,
            TileDef::Item { id, good_key, position, .. } => {
                if good_key.as_str().unicode_len() == 0 {
                    return Err(LayoutError::EmptyItemKey { id: id.clone() });
                }
                *position
            },
            TileDef::Label { position, .. } => *position,
        };
        assert(p == tile_position(tiles@[i as int]));
        if p.col_span == 0 || p.row_span == 0 {
            return Err(LayoutError::ZeroSpan { tile: string_from_chars(&name) });
        }
        if p.col + p.col_span > columns {
            return Err(
                LayoutError::ExceedsWidth {
                    section: string_of(section_name),
                    tile: string_from_chars(&name),
                    col: p.col,
                    col_span: p.col_span,
                    columns,
                },
            );
        }
        match place_tile_cells(section_name, &name, p, &mut occ) {
            Err(e) => {
                return Err(e);
            },
            Ok(()) => {},
        }
        i += 1;
    }
    Ok(())
}

} // verus!
