//! The layout rules stated cell by cell: a layout passes validation exactly when its grid has
//! columns, it has tiles, its sections have non-empty distinct names and tiles, and within a
//! section every tile names its good (items), has positive spans, fits the width and shares no
//! cell with another tile.

use vstd::prelude::*;
use crate::layout::{
    check_sections_from, check_tiles_from, empty_item_key, occupant, place_cells, tile_position,
    tiles_fit, LayoutConfig, LayoutSection, Occupied, TileDef, TilePosition,
};

verus! {

/// Whether a tile at `p` covers cell `(c, r)`.
pub open spec fn covers(p: TilePosition, c: int, r: int) -> bool {
    &&& p.col <= c < p.col + p.col_span
    &&& p.row <= r < p.row + p.row_span
}

/// A tile on its own is acceptable: an item names a good, both spans are positive, and it fits
/// the grid's width.
pub open spec fn tile_acceptable(t: TileDef, columns: u32) -> bool {
    let p = tile_position(t);
    &&& empty_item_key(t) is None
    &&& p.col_span > 0 && p.row_span > 0
    &&& p.col + p.col_span <= columns
}

/// No two tiles share a cell.
pub open spec fn no_overlap(tiles: Seq<TileDef>) -> bool {
    forall|i: int, j: int, c: int, r: int|
        #![trigger covers(tile_position(tiles[i]), c, r), covers(tile_position(tiles[j]), c, r)]
        0 <= i < j < tiles.len() ==> !(covers(tile_position(tiles[i]), c, r) && covers(
            tile_position(tiles[j]),
            c,
            r,
        ))
}

/// The tiles of one section follow the rules.
pub open spec fn tiles_valid(tiles: Seq<TileDef>, columns: u32) -> bool {
    &&& forall|i: int| 0 <= i < tiles.len() ==> tile_acceptable(#[trigger] tiles[i], columns)
    &&& no_overlap(tiles)
}

/// Every section has a non-empty name, tiles that follow the rules, and a name no other
/// section has.
pub open spec fn sections_valid(sections: Seq<LayoutSection>, columns: u32) -> bool {
    &&& forall|i: int|
        0 <= i < sections.len() ==> {
            let s = #[trigger] sections[i];
            &&& s.name@.len() > 0
            &&& s.tiles@.len() > 0
            &&& tiles_valid(s.tiles@, columns)
        }
    &&& forall|i: int, j: int|
        0 <= i < j < sections.len() ==> #[trigger] sections[i].name@ != #[trigger] sections[j].name@
}

/// The rules of a layout file: columns, at least one tile, and valid sections (the flat tile
/// list being one implicit section when there are none).
pub open spec fn layout_rules_hold(l: LayoutConfig) -> bool {
    &&& l.columns > 0
    &&& if l.sections@.len() == 0 {
        l.tiles@.len() > 0 && tiles_valid(l.tiles@, l.columns)
    } else {
        sections_valid(l.sections@, l.columns)
    }
}

/// Whether some recorded cell is `(c, r)`.
pub open spec fn taken(occ: Occupied, c: int, r: int) -> bool {
    exists|k: int| 0 <= k < occ.len() && occ[k].0 == c && occ[k].1 == r
}

proof fn lemma_occupant(occ: Occupied, c: u32, r: u32)
    ensures
        (occupant(occ, c, r) is Some) == taken(occ, c as int, r as int),
    decreases occ.len(),
{
    if occ.len() > 0 && !(occ[0].0 == c && occ[0].1 == r) {
        let rest = occ.drop_first();
        lemma_occupant(rest, c, r);
        if taken(occ, c as int, r as int) {
            let k = choose|k: int| 0 <= k < occ.len() && occ[k].0 == c && occ[k].1 == r;
            assert(rest[k - 1] == occ[k]);
        }
        if taken(rest, c as int, r as int) {
            let k = choose|k: int| 0 <= k < rest.len() && rest[k].0 == c && rest[k].1 == r;
            assert(occ[k + 1] == rest[k]);
        }
    } else if occ.len() > 0 {
        assert(occ[0].0 == c && occ[0].1 == r);
    }
}

proof fn lemma_taken_push(occ: Occupied, x: (u32, u32, Seq<char>), c: int, r: int)
    ensures
        taken(occ.push(x), c, r) == (taken(occ, c, r) || (x.0 == c && x.1 == r)),
{
    let o2 = occ.push(x);
    if taken(o2, c, r) {
        let k = choose|k: int| 0 <= k < o2.len() && o2[k].0 == c && o2[k].1 == r;
        if k < occ.len() {
            assert(occ[k] == o2[k]);
        }
    }
    if taken(occ, c, r) {
        let k = choose|k: int| 0 <= k < occ.len() && occ[k].0 == c && occ[k].1 == r;
        assert(o2[k] == occ[k]);
    }
    if x.0 == c && x.1 == r {
        assert(o2[occ.len() as int] == x);
    }
}

/// The cells of a tile at `p` that come at or after row offset `dr`, column offset `dc`.
pub open spec fn pending(p: TilePosition, dr: int, dc: int, c: int, r: int) -> bool {
    &&& covers(p, c, r)
    &&& (r - p.row > dr || (r - p.row == dr && c - p.col >= dc))
}

proof fn lemma_place_cells(section: Seq<char>, name: Seq<char>, p: TilePosition, dr: u32, dc: u32, occ: Occupied)
    requires
        p.col + p.col_span <= u32::MAX,
        p.row + p.row_span <= u32::MAX,
        dc <= p.col_span,
    ensures
        (place_cells(section, name, p, dr, dc, occ) is Ok) == (forall|c: int, r: int|
            pending(p, dr as int, dc as int, c, r) ==> !taken(occ, c, r)),
        place_cells(section, name, p, dr, dc, occ) matches Ok(occ2) ==> forall|c: int, r: int|
            taken(occ2, c, r) == (taken(occ, c, r) || pending(p, dr as int, dc as int, c, r)),
    decreases p.row_span - dr, p.col_span - dc,
{
    if dr >= p.row_span {
        assert forall|c: int, r: int| !pending(p, dr as int, dc as int, c, r) by {}
    } else if dc >= p.col_span {
        lemma_place_cells(section, name, p, (dr + 1) as u32, 0, occ);
        assert forall|c: int, r: int|
            pending(p, dr as int, dc as int, c, r) == pending(p, dr + 1, 0, c, r) by {}
    } else {
        let c0 = (p.col + dc) as u32;
        let r0 = (p.row + dr) as u32;
        lemma_occupant(occ, c0, r0);
        assert(pending(p, dr as int, dc as int, c0 as int, r0 as int));
        if occupant(occ, c0, r0) is None {
            let occ1 = occ.push((c0, r0, name));
            lemma_place_cells(section, name, p, dr, (dc + 1) as u32, occ1);
            assert forall|c: int, r: int| #[trigger] taken(occ1, c, r) == (taken(occ, c, r) || (c == c0 && r == r0)) by {
                lemma_taken_push(occ, (c0, r0, name), c, r);
            }
            assert forall|c: int, r: int|
                pending(p, dr as int, dc as int, c, r) == (pending(p, dr as int, dc + 1, c, r) || (c == c0
                    && r == r0)) by {}
            let all_clear = forall|c: int, r: int| pending(p, dr as int, dc as int, c, r) ==> !taken(occ, c, r);
            let rest_clear = forall|c: int, r: int| pending(p, dr as int, dc + 1, c, r) ==> !taken(occ1, c, r);
            if rest_clear {
                assert forall|c: int, r: int| pending(p, dr as int, dc as int, c, r) implies !taken(occ, c, r) by {
                    if !(c == c0 && r == r0) {
                        assert(pending(p, dr as int, dc + 1, c, r));
                        assert(!taken(occ1, c, r));
                    }
                }
            }
            if all_clear {
                assert forall|c: int, r: int| pending(p, dr as int, dc + 1, c, r) implies !taken(occ1, c, r) by {
                    assert(pending(p, dr as int, dc as int, c, r));
                    assert(!(c == c0 && r == r0));
                }
            }
            assert(all_clear == rest_clear);
        } else {
            assert(taken(occ, c0 as int, r0 as int));
        }
    }
}

/// No tile covers a cell recorded in `occ`.
pub open spec fn clear_of(tiles: Seq<TileDef>, occ: Occupied) -> bool {
    forall|i: int, c: int, r: int|
        #![trigger covers(tile_position(tiles[i]), c, r)]
        0 <= i < tiles.len() && covers(tile_position(tiles[i]), c, r) ==> !taken(occ, c, r)
}

/// Cells of `p` are exactly those pending from the start of the tile.
proof fn lemma_pending_from_start(p: TilePosition)
    ensures
        forall|c: int, r: int| pending(p, 0, 0, c, r) == covers(p, c, r),
{
}

proof fn lemma_check_tiles(tiles: Seq<TileDef>, section: Seq<char>, columns: u32, occ: Occupied)
    requires
        tiles_fit(tiles),
    ensures
        (check_tiles_from(tiles, section, columns, occ) is Ok) == (tiles_valid(tiles, columns) && clear_of(tiles, occ)),
    decreases tiles.len(),
{
    if tiles.len() == 0 {
        return;
    }
    let t = tiles[0];
    let p = tile_position(t);
    let name = crate::layout::tile_name(t);
    let rest = tiles.drop_first();
    assert(p.col + p.col_span <= u32::MAX && p.row + p.row_span <= u32::MAX) by {
        assert(tiles_fit(tiles));
        assert(tile_position(tiles[0]) == p);
    }
    if !tile_acceptable(t, columns) {
        assert(!tiles_valid(tiles, columns));
        return;
    }
    lemma_place_cells(section, name, p, 0, 0, occ);
    lemma_pending_from_start(p);
    assert(tiles_fit(rest)) by {
        assert forall|i: int| 0 <= i < rest.len() implies {
            let q = tile_position(#[trigger] rest[i]);
            q.col + q.col_span <= u32::MAX && q.row + q.row_span <= u32::MAX
        } by {
            assert(rest[i] == tiles[i + 1]);
        }
    }
    match place_cells(section, name, p, 0, 0, occ) {
        Err(_) => {
            let (c, r) = choose|c: int, r: int| pending(p, 0, 0, c, r) && taken(occ, c, r);
            assert(covers(tile_position(tiles[0]), c, r));
        },
        Ok(occ2) => {
            lemma_check_tiles(rest, section, columns, occ2);
            let whole = tiles_valid(tiles, columns) && clear_of(tiles, occ);
            let tail = tiles_valid(rest, columns) && clear_of(rest, occ2);
            if tail {
                assert forall|i: int| 0 <= i < tiles.len() implies tile_acceptable(#[trigger] tiles[i], columns) by {
                    if i > 0 {
                        assert(tiles[i] == rest[i - 1]);
                    }
                }
                assert forall|i: int, j: int, c: int, r: int|
                    #![trigger covers(tile_position(tiles[i]), c, r), covers(tile_position(tiles[j]), c, r)]
                    0 <= i < j < tiles.len() implies !(covers(tile_position(tiles[i]), c, r) && covers(
                        tile_position(tiles[j]),
                        c,
                        r,
                    )) by {
                    assert(tiles[j] == rest[j - 1]);
                    if i > 0 {
                        assert(tiles[i] == rest[i - 1]);
                        assert(no_overlap(rest));
                        if covers(tile_position(rest[i - 1]), c, r) && covers(tile_position(rest[j - 1]), c, r) {
                            assert(false);
                        }
                    } else {
                        if covers(tile_position(rest[j - 1]), c, r) {
                            assert(!taken(occ2, c, r));
                        }
                    }
                }
                assert forall|i: int, c: int, r: int|
                    #![trigger covers(tile_position(tiles[i]), c, r)]
                    0 <= i < tiles.len() && covers(tile_position(tiles[i]), c, r) implies !taken(occ, c, r) by {
                    if i > 0 {
                        assert(tiles[i] == rest[i - 1]);
                        assert(!taken(occ2, c, r));
                    }
                }
                assert(whole);
            }
            if whole {
                assert forall|i: int| 0 <= i < rest.len() implies tile_acceptable(#[trigger] rest[i], columns) by {
                    assert(rest[i] == tiles[i + 1]);
                }
                assert forall|i: int, j: int, c: int, r: int|
                    #![trigger covers(tile_position(rest[i]), c, r), covers(tile_position(rest[j]), c, r)]
                    0 <= i < j < rest.len() implies !(covers(tile_position(rest[i]), c, r) && covers(
                        tile_position(rest[j]),
                        c,
                        r,
                    )) by {
                    assert(rest[i] == tiles[i + 1]);
                    assert(rest[j] == tiles[j + 1]);
                    assert(no_overlap(tiles));
                    if covers(tile_position(tiles[i + 1]), c, r) && covers(tile_position(tiles[j + 1]), c, r) {
                        assert(false);
                    }
                }
                assert forall|i: int, c: int, r: int|
                    #![trigger covers(tile_position(rest[i]), c, r)]
                    0 <= i < rest.len() && covers(tile_position(rest[i]), c, r) implies !taken(occ2, c, r) by {
                    assert(rest[i] == tiles[i + 1]);
                    assert(!taken(occ, c, r));
                    assert(no_overlap(tiles));
                    if covers(tile_position(tiles[0]), c, r) && covers(tile_position(tiles[i + 1]), c, r) {
                        assert(false);
                    }
                }
                assert(tail);
            }
        },
    }
}

proof fn lemma_clear_of_nothing(tiles: Seq<TileDef>)
    ensures
        clear_of(tiles, Seq::empty()),
{
    assert forall|i: int, c: int, r: int|
        #![trigger covers(tile_position(tiles[i]), c, r)]
        0 <= i < tiles.len() && covers(tile_position(tiles[i]), c, r) implies !taken(Seq::empty(), c, r) by {}
}

proof fn lemma_check_sections(sections: Seq<LayoutSection>, columns: u32, seen: Set<Seq<char>>)
    requires
        forall|i: int| 0 <= i < sections.len() ==> tiles_fit(#[trigger] sections[i].tiles@),
    ensures
        (check_sections_from(sections, columns, seen) is Ok) == (sections_valid(sections, columns) && forall|i: int|
            0 <= i < sections.len() ==> !seen.contains(#[trigger] sections[i].name@)),
    decreases sections.len(),
{
    if sections.len() == 0 {
        return;
    }
    let s = sections[0];
    let rest = sections.drop_first();
    assert forall|i: int| 0 <= i < rest.len() implies tiles_fit(#[trigger] rest[i].tiles@) by {
        assert(rest[i] == sections[i + 1]);
    }
    assert(tiles_fit(s.tiles@));
    lemma_check_tiles(s.tiles@, s.name@, columns, Seq::empty());
    lemma_clear_of_nothing(s.tiles@);
    if s.name@.len() == 0 || seen.contains(s.name@) || s.tiles@.len() == 0 || !tiles_valid(s.tiles@, columns) {
        return;
    }
    let seen2 = seen.insert(s.name@);
    lemma_check_sections(rest, columns, seen2);
    let whole = sections_valid(sections, columns) && forall|i: int|
        0 <= i < sections.len() ==> !seen.contains(#[trigger] sections[i].name@);
    let tail = sections_valid(rest, columns) && forall|i: int|
        0 <= i < rest.len() ==> !seen2.contains(#[trigger] rest[i].name@);
    if tail {
        assert forall|i: int| 0 <= i < sections.len() implies {
            let t = #[trigger] sections[i];
            &&& t.name@.len() > 0
            &&& t.tiles@.len() > 0
            &&& tiles_valid(t.tiles@, columns)
        } by {
            if i > 0 {
                assert(sections[i] == rest[i - 1]);
            }
        }
        assert forall|i: int, j: int|
            0 <= i < j < sections.len() implies #[trigger] sections[i].name@ != #[trigger] sections[j].name@ by {
            assert(sections[j] == rest[j - 1]);
            assert(!seen2.contains(rest[j - 1].name@));
            if i > 0 {
                assert(sections[i] == rest[i - 1]);
            }
        }
        assert forall|i: int| 0 <= i < sections.len() implies !seen.contains(#[trigger] sections[i].name@) by {
            if i > 0 {
                assert(sections[i] == rest[i - 1]);
                assert(!seen2.contains(rest[i - 1].name@));
            }
        }
        assert(whole);
    }
    if whole {
        assert forall|i: int| 0 <= i < rest.len() implies {
            let t = #[trigger] rest[i];
            &&& t.name@.len() > 0
            &&& t.tiles@.len() > 0
            &&& tiles_valid(t.tiles@, columns)
        } by {
            assert(rest[i] == sections[i + 1]);
        }
        assert forall|i: int, j: int|
            0 <= i < j < rest.len() implies #[trigger] rest[i].name@ != #[trigger] rest[j].name@ by {
            assert(rest[i] == sections[i + 1]);
            assert(rest[j] == sections[j + 1]);
        }
        assert forall|i: int| 0 <= i < rest.len() implies !seen2.contains(#[trigger] rest[i].name@) by {
            assert(rest[i] == sections[i + 1]);
            assert(sections[0].name@ != sections[i + 1].name@);
            assert(!seen.contains(sections[i + 1].name@));
        }
        assert(tail);
    }
}

/// A layout passes validation exactly when it follows the layout rules: the grid has columns;
/// there is at least one tile; every section has a non-empty name no other section has, and
/// tiles; and within a section (the flat tile list counting as one) every item tile names a
/// good, every tile has positive spans and fits the grid's width, and no two tiles share a
/// cell.
pub proof fn law_validation_follows_the_rules(l: LayoutConfig)
    requires
        l.coordinates_fit(),
    ensures
        (l.validation() is Ok) == layout_rules_hold(l),
{
    if l.columns == 0 {
        return;
    }
    if l.sections@.len() == 0 {
        if l.tiles@.len() > 0 {
            lemma_check_tiles(l.tiles@, "default"@, l.columns, Seq::empty());
            lemma_clear_of_nothing(l.tiles@);
        }
    } else {
        lemma_check_sections(l.sections@, l.columns, Set::empty());
    }
}

} // verus!
