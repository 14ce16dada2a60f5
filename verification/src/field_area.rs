//! Where the player is: the map id that the game's field area holds, else the one the player's
//! block encodes, else the play region; and the address a `mov reg, [rip+disp32]` reads, which
//! is how the field area global is found.

use vstd::prelude::*;
use crate::reader::subregion_id_from_block_id;

verus! {

/// The player's map id from what could be read: the field area's map id when it is readable
/// and not zero; otherwise, with a player, the id its block encodes (`(area * 100 + block) *
/// 1000`) when it stands in a block, else its play region when that is not zero.
pub open spec fn map_id_from(field_area: Option<u32>, block: Option<(u8, u8)>, play_region: Option<u32>) -> Option<u32> {
    match field_area {
        Some(id) if id != 0 => Some(id),
        _ => match block {
            Some((area, b)) => Some(((area * 100 + b) * 1000) as u32),
            None => match play_region {
                Some(r) if r != 0 => Some(r),
                _ => None,
            },
        },
    }
}

/// The current map id. `field_area` is the map id read from the field area (`None` when the
/// global or the instance is missing); `block` the player's block (`None` without a player or
/// outside any block); `play_region` the player's play region (`None` without a player).
pub fn current_map_id(field_area: Option<u32>, block: Option<(u8, u8)>, play_region: Option<u32>) -> (r: Option<u32>)
    ensures
        r == map_id_from(field_area, block, play_region),
{
    if let Some(id) = field_area {
        if id != 0 {
            return Some(id);
        }
    }
    match block {
        Some((area, b)) => Some(subregion_id_from_block_id(area, b)),
        None => match play_region {
            Some(r) => if r != 0 {
                Some(r)
            } else {
                None
            },
            None => None,
        },
    }
}

/// The signed 32-bit displacement stored little-endian in `b`.
pub open spec fn le_i32(b: [u8; 4]) -> int {
    let u = b[0] + 256 * b[1] + 65536 * b[2] + 16777216 * b[3];
    if u >= 0x8000_0000 {
        u - 0x1_0000_0000
    } else {
        u
    }
}

/// The address read by the 7-byte instruction at `insn` whose displacement bytes are `disp`:
/// the end of the instruction plus the signed displacement, modulo 2^64.
pub fn rip_relative_target(insn: u64, disp: [u8; 4]) -> (t: u64)
    ensures
        t as int == (insn + 7 + le_i32(disp)) % 0x1_0000_0000_0000_0000,
{
    let b0 = disp[0];
    let b1 = disp[1];
    let b2 = disp[2];
    let b3 = disp[3];
    let u: u64 = b0 as u64 + (b1 as u64) * 256 + (b2 as u64) * 65536 + (b3 as u64) * 16777216;
    let d: i64 = if u >= 0x8000_0000 {
        u as i64 - 0x1_0000_0000
    } else {
        u as i64
    };
    assert(d == le_i32(disp));
    let end = insn.wrapping_add(7);
    let t = end.wrapping_add_signed(d);
    assert(t as int == (insn + 7 + d) % 0x1_0000_0000_0000_0000);
    t
}

} // verus!
