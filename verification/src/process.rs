//! Finding the game process for the injector: decoding the UTF-16 names of a process
//! snapshot, matching the target executable, and spotting anti-cheat modules. The host takes
//! the snapshots and lists the modules.

use vstd::prelude::*;
use crate::boss_table::{to_lowercase, unicode_lowercase};
use crate::text::{chars_of, eq_ignore_ascii_case, eq_ignore_ascii_case_seq};

verus! {

/// The executable the injector looks for.
pub const TARGET_PROCESS: &'static str = "eldenring.exe";

/// A process found for injection.
pub struct ProcessInfo {
    pub pid: u32,
    pub image_name: String,
}

/// One entry of a process snapshot: its id and its NUL-padded UTF-16 executable name.
pub struct ProcessEntry {
    pub pid: u32,
    pub exe_file: Vec<u16>,
}

/// Lossy UTF-16 decoding: a unit outside the surrogate range is the character of that code, a
/// high surrogate followed by a low one is the supplementary character the pair encodes, and any
/// other surrogate becomes U+FFFD.
pub open spec fn utf16_lossy(units: Seq<u16>) -> Seq<char>
    decreases units.len(),
{
    if units.len() == 0 {
        Seq::empty()
    } else {
        let u = units[0];
        if u < 0xD800 || u >= 0xE000 {
            seq![u as char] + utf16_lossy(units.drop_first())
        } else if u < 0xDC00 && units.len() >= 2 && 0xDC00 <= units[1] && units[1] < 0xE000 {
            seq![(0x10000 + (u - 0xD800) * 0x400 + (units[1] - 0xDC00)) as char]
                + utf16_lossy(units.subrange(2, units.len() as int))
        } else {
            seq!['\u{FFFD}'] + utf16_lossy(units.drop_first())
        }
    }
}

/// No unit is a surrogate, so each unit is one character of the same code.
pub open spec fn no_surrogates(units: Seq<u16>) -> bool {
    forall|i: int| 0 <= i < units.len() ==> (#[trigger] units[i] < 0xD800 || units[i] >= 0xE000)
}

/// The characters of surrogate-free UTF-16 units.
pub open spec fn bmp_chars(units: Seq<u16>) -> Seq<char> {
    units.map_values(|u: u16| u as char)
}

/// Surrogate-free units decode one for one.
proof fn lemma_bmp_decoding(units: Seq<u16>)
    requires
        no_surrogates(units),
    ensures
        utf16_lossy(units) == bmp_chars(units),
    decreases units.len(),
{
    if units.len() > 0 {
        let rest = units.drop_first();
        assert(units[0] < 0xD800 || units[0] >= 0xE000);
        assert forall|i: int| 0 <= i < rest.len() implies (#[trigger] rest[i] < 0xD800
            || rest[i] >= 0xE000) by {
            assert(rest[i] == units[i + 1]);
        }
        lemma_bmp_decoding(rest);
        assert(bmp_chars(units) =~= seq![units[0] as char] + bmp_chars(rest));
    }
}

/// `String::from_utf16_lossy`: decodes UTF-16, replacing invalid data with U+FFFD. Claimed: the
/// result is the lossy decoding of the units, pair by pair, as [`utf16_lossy`] states it.
#[verifier::external_body]
fn from_utf16_lossy(units: &Vec<u16>) -> (s: String)
    ensures
        s@ == utf16_lossy(units@),
{
    String::from_utf16_lossy(units.as_slice())
}

/// Index of the first NUL unit, or the length when there is none.
pub open spec fn nul_position(units: Seq<u16>) -> nat
    decreases units.len(),
{
    if units.len() == 0 {
        0
    } else if units[0] == 0 {
        0
    } else {
        1 + nul_position(units.drop_first())
    }
}

/// The text of a NUL-terminated UTF-16 buffer.
pub open spec fn text_before_nul(units: Seq<u16>) -> Seq<char> {
    utf16_lossy(units.take(nul_position(units) as int))
}

proof fn lemma_nul_position(units: Seq<u16>, i: int)
    requires
        0 <= i <= units.len(),
        forall|k: int| 0 <= k < i ==> units[k] != 0,
        i == units.len() || units[i] == 0,
    ensures
        nul_position(units) == i,
    decreases i,
{
    if i > 0 {
        lemma_nul_position(units.drop_first(), i - 1);
    }
}

/// Decodes the units of `buf` before its first NUL (all of it when there is none).
pub fn utf16_until_nul(buf: &Vec<u16>) -> (s: String)
    ensures
        s@ == text_before_nul(buf@),
        no_surrogates(buf@) ==> s@ == bmp_chars(buf@.take(nul_position(buf@) as int)),
{
    let mut prefix: Vec<u16> = Vec::new();
    let mut i: usize = 0;
    while i < buf.len() && buf[i] != 0
        invariant
            i <= buf.len(),
            prefix@ == buf@.take(i as int),
            forall|k: int| 0 <= k < i ==> buf@[k] != 0,
        decreases buf.len() - i,
    {
        prefix.push(buf[i]);
        assert(buf@.take(i + 1) =~= buf@.take(i as int).push(buf@[i as int]));
        i += 1;
    }
    proof {
        lemma_nul_position(buf@, i as int);
        if no_surrogates(buf@) {
            assert forall|k: int| 0 <= k < prefix@.len() implies (#[trigger] prefix@[k] < 0xD800
                || prefix@[k] >= 0xE000) by {
                assert(prefix@[k] == buf@[k]);
            }
            lemma_bmp_decoding(prefix@);
        }
    }
    from_utf16_lossy(&prefix)
}

/// Whether a snapshot entry is the executable `name` (ASCII case aside).
pub open spec fn entry_matches(e: ProcessEntry, name: Seq<char>) -> bool {
    eq_ignore_ascii_case_seq(text_before_nul(e.exe_file@), unicode_lowercase(name))
}

/// The first snapshot entry whose executable is `name`, with its decoded name.
pub fn find_process_by_name(name: &str, snapshot: &Vec<ProcessEntry>) -> (r: Option<ProcessInfo>)
    ensures
        match r {
            Some(p) => exists|i: int|
                0 <= i < snapshot@.len() && entry_matches(#[trigger] snapshot@[i], name@) && p.pid
                    == snapshot@[i].pid && p.image_name@ == text_before_nul(snapshot@[i].exe_file@)
                    && forall|j: int| 0 <= j < i ==> !entry_matches(#[trigger] snapshot@[j], name@),
            None => forall|i: int| 0 <= i < snapshot@.len() ==> !entry_matches(#[trigger] snapshot@[i], name@),
        },
{
    let name_lower = to_lowercase(name);
    let lower_chars = chars_of(name_lower.as_str());
    let mut i: usize = 0;
    while i < snapshot.len()
        invariant
            i <= snapshot.len(),
            lower_chars@ == unicode_lowercase(name@),
            forall|j: int| 0 <= j < i ==> !entry_matches(#[trigger] snapshot@[j], name@),
        decreases snapshot.len() - i,
    {
        let entry = &snapshot[i];
        let exe = utf16_until_nul(&entry.exe_file);
        let exe_chars = chars_of(exe.as_str());
        if eq_ignore_ascii_case(&exe_chars, &lower_chars) {
            assert(entry_matches(snapshot@[i as int], name@));
            return Some(ProcessInfo { pid: entry.pid, image_name: exe });
        }
        i += 1;
    }
    None
}

/// Module names that betray Easy Anti-Cheat or its protected launcher.
pub open spec fn eac_hints() -> Seq<Seq<char>> {
    seq!["EasyAntiCheat_EOS.dll"@, "EasyAntiCheat.dll"@, "start_protected_game.exe"@]
}

/// Whether a module name is one of the hints (ASCII case aside).
pub open spec fn is_eac_module(m: Seq<char>) -> bool {
    exists|k: int| 0 <= k < eac_hints().len() && eq_ignore_ascii_case_seq(m, #[trigger] eac_hints()[k])
}

fn eac_module(m: &str) -> (b: bool)
    ensures
        b == is_eac_module(m@),
{
    let mc = chars_of(m);
    let a = chars_of("EasyAntiCheat_EOS.dll");
    let b = chars_of("EasyAntiCheat.dll");
    let c = chars_of("start_protected_game.exe");
    let hit = eq_ignore_ascii_case(&mc, &a) || eq_ignore_ascii_case(&mc, &b) || eq_ignore_ascii_case(
        &mc,
        &c,
    );
    proof {
        let h = eac_hints();
        assert(h[0] == a@ && h[1] == b@ && h[2] == c@);
        if hit {
            if eq_ignore_ascii_case_seq(mc@, a@) {
                assert(eq_ignore_ascii_case_seq(m@, h[0]));
            } else if eq_ignore_ascii_case_seq(mc@, b@) {
                assert(eq_ignore_ascii_case_seq(m@, h[1]));
            } else {
                assert(eq_ignore_ascii_case_seq(m@, h[2]));
            }
        } else {
            assert forall|k: int| 0 <= k < h.len() implies !eq_ignore_ascii_case_seq(m@, #[trigger] h[k]) by {
                assert(k == 0 || k == 1 || k == 2);
            }
        }
    }
    hit
}

pub open spec fn strs(v: Seq<String>) -> Seq<Seq<char>> {
    v.map_values(|s: String| s@)
}

/// The loaded modules that look like anti-cheat, in order.
pub fn eac_module_hits(modules: &Vec<String>) -> (hits: Vec<String>)
    ensures
        strs(hits@) == strs(modules@).filter(|m: Seq<char>| is_eac_module(m)),
{
    let mut hits: Vec<String> = Vec::new();
    let mut i: usize = 0;
    while i < modules.len()
        invariant
            i <= modules.len(),
            strs(hits@) == strs(modules@.take(i as int)).filter(|m: Seq<char>| is_eac_module(m)),
        decreases modules.len() - i,
    {
        let ghost before = hits@;
        let m = &modules[i];
        proof {
            assert(strs(modules@.take(i + 1)) =~= strs(modules@.take(i as int)).push(m@));
            assert(strs(modules@.take(i as int)).push(m@).drop_last() =~= strs(modules@.take(i as int)));
            reveal_with_fuel(Seq::filter, 1);
        }
        if eac_module(m.as_str()) {
            hits.push(m.clone());
            assert(strs(hits@) =~= strs(before).push(m@));
        }
        i += 1;
    }
    assert(modules@.take(modules.len() as int) =~= modules@);
    hits
}

} // verus!
