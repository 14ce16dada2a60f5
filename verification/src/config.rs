//! Configuration enums and the path rules for files that live next to the overlay.

use vstd::prelude::*;
use crate::text::{
    ascii_lower_seq, chars_of, eq_str, string_from_chars, to_ascii_lower, trim_chars, trim_seq, trim_str,
};

verus! {

broadcast use vstd::string::group_string_axioms;

/// Which bosses (or checks) a checklist panel lists.
#[derive(Debug, Clone, Copy, PartialEq, Eq, Structural)]
pub enum BossPanelScope {
    /// Only the player's current region.
    CurrentRegion,
    /// Every region, grouped.
    AllRegions,
}

impl Default for BossPanelScope {
    fn default() -> (s: Self)
        ensures
            s == BossPanelScope::CurrentRegion,
    {
        BossPanelScope::CurrentRegion
    }
}

/// Lenient reading of a scope: `all`, `all-regions`, `all_regions` or `allregions` (any case,
/// surrounding whitespace ignored) mean all regions; anything else is the current region.
pub open spec fn scope_from_text(raw: Seq<char>) -> BossPanelScope {
    let l = ascii_lower_seq(trim_seq(raw));
    if l == "all"@ || l == "all-regions"@ || l == "all_regions"@ || l == "allregions"@ {
        BossPanelScope::AllRegions
    } else {
        BossPanelScope::CurrentRegion
    }
}

impl BossPanelScope {
    pub fn parse_loose(raw: &str) -> (s: Self)
        ensures
            s == scope_from_text(raw@),
    {
        let v = chars_of(raw);
        let t = trim_chars(&v);
        let l = to_ascii_lower(&t);
        if eq_str(&l, "all") || eq_str(&l, "all-regions") || eq_str(&l, "all_regions") || eq_str(
            &l,
            "allregions",
        ) {
            BossPanelScope::AllRegions
        } else {
            BossPanelScope::CurrentRegion
        }
    }
}

/// Screen corner the HUD is anchored to.
#[derive(Debug, Clone, Copy, PartialEq, Eq, Structural)]
pub enum Anchor {
    TopLeft,
    TopRight,
    BottomLeft,
    BottomRight,
}

impl Default for Anchor {
    fn default() -> (a: Self)
        ensures
            a == Anchor::TopRight,
    {
        Anchor::TopRight
    }
}

pub open spec fn is_separator(c: char) -> bool {
    c == '/' || c == '\\'
}

/// An absolute Windows path: a drive letter, `:` and a separator (`C:\x`, `C:/x`), or a UNC
/// path starting with two separators.
pub open spec fn is_absolute_path(p: Seq<char>) -> bool {
    ||| (p.len() >= 3 && (('a' <= p[0] && p[0] <= 'z') || ('A' <= p[0] && p[0] <= 'Z')) && p[1]
        == ':' && is_separator(p[2]))
    ||| (p.len() >= 2 && is_separator(p[0]) && is_separator(p[1]))
}

/// A drive prefix: an ASCII letter and `:` (`C:`).
pub open spec fn has_drive(p: Seq<char>) -> bool {
    p.len() >= 2 && (('a' <= p[0] && p[0] <= 'z') || ('A' <= p[0] && p[0] <= 'Z')) && p[1] == ':'
}

/// Index of the first separator at or after `i` (the length when there is none).
pub open spec fn sep_index_from(p: Seq<char>, i: int) -> int
    decreases p.len() - i,
{
    if i >= p.len() {
        p.len() as int
    } else if is_separator(p[i]) {
        i
    } else {
        sep_index_from(p, i + 1)
    }
}

/// Length of a path's prefix: `C:` for a drive, `\\server\share` for a UNC path, none otherwise.
pub open spec fn prefix_len(p: Seq<char>) -> int {
    if has_drive(p) {
        2
    } else if p.len() >= 2 && is_separator(p[0]) && is_separator(p[1]) {
        let s = sep_index_from(p, 2);
        if s >= p.len() {
            p.len() as int
        } else {
            sep_index_from(p, s + 1)
        }
    } else {
        0
    }
}

/// `base.join(rel)` as Windows paths join: an absolute `rel`, or one with a drive but no root
/// (`C:foo`), replaces `base`; a rooted `rel` without a prefix (`\foo`) keeps only the prefix
/// of `base` (`C:\base` and `\foo` give `C:\foo`); otherwise `rel` is appended after a `/`
/// separator, none being added when `base` is empty, ends with a separator or is a bare drive.
pub open spec fn join_path(base: Seq<char>, rel: Seq<char>) -> Seq<char> {
    if is_absolute_path(rel) || has_drive(rel) {
        rel
    } else if rel.len() > 0 && is_separator(rel[0]) {
        base.take(prefix_len(base)) + rel
    } else if base.len() == 0 || is_separator(base.last()) || (has_drive(base) && base.len() == 2) {
        base + rel
    } else {
        base + seq!['/'] + rel
    }
}

fn is_sep(c: char) -> (b: bool)
    ensures
        b == is_separator(c),
{
    c == '/' || c == '\\'
}

pub fn path_is_absolute(p: &Vec<char>) -> (b: bool)
    ensures
        b == is_absolute_path(p@),
{
    (p.len() >= 3 && (('a' <= p[0] && p[0] <= 'z') || ('A' <= p[0] && p[0] <= 'Z')) && p[1] == ':'
        && is_sep(p[2])) || (p.len() >= 2 && is_sep(p[0]) && is_sep(p[1]))
}

fn path_has_drive(p: &Vec<char>) -> (b: bool)
    ensures
        b == has_drive(p@),
{
    p.len() >= 2 && (('a' <= p[0] && p[0] <= 'z') || ('A' <= p[0] && p[0] <= 'Z')) && p[1] == ':'
}

fn sep_index(p: &Vec<char>, i: usize) -> (r: usize)
    requires
        i <= p.len(),
    ensures
        r as int == sep_index_from(p@, i as int),
        i <= r <= p.len(),
{
    let mut j = i;
    while j < p.len()
        invariant
            i <= j <= p.len(),
            sep_index_from(p@, i as int) == sep_index_from(p@, j as int),
        decreases p.len() - j,
    {
        if is_sep(p[j]) {
            return j;
        }
        j += 1;
    }
    j
}

fn path_prefix_len(p: &Vec<char>) -> (r: usize)
    ensures
        r as int == prefix_len(p@),
        r <= p.len(),
{
    if path_has_drive(p) {
        2
    } else if p.len() >= 2 && is_sep(p[0]) && is_sep(p[1]) {
        let s = sep_index(p, 2);
        if s >= p.len() {
            p.len()
        } else {
            sep_index(p, s + 1)
        }
    } else {
        0
    }
}

fn join_chars(base: &Vec<char>, rel: &Vec<char>) -> (r: Vec<char>)
    ensures
        r@ == join_path(base@, rel@),
{
    if path_is_absolute(rel) || path_has_drive(rel) {
        return rel.clone();
    }
    if rel.len() > 0 && is_sep(rel[0]) {
        let n = path_prefix_len(base);
        let mut r: Vec<char> = Vec::new();
        let mut i: usize = 0;
        while i < n
            invariant
                n <= base.len(),
                i <= n,
                r@ == base@.take(i as int),
            decreases n - i,
        {
            r.push(base[i]);
            assert(base@.take(i + 1) =~= base@.take(i as int).push(base@[i as int]));
            i += 1;
        }
        let mut tail = rel.clone();
        r.append(&mut tail);
        return r;
    }
    let mut r = base.clone();
    if !(base.len() == 0 || is_sep(base[base.len() - 1]) || (path_has_drive(base) && base.len() == 2)) {
        r.push('/');
    }
    let mut tail = rel.clone();
    r.append(&mut tail);
    r
}

/// Joins two path strings (see [`join_path`]).
pub fn join(base: &str, rel: &str) -> (p: String)
    ensures
        p@ == join_path(base@, rel@),
{
    let b = chars_of(base);
    let r = chars_of(rel);
    let j = join_chars(&b, &r);
    string_from_chars(&j)
}

/// `er_overlay.toml` in the overlay directory.
pub fn default_config_path(base_dir: &str) -> (p: String)
    ensures
        p@ == join_path(base_dir@, "er_overlay.toml"@),
{
    join(base_dir, "er_overlay.toml")
}

/// `assets/icons` in the overlay directory.
pub fn default_icons_dir(base_dir: &str) -> (p: String)
    ensures
        p@ == join_path(base_dir@, "assets/icons"@),
{
    join(base_dir, "assets/icons")
}

/// `logs` in the overlay directory.
pub fn log_directory(base_dir: &str) -> (p: String)
    ensures
        p@ == join_path(base_dir@, "logs"@),
{
    join(base_dir, "logs")
}

/// `challenge_state.toml` in the overlay directory.
pub fn default_challenge_state_path(base_dir: &str) -> (p: String)
    ensures
        p@ == join_path(base_dir@, "challenge_state.toml"@),
{
    join(base_dir, "challenge_state.toml")
}

/// A configured path: absolute as given, relative to `base`; without one, the default icon
/// directory under `base_dir`.
pub fn resolve_configured_path(configured: Option<&str>, base: &str, base_dir: &str) -> (p: String)
    ensures
        p@ == match configured {
            Some(c) => join_path(base@, c@),
            None => join_path(base_dir@, "assets/icons"@),
        },
{
    match configured {
        Some(c) => join(base, c),
        None => default_icons_dir(base_dir),
    }
}

/// Where the configured layout file is looked for (the caller checks that it exists).
pub fn resolve_layout_path(base_dir: &str, configured: Option<&str>) -> (p: Option<String>)
    ensures
        match configured {
            Some(c) => p matches Some(s) && s@ == join_path(base_dir@, c@),
            None => p is None,
        },
{
    match configured {
        Some(c) => Some(join(base_dir, c)),
        None => None,
    }
}

/// `tables/<locale>/<file>` under `base`.
pub open spec fn table_path(base: Seq<char>, locale_id: Seq<char>, file: Seq<char>) -> Seq<char> {
    join_path(join_path(join_path(base, "tables"@), locale_id), file)
}

/// `tables/<locale>/bosses.toml` under `base`.
pub fn resolve_boss_table_path(base: &str, locale_id: &str) -> (p: String)
    ensures
        p@ == table_path(base@, locale_id@, "bosses.toml"@),
{
    let t = join(base, "tables");
    let l = join(t.as_str(), locale_id);
    join(l.as_str(), "bosses.toml")
}

/// `tables/<locale>/checks.toml` under `base`.
pub fn resolve_checks_table_path(base: &str, locale_id: &str) -> (p: String)
    ensures
        p@ == table_path(base@, locale_id@, "checks.toml"@),
{
    let t = join(base, "tables");
    let l = join(t.as_str(), locale_id);
    join(l.as_str(), "checks.toml")
}

/// `<path>.new`: where the release copy of a preserved user file is written.
pub fn append_new_suffix(path: &str) -> (p: String)
    ensures
        p@ == path@ + ".new"@,
{
    let mut v = chars_of(path);
    let mut s = chars_of(".new");
    v.append(&mut s);
    string_from_chars(&v)
}

/// A boolean flag given as text (an environment variable): set unless empty, `0` or `false`
/// (any ASCII case), surrounding whitespace aside.
pub open spec fn flag_text_on(v: Seq<char>) -> bool {
    let t = trim_seq(v);
    t.len() > 0 && t != "0"@ && !crate::text::eq_ignore_ascii_case_seq(t, "false"@)
}

pub fn flag_text_enabled(v: &str) -> (b: bool)
    ensures
        b == flag_text_on(v@),
{
    let t = trim_str(v);
    let f = chars_of("false");
    t.len() > 0 && !eq_str(&t, "0") && !crate::text::eq_ignore_ascii_case(&t, &f)
}

} // verus!
