//! When and how the checks extractor runs on the randomizer's regulation file. The host stats
//! the files, spawns the process and tracks whether one is running.

use vstd::prelude::*;
use crate::config::{join, join_path, table_path};
use crate::reload::FileStamp;
use crate::text::{chars_of, string_of};

verus! {

/// What identifies a version of the regulation file: its modification time and length.
#[derive(Debug, Clone, Copy, PartialEq, Eq, Structural)]
pub struct RegulationSig {
    pub modified: FileStamp,
    pub len: u64,
}

/// What to do about the regulation file on this tick.
#[derive(Debug, Clone, Copy, PartialEq, Eq, Structural)]
pub enum ExtractorStep {
    /// The same regulation was already handled, or a run is in flight.
    Skip,
    /// No extractor was found: remember the regulation so the warning is not repeated.
    MarkHandled,
    /// Run the extractor (and remember the regulation).
    Run,
}

pub open spec fn extractor_step_for(
    last: Option<RegulationSig>,
    sig: RegulationSig,
    running: bool,
    extractor_found: bool,
) -> ExtractorStep {
    if last == Some(sig) || running {
        ExtractorStep::Skip
    } else if !extractor_found {
        ExtractorStep::MarkHandled
    } else {
        ExtractorStep::Run
    }
}

/// A regulation file is handled once: after any tick that did not skip it, the same version of
/// the file is skipped on every later tick; a changed file is handled again once no run is in
/// flight.
pub proof fn law_regulation_handled_once(
    last: Option<RegulationSig>,
    sig: RegulationSig,
    other: RegulationSig,
    running: bool,
    running_later: bool,
    found: bool,
    found_later: bool,
)
    ensures
        extractor_step_for(last, sig, running, found) != ExtractorStep::Skip ==> extractor_step_for(
            Some(sig),
            sig,
            running_later,
            found_later,
        ) == ExtractorStep::Skip,
        other != sig ==> extractor_step_for(Some(sig), other, false, found_later) != ExtractorStep::Skip,
{
}

/// The decision, and the regulation remembered afterwards.
pub fn extractor_step(last: Option<RegulationSig>, sig: RegulationSig, running: bool, extractor_found: bool) -> (r:
    (ExtractorStep, Option<RegulationSig>))
    ensures
        r.0 == extractor_step_for(last, sig, running, extractor_found),
        r.1 == if r.0 == ExtractorStep::Skip {
            last
        } else {
            Some(sig)
        },
{
    let same = match last {
        Some(l) => l == sig,
        None => false,
    };
    if same || running {
        (ExtractorStep::Skip, last)
    } else if !extractor_found {
        (ExtractorStep::MarkHandled, Some(sig))
    } else {
        (ExtractorStep::Run, Some(sig))
    }
}

pub open spec fn strs(v: Seq<String>) -> Seq<Seq<char>> {
    v.map_values(|s: String| s@)
}

/// Where the extractor is looked for, in order: the configured path (absolute, or under
/// `base`) when one is set; else `companion/er_checks_extractor.exe`, then
/// `er_checks_extractor.exe`, under `base`.
pub open spec fn extractor_candidates_for(configured: Option<Seq<char>>, base: Seq<char>) -> Seq<Seq<char>> {
    match configured {
        Some(c) if c.len() > 0 => seq![join_path(base, c)],
        _ => seq![
            join_path(join_path(base, "companion"@), "er_checks_extractor.exe"@),
            join_path(base, "er_checks_extractor.exe"@),
        ],
    }
}

pub fn extractor_candidates(configured: Option<&str>, base: &str) -> (v: Vec<String>)
    ensures
        strs(v@) == extractor_candidates_for(
            match configured {
                Some(c) => Some(c@),
                None => None,
            },
            base@,
        ),
{
    let mut v: Vec<String> = Vec::new();
    if let Some(c) = configured {
        if chars_of(c).len() > 0 {
            v.push(join(base, c));
            assert(strs(v@) =~= seq![join_path(base@, c@)]);
            return v;
        }
    }
    let companion = join(base, "companion");
    v.push(join(companion.as_str(), "er_checks_extractor.exe"));
    v.push(join(base, "er_checks_extractor.exe"));
    assert(strs(v@) =~= seq![
        join_path(join_path(base@, "companion"@), "er_checks_extractor.exe"@),
        join_path(base@, "er_checks_extractor.exe"@),
    ]);
    v
}

/// The arguments of an extractor run: the regulation, the checks table (the language's own,
/// else the default language's), the output `lot_flags.toml` under `base`, the game directory
/// when known, `--goods` with a loose `tables/goods.toml` when one exists, and `--layout`
/// with the layout file when one is configured.
pub open spec fn extractor_args_for(
    base: Seq<char>,
    locale_id: Seq<char>,
    default_locale: Seq<char>,
    locale_table_exists: bool,
    regulation: Seq<char>,
    game_dir: Option<Seq<char>>,
    goods_exists: bool,
    layout: Option<Seq<char>>,
) -> Seq<Seq<char>> {
    let checks = if locale_table_exists {
        table_path(base, locale_id, "checks.toml"@)
    } else {
        table_path(base, default_locale, "checks.toml"@)
    };
    seq![regulation, checks, join_path(base, "lot_flags.toml"@)] + match game_dir {
        Some(d) => seq![d],
        None => Seq::empty(),
    } + if goods_exists {
        seq!["--goods"@, join_path(join_path(base, "tables"@), "goods.toml"@)]
    } else {
        Seq::empty()
    } + match layout {
        Some(l) => seq!["--layout"@, l],
        None => Seq::empty(),
    }
}

pub fn extractor_args(
    base: &str,
    locale_id: &str,
    default_locale: &str,
    locale_table_exists: bool,
    regulation: &str,
    game_dir: Option<&str>,
    goods_exists: bool,
    layout: Option<&str>,
) -> (args: Vec<String>)
    ensures
        strs(args@) == extractor_args_for(
            base@,
            locale_id@,
            default_locale@,
            locale_table_exists,
            regulation@,
            match game_dir {
                Some(d) => Some(d@),
                None => None,
            },
            goods_exists,
            match layout {
                Some(l) => Some(l@),
                None => None,
            },
        ),
{
    let mut args: Vec<String> = Vec::new();
    args.push(string_of(regulation));
    let checks = if locale_table_exists {
        crate::config::resolve_checks_table_path(base, locale_id)
    } else {
        crate::config::resolve_checks_table_path(base, default_locale)
    };
    args.push(checks);
    args.push(join(base, "lot_flags.toml"));
    let ghost head = strs(args@);
    if let Some(d) = game_dir {
        args.push(string_of(d));
    }
    let ghost with_dir = strs(args@);
    if goods_exists {
        let tables = join(base, "tables");
        args.push(string_of("--goods"));
        args.push(join(tables.as_str(), "goods.toml"));
    }
    let ghost with_goods = strs(args@);
    if let Some(l) = layout {
        args.push(string_of("--layout"));
        args.push(string_of(l));
    }
    proof {
        let g = match game_dir {
            Some(d) => seq![d@],
            None => Seq::<Seq<char>>::empty(),
        };
        assert(with_dir =~= head + g);
        let gd = if goods_exists {
            seq!["--goods"@, join_path(join_path(base@, "tables"@), "goods.toml"@)]
        } else {
            Seq::<Seq<char>>::empty()
        };
        assert(with_goods =~= head + g + gd);
        let ly = match layout {
            Some(l) => seq!["--layout"@, l@],
            None => Seq::<Seq<char>>::empty(),
        };
        assert(strs(args@) =~= head + g + gd + ly);
    }
    args
}

} // verus!
