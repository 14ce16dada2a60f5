//! Rules of the injector's self-update: how release notes are cleaned for the console, which
//! release asset is the overlay archive, how the prompt's answer is read, and what happens to
//! each file of a new release. The host talks to the network and the file system.

use vstd::prelude::*;
use crate::text::{
    ascii_lower_seq, chars_of, contains_chars, contains_seq, eq_ignore_ascii_case,
    eq_ignore_ascii_case_seq, eq_str, slice_chars, split_chars, split_seq, string_from_chars, string_of,
    to_ascii_lower, trim_chars, trim_end_chars, trim_end_seq, trim_seq, trim_start_chars,
    trim_start_seq, views,
};

verus! {

/// How an update check ended.
#[derive(Debug, Clone, Copy, PartialEq, Eq, Structural)]
pub enum UpdateOutcome {
    /// Already on the latest version (or newer).
    UpToDate,
    /// A newer version exists but the user declined.
    Declined,
    /// Files were replaced; the caller must relaunch the (new) executable.
    Updated,
}

/// `s` without its leading characters equal to `a` or `b`.
pub open spec fn strip_start(s: Seq<char>, a: char, b: char) -> Seq<char>
    decreases s.len(),
{
    if s.len() > 0 && (s[0] == a || s[0] == b) {
        strip_start(s.drop_first(), a, b)
    } else {
        s
    }
}

proof fn lemma_strip_start_skip(s: Seq<char>, a: char, b: char, i: int)
    requires
        0 <= i < s.len(),
        s[i] == a || s[i] == b,
    ensures
        strip_start(s.skip(i), a, b) == strip_start(s.skip(i + 1), a, b),
{
    assert(s.skip(i).drop_first() =~= s.skip(i + 1));
}

fn strip_start_chars(v: &Vec<char>, a: char, b: char) -> (r: Vec<char>)
    ensures
        r@ == strip_start(v@, a, b),
{
    let mut i: usize = 0;
    assert(v@.skip(0) =~= v@);
    while i < v.len() && (v[i] == a || v[i] == b)
        invariant
            i <= v.len(),
            strip_start(v@, a, b) == strip_start(v@.skip(i as int), a, b),
        decreases v.len() - i,
    {
        proof {
            lemma_strip_start_skip(v@, a, b, i as int);
        }
        i += 1;
    }
    let r = slice_chars(v, i, v.len());
    assert(r@ =~= v@.skip(i as int));
    r
}

/// A release-notes line made readable on a console: headings lose their `#` marks, bullets
/// (`*` or `-`) are written `- text`, and a line that would become empty is kept as it is.
pub open spec fn clean_note(line: Seq<char>) -> Seq<char> {
    let trimmed = trim_start_seq(line);
    let cleaned = trim_start_seq(strip_start(trim_start_seq(strip_start(trimmed, '#', '#')), '*', '-'));
    if cleaned.len() == 0 {
        trimmed
    } else if trimmed.len() > 0 && trimmed[0] == '#' {
        cleaned
    } else if trimmed.len() > 0 && (trimmed[0] == '*' || trimmed[0] == '-') {
        seq!['-', ' '] + cleaned
    } else {
        trimmed
    }
}

/// A line (trailing whitespace removed) is kept unless it is blank or a "Full Changelog" link.
pub open spec fn note_kept(line: Seq<char>) -> bool {
    trim_seq(line).len() > 0 && !contains_seq(line, "Full Changelog"@)
}

/// The cleaned kept lines, in order.
pub open spec fn notes_of(lines: Seq<Seq<char>>) -> Seq<Seq<char>>
    decreases lines.len(),
{
    if lines.len() == 0 {
        Seq::empty()
    } else {
        let rest = notes_of(lines.drop_last());
        let l = trim_end_seq(lines.last());
        if note_kept(l) {
            rest.push(clean_note(l))
        } else {
            rest
        }
    }
}

/// The release notes of a body, line by line (a line ends at `\n`; a `\r` before it is
/// trailing whitespace and goes with it).
pub open spec fn changelog_notes(body: Seq<char>) -> Seq<Seq<char>> {
    notes_of(split_seq(body, '\n'))
}

fn clean_note_chars(line: &Vec<char>) -> (r: Vec<char>)
    ensures
        r@ == clean_note(line@),
{
    let trimmed = trim_start_chars(line);
    let no_hash = strip_start_chars(&trimmed, '#', '#');
    let t1 = trim_start_chars(&no_hash);
    let no_bullet = strip_start_chars(&t1, '*', '-');
    let cleaned = trim_start_chars(&no_bullet);
    if cleaned.len() == 0 {
        trimmed
    } else if trimmed.len() > 0 && trimmed[0] == '#' {
        cleaned
    } else if trimmed.len() > 0 && (trimmed[0] == '*' || trimmed[0] == '-') {
        let mut r: Vec<char> = Vec::new();
        r.push('-');
        r.push(' ');
        let mut c = cleaned;
        r.append(&mut c);
        assert(r@ =~= seq!['-', ' '] + cleaned@);
        r
    } else {
        trimmed
    }
}

pub open spec fn strs(v: Seq<String>) -> Seq<Seq<char>> {
    v.map_values(|s: String| s@)
}

/// The console lines of a release body.
pub fn changelog_lines(body: &str) -> (lines: Vec<String>)
    ensures
        strs(lines@) == changelog_notes(body@),
{
    let chars = chars_of(body);
    let pieces = split_chars(&chars, '\n');
    let full = chars_of("Full Changelog");
    let mut out: Vec<String> = Vec::new();
    let mut i: usize = 0;
    while i < pieces.len()
        invariant
            i <= pieces.len(),
            views(pieces@) == split_seq(body@, '\n'),
            full@ == "Full Changelog"@,
            strs(out@) == notes_of(views(pieces@).take(i as int)),
        decreases pieces.len() - i,
    {
        let l = trim_end_chars(&pieces[i]);
        let t = trim_chars(&l);
        proof {
            assert(views(pieces@).take(i + 1).drop_last() =~= views(pieces@).take(i as int));
            assert(views(pieces@).take(i + 1).last() == pieces@[i as int]@);
            assert(trim_seq(l@) == trim_end_seq(trim_start_seq(l@)));
        }
        if t.len() > 0 && !contains_chars(&l, &full) {
            let c = clean_note_chars(&l);
            let ghost before = out@;
            out.push(string_from_chars(&c));
            assert(strs(out@) =~= strs(before).push(c@));
        }
        i += 1;
    }
    assert(views(pieces@).take(pieces.len() as int) =~= views(pieces@));
    out
}

/// A "yes" to the update prompt: empty (the default), `y`, `yes`, `o` or `oui`, whatever the
/// ASCII case and surrounding whitespace.
pub open spec fn is_yes(answer: Seq<char>) -> bool {
    let a = ascii_lower_seq(trim_seq(answer));
    a.len() == 0 || a == "y"@ || a == "yes"@ || a == "o"@ || a == "oui"@
}

pub fn answer_is_yes(line: &str) -> (b: bool)
    ensures
        b == is_yes(line@),
{
    let t = trim_chars(&chars_of(line));
    let a = to_ascii_lower(&t);
    a.len() == 0 || eq_str(&a, "y") || eq_str(&a, "yes") || eq_str(&a, "o") || eq_str(&a, "oui")
}

pub open spec fn has_prefix(s: Seq<char>, p: Seq<char>) -> bool {
    p.len() <= s.len() && s.take(p.len() as int) == p
}

pub open spec fn has_suffix(s: Seq<char>, p: Seq<char>) -> bool {
    p.len() <= s.len() && s.skip(s.len() - p.len()) == p
}

fn starts_with(s: &Vec<char>, p: &str) -> (b: bool)
    ensures
        b == has_prefix(s@, p@),
{
    let pc = chars_of(p);
    if pc.len() > s.len() {
        return false;
    }
    let head = slice_chars(s, 0, pc.len());
    assert(head@ =~= s@.take(pc.len() as int));
    eq_str(&head, p)
}

fn ends_with(s: &Vec<char>, p: &str) -> (b: bool)
    ensures
        b == has_suffix(s@, p@),
{
    let pc = chars_of(p);
    if pc.len() > s.len() {
        return false;
    }
    let tail = slice_chars(s, s.len() - pc.len(), s.len());
    assert(tail@ =~= s@.skip(s.len() - pc.len()));
    eq_str(&tail, p)
}

/// Whether a release asset is the overlay archive (`er-overlay-*.zip`).
pub open spec fn is_overlay_archive(name: Seq<char>) -> bool {
    has_prefix(name, "er-overlay-"@) && has_suffix(name, ".zip"@)
}

/// Index of the first overlay archive among a release's asset names.
pub fn release_asset_index(names: &Vec<String>) -> (r: Option<usize>)
    ensures
        match r {
            Some(i) => i < names@.len() && is_overlay_archive(names@[i as int]@) && forall|j: int|
                0 <= j < i ==> !is_overlay_archive(#[trigger] names@[j]@),
            None => forall|j: int| 0 <= j < names@.len() ==> !is_overlay_archive(#[trigger] names@[j]@),
        },
{
    let mut i: usize = 0;
    while i < names.len()
        invariant
            i <= names.len(),
            forall|j: int| 0 <= j < i ==> !is_overlay_archive(#[trigger] names@[j]@),
        decreases names.len() - i,
    {
        let n = chars_of(names[i].as_str());
        if starts_with(&n, "er-overlay-") && ends_with(&n, ".zip") {
            return Some(i);
        }
        i += 1;
    }
    None
}

/// What an update does with one file of the new release.
#[derive(Debug, Clone, Copy, PartialEq, Eq, Structural)]
pub enum FileAction {
    /// The running executable: replaced separately, last.
    SkipRunningExe,
    /// A user config that already exists: kept, the release copy goes beside it as `.new`.
    KeepAndWriteNew,
    /// Anything else: copied over.
    Copy,
}

/// `\` separators written as `/`.
pub open spec fn slashed(p: Seq<char>) -> Seq<char> {
    p.map_values(|c: char| if c == '\\' { '/' } else { c })
}

/// Config files owned by the user: never overwritten on update.
pub open spec fn is_preserved_config(rel: Seq<char>) -> bool {
    eq_ignore_ascii_case_seq(rel, "er_overlay.toml"@) || eq_ignore_ascii_case_seq(rel, "layouts/dashboard.toml"@)
}

/// The action for the release file at relative path `rel` (either separator), given the
/// running executable's file name and whether the destination exists.
pub open spec fn file_action_for(rel: Seq<char>, exe_name: Seq<char>, dest_exists: bool) -> FileAction {
    let r = slashed(rel);
    if eq_ignore_ascii_case_seq(r, exe_name) {
        FileAction::SkipRunningExe
    } else if is_preserved_config(r) && dest_exists {
        FileAction::KeepAndWriteNew
    } else {
        FileAction::Copy
    }
}

pub fn file_action(rel: &str, exe_name: &str, dest_exists: bool) -> (a: FileAction)
    ensures
        a == file_action_for(rel@, exe_name@, dest_exists),
{
    let raw = chars_of(rel);
    let mut r: Vec<char> = Vec::new();
    let mut i: usize = 0;
    while i < raw.len()
        invariant
            i <= raw.len(),
            r@ == slashed(raw@.take(i as int)),
        decreases raw.len() - i,
    {
        let c = raw[i];
        r.push(if c == '\\' { '/' } else { c });
        assert(slashed(raw@.take(i + 1)) =~= slashed(raw@.take(i as int)).push(
            if c == '\\' { '/' } else { c },
        ));
        i += 1;
    }
    assert(raw@.take(raw.len() as int) =~= raw@);
    let exe = chars_of(exe_name);
    if eq_ignore_ascii_case(&r, &exe) {
        return FileAction::SkipRunningExe;
    }
    let c1 = chars_of("er_overlay.toml");
    let c2 = chars_of("layouts/dashboard.toml");
    let preserved = eq_ignore_ascii_case(&r, &c1) || eq_ignore_ascii_case(&r, &c2);
    if preserved && dest_exists {
        FileAction::KeepAndWriteNew
    } else {
        FileAction::Copy
    }
}

/// Release notes of one version newer than the installed one: its version text and body.
pub struct ReleaseNotes {
    pub version: String,
    pub body: String,
}

/// Soft cap on changelog lines printed to the console before truncation.
pub const CHANGELOG_MAX_LINES: usize = 40;

/// The changelog being written: its lines, the line budget left, and whether notes were cut.
pub ghost struct Report {
    pub lines: Seq<Seq<char>>,
    pub left: nat,
    pub truncated: bool,
}

pub open spec fn sat_sub(a: nat, b: nat) -> nat {
    if a >= b {
        (a - b) as nat
    } else {
        0
    }
}

/// Writes notes (indented) while the budget lasts; notes left over mark the report cut.
pub open spec fn emit_notes(r: Report, notes: Seq<Seq<char>>) -> Report
    decreases notes.len(),
{
    if notes.len() == 0 {
        r
    } else if r.left == 0 {
        Report { truncated: true, ..r }
    } else {
        emit_notes(
            Report { lines: r.lines.push("  "@ + notes[0]), left: (r.left - 1) as nat, ..r },
            notes.drop_first(),
        )
    }
}

/// One release: a `--- vX ---` heading (after a blank line) when several releases are listed,
/// then its notes, or a note that it has none.
pub open spec fn emit_release(r: Report, version: Seq<char>, body: Seq<char>, multi: bool) -> Report {
    let r1 = if multi {
        Report {
            lines: r.lines + seq![Seq::<char>::empty(), "--- v"@ + version + " ---"@],
            left: sat_sub(r.left, 2),
            ..r
        }
    } else {
        r
    };
    let notes = changelog_notes(body);
    if notes.len() == 0 {
        Report { lines: r1.lines.push("  (no release notes)"@), left: sat_sub(r1.left, 1), ..r1 }
    } else {
        emit_notes(r1, notes)
    }
}

/// The releases in order, until the budget is spent (a release left over marks the report cut).
pub open spec fn emit_releases(r: Report, releases: Seq<(Seq<char>, Seq<char>)>, multi: bool) -> Report
    decreases releases.len(),
{
    if releases.len() == 0 {
        r
    } else if r.left == 0 {
        Report { truncated: true, ..r }
    } else {
        emit_releases(emit_release(r, releases[0].0, releases[0].1, multi), releases.drop_first(), multi)
    }
}

pub open spec fn releases_view(v: Seq<ReleaseNotes>) -> Seq<(Seq<char>, Seq<char>)> {
    v.map_values(|n: ReleaseNotes| (n.version@, n.body@))
}

/// The console changelog between the installed version `current` and `latest`: a blank line,
/// a heading, the releases within a budget of lines, `…` when cut, and the compare link.
pub open spec fn changelog_report_text(
    current: Seq<char>,
    latest: Seq<char>,
    releases: Seq<(Seq<char>, Seq<char>)>,
) -> Seq<Seq<char>> {
    let header = if releases.len() == 1 {
        "What's new in v"@ + latest + ":"@
    } else {
        "What's new since v"@ + current + ":"@
    };
    let r = emit_releases(
        Report { lines: seq![Seq::<char>::empty(), header], left: CHANGELOG_MAX_LINES as nat, truncated: false },
        releases,
        releases.len() > 1,
    );
    r.lines + (if r.truncated {
        seq!["  …"@]
    } else {
        Seq::empty()
    }) + seq![
        "  Full changelog: https://github.com/Sully-/ER_DynamicOverlay/compare/v"@ + current + "...v"@
            + latest,
    ]
}

fn text_of(parts: &Vec<&str>) -> (s: String)
    ensures
        s@ == parts@.fold_left(Seq::<char>::empty(), |acc: Seq<char>, p: &str| acc + p@),
{
    let mut v: Vec<char> = Vec::new();
    let mut i: usize = 0;
    while i < parts.len()
        invariant
            i <= parts.len(),
            v@ == parts@.take(i as int).fold_left(Seq::<char>::empty(), |acc: Seq<char>, p: &str| acc + p@),
        decreases parts.len() - i,
    {
        let mut c = chars_of(parts[i]);
        v.append(&mut c);
        assert(parts@.take(i + 1).drop_last() =~= parts@.take(i as int));
        i += 1;
    }
    assert(parts@.take(parts.len() as int) =~= parts@);
    string_from_chars(&v)
}

fn indented(a: &str) -> (s: String)
    ensures
        s@ == "  "@ + a@,
{
    let mut v = chars_of("  ");
    let mut w = chars_of(a);
    v.append(&mut w);
    string_from_chars(&v)
}

fn concat3(a: &str, b: &str, c: &str) -> (s: String)
    ensures
        s@ == a@ + b@ + c@,
{
    let mut v = chars_of(a);
    let mut w = chars_of(b);
    let mut x = chars_of(c);
    v.append(&mut w);
    v.append(&mut x);
    string_from_chars(&v)
}

proof fn lemma_spent_budget_stops(r: Report, rest: Seq<(Seq<char>, Seq<char>)>, multi: bool)
    requires
        r.left == 0,
        r.truncated,
    ensures
        emit_releases(r, rest, multi) == r,
{
}

/// The changelog lines to print before offering an update (see [`changelog_report_text`]).
pub fn changelog_report(current: &str, latest: &str, releases: &Vec<ReleaseNotes>) -> (lines: Vec<String>)
    ensures
        strs(lines@) == changelog_report_text(current@, latest@, releases_view(releases@)),
{
    let ghost all = releases_view(releases@);
    let multi = releases.len() > 1;
    let mut lines: Vec<String> = Vec::new();
    lines.push(String::new());
    let header = if releases.len() == 1 {
        concat3("What's new in v", latest, ":")
    } else {
        concat3("What's new since v", current, ":")
    };
    lines.push(header);
    assert(strs(lines@) =~= seq![Seq::<char>::empty(), header@]);
    let ghost init = Report { lines: strs(lines@), left: CHANGELOG_MAX_LINES as nat, truncated: false };
    let mut left: usize = CHANGELOG_MAX_LINES;
    let mut truncated = false;
    let mut i: usize = 0;
    assert(all.skip(0) =~= all);
    while i < releases.len() && !truncated
        invariant
            i <= releases.len(),
            all == releases_view(releases@),
            multi == (releases@.len() > 1),
            !truncated ==> emit_releases(init, all, multi) == emit_releases(
                Report { lines: strs(lines@), left: left as nat, truncated: false },
                all.skip(i as int),
                multi,
            ),
            truncated ==> emit_releases(init, all, multi) == (Report {
                lines: strs(lines@),
                left: left as nat,
                truncated: true,
            }),
        decreases releases.len() - i + if truncated {
            0int
        } else {
            1int
        },
    {
        assert(all.skip(i as int).drop_first() =~= all.skip(i + 1));
        assert(all.skip(i as int)[0] == (releases@[i as int].version@, releases@[i as int].body@));
        if left == 0 {
            truncated = true;
        } else {
            let rel = &releases[i];
            let ghost r0 = Report { lines: strs(lines@), left: left as nat, truncated: false };
            if multi {
                let ghost b0 = lines@;
                lines.push(String::new());
                lines.push(concat3("--- v", rel.version.as_str(), " ---"));
                assert(strs(lines@) =~= strs(b0) + seq![Seq::<char>::empty(), "--- v"@ + rel.version@ + " ---"@]);
                left = if left >= 2 {
                    left - 2
                } else {
                    0
                };
            }
            let ghost r1 = Report { lines: strs(lines@), left: left as nat, truncated: false };
            let notes = changelog_lines(rel.body.as_str());
            let ghost nv = strs(notes@);
            if notes.len() == 0 {
                let ghost b1 = lines@;
                lines.push(string_of("  (no release notes)"));
                assert(strs(lines@) =~= strs(b1).push("  (no release notes)"@));
                left = if left >= 1 {
                    left - 1
                } else {
                    0
                };
            } else {
                let mut k: usize = 0;
                assert(nv.skip(0) =~= nv);
                while k < notes.len() && left > 0
                    invariant
                        k <= notes.len(),
                        nv == strs(notes@),
                        emit_notes(r1, nv) == emit_notes(
                            Report { lines: strs(lines@), left: left as nat, truncated: false },
                            nv.skip(k as int),
                        ),
                    decreases notes.len() - k,
                {
                    assert(nv.skip(k as int).drop_first() =~= nv.skip(k + 1));
                    let ghost before = lines@;
                    lines.push(indented(notes[k].as_str()));
                    assert(strs(lines@) =~= strs(before).push("  "@ + nv[k as int]));
                    left = left - 1;
                    k += 1;
                }
                if k < notes.len() {
                    truncated = true;
                } else {
                    assert(nv.skip(k as int) =~= Seq::<Seq<char>>::empty());
                }
            }
            proof {
                let after = Report { lines: strs(lines@), left: left as nat, truncated };
                assert(emit_release(r0, all.skip(i as int)[0].0, all.skip(i as int)[0].1, multi) == after);
                if truncated {
                    lemma_spent_budget_stops(after, all.skip(i + 1), multi);
                }
            }
            i += 1;
        }
    }
    proof {
        if !truncated {
            assert(all.skip(i as int) =~= Seq::<(Seq<char>, Seq<char>)>::empty());
        }
    }
    let ghost fin = emit_releases(init, all, multi);
    assert(strs(lines@) == fin.lines && truncated == fin.truncated);
    let ghost body = lines@;
    if truncated {
        lines.push(string_of("  …"));
    }
    let link = text_of(
        &vec![
            "  Full changelog: https://github.com/Sully-/ER_DynamicOverlay/compare/v",
            current,
            "...v",
            latest,
        ],
    );
    let ghost link_parts = seq![
        "  Full changelog: https://github.com/Sully-/ER_DynamicOverlay/compare/v",
        current,
        "...v",
        latest,
    ];
    lines.push(link);
    proof {
        reveal_with_fuel(Seq::fold_left, 5);
        assert(strs(lines@) =~= strs(body) + (if truncated {
            seq!["  …"@]
        } else {
            Seq::<Seq<char>>::empty()
        }) + seq![link@]);
    }
    lines
}
} // verus!
