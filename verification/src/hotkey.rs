//! Hotkey strings such as `"F8"` or `"Ctrl+Shift+F1"`.

use vstd::prelude::*;
use crate::text::{
    ascii_lower_seq, ascii_upper_seq, chars_of, eq_str, split_chars, split_seq, to_ascii_lower,
    to_ascii_upper, trim_chars, trim_seq, views,
};

verus! {

broadcast use vstd::string::group_string_axioms;

/// A key the overlay can bind.
#[derive(Debug, Clone, Copy, PartialEq, Eq, Structural)]
pub enum OverlayKey {
    F1,
    F2,
    F3,
    F4,
    F5,
    F6,
    F7,
    F8,
    F9,
    F10,
    F11,
    F12,
    A,
    B,
    C,
    D,
    E,
    F,
    G,
    H,
    I,
    J,
    K,
    L,
    M,
    N,
    O,
    P,
    Q,
    R,
    S,
    T,
    U,
    V,
    W,
    X,
    Y,
    Z,
    Key0,
    Key1,
    Key2,
    Key3,
    Key4,
    Key5,
    Key6,
    Key7,
    Key8,
    Key9,
    GraveAccent,
    Minus,
    Equal,
    LeftBracket,
    RightBracket,
    Backslash,
    Semicolon,
    Apostrophe,
    Comma,
    Period,
    Slash,
}

/// A key plus the modifiers that must be held with it.
#[derive(Debug, Clone, Copy, PartialEq, Eq, Structural)]
pub struct HotkeyBinding {
    pub key: OverlayKey,
    pub ctrl: bool,
    pub alt: bool,
    pub shift: bool,
}

/// Punctuation keys, matched on the trimmed text before any case mapping.
pub open spec fn symbol_key_names() -> Seq<(Seq<char>, OverlayKey)> {
    seq![
        ("`"@, OverlayKey::GraveAccent),
        ("-"@, OverlayKey::Minus),
        ("="@, OverlayKey::Equal),
        ("+"@, OverlayKey::Equal),
        ("["@, OverlayKey::LeftBracket),
        ("]"@, OverlayKey::RightBracket),
        ("\\"@, OverlayKey::Backslash),
        (";"@, OverlayKey::Semicolon),
        ("'"@, OverlayKey::Apostrophe),
        (","@, OverlayKey::Comma),
        ("."@, OverlayKey::Period),
        ("/"@, OverlayKey::Slash),
    ]
}

/// Key names and aliases, matched on the ASCII upper-cased trimmed text.
pub open spec fn upper_key_names() -> Seq<(Seq<char>, OverlayKey)> {
    seq![
        ("F1"@, OverlayKey::F1),
        ("F2"@, OverlayKey::F2),
        ("F3"@, OverlayKey::F3),
        ("F4"@, OverlayKey::F4),
        ("F5"@, OverlayKey::F5),
        ("F6"@, OverlayKey::F6),
        ("F7"@, OverlayKey::F7),
        ("F8"@, OverlayKey::F8),
        ("F9"@, OverlayKey::F9),
        ("F10"@, OverlayKey::F10),
        ("F11"@, OverlayKey::F11),
        ("F12"@, OverlayKey::F12),
        ("A"@, OverlayKey::A),
        ("B"@, OverlayKey::B),
        ("C"@, OverlayKey::C),
        ("D"@, OverlayKey::D),
        ("E"@, OverlayKey::E),
        ("F"@, OverlayKey::F),
        ("G"@, OverlayKey::G),
        ("H"@, OverlayKey::H),
        ("I"@, OverlayKey::I),
        ("J"@, OverlayKey::J),
        ("K"@, OverlayKey::K),
        ("L"@, OverlayKey::L),
        ("M"@, OverlayKey::M),
        ("N"@, OverlayKey::N),
        ("O"@, OverlayKey::O),
        ("P"@, OverlayKey::P),
        ("Q"@, OverlayKey::Q),
        ("R"@, OverlayKey::R),
        ("S"@, OverlayKey::S),
        ("T"@, OverlayKey::T),
        ("U"@, OverlayKey::U),
        ("V"@, OverlayKey::V),
        ("W"@, OverlayKey::W),
        ("X"@, OverlayKey::X),
        ("Y"@, OverlayKey::Y),
        ("Z"@, OverlayKey::Z),
        ("0"@, OverlayKey::Key0),
        ("1"@, OverlayKey::Key1),
        ("2"@, OverlayKey::Key2),
        ("3"@, OverlayKey::Key3),
        ("4"@, OverlayKey::Key4),
        ("5"@, OverlayKey::Key5),
        ("6"@, OverlayKey::Key6),
        ("7"@, OverlayKey::Key7),
        ("8"@, OverlayKey::Key8),
        ("9"@, OverlayKey::Key9),
        ("GRAVE"@, OverlayKey::GraveAccent),
        ("BACKQUOTE"@, OverlayKey::GraveAccent),
        ("TILDE"@, OverlayKey::GraveAccent),
        ("MINUS"@, OverlayKey::Minus),
        ("DASH"@, OverlayKey::Minus),
        ("HYPHEN"@, OverlayKey::Minus),
        ("EQUAL"@, OverlayKey::Equal),
        ("EQUALS"@, OverlayKey::Equal),
        ("PLUS"@, OverlayKey::Equal),
        ("LBRACKET"@, OverlayKey::LeftBracket),
        ("LEFTBRACKET"@, OverlayKey::LeftBracket),
        ("RBRACKET"@, OverlayKey::RightBracket),
        ("RIGHTBRACKET"@, OverlayKey::RightBracket),
        ("BACKSLASH"@, OverlayKey::Backslash),
        ("SEMICOLON"@, OverlayKey::Semicolon),
        ("APOSTROPHE"@, OverlayKey::Apostrophe),
        ("QUOTE"@, OverlayKey::Apostrophe),
        ("COMMA"@, OverlayKey::Comma),
        ("PERIOD"@, OverlayKey::Period),
        ("DOT"@, OverlayKey::Period),
        ("SLASH"@, OverlayKey::Slash),
    ]
}

/// The key of the first entry of `table` named `name`.
pub open spec fn lookup_key(table: Seq<(Seq<char>, OverlayKey)>, name: Seq<char>) -> Option<
    OverlayKey,
>
    decreases table.len(),
{
    if table.len() == 0 {
        None
    } else if table[0].0 == name {
        Some(table[0].1)
    } else {
        lookup_key(table.drop_first(), name)
    }
}

/// The key a text names: punctuation first, then names and aliases in any ASCII case.
pub open spec fn key_from_text(s: Seq<char>) -> Option<OverlayKey> {
    let t = trim_seq(s);
    match lookup_key(symbol_key_names(), t) {
        Some(k) => Some(k),
        None => lookup_key(upper_key_names(), ascii_upper_seq(t)),
    }
}

pub open spec fn table_view(t: Seq<(&str, OverlayKey)>) -> Seq<(Seq<char>, OverlayKey)> {
    t.map_values(|e: (&str, OverlayKey)| (e.0@, e.1))
}

fn symbol_key_table() -> (t: Vec<(&'static str, OverlayKey)>)
    ensures
        table_view(t@) == symbol_key_names(),
{
    let t = vec![
        ("`", OverlayKey::GraveAccent),
        ("-", OverlayKey::Minus),
        ("=", OverlayKey::Equal),
        ("+", OverlayKey::Equal),
        ("[", OverlayKey::LeftBracket),
        ("]", OverlayKey::RightBracket),
        ("\\", OverlayKey::Backslash),
        (";", OverlayKey::Semicolon),
        ("'", OverlayKey::Apostrophe),
        (",", OverlayKey::Comma),
        (".", OverlayKey::Period),
        ("/", OverlayKey::Slash),
    ];
    assert(table_view(t@) =~= symbol_key_names());
    t
}

fn upper_key_table() -> (t: Vec<(&'static str, OverlayKey)>)
    ensures
        table_view(t@) == upper_key_names(),
{
    let t = vec![
        ("F1", OverlayKey::F1),
        ("F2", OverlayKey::F2),
        ("F3", OverlayKey::F3),
        ("F4", OverlayKey::F4),
        ("F5", OverlayKey::F5),
        ("F6", OverlayKey::F6),
        ("F7", OverlayKey::F7),
        ("F8", OverlayKey::F8),
        ("F9", OverlayKey::F9),
        ("F10", OverlayKey::F10),
        ("F11", OverlayKey::F11),
        ("F12", OverlayKey::F12),
        ("A", OverlayKey::A),
        ("B", OverlayKey::B),
        ("C", OverlayKey::C),
        ("D", OverlayKey::D),
        ("E", OverlayKey::E),
        ("F", OverlayKey::F),
        ("G", OverlayKey::G),
        ("H", OverlayKey::H),
        ("I", OverlayKey::I),
        ("J", OverlayKey::J),
        ("K", OverlayKey::K),
        ("L", OverlayKey::L),
        ("M", OverlayKey::M),
        ("N", OverlayKey::N),
        ("O", OverlayKey::O),
        ("P", OverlayKey::P),
        ("Q", OverlayKey::Q),
        ("R", OverlayKey::R),
        ("S", OverlayKey::S),
        ("T", OverlayKey::T),
        ("U", OverlayKey::U),
        ("V", OverlayKey::V),
        ("W", OverlayKey::W),
        ("X", OverlayKey::X),
        ("Y", OverlayKey::Y),
        ("Z", OverlayKey::Z),
        ("0", OverlayKey::Key0),
        ("1", OverlayKey::Key1),
        ("2", OverlayKey::Key2),
        ("3", OverlayKey::Key3),
        ("4", OverlayKey::Key4),
        ("5", OverlayKey::Key5),
        ("6", OverlayKey::Key6),
        ("7", OverlayKey::Key7),
        ("8", OverlayKey::Key8),
        ("9", OverlayKey::Key9),
        ("GRAVE", OverlayKey::GraveAccent),
        ("BACKQUOTE", OverlayKey::GraveAccent),
        ("TILDE", OverlayKey::GraveAccent),
        ("MINUS", OverlayKey::Minus),
        ("DASH", OverlayKey::Minus),
        ("HYPHEN", OverlayKey::Minus),
        ("EQUAL", OverlayKey::Equal),
        ("EQUALS", OverlayKey::Equal),
        ("PLUS", OverlayKey::Equal),
        ("LBRACKET", OverlayKey::LeftBracket),
        ("LEFTBRACKET", OverlayKey::LeftBracket),
        ("RBRACKET", OverlayKey::RightBracket),
        ("RIGHTBRACKET", OverlayKey::RightBracket),
        ("BACKSLASH", OverlayKey::Backslash),
        ("SEMICOLON", OverlayKey::Semicolon),
        ("APOSTROPHE", OverlayKey::Apostrophe),
        ("QUOTE", OverlayKey::Apostrophe),
        ("COMMA", OverlayKey::Comma),
        ("PERIOD", OverlayKey::Period),
        ("DOT", OverlayKey::Period),
        ("SLASH", OverlayKey::Slash),
    ];
    assert(table_view(t@) =~= upper_key_names());
    t
}

fn find_key(table: &Vec<(&'static str, OverlayKey)>, name: &Vec<char>) -> (r: Option<OverlayKey>)
    ensures
        r == lookup_key(table_view(table@), name@),
{
    let mut i: usize = 0;
    assert(table_view(table@).skip(0) =~= table_view(table@));
    while i < table.len()
        invariant
            i <= table.len(),
            lookup_key(table_view(table@), name@) == lookup_key(
                table_view(table@).skip(i as int),
                name@,
            ),
        decreases table.len() - i,
    {
        let ghost rest = table_view(table@).skip(i as int);
        assert(rest.drop_first() =~= table_view(table@).skip(i + 1));
        assert(rest[0] == (table@[i as int].0@, table@[i as int].1));
        if eq_str(name, table[i].0) {
            return Some(table[i].1);
        }
        i += 1;
    }
    None
}

/// Parses a key name (`OverlayKey::from_str`): surrounding whitespace is ignored, punctuation
/// keys match literally, names and aliases (`F8`, `comma`, `dash`, ...) in any ASCII case.
pub fn parse_overlay_key(s: &str) -> (r: Option<OverlayKey>)
    ensures
        r == key_from_text(s@),
{
    let v = chars_of(s);
    let t = trim_chars(&v);
    let symbols = symbol_key_table();
    match find_key(&symbols, &t) {
        Some(k) => Some(k),
        None => {
            let upper = to_ascii_upper(&t);
            let names = upper_key_table();
            find_key(&names, &upper)
        },
    }
}

impl std::str::FromStr for OverlayKey {
    type Err = ();

    fn from_str(s: &str) -> (r: Result<Self, Self::Err>)
        ensures
            r == match key_from_text(s@) {
                Some(k) => Ok::<OverlayKey, ()>(k),
                None => Err(()),
            },
    {
        match parse_overlay_key(s) {
            Some(k) => Ok(k),
            None => Err(()),
        }
    }
}

/// Modifiers seen so far and the (lower-cased) key part, if any.
pub struct HotkeyParts {
    pub ctrl: bool,
    pub alt: bool,
    pub shift: bool,
    pub key: Option<Seq<char>>,
}

pub open spec fn no_parts() -> HotkeyParts {
    HotkeyParts { ctrl: false, alt: false, shift: false, key: None }
}

/// Folds the `+`-separated parts left to right: empty parts are skipped, `ctrl`/`control`,
/// `alt` and `shift` (any ASCII case) set a modifier, anything else is the key; a second key
/// part makes the whole binding invalid.
pub open spec fn fold_hotkey_parts(parts: Seq<Seq<char>>, acc: HotkeyParts) -> Option<HotkeyParts>
    decreases parts.len(),
{
    if parts.len() == 0 {
        Some(acc)
    } else {
        let p = trim_seq(parts[0]);
        let rest = parts.drop_first();
        if p.len() == 0 {
            fold_hotkey_parts(rest, acc)
        } else {
            let l = ascii_lower_seq(p);
            if l == "ctrl"@ || l == "control"@ {
                fold_hotkey_parts(rest, HotkeyParts { ctrl: true, ..acc })
            } else if l == "alt"@ {
                fold_hotkey_parts(rest, HotkeyParts { alt: true, ..acc })
            } else if l == "shift"@ {
                fold_hotkey_parts(rest, HotkeyParts { shift: true, ..acc })
            } else if acc.key is Some {
                None
            } else {
                fold_hotkey_parts(rest, HotkeyParts { key: Some(l), ..acc })
            }
        }
    }
}

/// The binding a hotkey text describes, if it is valid.
pub open spec fn hotkey_from_text(raw: Seq<char>) -> Option<HotkeyBinding> {
    match fold_hotkey_parts(split_seq(raw, '+'), no_parts()) {
        None => None,
        Some(acc) => match acc.key {
            None => None,
            Some(k) => match key_from_text(k) {
                None => None,
                Some(key) => Some(HotkeyBinding { key, ctrl: acc.ctrl, alt: acc.alt, shift: acc.shift }),
            },
        },
    }
}

/// Part `i` of a split hotkey text, trimmed and ASCII lower-cased.
pub open spec fn part_name(parts: Seq<Seq<char>>, i: int) -> Seq<char> {
    ascii_lower_seq(trim_seq(parts[i]))
}

/// Some part of a split hotkey text is `name` (trimmed, in any ASCII case).
pub open spec fn some_part_named(parts: Seq<Seq<char>>, name: Seq<char>) -> bool {
    exists|i: int| 0 <= i < parts.len() && #[trigger] part_name(parts, i) == name
}

proof fn lemma_some_part_first(parts: Seq<Seq<char>>, name: Seq<char>)
    requires
        parts.len() > 0,
    ensures
        some_part_named(parts, name) <==> (part_name(parts, 0) == name || some_part_named(
            parts.drop_first(),
            name,
        )),
{
    let rest = parts.drop_first();
    if some_part_named(parts, name) {
        let i = choose|i: int| 0 <= i < parts.len() && #[trigger] part_name(parts, i) == name;
        if i > 0 {
            assert(part_name(rest, i - 1) == part_name(parts, i));
        }
    }
    if some_part_named(rest, name) {
        let j = choose|j: int| 0 <= j < rest.len() && #[trigger] part_name(rest, j) == name;
        assert(part_name(parts, j + 1) == part_name(rest, j));
    }
    if part_name(parts, 0) == name {
        assert(0 <= 0 < parts.len() && part_name(parts, 0) == name);
    }
}

proof fn lemma_fold_modifiers(parts: Seq<Seq<char>>, acc: HotkeyParts)
    ensures
        fold_hotkey_parts(parts, acc) matches Some(res) ==> {
            &&& res.alt == (acc.alt || some_part_named(parts, "alt"@))
            &&& res.shift == (acc.shift || some_part_named(parts, "shift"@))
            &&& res.ctrl == (acc.ctrl || some_part_named(parts, "ctrl"@) || some_part_named(
                parts,
                "control"@,
            ))
        },
    decreases parts.len(),
{
    reveal_strlit("alt");
    reveal_strlit("shift");
    reveal_strlit("ctrl");
    reveal_strlit("control");
    if parts.len() > 0 {
        let p = trim_seq(parts[0]);
        let l = ascii_lower_seq(p);
        let rest = parts.drop_first();
        assert(l.len() == p.len());
        assert(part_name(parts, 0) == l);
        let next = if p.len() == 0 {
            acc
        } else if l == "ctrl"@ || l == "control"@ {
            HotkeyParts { ctrl: true, ..acc }
        } else if l == "alt"@ {
            HotkeyParts { alt: true, ..acc }
        } else if l == "shift"@ {
            HotkeyParts { shift: true, ..acc }
        } else {
            HotkeyParts { key: Some(l), ..acc }
        };
        lemma_fold_modifiers(rest, next);
        lemma_some_part_first(parts, "alt"@);
        lemma_some_part_first(parts, "shift"@);
        lemma_some_part_first(parts, "ctrl"@);
        lemma_some_part_first(parts, "control"@);
    }
}

/// The modifiers of a parsed hotkey are exactly the ones its text names: `alt` is held exactly
/// when some `+`-separated part is `alt`, `shift` exactly when some part is `shift`, `ctrl`
/// exactly when some part is `ctrl` or `control` (parts trimmed, in any ASCII case). So
/// `Alt+F4` binds F4 with Alt alone.
pub proof fn law_hotkey_modifiers_are_named(raw: Seq<char>)
    ensures
        hotkey_from_text(raw) matches Some(b) ==> {
            let parts = split_seq(raw, '+');
            &&& b.alt == some_part_named(parts, "alt"@)
            &&& b.shift == some_part_named(parts, "shift"@)
            &&& b.ctrl == (some_part_named(parts, "ctrl"@) || some_part_named(parts, "control"@))
        },
{
    lemma_fold_modifiers(split_seq(raw, '+'), no_parts());
}

/// Parses `"F8"`, `"Ctrl+Shift+F1"`, `"Ctrl+="`, ...: exactly one key part is required.
pub fn parse_hotkey(raw: &str) -> (r: Option<HotkeyBinding>)
    ensures
        r == hotkey_from_text(raw@),
{
    let v = chars_of(raw);
    let parts = split_chars(&v, '+');
    let ghost all = views(parts@);
    let mut ctrl = false;
    let mut alt = false;
    let mut shift = false;
    let mut key_part: Option<Vec<char>> = None;
    let mut i: usize = 0;
    assert(all.skip(0) =~= all);
    while i < parts.len()
        invariant
            all == views(parts@),
            all == split_seq(raw@, '+'),
            i <= parts.len(),
            fold_hotkey_parts(all, no_parts()) == fold_hotkey_parts(
                all.skip(i as int),
                HotkeyParts {
                    ctrl,
                    alt,
                    shift,
                    key: match key_part {
                        Some(k) => Some(k@),
                        None => None,
                    },
                },
            ),
        decreases parts.len() - i,
    {
        assert(all.skip(i as int).drop_first() =~= all.skip(i + 1));
        assert(all.skip(i as int)[0] == parts@[i as int]@);
        let p = trim_chars(&parts[i]);
        if p.len() > 0 {
            let l = to_ascii_lower(&p);
            if eq_str(&l, "ctrl") || eq_str(&l, "control") {
                ctrl = true;
            } else if eq_str(&l, "alt") {
                alt = true;
            } else if eq_str(&l, "shift") {
                shift = true;
            } else {
                if key_part.is_some() {
                    proof {
                        let acc = HotkeyParts {
                            ctrl,
                            alt,
                            shift,
                            key: match key_part {
                                Some(k) => Some(k@),
                                None => None,
                            },
                        };
                        assert(acc.key is Some);
                        assert(trim_seq(all.skip(i as int)[0]) == p@);
                        assert(fold_hotkey_parts(all.skip(i as int), acc) is None);
                    }
                    return None;
                }
                key_part = Some(l);
            }
        }
        i += 1;
    }
    match key_part {
        None => None,
        Some(k) => {
            let ks = crate::text::string_from_chars(&k);
            match parse_overlay_key(ks.as_str()) {
                None => None,
                Some(key) => Some(HotkeyBinding { key, ctrl, alt, shift }),
            }
        },
    }
}

} // verus!
