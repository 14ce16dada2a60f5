//! The boss table (`tables/<lang>/bosses.toml`): bosses with their kill flags, regions and the
//! map ids of each region; plus the language rules that pick which table file to load.

use vstd::prelude::*;
use std::collections::HashMap;
use crate::checks_table::{
    build_region_map, clone_opt_string, copy_strings, display_order, region_for_map_id,
    region_label_in, region_map, string_map_view, strings_of, RegionRow, load_path_choice,
};
use crate::config::table_path;
use crate::text::{
    ascii_lower, ascii_lower_seq, chars_of, eq_str, is_ascii_seq, is_whitespace, lemma_trim_clean,
    lemma_trim_ends, lemma_trim_idempotent, str_eq,
    string_from_chars,
    string_of, trim_chars, trim_seq,
};

verus! {

broadcast use vstd::std_specs::hash::group_hash_axioms;

/// Language used when none is configured or detected.
pub const DEFAULT_LOCALE_ID: &'static str = "en";

/// One boss of the checklist.
#[derive(Debug)]
pub struct BossEntry {
    /// Event flag set when the boss is killed.
    pub flag_id: u32,
    pub name: String,
    pub region: String,
    pub icon: String,
    pub place: Option<String>,
    pub dlc: bool,
}

impl BossEntry {
    /// A field-by-field copy.
    pub fn copy(&self) -> (c: Self)
        ensures
            c == *self,
    {
        BossEntry {
            flag_id: self.flag_id,
            name: self.name.clone(),
            region: self.region.clone(),
            icon: self.icon.clone(),
            place: clone_opt_string(&self.place),
            dlc: self.dlc,
        }
    }
}

/// A loaded boss table.
pub struct BossTableData {
    pub bosses: Vec<BossEntry>,
    /// Region names in display order.
    pub region_names: Vec<String>,
    /// Map id (`map_id / 1000` key) → region name.
    pub subregion_to_region: HashMap<u32, String>,
}

/// The content of a `bosses.toml` file.
pub struct BossTableFile {
    pub region_display_order: Vec<String>,
    pub region: Vec<RegionRow>,
    pub boss: Vec<BossEntry>,
}

/// Why a boss table is rejected.
#[derive(Debug)]
pub enum BossTableError {
    /// The table defines no `[[boss]]` entries.
    NoBosses,
    /// Two bosses share a kill flag.
    DuplicateFlag { flag_id: u32 },
}

/// Whether boss `i` repeats the flag of an earlier boss.
pub open spec fn repeats_flag(bosses: Seq<BossEntry>, i: int) -> bool {
    exists|j: int| 0 <= j < i && bosses[j].flag_id == bosses[i].flag_id
}

/// Index of the first boss whose flag was already used.
pub open spec fn first_duplicate(bosses: Seq<BossEntry>) -> Option<int> {
    if exists|i: int| 0 <= i < bosses.len() && repeats_flag(bosses, i) {
        Some(choose|i: int| 0 <= i < bosses.len() && repeats_flag(bosses, i) && forall|k: int|
            0 <= k < i ==> !repeats_flag(bosses, k))
    } else {
        None
    }
}

fn flag_seen_before(bosses: &Vec<BossEntry>, i: usize) -> (b: bool)
    requires
        i < bosses.len(),
    ensures
        b == repeats_flag(bosses@, i as int),
{
    let mut j: usize = 0;
    while j < i
        invariant
            i < bosses.len(),
            j <= i,
            forall|k: int| 0 <= k < j ==> bosses@[k].flag_id != bosses@[i as int].flag_id,
        decreases i - j,
    {
        if bosses[j].flag_id == bosses[i].flag_id {
            return true;
        }
        j += 1;
    }
    false
}

/// Validates and builds a boss table: it must have bosses and no flag may repeat.
pub fn parse_boss_table(file: BossTableFile) -> (r: Result<BossTableData, BossTableError>)
    ensures
        file.boss@.len() == 0 ==> r matches Err(BossTableError::NoBosses),
        file.boss@.len() > 0 ==> match first_duplicate(file.boss@) {
            Some(i) => r matches Err(BossTableError::DuplicateFlag { flag_id }) && flag_id
                == file.boss@[i].flag_id,
            None => r matches Ok(d) && d.bosses@ == file.boss@ && strings_of(d.region_names@)
                == display_order(file.region_display_order@, file.region@) && string_map_view(
                d.subregion_to_region@,
            ) == region_map(file.region@),
        },
{
    if file.boss.len() == 0 {
        return Err(BossTableError::NoBosses);
    }
    let mut i: usize = 0;
    while i < file.boss.len()
        invariant
            i <= file.boss.len(),
            forall|k: int| 0 <= k < i ==> !repeats_flag(file.boss@, k),
        decreases file.boss.len() - i,
    {
        if flag_seen_before(&file.boss, i) {
            proof {
                let w = choose|w: int| 0 <= w < file.boss@.len() && repeats_flag(file.boss@, w)
                    && forall|k: int| 0 <= k < w ==> !repeats_flag(file.boss@, k);
                assert(w == i);
            }
            return Err(BossTableError::DuplicateFlag { flag_id: file.boss[i].flag_id });
        }
        i += 1;
    }
    let region_names = region_display_names_of(&file);
    let subregion_to_region = build_region_map(&file.region);
    Ok(BossTableData { bosses: file.boss, region_names, subregion_to_region })
}

fn region_display_names_of(file: &BossTableFile) -> (r: Vec<String>)
    ensures
        strings_of(r@) == display_order(file.region_display_order@, file.region@),
{
    crate::checks_table::region_display_names(&file.region_display_order, &file.region)
}

/// Number of bosses in the table (rows, not distinct flags).
pub fn bosses_total_count(table: &BossTableData) -> (n: usize)
    ensures
        n == table.bosses@.len(),
{
    table.bosses.len()
}

/// The region label of a live map id (`map_id / 1000` first, then the id itself).
pub fn region_label_for_subregion(table: &BossTableData, map_id: u32) -> (r: Option<String>)
    ensures
        match r {
            Some(s) => region_for_map_id(string_map_view(table.subregion_to_region@), map_id) == Some(s@),
            None => region_for_map_id(string_map_view(table.subregion_to_region@), map_id) is None,
        },
{
    region_label_in(&table.subregion_to_region, map_id)
}

/// The bosses of `region`, in table order.
pub fn bosses_in_region(table: &BossTableData, region: &str) -> (r: Vec<BossEntry>)
    ensures
        r@ == table.bosses@.filter(|b: BossEntry| b.region@ == region@),
{
    let mut r: Vec<BossEntry> = Vec::new();
    let mut i: usize = 0;
    while i < table.bosses.len()
        invariant
            i <= table.bosses.len(),
            r@ == table.bosses@.take(i as int).filter(|b: BossEntry| b.region@ == region@),
        decreases table.bosses.len() - i,
    {
        let b = &table.bosses[i];
        assert(table.bosses@.take(i + 1).drop_last() =~= table.bosses@.take(i as int));
        reveal_with_fuel(Seq::filter, 1);
        if str_eq(b.region.as_str(), region) {
            r.push(b.copy());
        }
        i += 1;
    }
    assert(table.bosses@.take(i as int) =~= table.bosses@);
    r
}

/// Region names in display order.
pub fn region_names(table: &BossTableData) -> (r: Vec<String>)
    ensures
        r@ == table.region_names@,
{
    copy_strings(&table.region_names)
}

/// `tables/<locale>/bosses.toml`, or the override / English fallback (see
/// [`load_path_choice`]); the `*_is_file` arguments are the file-system probes of the override,
/// of the locale's file and of `tables/en/bosses.toml`.
pub fn resolve_load_path(
    base: &str,
    locale_id: &str,
    override_path: Option<&str>,
    override_is_file: bool,
    locale_is_file: bool,
    fallback_is_file: bool,
) -> (p: String)
    ensures
        p@ == load_path_choice(
            table_path(base@, locale_id@, "bosses.toml"@),
            table_path(base@, "en"@, "bosses.toml"@),
            locale_id@ == "en"@,
            match override_path {
                Some(o) => Some(o@),
                None => None,
            },
            override_is_file,
            locale_is_file,
            fallback_is_file,
        ),
{
    if let Some(o) = override_path {
        if override_is_file {
            return string_of(o);
        }
    }
    let path = crate::config::resolve_boss_table_path(base, locale_id);
    if locale_is_file {
        path
    } else if !str_eq(locale_id, "en") && fallback_is_file {
        crate::config::resolve_boss_table_path(base, "en")
    } else {
        path
    }
}

/// The active boss table and its language.
pub struct BossStore {
    pub table: BossTableData,
    pub locale: String,
}

/// Installs a newly loaded table.
pub fn apply_boss_table(store: &mut BossStore, data: BossTableData, locale_id: &str)
    ensures
        final(store).table == data,
        final(store).locale@ == locale_id@,
{
    store.table = data;
    store.locale = string_of(locale_id);
}

/// The active table.
pub fn boss_table(store: &BossStore) -> (t: &BossTableData)
    ensures
        *t == store.table,
{
    &store.table
}

/// The active table, with every field.
pub fn boss_entries_full(store: &BossStore) -> (t: &BossTableData)
    ensures
        *t == store.table,
{
    &store.table
}

/// Language of the active table.
pub fn active_boss_locale(store: &BossStore) -> (l: String)
    ensures
        l@ == store.locale@,
{
    store.locale.clone()
}

/// What `str::to_lowercase` returns (Unicode lower-case mapping) for a text.
pub uninterp spec fn unicode_lowercase(s: Seq<char>) -> Seq<char>;

/// `str::to_lowercase`: the Unicode lower-case mapping of the text. Claimed: the result depends
/// on the text alone ([`unicode_lowercase`]), and on an all-ASCII text it is the ASCII lower-case
/// (`A`-`Z` to `a`-`z`, other characters kept), as `str::to_ascii_lowercase` documents; nothing
/// is stated of the mapping of other characters.
#[verifier::external_body]
pub(crate) fn to_lowercase(s: &str) -> (r: String)
    ensures
        r@ == unicode_lowercase(s@),
        is_ascii_seq(s@) ==> r@ == ascii_lower_seq(s@),
{
    s.to_lowercase()
}

/// Language aliases (already lower-cased) and the table language they select.
pub open spec fn locale_aliases() -> Seq<(Seq<char>, Seq<char>)> {
    seq![
        ("en"@, "en"@), ("english"@, "en"@), ("eng"@, "en"@), ("engus"@, "en"@),
        ("fr"@, "fr"@), ("french"@, "fr"@), ("fra"@, "fr"@), ("frafr"@, "fr"@),
        ("de"@, "de"@), ("german"@, "de"@), ("deude"@, "de"@),
        ("es"@, "es"@), ("spanish"@, "es"@), ("spaes"@, "es"@),
        ("it"@, "it"@), ("italian"@, "it"@), ("itait"@, "it"@),
        ("ja"@, "ja"@), ("japanese"@, "ja"@), ("jpnjp"@, "ja"@),
        ("ko"@, "ko"@), ("koreana"@, "ko"@), ("korkr"@, "ko"@),
        ("pl"@, "pl"@), ("polish"@, "pl"@), ("polpl"@, "pl"@),
        ("pt"@, "pt"@), ("portuguese"@, "pt"@), ("porbr"@, "pt"@),
        ("ru"@, "ru"@), ("russian"@, "ru"@), ("rusru"@, "ru"@),
        ("zh-cn"@, "zh-cn"@), ("schinese"@, "zh-cn"@), ("zhocn"@, "zh-cn"@),
        ("zh-tw"@, "zh-tw"@), ("tchinese"@, "zh-tw"@), ("zhotw"@, "zh-tw"@),
    ]
}

/// Steam language names and the table language they select (anything else is English).
pub open spec fn steam_languages() -> Seq<(Seq<char>, Seq<char>)> {
    seq![
        ("english"@, "en"@), ("german"@, "de"@), ("french"@, "fr"@), ("italian"@, "it"@),
        ("japanese"@, "ja"@), ("koreana"@, "ko"@), ("polish"@, "pl"@), ("portuguese"@, "pt"@),
        ("russian"@, "ru"@), ("latam"@, "es"@), ("spanish"@, "es"@), ("thai"@, "th"@),
        ("schinese"@, "zh-cn"@), ("tchinese"@, "zh-tw"@),
    ]
}

/// Value of the first entry of `table` named `name`.
pub open spec fn lookup_text(table: Seq<(Seq<char>, Seq<char>)>, name: Seq<char>) -> Option<Seq<char>>
    decreases table.len(),
{
    if table.len() == 0 {
        None
    } else if table[0].0 == name {
        Some(table[0].1)
    } else {
        lookup_text(table.drop_first(), name)
    }
}

pub open spec fn text_table_view(t: Seq<(&str, &str)>) -> Seq<(Seq<char>, Seq<char>)> {
    t.map_values(|e: (&str, &str)| (e.0@, e.1@))
}

fn locale_alias_table() -> (t: Vec<(&'static str, &'static str)>)
    ensures
        text_table_view(t@) == locale_aliases(),
{
    let t = vec![
        ("en", "en"), ("english", "en"), ("eng", "en"), ("engus", "en"),
        ("fr", "fr"), ("french", "fr"), ("fra", "fr"), ("frafr", "fr"),
        ("de", "de"), ("german", "de"), ("deude", "de"),
        ("es", "es"), ("spanish", "es"), ("spaes", "es"),
        ("it", "it"), ("italian", "it"), ("itait", "it"),
        ("ja", "ja"), ("japanese", "ja"), ("jpnjp", "ja"),
        ("ko", "ko"), ("koreana", "ko"), ("korkr", "ko"),
        ("pl", "pl"), ("polish", "pl"), ("polpl", "pl"),
        ("pt", "pt"), ("portuguese", "pt"), ("porbr", "pt"),
        ("ru", "ru"), ("russian", "ru"), ("rusru", "ru"),
        ("zh-cn", "zh-cn"), ("schinese", "zh-cn"), ("zhocn", "zh-cn"),
        ("zh-tw", "zh-tw"), ("tchinese", "zh-tw"), ("zhotw", "zh-tw"),
    ];
    assert(text_table_view(t@) =~= locale_aliases());
    t
}

fn steam_language_table() -> (t: Vec<(&'static str, &'static str)>)
    ensures
        text_table_view(t@) == steam_languages(),
{
    let t = vec![
        ("english", "en"), ("german", "de"), ("french", "fr"), ("italian", "it"),
        ("japanese", "ja"), ("koreana", "ko"), ("polish", "pl"), ("portuguese", "pt"),
        ("russian", "ru"), ("latam", "es"), ("spanish", "es"), ("thai", "th"),
        ("schinese", "zh-cn"), ("tchinese", "zh-tw"),
    ];
    assert(text_table_view(t@) =~= steam_languages());
    t
}

fn find_text(table: &Vec<(&'static str, &'static str)>, name: &Vec<char>) -> (r: Option<&'static str>)
    ensures
        match r {
            Some(s) => lookup_text(text_table_view(table@), name@) == Some(s@),
            None => lookup_text(text_table_view(table@), name@) is None,
        },
{
    let mut i: usize = 0;
    assert(text_table_view(table@).skip(0) =~= text_table_view(table@));
    while i < table.len()
        invariant
            i <= table.len(),
            lookup_text(text_table_view(table@), name@) == lookup_text(
                text_table_view(table@).skip(i as int),
                name@,
            ),
        decreases table.len() - i,
    {
        let ghost rest = text_table_view(table@).skip(i as int);
        assert(rest.drop_first() =~= text_table_view(table@).skip(i + 1));
        assert(rest[0] == (table@[i as int].0@, table@[i as int].1@));
        if eq_str(name, table[i].0) {
            return Some(table[i].1);
        }
        i += 1;
    }
    None
}

/// The table language a lower-cased language text selects: the detected game language for an
/// empty text or `auto`, a known alias's language, else the text itself.
pub open spec fn locale_from_lowered(lower: Seq<char>, detected: Seq<char>) -> Seq<char> {
    if lower.len() == 0 || lower == "auto"@ {
        detected
    } else {
        match lookup_text(locale_aliases(), lower) {
            Some(l) => l,
            None => lower,
        }
    }
}

/// Resolves an already lower-cased language text (see [`locale_from_lowered`]).
pub fn normalize_lowered_locale(lower: &str, detected: &str) -> (r: String)
    ensures
        r@ == locale_from_lowered(lower@, detected@),
{
    let v = chars_of(lower);
    if v.len() == 0 || eq_str(&v, "auto") {
        return string_of(detected);
    }
    let table = locale_alias_table();
    match find_text(&table, &v) {
        Some(l) => string_of(l),
        None => string_of(lower),
    }
}

/// The language a raw id or alias selects: trimmed, lower-cased (Unicode), then resolved as in
/// [`locale_from_lowered`].
pub open spec fn normalized_locale(raw: Seq<char>, detected: Seq<char>) -> Seq<char> {
    locale_from_lowered(unicode_lowercase(trim_seq(raw)), detected)
}

/// Normalizes a language id or alias (`french`, `frafr`, `engUS`, ...): trimmed, lower-cased
/// (Unicode), then resolved as in [`locale_from_lowered`]; `detected` is the game language.
pub fn normalize_locale_id(raw: &str, detected: &str) -> (r: String)
    ensures
        r@ == normalized_locale(raw@, detected@),
        is_ascii_seq(trim_seq(raw@)) ==> r@ == locale_from_lowered(
            ascii_lower_seq(trim_seq(raw@)),
            detected@,
        ),
{
    let t = trim_chars(&chars_of(raw));
    let ts = string_from_chars(&t);
    let lower = to_lowercase(ts.as_str());
    normalize_lowered_locale(lower.as_str(), detected)
}

/// What normalizing a language text gives when its trimmed form is ASCII: the ASCII lower-case
/// resolved as in [`locale_from_lowered`] (see [`normalize_locale_id`]).
pub open spec fn ascii_normalized(raw: Seq<char>, detected: Seq<char>) -> Seq<char> {
    locale_from_lowered(ascii_lower_seq(trim_seq(raw)), detected)
}

/// A language text that every normalization keeps as it is: ASCII, lower-case, without
/// surrounding whitespace, neither blank nor `auto`, and its own alias.
pub open spec fn settled_language(l: Seq<char>) -> bool {
    &&& is_ascii_seq(l)
    &&& l.len() > 0
    &&& !is_whitespace(l[0]) && !is_whitespace(l.last())
    &&& ascii_lower_seq(l) == l
    &&& l != "auto"@
    &&& lookup_text(locale_aliases(), l) == Some(l)
}

proof fn lemma_lookup_at(table: Seq<(Seq<char>, Seq<char>)>, name: Seq<char>, k: int)
    requires
        0 <= k < table.len(),
        table[k].0 == name,
        forall|j: int| 0 <= j < k ==> #[trigger] table[j].0 != name,
    ensures
        lookup_text(table, name) == Some(table[k].1),
    decreases k,
{
    if k > 0 {
        assert(table[0].0 != name);
        let rest = table.drop_first();
        assert forall|j: int| 0 <= j < k - 1 implies #[trigger] rest[j].0 != name by {
            assert(rest[j] == table[j + 1]);
        }
        lemma_lookup_at(rest, name, k - 1);
    }
}

proof fn lemma_lookup_found(table: Seq<(Seq<char>, Seq<char>)>, name: Seq<char>)
    requires
        lookup_text(table, name) is Some,
    ensures
        exists|i: int| 0 <= i < table.len() && #[trigger] table[i].1 == lookup_text(table, name)->0,
    decreases table.len(),
{
    if table[0].0 != name {
        lemma_lookup_found(table.drop_first(), name);
        let i = choose|i: int|
            0 <= i < table.drop_first().len() && #[trigger] table.drop_first()[i].1 == lookup_text(
                table.drop_first(),
                name,
            )->0;
        assert(table[i + 1] == table.drop_first()[i]);
    } else {
        assert(table[0].1 == lookup_text(table, name)->0);
    }
}

proof fn lemma_settled(l: Seq<char>, k: int)
    requires
        0 <= k < locale_aliases().len(),
        locale_aliases()[k] == (l, l),
        forall|j: int|
            0 <= j < k ==> {
                let key = #[trigger] locale_aliases()[j].0;
                key.len() != l.len() || key[0] != l[0] || key[1] != l[1] || key[2] != l[2] || key[3] != l[3]
            },
        l.len() > 0,
        forall|i: int| 0 <= i < l.len() ==> ('a' <= #[trigger] l[i] <= 'z' || l[i] == '-'),
        l != "auto"@,
    ensures
        settled_language(l),
{
    assert forall|j: int| 0 <= j < k implies #[trigger] locale_aliases()[j].0 != l by {
        let key = locale_aliases()[j].0;
        if key == l {
            assert(key.len() == l.len() && key[0] == l[0] && key[1] == l[1] && key[2] == l[2] && key[3] == l[3]);
        }
    }
    lemma_lookup_at(locale_aliases(), l, k);
    assert(ascii_lower_seq(l) =~= l);
}

/// Every language an alias selects is settled.
proof fn lemma_alias_targets_settled()
    ensures
        forall|i: int| 0 <= i < locale_aliases().len() ==> settled_language(#[trigger] locale_aliases()[i].1),
{
    reveal_strlit("auto");
    reveal_strlit("en"); reveal_strlit("english"); reveal_strlit("eng"); reveal_strlit("engus");
    reveal_strlit("fr"); reveal_strlit("french"); reveal_strlit("fra"); reveal_strlit("frafr");
    reveal_strlit("de"); reveal_strlit("german"); reveal_strlit("deude");
    reveal_strlit("es"); reveal_strlit("spanish"); reveal_strlit("spaes");
    reveal_strlit("it"); reveal_strlit("italian"); reveal_strlit("itait");
    reveal_strlit("ja"); reveal_strlit("japanese"); reveal_strlit("jpnjp");
    reveal_strlit("ko"); reveal_strlit("koreana"); reveal_strlit("korkr");
    reveal_strlit("pl"); reveal_strlit("polish"); reveal_strlit("polpl");
    reveal_strlit("pt"); reveal_strlit("portuguese"); reveal_strlit("porbr");
    reveal_strlit("ru"); reveal_strlit("russian"); reveal_strlit("rusru");
    reveal_strlit("zh-cn"); reveal_strlit("schinese"); reveal_strlit("zhocn");
    reveal_strlit("zh-tw"); reveal_strlit("tchinese"); reveal_strlit("zhotw");
    let a = locale_aliases();
    lemma_settled("en"@, 0);
    lemma_settled("fr"@, 4);
    lemma_settled("de"@, 8);
    lemma_settled("es"@, 11);
    lemma_settled("it"@, 14);
    lemma_settled("ja"@, 17);
    lemma_settled("ko"@, 20);
    lemma_settled("pl"@, 23);
    lemma_settled("pt"@, 26);
    lemma_settled("ru"@, 29);
    lemma_settled("zh-cn"@, 32);
    lemma_settled("zh-tw"@, 35);
}

/// Normalizing a language text twice gives what normalizing it once gives (`french` -> `fr` ->
/// `fr`), for a text whose trimmed form is ASCII and a detected language that normalizes to
/// itself. The first result is again ASCII once trimmed, so [`normalize_locale_id`] states the
/// second normalization over [`ascii_normalized`] too.
pub proof fn law_normalize_idempotent(raw: Seq<char>, detected: Seq<char>)
    requires
        is_ascii_seq(trim_seq(raw)),
        is_ascii_seq(trim_seq(detected)),
        ascii_normalized(detected, detected) == detected,
    ensures
        is_ascii_seq(trim_seq(ascii_normalized(raw, detected))),
        ascii_normalized(ascii_normalized(raw, detected), detected) == ascii_normalized(raw, detected),
{
    let t = trim_seq(raw);
    let l = ascii_lower_seq(t);
    let r = ascii_normalized(raw, detected);
    if l.len() == 0 || l == "auto"@ {
    } else if lookup_text(locale_aliases(), l) is Some {
        lemma_lookup_found(locale_aliases(), l);
        lemma_alias_targets_settled();
        let i = choose|i: int| 0 <= i < locale_aliases().len() && #[trigger] locale_aliases()[i].1 == r;
        assert(settled_language(locale_aliases()[i].1));
        lemma_trim_clean(r);
    } else {
        lemma_trim_ends(raw);
        assert(t.len() == l.len());
        assert(!is_whitespace(l[0]) && !is_whitespace(l.last())) by {
            lemma_ascii_lower_keeps_space(t[0]);
            lemma_ascii_lower_keeps_space(t.last());
        }
        lemma_trim_clean(l);
        assert(is_ascii_seq(l)) by {
            assert forall|i: int| 0 <= i < l.len() implies (#[trigger] l[i] as u32) < 128 by {
                lemma_ascii_lower_keeps_space(t[i]);
            }
        }
        assert(ascii_lower_seq(l) =~= l) by {
            assert forall|i: int| 0 <= i < l.len() implies #[trigger] ascii_lower(l[i]) == l[i] by {
                lemma_ascii_lower_keeps_space(t[i]);
            }
        }
    }
}

/// ASCII lower-casing keeps whitespace, non-whitespace and ASCII-ness, and a second time
/// changes nothing.
proof fn lemma_ascii_lower_keeps_space(c: char)
    ensures
        is_whitespace(ascii_lower(c)) == is_whitespace(c),
        (c as u32) < 128 ==> (ascii_lower(c) as u32) < 128,
        ascii_lower(ascii_lower(c)) == ascii_lower(c),
{
}

/// The table language for the `boss_locale` setting: the detected game language when unset,
/// blank or `auto`, else the normalized setting.
pub open spec fn locale_for_setting(config_locale: Option<Seq<char>>, detected: Seq<char>) -> Seq<char> {
    match config_locale {
        None => detected,
        Some(c) => {
            let t = trim_seq(c);
            if t.len() == 0 || t == "auto"@ {
                detected
            } else {
                locale_from_lowered(unicode_lowercase(trim_seq(t)), detected)
            }
        },
    }
}

/// Resolves the `boss_locale` setting (see [`locale_for_setting`]). A set value resolves exactly
/// as [`normalize_locale_id`] normalizes it: a blank or `auto` setting (in any case, with any
/// surrounding spaces) is the detected language either way.
pub fn resolve_locale_id(config_locale: Option<&str>, detected: &str) -> (r: String)
    ensures
        r@ == locale_for_setting(
            match config_locale {
                Some(c) => Some(c@),
                None => None,
            },
            detected@,
        ),
        match config_locale {
            Some(c) => r@ == normalized_locale(c@, detected@),
            None => r@ == detected@,
        },
{
    match config_locale {
        None => string_of(detected),
        Some(c) => {
            let r = normalize_locale_id(c, detected);
            proof {
                let t = trim_seq(c@);
                lemma_trim_idempotent(c@);
                if t.len() == 0 || t == "auto"@ {
                    reveal_strlit("auto");
                    assert(is_ascii_seq(t));
                    assert(ascii_lower_seq(t) =~= t);
                }
            }
            r
        },
    }
}

/// The table language for a Steam language name (English when unknown).
pub open spec fn steam_locale(steam_lang: Seq<char>) -> Seq<char> {
    match lookup_text(steam_languages(), steam_lang) {
        Some(l) => l,
        None => "en"@,
    }
}

pub fn map_steam_language(steam_lang: &str) -> (r: String)
    ensures
        r@ == steam_locale(steam_lang@),
{
    let v = chars_of(steam_lang);
    let table = steam_language_table();
    match find_text(&table, &v) {
        Some(l) => string_of(l),
        None => string_of("en"),
    }
}

} // verus!
