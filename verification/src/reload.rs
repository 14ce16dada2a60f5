//! When the game-data files are reloaded at run time. The host stats the files, reads and
//! parses them, and reports back; these functions decide what to do and what to remember.

use vstd::prelude::*;
use crate::text::{str_eq, string_of};

verus! {

/// A file's modification time (seconds and nanoseconds since the Unix epoch).
#[derive(Debug, Clone, Copy, PartialEq, Eq, Structural)]
pub struct FileStamp {
    pub secs: u64,
    pub nanos: u32,
}

/// What to do about a localized table on this tick.
#[derive(Debug, Clone, Copy, PartialEq, Eq, Structural)]
pub enum TableReload {
    /// Neither the language nor the file changed (or a missing file stays missing).
    Nothing,
    /// The file is missing and the language changed: fall back to the embedded English table.
    UseEmbedded,
    /// Read and parse the file.
    LoadFile,
}

/// The language a loaded table counts as: the requested one when the file loaded is the
/// override or that language's own file, else the default language.
pub open spec fn effective_locale_of(locale_id: Seq<char>, default_locale: Seq<char>, load_path: Seq<char>, locale_path: Seq<char>, using_override: bool) -> Seq<char> {
    if using_override || load_path == locale_path {
        locale_id
    } else {
        default_locale
    }
}

pub fn effective_table_locale(
    locale_id: &str,
    default_locale: &str,
    load_path: &str,
    locale_path: &str,
    using_override: bool,
) -> (r: String)
    ensures
        r@ == effective_locale_of(locale_id@, default_locale@, load_path@, locale_path@, using_override),
{
    if using_override || str_eq(load_path, locale_path) {
        string_of(locale_id)
    } else {
        string_of(default_locale)
    }
}

/// Which table language and file version is loaded.
pub struct TableWatch {
    pub active_locale: Option<String>,
    pub last_mtime: Option<FileStamp>,
}

pub open spec fn opt_str(o: Option<String>) -> Option<Seq<char>> {
    match o {
        Some(s) => Some(s@),
        None => None,
    }
}

/// The decision: a changed language or a changed (or first seen) file reloads; a missing
/// file reloads only when the language changed, from the embedded table.
pub open spec fn table_reload_for(
    active_locale: Option<Seq<char>>,
    last_mtime: Option<FileStamp>,
    effective_locale: Seq<char>,
    mtime: Option<FileStamp>,
    file_exists: bool,
) -> TableReload {
    let locale_changed = active_locale != Some(effective_locale);
    let file_changed = match (mtime, last_mtime) {
        (Some(t), Some(prev)) => t != prev,
        (Some(_), None) => true,
        _ => locale_changed,
    };
    if !locale_changed && !file_changed {
        TableReload::Nothing
    } else if !file_exists {
        if locale_changed {
            TableReload::UseEmbedded
        } else {
            TableReload::Nothing
        }
    } else {
        TableReload::LoadFile
    }
}

impl TableWatch {
    pub fn new() -> (w: Self)
        ensures
            w.active_locale is None,
            w.last_mtime is None,
    {
        TableWatch { active_locale: None, last_mtime: None }
    }

    /// Forgets what is loaded, so the next tick reloads (the language setting changed).
    pub fn reset(&mut self)
        ensures
            final(self).active_locale is None,
            final(self).last_mtime is None,
    {
        self.active_locale = None;
        self.last_mtime = None;
    }

    pub fn plan(&self, effective_locale: &str, mtime: Option<FileStamp>, file_exists: bool) -> (r: TableReload)
        ensures
            r == table_reload_for(opt_str(self.active_locale), self.last_mtime, effective_locale@, mtime, file_exists),
    {
        let locale_changed = match &self.active_locale {
            Some(a) => !str_eq(a.as_str(), effective_locale),
            None => true,
        };
        let file_changed = match (mtime, self.last_mtime) {
            (Some(t), Some(prev)) => t != prev,
            (Some(_), None) => true,
            _ => locale_changed,
        };
        if !locale_changed && !file_changed {
            TableReload::Nothing
        } else if !file_exists {
            if locale_changed {
                TableReload::UseEmbedded
            } else {
                TableReload::Nothing
            }
        } else {
            TableReload::LoadFile
        }
    }

    /// The embedded table was applied for `effective_locale`.
    pub fn record_embedded(&mut self, effective_locale: &str)
        ensures
            opt_str(final(self).active_locale) == Some(effective_locale@),
            final(self).last_mtime is None,
    {
        self.active_locale = Some(string_of(effective_locale));
        self.last_mtime = None;
    }

    /// The file was loaded: remember its language and stamp. A failed load records nothing,
    /// so the previous table stays and the next tick tries again.
    pub fn record_loaded(&mut self, effective_locale: &str, mtime: Option<FileStamp>)
        ensures
            opt_str(final(self).active_locale) == Some(effective_locale@),
            final(self).last_mtime == mtime,
    {
        self.active_locale = Some(string_of(effective_locale));
        self.last_mtime = mtime;
    }
}

/// A table just loaded is not loaded again while its language and file stay the same.
pub proof fn law_loaded_table_is_not_reloaded(effective_locale: Seq<char>, mtime: Option<FileStamp>, file_exists: bool)
    requires
        file_exists || mtime is None,
    ensures
        table_reload_for(Some(effective_locale), mtime, effective_locale, mtime, file_exists) == TableReload::Nothing,
{
}

/// A new language always reloads: from the file when it exists, else from the embedded table.
pub proof fn law_new_language_reloads(
    active_locale: Option<Seq<char>>,
    last_mtime: Option<FileStamp>,
    effective_locale: Seq<char>,
    mtime: Option<FileStamp>,
    file_exists: bool,
)
    requires
        active_locale != Some(effective_locale),
    ensures
        table_reload_for(active_locale, last_mtime, effective_locale, mtime, file_exists) == if file_exists {
            TableReload::LoadFile
        } else {
            TableReload::UseEmbedded
        },
{
}

/// What to do about a seed flags file on this tick.
#[derive(Debug, Clone, Copy, PartialEq, Eq, Structural)]
pub enum FlagsReload {
    Nothing,
    /// The file is new or changed: read and parse it (then record its stamp).
    Load(FileStamp),
    /// The file is gone while a mapping was in use: drop the mapping once.
    Clear,
}

pub open spec fn flags_reload_for(last_mtime: Option<FileStamp>, mtime: Option<FileStamp>, seed_loaded: bool) -> FlagsReload {
    match mtime {
        Some(t) => if last_mtime == Some(t) {
            FlagsReload::Nothing
        } else {
            FlagsReload::Load(t)
        },
        None => if last_mtime is Some || seed_loaded {
            FlagsReload::Clear
        } else {
            FlagsReload::Nothing
        },
    }
}

pub fn flags_reload(last_mtime: Option<FileStamp>, mtime: Option<FileStamp>, seed_loaded: bool) -> (r:
    FlagsReload)
    ensures
        r == flags_reload_for(last_mtime, mtime, seed_loaded),
{
    match mtime {
        Some(t) => {
            let same = match last_mtime {
                Some(p) => p == t,
                None => false,
            };
            if same {
                FlagsReload::Nothing
            } else {
                FlagsReload::Load(t)
            }
        },
        None => {
            if last_mtime.is_some() || seed_loaded {
                FlagsReload::Clear
            } else {
                FlagsReload::Nothing
            }
        },
    }
}

/// A flags file loaded at stamp `t` is not loaded again until its stamp changes; once it is
/// gone and its mapping dropped, it is not dropped again.
pub proof fn law_flags_reload_once(t: FileStamp, t2: FileStamp, seed_loaded: bool)
    ensures
        flags_reload_for(Some(t), Some(t), seed_loaded) == FlagsReload::Nothing,
        t2 != t ==> flags_reload_for(Some(t), Some(t2), seed_loaded) == FlagsReload::Load(t2),
        flags_reload_for(Some(t), None, seed_loaded) == FlagsReload::Clear,
        flags_reload_for(None, None, false) == FlagsReload::Nothing,
{
}

/// The flags file to watch: `lot_flags.toml` when it exists, else the legacy
/// `checks_flags.toml`.
pub fn flags_file_name(lot_flags_exists: bool) -> (name: &'static str)
    ensures
        name@ == if lot_flags_exists {
            "lot_flags.toml"@
        } else {
            "checks_flags.toml"@
        },
{
    if lot_flags_exists {
        "lot_flags.toml"
    } else {
        "checks_flags.toml"
    }
}

/// What a configuration reload changes beyond the settings themselves.
#[derive(Debug, Clone, Copy, PartialEq, Eq, Structural)]
pub struct ConfigReloadEffects {
    /// The table language setting changed: forget the loaded tables.
    pub locale_changed: bool,
    /// The regulation path changed: forget the watched regulation.
    pub regulation_changed: bool,
    /// Keeping the overlay focused was turned off: release the game cursor once.
    pub release_cursor: bool,
}

pub fn config_reload_effects(
    old_locale: Option<&str>,
    new_locale: Option<&str>,
    old_regulation: Option<&str>,
    new_regulation: Option<&str>,
    old_keep_focus: bool,
    new_keep_focus: bool,
) -> (e: ConfigReloadEffects)
    ensures
        e.locale_changed == (opt_ref(old_locale) != opt_ref(new_locale)),
        e.regulation_changed == (opt_ref(old_regulation) != opt_ref(new_regulation)),
        e.release_cursor == (old_keep_focus && !new_keep_focus),
{
    ConfigReloadEffects {
        locale_changed: !same_opt(old_locale, new_locale),
        regulation_changed: !same_opt(old_regulation, new_regulation),
        release_cursor: old_keep_focus && !new_keep_focus,
    }
}

pub open spec fn opt_ref(o: Option<&str>) -> Option<Seq<char>> {
    match o {
        Some(s) => Some(s@),
        None => None,
    }
}

fn same_opt(a: Option<&str>, b: Option<&str>) -> (r: bool)
    ensures
        r == (opt_ref(a) == opt_ref(b)),
{
    match (a, b) {
        (None, None) => true,
        (Some(x), Some(y)) => str_eq(x, y),
        _ => false,
    }
}

} // verus!
