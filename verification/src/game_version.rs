//! The game builds the overlay was checked against, and the probe of the running executable.
//! Reading the executable's version resource is the host's part.

use vstd::prelude::*;
use crate::text::{str_eq, string_of};

verus! {

/// Human-readable list of game builds this release was checked against.
pub const SUPPORTED_GAME_VERSIONS: &'static str = "2.7.0.0 (WW/EN), 2.7.0.1 (JP), 2.7.1.0 (WW/EN)";

/// A game build verified by hand.
#[derive(Debug, Clone, Copy, PartialEq, Eq, Structural)]
pub enum SupportedGameVersion {
    Ww270,
    Jp2701,
    Ww271,
}

pub open spec fn version_label(v: SupportedGameVersion) -> Seq<char> {
    match v {
        SupportedGameVersion::Ww270 => "2.7.0.0 WW"@,
        SupportedGameVersion::Jp2701 => "2.7.0.1 JP"@,
        SupportedGameVersion::Ww271 => "2.7.1.0 WW"@,
    }
}

impl SupportedGameVersion {
    pub fn label(self) -> (s: &'static str)
        ensures
            s@ == version_label(self),
    {
        match self {
            SupportedGameVersion::Ww270 => "2.7.0.0 WW",
            SupportedGameVersion::Jp2701 => "2.7.0.1 JP",
            SupportedGameVersion::Ww271 => "2.7.1.0 WW",
        }
    }
}

/// Language of the executable's version resource.
#[derive(Debug, Clone, Copy, PartialEq, Eq, Structural)]
pub enum ExeLanguage {
    English,
    Japanese,
    Other,
}

/// The verified build with this language and version string, if any.
pub open spec fn supported_build(lang: ExeLanguage, version: Seq<char>) -> Option<SupportedGameVersion> {
    match lang {
        ExeLanguage::English => if version == "2.7.0.0"@ {
            Some(SupportedGameVersion::Ww270)
        } else if version == "2.7.1.0"@ {
            Some(SupportedGameVersion::Ww271)
        } else {
            None
        },
        ExeLanguage::Japanese => if version == "2.7.0.1"@ {
            Some(SupportedGameVersion::Jp2701)
        } else {
            None
        },
        ExeLanguage::Other => None,
    }
}

/// The version number a build's label starts with (`2.7.1.0` for `2.7.1.0 WW`).
pub open spec fn label_version(v: SupportedGameVersion) -> Seq<char> {
    version_label(v).take(7)
}

/// The executable language a build's label names: `WW` builds are English, `JP` Japanese.
pub open spec fn label_language(v: SupportedGameVersion) -> ExeLanguage {
    if version_label(v).skip(8) == "WW"@ {
        ExeLanguage::English
    } else if version_label(v).skip(8) == "JP"@ {
        ExeLanguage::Japanese
    } else {
        ExeLanguage::Other
    }
}

/// Every verified build is recognized, and only from its own language and version: the build
/// whose label is `2.7.1.0 WW` is what an English `2.7.1.0` executable gives, and a recognized
/// executable's language and version are those its build's label names. Every build the label
/// names is also listed in [`SUPPORTED_GAME_VERSIONS`].
pub proof fn law_verified_builds_recognized(v: SupportedGameVersion, lang: ExeLanguage, version: Seq<char>)
    ensures
        supported_build(label_language(v), label_version(v)) == Some(v),
        supported_build(lang, version) == Some(v) ==> lang == label_language(v) && version
            == label_version(v),
        crate::text::contains_seq(SUPPORTED_GAME_VERSIONS@, label_version(v)),
{
    reveal_strlit("2.7.0.0 WW");
    reveal_strlit("2.7.0.1 JP");
    reveal_strlit("2.7.1.0 WW");
    reveal_strlit("2.7.0.0");
    reveal_strlit("2.7.0.1");
    reveal_strlit("2.7.1.0");
    reveal_strlit("WW");
    reveal_strlit("JP");
    reveal_strlit("2.7.0.0 (WW/EN), 2.7.0.1 (JP), 2.7.1.0 (WW/EN)");
    let listed = SUPPORTED_GAME_VERSIONS@;
    let lv = label_version(v);
    assert(version_label(v).take(7) =~= lv);
    match v {
        SupportedGameVersion::Ww270 => {
            assert(lv =~= "2.7.0.0"@);
            assert(version_label(v).skip(8) =~= "WW"@);
            assert(label_language(v) == ExeLanguage::English);
            assert(supported_build(ExeLanguage::English, lv) == Some(v));
            assert(listed.subrange(0, 7) =~= lv);
            assert(crate::text::occurs_at(listed, lv, 0));
            assert(supported_build(label_language(v), label_version(v)) == Some(v));
        },
        SupportedGameVersion::Jp2701 => {
            assert(lv =~= "2.7.0.1"@);
            assert(version_label(v).skip(8) =~= "JP"@);
            assert("JP"@[0] != "WW"@[0]);
            assert(label_language(v) == ExeLanguage::Japanese);
            assert(listed.subrange(17, 24) =~= lv);
            assert(crate::text::occurs_at(listed, lv, 17));
        },
        SupportedGameVersion::Ww271 => {
            assert(lv =~= "2.7.1.0"@);
            assert(version_label(v).skip(8) =~= "WW"@);
            assert(label_language(v) == ExeLanguage::English);
            assert(lv[4] != "2.7.0.0"@[4]);
            assert(supported_build(ExeLanguage::English, lv) == Some(v));
            assert(listed.subrange(31, 38) =~= lv);
            assert(crate::text::occurs_at(listed, lv, 31));
        },
    }
}

pub fn from_lang_version(lang: ExeLanguage, version: &str) -> (r: Option<SupportedGameVersion>)
    ensures
        r == supported_build(lang, version@),
{
    match lang {
        ExeLanguage::English => {
            if str_eq(version, "2.7.0.0") {
                Some(SupportedGameVersion::Ww270)
            } else if str_eq(version, "2.7.1.0") {
                Some(SupportedGameVersion::Ww271)
            } else {
                None
            }
        },
        ExeLanguage::Japanese => {
            if str_eq(version, "2.7.0.1") {
                Some(SupportedGameVersion::Jp2701)
            } else {
                None
            }
        },
        ExeLanguage::Other => None,
    }
}

/// What reading the executable's metadata gave.
pub enum Detection {
    Supported(SupportedGameVersion),
    /// A readable version that is not in the verified list.
    UnsupportedVersion { version: String, message: String },
    /// No usable version resource.
    Failed { message: String },
}

/// The running executable, as probed.
pub struct GameExeProbe {
    pub detected_version: Option<String>,
    pub supported: Option<SupportedGameVersion>,
    pub error: Option<String>,
}

pub open spec fn opt_text(o: Option<String>) -> Option<Seq<char>> {
    match o {
        Some(s) => Some(s@),
        None => None,
    }
}

impl GameExeProbe {
    pub fn is_supported(&self) -> (b: bool)
        ensures
            b == self.supported is Some,
    {
        self.supported.is_some()
    }

    /// A supported build is reported by its label; an unsupported one by the version it
    /// carries and the error; a failed read by the error alone.
    pub fn from_detection(d: Detection) -> (p: Self)
        ensures
            match d {
                Detection::Supported(v) => p.supported == Some(v) && opt_text(p.detected_version)
                    == Some(version_label(v)) && p.error is None,
                Detection::UnsupportedVersion { version, message } => p.supported is None
                    && opt_text(p.detected_version) == Some(version@) && opt_text(p.error) == Some(
                    message@,
                ),
                Detection::Failed { message } => p.supported is None && p.detected_version is None
                    && opt_text(p.error) == Some(message@),
            },
    {
        match d {
            Detection::Supported(v) => GameExeProbe {
                detected_version: Some(string_of(v.label())),
                supported: Some(v),
                error: None,
            },
            Detection::UnsupportedVersion { version, message } => GameExeProbe {
                detected_version: Some(version),
                supported: None,
                error: Some(message),
            },
            Detection::Failed { message } => GameExeProbe {
                detected_version: None,
                supported: None,
                error: Some(message),
            },
        }
    }
}

/// Whether any game pointer could be resolved (else the build moved what the overlay reads).
pub fn any_pointer_resolved(gamedata: bool, event_flags: bool, world_chr: bool, field_area: bool) -> (b:
    bool)
    ensures
        b == (gamedata || event_flags || world_chr || field_area),
{
    gamedata || event_flags || world_chr || field_area
}

} // verus!
