//! Release versions for the self-update: tags parsed as semantic versions, their order, and the
//! stable releases newer than the running one, oldest first.

use vstd::prelude::*;
use crate::text::{
    append_str, chars_of, decimal, push_decimal_u64, split_chars, split_seq, string_from_chars, trim_chars,
    trim_seq, views,
};

verus! {

/// A semantic version: numbers, pre-release identifiers and build identifiers.
#[derive(Debug)]
pub struct SemVer {
    pub major: u64,
    pub minor: u64,
    pub patch: u64,
    pub pre: Vec<String>,
    pub build: Vec<String>,
}

pub ghost struct SemVerModel {
    pub major: u64,
    pub minor: u64,
    pub patch: u64,
    pub pre: Seq<Seq<char>>,
    pub build: Seq<Seq<char>>,
}

pub open spec fn texts(v: Seq<String>) -> Seq<Seq<char>> {
    v.map_values(|s: String| s@)
}

impl View for SemVer {
    type V = SemVerModel;

    open spec fn view(&self) -> SemVerModel {
        SemVerModel {
            major: self.major,
            minor: self.minor,
            patch: self.patch,
            pre: texts(self.pre@),
            build: texts(self.build@),
        }
    }
}

/// What `semver::Version::parse` gives for a text: major, minor and patch, and the pre-release
/// and build-metadata texts; `None` for a text that is not a version.
pub uninterp spec fn semver_of(text: Seq<char>) -> Option<(u64, u64, u64, Seq<char>, Seq<char>)>;

/// `semver::Version::parse`. Claimed: the result depends on the text alone ([`semver_of`]).
#[verifier::external_body]
fn semver_parse(text: &str) -> (r: Option<(u64, u64, u64, String, String)>)
    ensures
        match r {
            Some(v) => semver_of(text@) == Some((v.0, v.1, v.2, v.3@, v.4@)),
            None => semver_of(text@) is None,
        },
{
    match semver::Version::parse(text) {
        Ok(v) => Some((v.major, v.minor, v.patch, v.pre.as_str().to_string(), v.build.as_str().to_string())),
        Err(_) => None,
    }
}

/// `s` without its leading `v`s.
pub open spec fn strip_v(s: Seq<char>) -> Seq<char>
    decreases s.len(),
{
    if s.len() > 0 && s[0] == 'v' {
        strip_v(s.drop_first())
    } else {
        s
    }
}

/// The dot-separated identifiers of a pre-release or build text (none for an empty one).
pub open spec fn idents(t: Seq<char>) -> Seq<Seq<char>> {
    if t.len() == 0 {
        Seq::empty()
    } else {
        split_seq(t, '.')
    }
}

/// The version a release tag names: the tag trimmed, its leading `v`s dropped, then parsed.
pub open spec fn parsed_version(tag: Seq<char>) -> Option<SemVerModel> {
    match semver_of(strip_v(trim_seq(tag))) {
        Some((major, minor, patch, pre, build)) => Some(
            SemVerModel { major, minor, patch, pre: idents(pre), build: idents(build) },
        ),
        None => None,
    }
}

fn ident_strings(t: &String) -> (r: Vec<String>)
    ensures
        texts(r@) == idents(t@),
{
    let v = chars_of(t.as_str());
    if v.len() == 0 {
        let r: Vec<String> = Vec::new();
        assert(texts(r@) =~= Seq::<Seq<char>>::empty());
        return r;
    }
    let parts = split_chars(&v, '.');
    let mut r: Vec<String> = Vec::new();
    let mut i: usize = 0;
    while i < parts.len()
        invariant
            i <= parts.len(),
            texts(r@) =~= views(parts@).take(i as int),
        decreases parts.len() - i,
    {
        r.push(string_from_chars(&parts[i]));
        assert(views(parts@).take(i + 1) =~= views(parts@).take(i as int).push(parts@[i as int]@));
        i += 1;
    }
    assert(views(parts@).take(parts.len() as int) =~= views(parts@));
    r
}

/// Parses a release tag: surrounding whitespace and leading `v`s are dropped first.
pub fn parse_version(text: &str) -> (r: Option<SemVer>)
    ensures
        match r {
            Some(v) => parsed_version(text@) == Some(v@),
            None => parsed_version(text@) is None,
        },
{
    let t = trim_chars(&chars_of(text));
    let mut i: usize = 0;
    assert(t@.skip(0) =~= t@);
    while i < t.len() && t[i] == 'v'
        invariant
            i <= t.len(),
            strip_v(t@) == strip_v(t@.skip(i as int)),
        decreases t.len() - i,
    {
        assert(t@.skip(i as int).drop_first() =~= t@.skip(i + 1));
        i += 1;
    }
    let mut rest: Vec<char> = Vec::new();
    let mut j: usize = i;
    while j < t.len()
        invariant
            i <= j <= t.len(),
            rest@ =~= t@.subrange(i as int, j as int),
        decreases t.len() - j,
    {
        rest.push(t[j]);
        j += 1;
    }
    assert(rest@ =~= t@.skip(i as int));
    let s = string_from_chars(&rest);
    match semver_parse(s.as_str()) {
        Some((major, minor, patch, pre, build)) => {
            Some(SemVer { major, minor, patch, pre: ident_strings(&pre), build: ident_strings(&build) })
        },
        None => None,
    }
}

/// The sign of `x`: -1, 0 or 1.
pub open spec fn sign(x: int) -> int {
    if x < 0 {
        -1
    } else if x > 0 {
        1
    } else {
        0
    }
}

/// Lexical order of two texts by character code: -1, 0 or 1.
pub open spec fn lex_order(a: Seq<char>, b: Seq<char>) -> int
    decreases a.len(),
{
    if a.len() == 0 {
        if b.len() == 0 {
            0
        } else {
            -1
        }
    } else if b.len() == 0 {
        1
    } else if a[0] != b[0] {
        sign(a[0] as int - b[0] as int)
    } else {
        lex_order(a.drop_first(), b.drop_first())
    }
}

/// Only ASCII digits (vacuously so for an empty text).
pub open spec fn numeric(s: Seq<char>) -> bool {
    forall|i: int| 0 <= i < s.len() ==> '0' <= #[trigger] s[i] && s[i] <= '9'
}

/// `s` without its leading zeros.
pub open spec fn strip_zeros(s: Seq<char>) -> Seq<char>
    decreases s.len(),
{
    if s.len() > 0 && s[0] == '0' {
        strip_zeros(s.drop_first())
    } else {
        s
    }
}

/// Order of two pre-release identifiers: numeric ones by length, then digit by digit; a
/// numeric one before a non-numeric one; non-numeric ones lexically.
pub open spec fn pre_ident_order(a: Seq<char>, b: Seq<char>) -> int {
    if numeric(a) && numeric(b) {
        if a.len() != b.len() {
            sign(a.len() - b.len())
        } else {
            lex_order(a, b)
        }
    } else if numeric(a) {
        -1
    } else if numeric(b) {
        1
    } else {
        lex_order(a, b)
    }
}

/// Order of two build identifiers: numeric ones by value (leading zeros dropped: length, then
/// digits), ties broken by length; a numeric one before a non-numeric one; others lexically.
pub open spec fn build_ident_order(a: Seq<char>, b: Seq<char>) -> int {
    if numeric(a) && numeric(b) {
        let za = strip_zeros(a);
        let zb = strip_zeros(b);
        if za.len() != zb.len() {
            sign(za.len() - zb.len())
        } else if lex_order(za, zb) != 0 {
            lex_order(za, zb)
        } else {
            sign(a.len() - b.len())
        }
    } else if numeric(a) {
        -1
    } else if numeric(b) {
        1
    } else {
        lex_order(a, b)
    }
}

pub open spec fn ident_order(a: Seq<char>, b: Seq<char>, build: bool) -> int {
    if build {
        build_ident_order(a, b)
    } else {
        pre_ident_order(a, b)
    }
}

/// Identifier lists compared pairwise; when one list is a prefix of the other, the longer one
/// is greater.
pub open spec fn list_order(a: Seq<Seq<char>>, b: Seq<Seq<char>>, build: bool) -> int
    decreases a.len(),
{
    if a.len() == 0 {
        if b.len() == 0 {
            0
        } else {
            -1
        }
    } else if b.len() == 0 {
        1
    } else if ident_order(a[0], b[0], build) != 0 {
        ident_order(a[0], b[0], build)
    } else {
        list_order(a.drop_first(), b.drop_first(), build)
    }
}

/// Pre-release order: a release (no identifiers) is greater than any pre-release.
pub open spec fn pre_order(a: Seq<Seq<char>>, b: Seq<Seq<char>>) -> int {
    if a.len() == 0 && b.len() == 0 {
        0
    } else if a.len() == 0 {
        1
    } else if b.len() == 0 {
        -1
    } else {
        list_order(a, b, false)
    }
}

/// Build identifiers as the build text splits (an empty text is one empty identifier).
pub open spec fn build_pieces(a: Seq<Seq<char>>) -> Seq<Seq<char>> {
    if a.len() == 0 {
        seq![Seq::<char>::empty()]
    } else {
        a
    }
}

/// Build-metadata order (two empty builds are equal).
pub open spec fn build_order(a: Seq<Seq<char>>, b: Seq<Seq<char>>) -> int {
    if a.len() == 0 && b.len() == 0 {
        0
    } else {
        list_order(build_pieces(a), build_pieces(b), true)
    }
}

/// The order of `semver::Version`: major, minor, patch, pre-release, then build metadata.
pub open spec fn version_order(a: SemVerModel, b: SemVerModel) -> int {
    if a.major != b.major {
        sign(a.major - b.major)
    } else if a.minor != b.minor {
        sign(a.minor - b.minor)
    } else if a.patch != b.patch {
        sign(a.patch - b.patch)
    } else if pre_order(a.pre, b.pre) != 0 {
        pre_order(a.pre, b.pre)
    } else {
        build_order(a.build, b.build)
    }
}

/// `a` is a newer version than `b`.
pub open spec fn semver_gt(a: SemVerModel, b: SemVerModel) -> bool {
    version_order(a, b) > 0
}

proof fn lemma_lex_antisym(a: Seq<char>, b: Seq<char>)
    ensures
        lex_order(a, b) == -lex_order(b, a),
        lex_order(a, b) == 0 ==> a == b,
    decreases a.len(),
{
    if a.len() > 0 && b.len() > 0 && a[0] == b[0] {
        lemma_lex_antisym(a.drop_first(), b.drop_first());
        if lex_order(a, b) == 0 {
            assert(a =~= seq![a[0]] + a.drop_first());
            assert(b =~= seq![b[0]] + b.drop_first());
        }
    }
}

proof fn lemma_ident_antisym(a: Seq<char>, b: Seq<char>, build: bool)
    ensures
        ident_order(a, b, build) == -ident_order(b, a, build),
{
    lemma_lex_antisym(a, b);
    lemma_lex_antisym(strip_zeros(a), strip_zeros(b));
}

proof fn lemma_list_antisym(a: Seq<Seq<char>>, b: Seq<Seq<char>>, build: bool)
    ensures
        list_order(a, b, build) == -list_order(b, a, build),
    decreases a.len(),
{
    if a.len() > 0 && b.len() > 0 {
        lemma_ident_antisym(a[0], b[0], build);
        lemma_list_antisym(a.drop_first(), b.drop_first(), build);
    }
}

/// The version order is antisymmetric: `a` is newer than `b` exactly when `b` is older.
pub proof fn lemma_version_antisym(a: SemVerModel, b: SemVerModel)
    ensures
        version_order(a, b) == -version_order(b, a),
{
    lemma_list_antisym(a.pre, b.pre, false);
    lemma_list_antisym(build_pieces(a.build), build_pieces(b.build), true);
}

fn lex_compare(a: &Vec<char>, b: &Vec<char>) -> (r: i8)
    ensures
        r as int == lex_order(a@, b@),
{
    let mut i: usize = 0;
    assert(a@.skip(0) =~= a@);
    assert(b@.skip(0) =~= b@);
    while i < a.len() && i < b.len()
        invariant
            i <= a.len() && i <= b.len(),
            lex_order(a@, b@) == lex_order(a@.skip(i as int), b@.skip(i as int)),
        decreases a.len() - i,
    {
        if a[i] != b[i] {
            return if a[i] < b[i] {
                -1
            } else {
                1
            };
        }
        assert(a@.skip(i as int).drop_first() =~= a@.skip(i + 1));
        assert(b@.skip(i as int).drop_first() =~= b@.skip(i + 1));
        i += 1;
    }
    if i == a.len() {
        if i == b.len() {
            0
        } else {
            -1
        }
    } else {
        1
    }
}

fn is_numeric(s: &Vec<char>) -> (b: bool)
    ensures
        b == numeric(s@),
{
    let mut i: usize = 0;
    while i < s.len()
        invariant
            i <= s.len(),
            forall|k: int| 0 <= k < i ==> '0' <= #[trigger] s@[k] && s@[k] <= '9',
        decreases s.len() - i,
    {
        if !('0' <= s[i] && s[i] <= '9') {
            return false;
        }
        i += 1;
    }
    true
}

fn without_zeros(s: &Vec<char>) -> (r: Vec<char>)
    ensures
        r@ == strip_zeros(s@),
{
    let mut i: usize = 0;
    assert(s@.skip(0) =~= s@);
    while i < s.len() && s[i] == '0'
        invariant
            i <= s.len(),
            strip_zeros(s@) == strip_zeros(s@.skip(i as int)),
        decreases s.len() - i,
    {
        assert(s@.skip(i as int).drop_first() =~= s@.skip(i + 1));
        i += 1;
    }
    let mut r: Vec<char> = Vec::new();
    let mut j: usize = i;
    while j < s.len()
        invariant
            i <= j <= s.len(),
            r@ =~= s@.subrange(i as int, j as int),
        decreases s.len() - j,
    {
        r.push(s[j]);
        j += 1;
    }
    assert(r@ =~= s@.skip(i as int));
    r
}

fn len_sign(a: usize, b: usize) -> (r: i8)
    ensures
        r as int == sign(a - b),
{
    if a < b {
        -1
    } else if a > b {
        1
    } else {
        0
    }
}

fn ident_compare(a: &Vec<char>, b: &Vec<char>, build: bool) -> (r: i8)
    ensures
        r as int == ident_order(a@, b@, build),
{
    let na = is_numeric(a);
    let nb = is_numeric(b);
    if na && nb {
        if build {
            let za = without_zeros(a);
            let zb = without_zeros(b);
            if za.len() != zb.len() {
                len_sign(za.len(), zb.len())
            } else {
                let c = lex_compare(&za, &zb);
                if c != 0 {
                    c
                } else {
                    len_sign(a.len(), b.len())
                }
            }
        } else if a.len() != b.len() {
            len_sign(a.len(), b.len())
        } else {
            lex_compare(a, b)
        }
    } else if na {
        -1
    } else if nb {
        1
    } else {
        lex_compare(a, b)
    }
}

fn list_compare(a: &Vec<Vec<char>>, b: &Vec<Vec<char>>, build: bool) -> (r: i8)
    ensures
        r as int == list_order(views(a@), views(b@), build),
{
    let mut i: usize = 0;
    assert(views(a@).skip(0) =~= views(a@));
    assert(views(b@).skip(0) =~= views(b@));
    while i < a.len() && i < b.len()
        invariant
            i <= a.len() && i <= b.len(),
            list_order(views(a@), views(b@), build) == list_order(
                views(a@).skip(i as int),
                views(b@).skip(i as int),
                build,
            ),
        decreases a.len() - i,
    {
        let c = ident_compare(&a[i], &b[i], build);
        assert(views(a@).skip(i as int)[0] == a@[i as int]@);
        assert(views(b@).skip(i as int)[0] == b@[i as int]@);
        if c != 0 {
            return c;
        }
        assert(views(a@).skip(i as int).drop_first() =~= views(a@).skip(i + 1));
        assert(views(b@).skip(i as int).drop_first() =~= views(b@).skip(i + 1));
        i += 1;
    }
    if i == a.len() {
        if i == b.len() {
            0
        } else {
            -1
        }
    } else {
        1
    }
}

fn ident_chars(v: &Vec<String>) -> (r: Vec<Vec<char>>)
    ensures
        views(r@) == texts(v@),
{
    let mut r: Vec<Vec<char>> = Vec::new();
    let mut i: usize = 0;
    while i < v.len()
        invariant
            i <= v.len(),
            views(r@) =~= texts(v@).take(i as int),
        decreases v.len() - i,
    {
        r.push(chars_of(v[i].as_str()));
        assert(texts(v@).take(i + 1) =~= texts(v@).take(i as int).push(v@[i as int]@));
        i += 1;
    }
    assert(texts(v@).take(v.len() as int) =~= texts(v@));
    r
}

fn u64_sign(a: u64, b: u64) -> (r: i8)
    ensures
        r as int == sign(a - b),
{
    if a < b {
        -1
    } else if a > b {
        1
    } else {
        0
    }
}

fn version_compare(a: &SemVer, b: &SemVer) -> (r: i8)
    ensures
        r as int == version_order(a@, b@),
{
    if a.major != b.major {
        return u64_sign(a.major, b.major);
    }
    if a.minor != b.minor {
        return u64_sign(a.minor, b.minor);
    }
    if a.patch != b.patch {
        return u64_sign(a.patch, b.patch);
    }
    let pa = ident_chars(&a.pre);
    let pb = ident_chars(&b.pre);
    let p: i8 = if pa.len() == 0 && pb.len() == 0 {
        0
    } else if pa.len() == 0 {
        1
    } else if pb.len() == 0 {
        -1
    } else {
        list_compare(&pa, &pb, false)
    };
    if p != 0 {
        return p;
    }
    let mut ba = ident_chars(&a.build);
    let mut bb = ident_chars(&b.build);
    if ba.len() == 0 && bb.len() == 0 {
        return 0;
    }
    if ba.len() == 0 {
        ba.push(Vec::new());
        assert(views(ba@) =~= build_pieces(texts(a.build@)));
    }
    if bb.len() == 0 {
        bb.push(Vec::new());
        assert(views(bb@) =~= build_pieces(texts(b.build@)));
    }
    list_compare(&ba, &bb, true)
}

/// Identifiers joined with `.`.
pub open spec fn dotted(ids: Seq<Seq<char>>) -> Seq<char>
    decreases ids.len(),
{
    if ids.len() == 0 {
        Seq::empty()
    } else if ids.len() == 1 {
        ids[0]
    } else {
        dotted(ids.drop_last()) + seq!['.'] + ids.last()
    }
}

/// How a version is written: `major.minor.patch`, then `-` and the pre-release identifiers,
/// then `+` and the build identifiers, each part only when it has identifiers.
pub open spec fn version_text(v: SemVerModel) -> Seq<char> {
    decimal(v.major as nat) + seq!['.'] + decimal(v.minor as nat) + seq!['.'] + decimal(v.patch as nat) + (
    if v.pre.len() > 0 {
        seq!['-'] + dotted(v.pre)
    } else {
        Seq::empty()
    }) + (if v.build.len() > 0 {
        seq!['+'] + dotted(v.build)
    } else {
        Seq::empty()
    })
}

fn push_dotted(out: &mut Vec<char>, ids: &Vec<String>)
    ensures
        final(out)@ == old(out)@ + dotted(texts(ids@)),
{
    let mut i: usize = 0;
    let ghost start = out@;
    while i < ids.len()
        invariant
            i <= ids.len(),
            out@ == start + dotted(texts(ids@).take(i as int)),
        decreases ids.len() - i,
    {
        let ghost t = texts(ids@).take(i + 1);
        assert(t.drop_last() =~= texts(ids@).take(i as int));
        if i > 0 {
            out.push('.');
        }
        append_str(out, ids[i].as_str());
        proof {
            if i == 0 {
                assert(dotted(texts(ids@).take(0)) =~= Seq::<char>::empty());
            }
        }
        assert(out@ =~= start + dotted(t));
        i += 1;
    }
    assert(texts(ids@).take(ids.len() as int) =~= texts(ids@));
}

/// The text of a version (see [`version_text`]).
pub fn version_string(v: &SemVer) -> (s: String)
    ensures
        s@ == version_text(v@),
{
    let mut out: Vec<char> = Vec::new();
    push_decimal_u64(&mut out, v.major);
    out.push('.');
    push_decimal_u64(&mut out, v.minor);
    out.push('.');
    push_decimal_u64(&mut out, v.patch);
    let ghost nums = out@;
    if v.pre.len() > 0 {
        out.push('-');
        push_dotted(&mut out, &v.pre);
    }
    let ghost with_pre = out@;
    if v.build.len() > 0 {
        out.push('+');
        push_dotted(&mut out, &v.build);
    }
    assert(out@ =~= version_text(v@));
    string_from_chars(&out)
}

proof fn lemma_lex_trans(a: Seq<char>, b: Seq<char>, c: Seq<char>)
    requires
        lex_order(a, b) <= 0,
        lex_order(b, c) <= 0,
    ensures
        lex_order(a, c) <= 0,
    decreases a.len(),
{
    if a.len() > 0 && b.len() > 0 && c.len() > 0 && a[0] == b[0] && b[0] == c[0] {
        lemma_lex_trans(a.drop_first(), b.drop_first(), c.drop_first());
    }
}

proof fn lemma_ident_trans(a: Seq<char>, b: Seq<char>, c: Seq<char>, build: bool)
    requires
        ident_order(a, b, build) <= 0,
        ident_order(b, c, build) <= 0,
    ensures
        ident_order(a, c, build) <= 0,
{
    lemma_lex_antisym(a, b);
    lemma_lex_antisym(b, c);
    lemma_lex_antisym(a, c);
    if lex_order(a, b) <= 0 && lex_order(b, c) <= 0 {
        lemma_lex_trans(a, b, c);
    }
    let za = strip_zeros(a);
    let zb = strip_zeros(b);
    let zc = strip_zeros(c);
    lemma_lex_antisym(za, zb);
    lemma_lex_antisym(zb, zc);
    lemma_lex_antisym(za, zc);
    if lex_order(za, zb) <= 0 && lex_order(zb, zc) <= 0 {
        lemma_lex_trans(za, zb, zc);
    }
}

proof fn lemma_list_trans(a: Seq<Seq<char>>, b: Seq<Seq<char>>, c: Seq<Seq<char>>, build: bool)
    requires
        list_order(a, b, build) <= 0,
        list_order(b, c, build) <= 0,
    ensures
        list_order(a, c, build) <= 0,
    decreases a.len(),
{
    if a.len() > 0 && b.len() > 0 && c.len() > 0 {
        let (a0, b0, c0) = (a[0], b[0], c[0]);
        lemma_ident_antisym(a0, b0, build);
        lemma_ident_antisym(b0, c0, build);
        lemma_ident_antisym(a0, c0, build);
        let x = ident_order(a0, b0, build);
        let y = ident_order(b0, c0, build);
        assert(x <= 0 && y <= 0);
        lemma_ident_trans(a0, b0, c0, build);
        if ident_order(a0, c0, build) == 0 {
            lemma_ident_trans(c0, a0, b0, build);
            lemma_ident_trans(b0, c0, a0, build);
            assert(x == 0 && y == 0);
            lemma_list_trans(a.drop_first(), b.drop_first(), c.drop_first(), build);
        }
    }
}

proof fn lemma_pre_trans(a: Seq<Seq<char>>, b: Seq<Seq<char>>, c: Seq<Seq<char>>)
    requires
        pre_order(a, b) <= 0,
        pre_order(b, c) <= 0,
    ensures
        pre_order(a, c) <= 0,
{
    if a.len() > 0 && b.len() > 0 && c.len() > 0 {
        lemma_list_trans(a, b, c, false);
    }
}

proof fn lemma_build_order_pieces(a: Seq<Seq<char>>, b: Seq<Seq<char>>)
    ensures
        build_order(a, b) == list_order(build_pieces(a), build_pieces(b), true),
{
    if a.len() == 0 && b.len() == 0 {
        let e = Seq::<char>::empty();
        assert(numeric(e));
        assert(strip_zeros(e) == e);
        assert(lex_order(e, e) == 0);
        assert(build_pieces(a)[0] == e);
        assert(build_pieces(a).drop_first().len() == 0);
        assert(list_order(build_pieces(a), build_pieces(b), true) == list_order(
            build_pieces(a).drop_first(),
            build_pieces(b).drop_first(),
            true,
        ));
    }
}

/// The version order is transitive: a version not newer than a second one, which is not newer
/// than a third, is not newer than the third.
pub proof fn lemma_version_trans(a: SemVerModel, b: SemVerModel, c: SemVerModel)
    requires
        version_order(a, b) <= 0,
        version_order(b, c) <= 0,
    ensures
        version_order(a, c) <= 0,
{
    lemma_version_antisym(a, b);
    lemma_version_antisym(b, c);
    lemma_version_antisym(a, c);
    lemma_list_antisym(a.pre, b.pre, false);
    lemma_list_antisym(b.pre, c.pre, false);
    lemma_list_antisym(a.pre, c.pre, false);
    if a.major == b.major && b.major == c.major && a.minor == b.minor && b.minor == c.minor
        && a.patch == b.patch && b.patch == c.patch {
        let (x, y) = (pre_order(a.pre, b.pre), pre_order(b.pre, c.pre));
        assert(x <= 0 && y <= 0);
        lemma_pre_trans(a.pre, b.pre, c.pre);
        if pre_order(a.pre, c.pre) == 0 {
            lemma_pre_trans(c.pre, a.pre, b.pre);
            lemma_pre_trans(b.pre, c.pre, a.pre);
            assert(x == 0 && y == 0);
            lemma_build_order_pieces(a.build, b.build);
            lemma_build_order_pieces(b.build, c.build);
            lemma_build_order_pieces(a.build, c.build);
            lemma_list_trans(build_pieces(a.build), build_pieces(b.build), build_pieces(c.build), true);
        }
    }
}

/// Whether `a` is a newer version than `b` (the order of `semver::Version`).
pub fn version_newer(a: &SemVer, b: &SemVer) -> (r: bool)
    ensures
        r == semver_gt(a@, b@),
{
    version_compare(a, b) > 0
}

/// A release as the host lists it.
pub struct ReleaseInfo {
    pub tag_name: String,
    pub draft: bool,
    pub prerelease: bool,
}

/// A stable release (not a draft, not a pre-release) whose tag names a version newer than
/// `current`.
pub open spec fn newer_release(r: ReleaseInfo, current: SemVerModel) -> bool {
    &&& !r.draft
    &&& !r.prerelease
    &&& parsed_version(r.tag_name@) is Some
    &&& semver_gt(parsed_version(r.tag_name@)->0, current)
}

/// The version of release `i` of `rs`.
pub open spec fn release_version(rs: Seq<ReleaseInfo>, i: int) -> SemVerModel {
    parsed_version(rs[i].tag_name@)->0
}

/// Releases `i` and `j` come in this order: `i`'s version is not newer, and on equal versions
/// the release listed first comes first.
pub open spec fn in_order(rs: Seq<ReleaseInfo>, i: int, j: int) -> bool {
    &&& !semver_gt(release_version(rs, i), release_version(rs, j))
    &&& (!semver_gt(release_version(rs, j), release_version(rs, i)) ==> i < j)
}

pub open spec fn opt_view(o: Option<SemVer>) -> Option<SemVerModel> {
    match o {
        Some(v) => Some(v@),
        None => None,
    }
}

fn parsed_newer(parsed: &Vec<Option<SemVer>>, a: usize, b: usize) -> (r: bool)
    requires
        a < parsed@.len(),
        b < parsed@.len(),
    ensures
        r == (opt_view(parsed@[a as int]) is Some && opt_view(parsed@[b as int]) is Some && semver_gt(
            opt_view(parsed@[a as int])->0,
            opt_view(parsed@[b as int])->0,
        )),
{
    match &parsed[a] {
        Some(w) => match &parsed[b] {
            Some(x) => version_newer(w, x),
            None => false,
        },
        None => false,
    }
}

/// The indices are releases below `n`, each newer than `current`, each once, in order.
pub open spec fn ordered_newer(out: Seq<usize>, rs: Seq<ReleaseInfo>, current: SemVerModel, n: int) -> bool {
    &&& forall|k: int| 0 <= k < out.len() ==> #[trigger] out[k] < n && newer_release(rs[out[k] as int], current)
    &&& forall|j: int, k: int| 0 <= j < k < out.len() ==> out[j] != out[k]
    &&& forall|k: int| 0 <= k < out.len() - 1 ==> in_order(rs, #[trigger] out[k] as int, out[k + 1] as int)
}

/// Inserts release `i` (newer than `current`) after the releases whose version is not newer.
fn insert_release(
    out: &mut Vec<usize>,
    parsed: &Vec<Option<SemVer>>,
    releases: &Vec<ReleaseInfo>,
    current: &SemVer,
    i: usize,
)
    requires
        i < releases@.len(),
        parsed@.len() == i + 1,
        forall|k: int| 0 <= k < i + 1 ==> opt_view(#[trigger] parsed@[k]) == parsed_version(releases@[k].tag_name@),
        newer_release(releases@[i as int], current@),
        ordered_newer(old(out)@, releases@, current@, i as int),
    ensures
        ordered_newer(final(out)@, releases@, current@, i + 1),
        forall|m: usize| old(out)@.contains(m) ==> final(out)@.contains(m),
        final(out)@.contains(i),
{
    let ghost vx = release_version(releases@, i as int);
    assert(opt_view(parsed@[i as int]) == Some(vx));
    let mut p: usize = out.len();
    while p > 0 && parsed_newer(parsed, out[p - 1], i)
        invariant
            p <= out@.len(),
            out@ == old(out)@,
            parsed@.len() == i + 1,
            opt_view(parsed@[i as int]) == Some(vx),
            forall|k: int| 0 <= k < i + 1 ==> opt_view(#[trigger] parsed@[k]) == parsed_version(releases@[k].tag_name@),
            ordered_newer(out@, releases@, current@, i as int),
            forall|q: int| p <= q < out@.len() ==> semver_gt(release_version(releases@, #[trigger] out@[q] as int), vx),
        decreases p,
    {
        p -= 1;
    }
    proof {
        if p > 0 {
            let w = out@[p - 1] as int;
            assert(opt_view(parsed@[w]) == parsed_version(releases@[w].tag_name@));
        }
    }
    let ghost before = out@;
    out.insert(p, i);
    proof {
        lemma_insert_in_order(before, p as int, i, releases@, current@, vx);
    }
}

proof fn lemma_insert_in_order(
    before: Seq<usize>,
    p: int,
    i: usize,
    rs: Seq<ReleaseInfo>,
    current: SemVerModel,
    vx: SemVerModel,
)
    requires
        ordered_newer(before, rs, current, i as int),
        0 <= p <= before.len(),
        i < rs.len(),
        release_version(rs, i as int) == vx,
        newer_release(rs[i as int], current),
        p > 0 ==> !semver_gt(release_version(rs, before[p - 1] as int), vx),
        forall|q: int| p <= q < before.len() ==> semver_gt(release_version(rs, #[trigger] before[q] as int), vx),
    ensures
        ordered_newer(before.insert(p, i), rs, current, i + 1),
        forall|m: usize| before.contains(m) ==> before.insert(p, i).contains(m),
        before.insert(p, i).contains(i),
{
    lemma_insert_adjacent(before, p, i, rs, current, vx);
    lemma_insert_members(before, p, i, rs, current);
    lemma_insert_distinct(before, p, i);
}

proof fn lemma_insert_adjacent(
    before: Seq<usize>,
    p: int,
    i: usize,
    rs: Seq<ReleaseInfo>,
    current: SemVerModel,
    vx: SemVerModel,
)
    requires
        ordered_newer(before, rs, current, i as int),
        0 <= p <= before.len(),
        release_version(rs, i as int) == vx,
        p > 0 ==> !semver_gt(release_version(rs, before[p - 1] as int), vx),
        forall|q: int| p <= q < before.len() ==> semver_gt(release_version(rs, #[trigger] before[q] as int), vx),
    ensures
        forall|k: int|
            0 <= k < before.insert(p, i).len() - 1 ==> in_order(
                rs,
                #[trigger] before.insert(p, i)[k] as int,
                before.insert(p, i)[k + 1] as int,
            ),
{
    let out = before.insert(p, i);
    assert forall|k: int| 0 <= k < out.len() - 1 implies in_order(rs, #[trigger] out[k] as int, out[k + 1] as int) by {
        if k + 1 < p {
            assert(out[k] == before[k] && out[k + 1] == before[k + 1]);
        } else if k + 1 == p {
            assert(out[k] == before[k] && out[k + 1] == i);
            assert(before[k] < i);
        } else if k == p {
            assert(out[k] == i && out[k + 1] == before[k]);
            lemma_version_antisym(release_version(rs, before[k] as int), vx);
        } else {
            assert(out[k] == before[k - 1] && out[k + 1] == before[k]);
        }
    }
}

proof fn lemma_insert_members(before: Seq<usize>, p: int, i: usize, rs: Seq<ReleaseInfo>, current: SemVerModel)
    requires
        forall|k: int| 0 <= k < before.len() ==> #[trigger] before[k] < i && newer_release(rs[before[k] as int], current),
        0 <= p <= before.len(),
        newer_release(rs[i as int], current),
    ensures
        forall|k: int|
            0 <= k < before.insert(p, i).len() ==> #[trigger] before.insert(p, i)[k] < i + 1 && newer_release(
                rs[before.insert(p, i)[k] as int],
                current,
            ),
        forall|m: usize| before.contains(m) ==> before.insert(p, i).contains(m),
        before.insert(p, i).contains(i),
{
    let out = before.insert(p, i);
    assert forall|k: int| 0 <= k < out.len() implies #[trigger] out[k] < i + 1 && newer_release(rs[out[k] as int], current) by {
        if k < p {
            assert(out[k] == before[k]);
        } else if k > p {
            assert(out[k] == before[k - 1]);
        }
    }
    assert forall|m: usize| before.contains(m) implies out.contains(m) by {
        let k = choose|k: int| 0 <= k < before.len() && before[k] == m;
        if k < p {
            assert(out[k] == before[k]);
        } else {
            assert(out[k + 1] == before[k]);
        }
    }
    assert(out[p] == i);
}

proof fn lemma_insert_distinct(before: Seq<usize>, p: int, i: usize)
    requires
        forall|k: int| 0 <= k < before.len() ==> #[trigger] before[k] < i,
        forall|j: int, k: int| 0 <= j < k < before.len() ==> before[j] != before[k],
        0 <= p <= before.len(),
    ensures
        forall|j: int, k: int| 0 <= j < k < before.insert(p, i).len() ==> before.insert(p, i)[j] != before.insert(p, i)[k],
{
    let out = before.insert(p, i);
    assert forall|j: int, k: int| 0 <= j < k < out.len() implies out[j] != out[k] by {
        if j != p && k != p {
            let bj = if j < p { j } else { j - 1 };
            let bk = if k < p { k } else { k - 1 };
            assert(out[j] == before[bj] && out[k] == before[bk]);
        } else if j == p {
            assert(out[k] == before[k - 1]);
        } else {
            assert(out[j] == before[j]);
        }
    }
}

proof fn lemma_in_order_trans(rs: Seq<ReleaseInfo>, i: int, j: int, k: int)
    requires
        in_order(rs, i, j),
        in_order(rs, j, k),
    ensures
        in_order(rs, i, k),
{
    let (vi, vj, vk) = (release_version(rs, i), release_version(rs, j), release_version(rs, k));
    lemma_version_antisym(vi, vj);
    lemma_version_antisym(vj, vk);
    lemma_version_antisym(vi, vk);
    lemma_version_trans(vi, vj, vk);
    if !semver_gt(vk, vi) {
        lemma_version_trans(vk, vi, vj);
        lemma_version_trans(vj, vk, vi);
    }
}

proof fn lemma_chain(out: Seq<usize>, rs: Seq<ReleaseInfo>, j: int, k: int)
    requires
        0 <= j < k < out.len(),
        forall|m: int| 0 <= m < out.len() - 1 ==> in_order(rs, #[trigger] out[m] as int, out[m + 1] as int),
    ensures
        in_order(rs, out[j] as int, out[k] as int),
    decreases k - j,
{
    if k > j + 1 {
        lemma_chain(out, rs, j, k - 1);
        assert(in_order(rs, out[k - 1] as int, out[k] as int));
        lemma_in_order_trans(rs, out[j] as int, out[k - 1] as int, out[k] as int);
    }
}

/// Indices of the stable releases newer than `current`, each once, oldest version first
/// (releases of equal version in list order).
pub fn releases_newer_than(releases: &Vec<ReleaseInfo>, current: &SemVer) -> (idx: Vec<usize>)
    ensures
        forall|k: int| 0 <= k < idx@.len() ==> #[trigger] idx@[k] < releases@.len() && newer_release(releases@[idx@[k] as int], current@),
        forall|i: int| 0 <= i < releases@.len() && newer_release(#[trigger] releases@[i], current@) ==> idx@.contains(i as usize),
        forall|j: int, k: int| 0 <= j < k < idx@.len() ==> idx@[j] != idx@[k],
        forall|j: int, k: int|
            0 <= j < k < idx@.len() ==> in_order(releases@, #[trigger] idx@[j] as int, #[trigger] idx@[k] as int),
{
    let mut parsed: Vec<Option<SemVer>> = Vec::new();
    let mut out: Vec<usize> = Vec::new();
    let mut i: usize = 0;
    while i < releases.len()
        invariant
            i <= releases.len(),
            parsed@.len() == i,
            forall|k: int| 0 <= k < i ==> opt_view(#[trigger] parsed@[k]) == parsed_version(releases@[k].tag_name@),
            ordered_newer(out@, releases@, current@, i as int),
            forall|m: int| 0 <= m < i && newer_release(#[trigger] releases@[m], current@) ==> out@.contains(m as usize),
        decreases releases.len() - i,
    {
        let r = &releases[i];
        let v = parse_version(r.tag_name.as_str());
        let ghost vi = opt_view(v);
        let keep = match &v {
            Some(x) => !r.draft && !r.prerelease && version_newer(x, current),
            None => false,
        };
        parsed.push(v);
        assert(opt_view(parsed@[i as int]) == parsed_version(releases@[i as int].tag_name@));
        if keep {
            insert_release(&mut out, &parsed, releases, current, i);
        } else {
            proof {
                assert(!newer_release(releases@[i as int], current@));
            }
        }
        i += 1;
    }
    proof {
        assert forall|j: int, k: int| 0 <= j < k < out@.len() implies in_order(
            releases@,
            #[trigger] out@[j] as int,
            #[trigger] out@[k] as int,
        ) by {
            lemma_chain(out@, releases@, j, k);
        }
    }
    out
}

} // verus!
