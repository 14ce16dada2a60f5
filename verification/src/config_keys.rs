//! The settings a new release adds: keys of the release's configuration file that the user's
//! file lacks, by dotted path, with the release's value.

use vstd::prelude::*;
use crate::text::{append_str, chars_of, str_eq, string_from_chars, string_of};

verus! {

/// A value of a configuration document: a table of named values, or any other value by the
/// text it is shown with.
pub enum ConfigValue {
    Table(Vec<(String, ConfigValue)>),
    Value(String),
}

/// `prefix.key`, or `key` at the top level.
pub open spec fn key_path(prefix: Seq<char>, key: Seq<char>) -> Seq<char> {
    if prefix.len() == 0 {
        key
    } else {
        prefix + seq!['.'] + key
    }
}

/// How a value is shown: a table as `{ ... }`, anything else by its text.
pub open spec fn shown(v: ConfigValue) -> Seq<char> {
    match v {
        ConfigValue::Table(_) => "{ ... }"@,
        ConfigValue::Value(s) => s@,
    }
}

/// The value of the first entry named `key`.
pub open spec fn entry_value(entries: Seq<(String, ConfigValue)>, key: Seq<char>) -> Option<ConfigValue>
    decreases entries.len(),
{
    if entries.len() == 0 {
        None
    } else if entries[0].0@ == key {
        Some(entries[0].1)
    } else {
        entry_value(entries.drop_first(), key)
    }
}

/// Keys of `new` missing from `user`, depth first in `new`'s order: a key absent from `user` is
/// reported with its value (a whole table as one entry); a key that is a table on both sides
/// is searched in turn. Nothing is reported unless both values are tables.
pub open spec fn missing_keys(prefix: Seq<char>, user: ConfigValue, new: ConfigValue) -> Seq<(Seq<char>, Seq<char>)>
    decreases new,
{
    match new {
        ConfigValue::Table(nt) => match user {
            ConfigValue::Table(ot) => {
                proof {
                    assert(decreases_to!(new => nt));
                    assert(decreases_to!(nt => nt@));
                }
                missing_in(prefix, ot@, nt@)
            },
            ConfigValue::Value(_) => Seq::empty(),
        },
        ConfigValue::Value(_) => Seq::empty(),
    }
}

/// [`missing_keys`] over the entries of a table of `new`.
pub open spec fn missing_in(
    prefix: Seq<char>,
    old_entries: Seq<(String, ConfigValue)>,
    entries: Seq<(String, ConfigValue)>,
) -> Seq<(Seq<char>, Seq<char>)>
    decreases entries,
{
    if entries.len() == 0 {
        Seq::empty()
    } else {
        let last = entries[entries.len() - 1];
        proof {
            assert(decreases_to!(entries => entries.subrange(0, entries.len() - 1)));
            assert(decreases_to!(entries => entries[entries.len() - 1]));
            assert(decreases_to!(last => last.1));
        }
        let rest = missing_in(prefix, old_entries, entries.subrange(0, entries.len() - 1));
        let path = key_path(prefix, last.0@);
        match entry_value(old_entries, last.0@) {
            None => rest.push((path, shown(last.1))),
            Some(ov) => rest + missing_keys(path, ov, last.1),
        }
    }
}

pub open spec fn pairs_view(v: Seq<(String, String)>) -> Seq<(Seq<char>, Seq<char>)> {
    v.map_values(|p: (String, String)| (p.0@, p.1@))
}

fn path_of(prefix: &str, key: &str) -> (p: String)
    ensures
        p@ == key_path(prefix@, key@),
{
    if chars_of(prefix).len() == 0 {
        return string_of(key);
    }
    let mut v = chars_of(prefix);
    v.push('.');
    append_str(&mut v, key);
    assert(v@ =~= prefix@ + seq!['.'] + key@);
    string_from_chars(&v)
}

fn shown_text(v: &ConfigValue) -> (s: String)
    ensures
        s@ == shown(*v),
{
    match v {
        ConfigValue::Table(_) => string_of("{ ... }"),
        ConfigValue::Value(s) => s.clone(),
    }
}

fn find_entry<'a>(entries: &'a Vec<(String, ConfigValue)>, key: &str) -> (r: Option<&'a ConfigValue>)
    ensures
        match r {
            Some(v) => entry_value(entries@, key@) == Some(*v),
            None => entry_value(entries@, key@) is None,
        },
{
    let mut i: usize = 0;
    assert(entries@.skip(0) =~= entries@);
    while i < entries.len()
        invariant
            i <= entries.len(),
            entry_value(entries@, key@) == entry_value(entries@.skip(i as int), key@),
        decreases entries.len() - i,
    {
        assert(entries@.skip(i as int).drop_first() =~= entries@.skip(i + 1));
        if str_eq(entries[i].0.as_str(), key) {
            return Some(&entries[i].1);
        }
        i += 1;
    }
    None
}

/// Appends to `out` the keys of `new` missing from `user` (see [`missing_keys`]).
pub fn collect_missing_keys(prefix: &str, user: &ConfigValue, new: &ConfigValue, out: &mut Vec<(String, String)>)
    ensures
        pairs_view(final(out)@) == pairs_view(old(out)@) + missing_keys(prefix@, *user, *new),
    decreases new,
{
    let (ot, nt) = match (user, new) {
        (ConfigValue::Table(ot), ConfigValue::Table(nt)) => (ot, nt),
        _ => {
            assert(missing_keys(prefix@, *user, *new) =~= Seq::empty());
            assert(pairs_view(out@) =~= pairs_view(out@) + Seq::<(Seq<char>, Seq<char>)>::empty());
            return;
        },
    };
    let ghost start = pairs_view(out@);
    proof {
        assert(missing_keys(prefix@, *user, *new) == missing_in(prefix@, ot@, nt@));
        assert(nt@.subrange(0, 0) =~= Seq::<(String, ConfigValue)>::empty());
    }
    let mut i: usize = 0;
    while i < nt.len()
        invariant
            i <= nt.len(),
            *new == ConfigValue::Table(*nt),
            pairs_view(out@) == start + missing_in(prefix@, ot@, nt@.subrange(0, i as int)),
        decreases nt.len() - i,
    {
        let key = nt[i].0.as_str();
        let path = path_of(prefix, key);
        let ghost before = pairs_view(out@);
        proof {
            let sub = nt@.subrange(0, i + 1);
            assert(sub.subrange(0, sub.len() - 1) =~= nt@.subrange(0, i as int));
            assert(sub[sub.len() - 1] == nt@[i as int]);
        }
        match find_entry(ot, key) {
            None => {
                out.push((path, shown_text(&nt[i].1)));
                assert(pairs_view(out@) =~= before.push((key_path(prefix@, key@), shown(nt@[i as int].1))));
            },
            Some(ov) => {
                proof {
                    let nv = *new;
                    let ntv = nv->Table_0;
                    assert(ntv == *nt);
                    assert(decreases_to!(nv => ntv));
                    assert(decreases_to!(ntv => ntv@));
                    assert(decreases_to!(nt@ => nt@[i as int]));
                    assert(decreases_to!(nt@[i as int] => nt@[i as int].1));
                }
                collect_missing_keys(path.as_str(), ov, &nt[i].1, out);
            },
        }
        i += 1;
    }
    assert(nt@.subrange(0, nt.len() as int) =~= nt@);
}

} // verus!
