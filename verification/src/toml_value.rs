//! The parts of a parsed TOML document that the manifest readers look at.
use vstd::prelude::*;

use crate::text::same_text;

verus! {

/// A TOML value: text, an array, a table, or anything else (numbers,
/// booleans), which the manifest readers never read. A table lists its
/// entries in the order they are to be read; a lookup by key takes the first
/// entry with that key.
#[derive(Debug, PartialEq)]
pub enum TomlValue {
    Text(String),
    Array(Vec<TomlValue>),
    Table(Vec<(String, TomlValue)>),
    Other,
}

/// The value of the first entry of `entries` with key `key`.
pub open spec fn entry_value(entries: Seq<(String, TomlValue)>, key: Seq<char>) -> Option<TomlValue>
    decreases entries.len(),
{
    if entries.len() == 0 {
        None
    } else if entries[0].0@ == key {
        Some(entries[0].1)
    } else {
        entry_value(entries.drop_first(), key)
    }
}

/// The value under `key` in the table `v`; `None` where `v` is no table or
/// has no such key.
pub open spec fn get(v: TomlValue, key: Seq<char>) -> Option<TomlValue> {
    match v {
        TomlValue::Table(entries) => entry_value(entries@, key),
        _ => None,
    }
}

/// The text that `v` holds, if it is text.
pub open spec fn as_text(v: TomlValue) -> Option<Seq<char>> {
    match v {
        TomlValue::Text(s) => Some(s@),
        _ => None,
    }
}

/// The value under `key` in `v`, if there is one and it is text.
pub open spec fn get_text(v: TomlValue, key: Seq<char>) -> Option<Seq<char>> {
    match get(v, key) {
        Some(inner) => as_text(inner),
        None => None,
    }
}

impl TomlValue {
    /// The value under `key`, where `self` is a table that holds one.
    pub fn get(&self, key: &str) -> (r: Option<&TomlValue>)
        ensures
            match r {
                Some(x) => get(*self, key@) == Some(*x),
                None => get(*self, key@) is None,
            },
    {
        match self {
            TomlValue::Table(entries) => {
                let mut i: usize = 0;
                assert(entries@.skip(0) =~= entries@);
                while i < entries.len()
                    invariant
                        *self == TomlValue::Table(*entries),
                        i <= entries@.len(),
                        entry_value(entries@, key@) == entry_value(entries@.skip(i as int), key@),
                    decreases entries@.len() - i,
                {
                    assert(entries@.skip(i as int).drop_first() =~= entries@.skip(i + 1));
                    if same_text(entries[i].0.as_str(), key) {
                        return Some(&entries[i].1);
                    }
                    i = i + 1;
                }
                None
            },
            _ => None,
        }
    }

    /// The text that `self` holds, if it is text.
    pub fn as_text(&self) -> (r: Option<&String>)
        ensures
            match r {
                Some(s) => as_text(*self) == Some(s@),
                None => as_text(*self) is None,
            },
    {
        match self {
            TomlValue::Text(s) => Some(s),
            _ => None,
        }
    }
}

/// A lookup by key finds the value of the first entry with that key,
/// wherever that entry stands.
pub proof fn lemma_entry_value_first(entries: Seq<(String, TomlValue)>, key: Seq<char>, j: int)
    requires
        0 <= j < entries.len(),
        entries[j].0@ == key,
        forall|i: int| 0 <= i < j ==> (#[trigger] entries[i]).0@ != key,
    ensures
        entry_value(entries, key) == Some(entries[j].1),
    decreases j,
{
    if j > 0 {
        let d = entries.drop_first();
        assert forall|i: int| 0 <= i < j - 1 implies (#[trigger] d[i]).0@ != key by {
            assert(d[i] == entries[i + 1]);
        }
        assert(entries[0].0@ != key);
        lemma_entry_value_first(d, key, j - 1);
    }
}

/// A lookup by a key no entry has finds nothing.
pub proof fn lemma_entry_value_absent(entries: Seq<(String, TomlValue)>, key: Seq<char>)
    requires
        forall|i: int| 0 <= i < entries.len() ==> (#[trigger] entries[i]).0@ != key,
    ensures
        entry_value(entries, key) is None,
    decreases entries.len(),
{
    if entries.len() > 0 {
        let d = entries.drop_first();
        assert forall|i: int| 0 <= i < d.len() implies (#[trigger] d[i]).0@ != key by {
            assert(d[i] == entries[i + 1]);
        }
        assert(entries[0].0@ != key);
        lemma_entry_value_absent(d, key);
    }
}

} // verus!
