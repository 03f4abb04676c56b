//! Settings as the logic reads them, and the runtime values derived from
//! them. The settings are stored as JSON values by the front end; the
//! application layer turns each into a [`SettingValue`].
//!
//! Key mapping is centralised here so that the key the UI writes is the key
//! the backend reads (`paste_delay`, `system_mute`).

use vstd::prelude::*;
use crate::unicode::same_text;

verus! {

/// A stored setting value, holding what the logic reads of it.
#[derive(Debug, Clone)]
pub enum SettingValue {
    Bool(bool),
    /// A JSON number: its value when it is a non-negative integer
    /// (`as_u64`), and its value converted to an unsigned integer the way
    /// `as_f64() as u64` does — fraction dropped, negatives to 0, saturating.
    Number { as_u64: Option<u64>, whole: u64 },
    Str(String),
    /// `null`, arrays and objects.
    Other,
}

/// The stored settings: each key once, with its value.
#[derive(Debug, Clone)]
pub struct Settings {
    pub entries: Vec<(String, SettingValue)>,
}

/// The value stored for `key`: the first entry with that key.
pub open spec fn lookup(entries: Seq<(String, SettingValue)>, key: Seq<char>) -> Option<SettingValue>
    decreases entries.len(),
{
    if entries.len() == 0 {
        None
    } else if entries[0].0@ == key {
        Some(entries[0].1)
    } else {
        lookup(entries.skip(1), key)
    }
}

/// `as_bool`: the value when it is a boolean.
pub open spec fn as_bool(v: Option<SettingValue>) -> Option<bool> {
    match v {
        Some(SettingValue::Bool(b)) => Some(b),
        _ => None,
    }
}

/// `as_u64`: the value when it is a non-negative integer.
pub open spec fn as_u64(v: Option<SettingValue>) -> Option<u64> {
    match v {
        Some(SettingValue::Number { as_u64, .. }) => as_u64,
        _ => None,
    }
}

/// `as_f64() as u64`: any number, as a whole unsigned value.
pub open spec fn as_whole(v: Option<SettingValue>) -> Option<u64> {
    match v {
        Some(SettingValue::Number { whole, .. }) => Some(whole),
        _ => None,
    }
}

/// `as_str`: the value when it is a string.
pub open spec fn as_text(v: Option<SettingValue>) -> Option<Seq<char>> {
    match v {
        Some(SettingValue::Str(s)) => Some(s@),
        _ => None,
    }
}

impl Settings {
    /// The value stored for `key`.
    pub fn get(&self, key: &str) -> (r: Option<&SettingValue>)
        ensures
            r matches Some(v) ==> lookup(self.entries@, key@) == Some(*v),
            r is None ==> lookup(self.entries@, key@) is None,
    {
        let mut i: usize = 0;
        assert(self.entries@.skip(0) == self.entries@);
        while i < self.entries.len()
            invariant
                i <= self.entries.len(),
                lookup(self.entries@, key@) == lookup(self.entries@.skip(i as int), key@),
            decreases self.entries.len() - i,
        {
            assert(self.entries@.skip(i as int)[0] == self.entries@[i as int]);
            if same_text(self.entries[i].0.as_str(), key) {
                return Some(&self.entries[i].1);
            }
            assert(self.entries@.skip(i as int).skip(1) == self.entries@.skip(i + 1));
            i += 1;
        }
        None
    }

    /// The boolean stored for `key`, if it is one.
    pub fn get_bool(&self, key: &str) -> (r: Option<bool>)
        ensures
            r == as_bool(lookup(self.entries@, key@)),
    {
        match self.get(key) {
            Some(SettingValue::Bool(b)) => Some(*b),
            _ => None,
        }
    }

    /// The non-negative integer stored for `key`, if it is one.
    pub fn get_u64(&self, key: &str) -> (r: Option<u64>)
        ensures
            r == as_u64(lookup(self.entries@, key@)),
    {
        match self.get(key) {
            Some(SettingValue::Number { as_u64, .. }) => *as_u64,
            _ => None,
        }
    }

    /// The number stored for `key` as a whole unsigned value, if it is a
    /// number.
    pub fn get_whole(&self, key: &str) -> (r: Option<u64>)
        ensures
            r == as_whole(lookup(self.entries@, key@)),
    {
        match self.get(key) {
            Some(SettingValue::Number { whole, .. }) => Some(*whole),
            _ => None,
        }
    }

    /// The string stored for `key`, if it is one.
    pub fn get_str(&self, key: &str) -> (r: Option<&str>)
        ensures
            r matches Some(s) ==> as_text(lookup(self.entries@, key@)) == Some(s@),
            r is None ==> as_text(lookup(self.entries@, key@)) is None,
    {
        match self.get(key) {
            Some(SettingValue::Str(s)) => Some(s.as_str()),
            _ => None,
        }
    }
}

/// The restore delay used when none is set: 1500 ms. Shorter delays let
/// some apps paste after the clipboard was already restored.
pub const DEFAULT_RESTORE_DELAY_MS: u64 = 1500;

/// The delay before the clipboard is restored after a paste; 0 means no
/// restore. `clipboard_restore == false` forces 0; otherwise `paste_delay`
/// (any number, whole milliseconds), by default 1500.
pub open spec fn restore_delay_ms(entries: Seq<(String, SettingValue)>) -> u64 {
    if as_bool(lookup(entries, "clipboard_restore"@)) == Some(false) {
        0
    } else {
        match as_whole(lookup(entries, "paste_delay"@)) {
            Some(d) => d,
            None => 1500,
        }
    }
}

/// Resolves the clipboard restore delay after a paste (0: do not restore).
pub fn resolve_paste_restore_delay_ms(settings: &Settings) -> (r: u64)
    ensures
        r == restore_delay_ms(settings.entries@),
{
    let restore_enabled = match settings.get_bool("clipboard_restore") {
        Some(b) => b,
        None => true,
    };
    if !restore_enabled {
        return 0;
    }
    match settings.get_whole("paste_delay") {
        Some(d) => d,
        None => DEFAULT_RESTORE_DELAY_MS,
    }
}

/// Whether system output is muted while recording: the UI's `system_mute`
/// key, off by default.
pub open spec fn system_mute(entries: Seq<(String, SettingValue)>) -> bool {
    as_bool(lookup(entries, "system_mute"@)) == Some(true)
}

/// Resolves whether to mute system output while recording.
pub fn resolve_system_mute(settings: &Settings) -> (r: bool)
    ensures
        r == system_mute(settings.entries@),
{
    match settings.get_bool("system_mute") {
        Some(b) => b,
        None => false,
    }
}

} // verus!
