//! A value of the project's configuration, as the parsers of this library
//! read it.

use vstd::prelude::*;
use vstd::string::*;
use crate::text::same_text;

verus! {

/// One key of a table with its value.
#[derive(Debug)]
pub struct ConfigEntry {
    pub key: String,
    pub value: ConfigValue,
}

/// A value of the configuration.
#[derive(Debug)]
pub enum ConfigValue {
    Null,
    Bool(bool),
    Integer(i64),
    /// A number with a fraction, as it is written.
    Float(String),
    String(String),
    Array(Vec<ConfigValue>),
    /// The entries of a table, in the order in which they are written. Of
    /// two entries with one key the first counts.
    Table(Vec<ConfigEntry>),
}

/// Where the first entry with `key` stands among the first `upto` of
/// `entries`, if there is one.
pub open spec fn first_entry(entries: Seq<ConfigEntry>, key: Seq<char>, upto: int) -> Option<int>
    decreases upto,
{
    if upto <= 0 || upto > entries.len() {
        None
    } else {
        match first_entry(entries, key, upto - 1) {
            Some(i) => Some(i),
            None => if entries[upto - 1].key@ == key {
                Some(upto - 1)
            } else {
                None
            },
        }
    }
}

impl ConfigValue {
    /// The entries of a table.
    pub open spec fn entries(self) -> Option<Seq<ConfigEntry>> {
        match self {
            ConfigValue::Table(entries) => Some(entries@),
            _ => None,
        }
    }

    /// The items of an array.
    pub open spec fn items(self) -> Option<Seq<ConfigValue>> {
        match self {
            ConfigValue::Array(items) => Some(items@),
            _ => None,
        }
    }

    /// The text of a string.
    pub open spec fn text(self) -> Option<Seq<char>> {
        match self {
            ConfigValue::String(text) => Some(text@),
            _ => None,
        }
    }

    /// The truth value of a boolean.
    pub open spec fn truth(self) -> Option<bool> {
        match self {
            ConfigValue::Bool(value) => Some(value),
            _ => None,
        }
    }

    /// The number of an integer.
    pub open spec fn number(self) -> Option<int> {
        match self {
            ConfigValue::Integer(value) => Some(value as int),
            _ => None,
        }
    }

    /// The value under `key` of a table; `None` for anything but a table
    /// and for a table without the key.
    pub open spec fn member(self, key: Seq<char>) -> Option<ConfigValue> {
        match self {
            ConfigValue::Table(entries) => match first_entry(entries@, key, entries@.len() as int) {
                Some(i) => Some(entries@[i].value),
                None => None,
            },
            _ => None,
        }
    }

    /// The text of the string under `key`.
    pub open spec fn member_text(self, key: Seq<char>) -> Option<Seq<char>> {
        match self.member(key) {
            Some(value) => value.text(),
            None => None,
        }
    }

    /// The truth value of the boolean under `key`.
    pub open spec fn member_truth(self, key: Seq<char>) -> Option<bool> {
        match self.member(key) {
            Some(value) => value.truth(),
            None => None,
        }
    }

    /// The number of the integer under `key`.
    pub open spec fn member_number(self, key: Seq<char>) -> Option<int> {
        match self.member(key) {
            Some(value) => value.number(),
            None => None,
        }
    }

    pub fn as_table(&self) -> (r: Option<&Vec<ConfigEntry>>)
        ensures
            match r {
                Some(entries) => self.entries() == Some(entries@),
                None => self.entries() is None,
            },
    {
        match self {
            ConfigValue::Table(entries) => Some(entries),
            _ => None,
        }
    }

    pub fn as_array(&self) -> (r: Option<&Vec<ConfigValue>>)
        ensures
            match r {
                Some(items) => self.items() == Some(items@),
                None => self.items() is None,
            },
    {
        match self {
            ConfigValue::Array(items) => Some(items),
            _ => None,
        }
    }

    pub fn as_str(&self) -> (r: Option<&str>)
        ensures
            match r {
                Some(text) => self.text() == Some(text@),
                None => self.text() is None,
            },
    {
        match self {
            ConfigValue::String(text) => Some(text.as_str()),
            _ => None,
        }
    }

    pub fn is_str(&self) -> (r: bool)
        ensures
            r == self.text() is Some,
    {
        match self {
            ConfigValue::String(_) => true,
            _ => false,
        }
    }

    pub fn as_bool(&self) -> (r: Option<bool>)
        ensures
            r == self.truth(),
    {
        match self {
            ConfigValue::Bool(value) => Some(*value),
            _ => None,
        }
    }

    pub fn as_integer(&self) -> (r: Option<i64>)
        ensures
            match r {
                Some(value) => self.number() == Some(value as int),
                None => self.number() is None,
            },
    {
        match self {
            ConfigValue::Integer(value) => Some(*value),
            _ => None,
        }
    }

    /// The text of a number with a fraction.
    pub fn as_float(&self) -> (r: Option<&str>)
        ensures
            match r {
                Some(text) => self matches ConfigValue::Float(written) && written@ == text@,
                None => !(self is Float),
            },
    {
        match self {
            ConfigValue::Float(text) => Some(text.as_str()),
            _ => None,
        }
    }

    /// The value under `key` of a table.
    pub fn get(&self, key: &str) -> (r: Option<&ConfigValue>)
        ensures
            match r {
                Some(value) => self.member(key@) == Some(*value),
                None => self.member(key@) is None,
            },
    {
        match self {
            ConfigValue::Table(entries) => {
                let mut i: usize = 0;
                while i < entries.len()
                    invariant
                        i <= entries.len(),
                        self.entries() == Some(entries@),
                        first_entry(entries@, key@, i as int) is None,
                    decreases entries.len() - i,
                {
                    if same_text(entries[i].key.as_str(), key) {
                        proof {
                            lemma_first_found(entries@, key@, i as int, entries@.len() as int);
                        }
                        return Some(&entries[i].value);
                    }
                    i = i + 1;
                }
                None
            },
            _ => None,
        }
    }

    pub fn get_as_str(&self, key: &str) -> (r: Option<String>)
        ensures
            crate::pattern::optional_view(r) == self.member_text(key@),
    {
        match self.get(key) {
            Some(value) => match value.as_str() {
                Some(text) => Some(String::from_str(text)),
                None => None,
            },
            None => None,
        }
    }

    pub fn get_as_bool(&self, key: &str) -> (r: Option<bool>)
        ensures
            r == self.member_truth(key@),
    {
        match self.get(key) {
            Some(value) => value.as_bool(),
            None => None,
        }
    }

    pub fn get_as_integer(&self, key: &str) -> (r: Option<i64>)
        ensures
            match r {
                Some(value) => self.member_number(key@) == Some(value as int),
                None => self.member_number(key@) is None,
            },
    {
        match self.get(key) {
            Some(value) => value.as_integer(),
            None => None,
        }
    }
}

/// Once the first entry with a key is found, looking further finds the
/// same entry.
pub proof fn lemma_first_found(entries: Seq<ConfigEntry>, key: Seq<char>, at: int, upto: int)
    requires
        0 <= at < upto <= entries.len(),
        first_entry(entries, key, at) is None,
        entries[at].key@ == key,
    ensures
        first_entry(entries, key, upto) == Some(at),
    decreases upto - at,
{
    if upto > at + 1 {
        lemma_first_found(entries, key, at, upto - 1);
    }
}

} // verus!
