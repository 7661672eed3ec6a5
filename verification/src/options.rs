//! Option maps of servers and tables, and the resolution of a server's
//! connection string.

use crate::error::{FdwError, FdwErrorView};
use crate::text::same_text;
use vstd::prelude::*;

verus! {

/// A map from option names to option values, both texts; names are
/// compared letter for letter.
#[derive(Debug, Clone, PartialEq)]
pub struct Options {
    pub entries: Vec<(String, String)>,
}

/// The map that a list of entries writes: a later entry of a name
/// replaces an earlier one.
pub open spec fn entries_map(entries: Seq<(String, String)>) -> Map<Seq<char>, Seq<char>>
    decreases entries.len(),
{
    if entries.len() == 0 {
        Map::empty()
    } else {
        entries_map(entries.drop_last()).insert(entries.last().0@, entries.last().1@)
    }
}

impl View for Options {
    type V = Map<Seq<char>, Seq<char>>;

    open spec fn view(&self) -> Map<Seq<char>, Seq<char>> {
        entries_map(self.entries@)
    }
}

impl Options {
    /// The empty map.
    pub fn new() -> (r: Options)
        ensures
            r@ == Map::<Seq<char>, Seq<char>>::empty(),
    {
        Options { entries: Vec::new() }
    }

    /// Sets the option `key` to `value`.
    pub fn insert(&mut self, key: &str, value: &str)
        ensures
            final(self)@ == old(self)@.insert(key@, value@),
    {
        self.entries.push((key.to_owned(), value.to_owned()));
        assert(self.entries@.drop_last() == old(self).entries@);
    }

    /// The value of the option `key`, if it is set.
    pub fn get(&self, key: &str) -> (r: Option<&String>)
        ensures
            match r {
                Some(v) => self@.contains_key(key@) && self@[key@] == v@,
                None => !self@.contains_key(key@),
            },
    {
        let mut i: usize = self.entries.len();
        assert(self.entries@.take(i as int) == self.entries@);
        while i > 0
            invariant
                i <= self.entries.len(),
                self@.contains_key(key@) == entries_map(self.entries@.take(i as int)).contains_key(
                    key@,
                ),
                self@.contains_key(key@) ==> self@[key@] == entries_map(
                    self.entries@.take(i as int),
                )[key@],
            decreases i,
        {
            assert(self.entries@.take(i as int).drop_last() == self.entries@.take(i - 1));
            if same_text(self.entries[i - 1].0.as_str(), key) {
                return Some(&self.entries[i - 1].1);
            }
            i -= 1;
        }
        assert(self.entries@.take(0) == Seq::<(String, String)>::empty());
        None
    }
}

/// The value of an option that must be set; the error names the option
/// where it is not.
pub fn require_option<'a>(name: &str, options: &'a Options) -> (r: Result<&'a String, FdwError>)
    ensures
        match r {
            Ok(v) => options@.contains_key(name@) && options@[name@] == v@,
            Err(e) => !options@.contains_key(name@) && e@ == FdwErrorView::OptionMissing(name@),
        },
{
    match options.get(name) {
        Some(v) => Ok(v),
        None => Err(FdwError::OptionMissing(name.to_owned())),
    }
}

/// A named remote endpoint with its options.
#[derive(Debug, Clone, PartialEq)]
pub struct ForeignServer {
    pub server_name: String,
    pub options: Options,
}

/// Where a server's connection string comes from.
#[derive(Debug, Clone, PartialEq)]
pub enum ConnStringSource {
    /// The options hold the connection string itself.
    Direct(String),
    /// The options hold the identifier of a secret that holds it.
    Vault(String),
}

/// Where the connection string of a server comes from: the option
/// `conn_string` where it is set, else the secret that the option
/// `conn_string_id` names. Without either the second option is reported
/// missing.
pub fn conn_string_source(options: &Options) -> (r: Result<ConnStringSource, FdwError>)
    ensures
        match r {
            Ok(ConnStringSource::Direct(s)) => options@.contains_key("conn_string"@) && s@
                == options@["conn_string"@],
            Ok(ConnStringSource::Vault(id)) => !options@.contains_key("conn_string"@)
                && options@.contains_key("conn_string_id"@) && id@ == options@["conn_string_id"@],
            Err(e) => !options@.contains_key("conn_string"@) && !options@.contains_key(
                "conn_string_id"@,
            ) && e@ == FdwErrorView::OptionMissing("conn_string_id"@),
        },
{
    match options.get("conn_string") {
        Some(s) => Ok(ConnStringSource::Direct(s.clone())),
        None => match require_option("conn_string_id", options) {
            Ok(id) => Ok(ConnStringSource::Vault(id.clone())),
            Err(e) => Err(e),
        },
    }
}

/// The connection string of a source, given what the secret store holds
/// under the identifier: a secret that is absent stands for the empty
/// string.
pub fn resolve_conn_string(source: ConnStringSource, secret: Option<String>) -> (r: String)
    ensures
        r@ == match source {
            ConnStringSource::Direct(s) => s@,
            ConnStringSource::Vault(_) => match secret {
                Some(s) => s@,
                None => Seq::empty(),
            },
        },
{
    match source {
        ConnStringSource::Direct(s) => s,
        ConnStringSource::Vault(_) => match secret {
            Some(s) => s,
            None => String::new(),
        },
    }
}

} // verus!
