//! The table of records, held in memory: one original URI under each token.
//!
//! This is the reference for what a durable table answers to the three
//! requests that the engine makes of it.

use crate::model::{deleted, inserted, lookup, Records, Text};
use vstd::hash_map::StringHashMap;
use vstd::prelude::*;

verus! {

/// One record of the table: a token and the original URI stored under it.
pub struct Data {
    token: String,
    original_uri: String,
}

impl Data {
    /// The record of `original_uri` under `token`.
    pub fn new(token: String, original_uri: String) -> (record: Data)
        ensures
            record.token_text() == token@,
            record.uri_text() == original_uri@,
    {
        Data { token, original_uri }
    }

    /// The token of the record, as the model sees it.
    pub closed spec fn token_text(&self) -> Text {
        self.token@
    }

    /// The original URI of the record, as the model sees it.
    pub closed spec fn uri_text(&self) -> Text {
        self.original_uri@
    }

    /// The short token.
    pub fn token(&self) -> (token: &String)
        ensures
            token@ == self.token_text(),
    {
        &self.token
    }

    /// The original URI.
    pub fn original_uri(&self) -> (uri: &String)
        ensures
            uri@ == self.uri_text(),
    {
        &self.original_uri
    }

    /// The original URI, taken out of the record.
    pub fn into_original_uri(self) -> (uri: String)
        ensures
            uri@ == self.uri_text(),
    {
        self.original_uri
    }
}

/// A table of records with a unique token in each.
pub struct Store {
    rows: StringHashMap<String>,
}

impl View for Store {
    type V = Records;

    closed spec fn view(&self) -> Records {
        self.rows@.map_values(|s: String| s@)
    }
}

impl Store {
    /// A table without records.
    pub fn new() -> (store: Store)
        ensures
            store@ == Map::<Text, Text>::empty(),
    {
        let store = Store { rows: StringHashMap::new() };
        proof {
            assert(store@ =~= Map::<Text, Text>::empty());
        }
        store
    }

    /// The number of records.
    pub fn len(&self) -> (len: usize)
        ensures
            len == self@.len(),
    {
        proof {
            broadcast use vstd::hash_map::axiom_string_hash_map_spec_len;
            assert(self@.dom() =~= self.rows@.dom());
        }
        self.rows.len()
    }

    /// The record stored under `token`, if there is one.
    pub fn get(&self, token: &str) -> (found: Option<Data>)
        ensures
            match found {
                Some(record) => record.token_text() == token@ && lookup(self@, token@) == Some(
                    record.uri_text(),
                ),
                None => lookup(self@, token@) is None,
            },
    {
        match self.rows.get(token) {
            Some(uri) => Some(Data::new(token.to_owned(), uri.clone())),
            None => None,
        }
    }

    /// Stores `uri` under `token` unless the token already has a record.
    pub fn insert(&mut self, token: String, uri: String)
        ensures
            final(self)@ == inserted(old(self)@, token@, uri@),
    {
        if !self.rows.contains_key(token.as_str()) {
            self.rows.insert(token, uri);
            proof {
                assert(self@ =~= old(self)@.insert(token@, uri@));
            }
        }
    }

    /// Deletes the record under `token`. Returns whether there was one.
    pub fn delete(&mut self, token: &str) -> (was_stored: bool)
        ensures
            final(self)@ == deleted(old(self)@, token@),
            was_stored == old(self)@.contains_key(token@),
    {
        let was_stored = self.rows.contains_key(token);
        self.rows.remove(token);
        proof {
            assert(self@ =~= old(self)@.remove(token@));
        }
        was_stored
    }
}

} // verus!
