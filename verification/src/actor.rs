//! The mapping engine: the token strategy and the cache, and the rules by
//! which reads, inserts and deletes go between the cache and the table.

use crate::alphabet::{in_alphabet, lemma_symbols_clean, symbol, symbols};
use crate::cache::{texts, Cache};
use crate::config::{Config, Mode, DEFAULT_BUFFER_LEN};
use crate::encoding::{
    encodable, hash_token, hash_values, hashid_of, token_of, widened, writes, Encoding,
    DEFAULT_HASH_LEN, MAX_OBFUSCATED_LEN, MIN_HASH_LEN,
};
use crate::error::EngineError;
use crate::model::{
    delete_model, insert_model, malformed_token, read_model, CacheModel, Records, Text, World,
};
use crate::store::Store;
use std::collections::hash_map::DefaultHasher;
use std::hash::Hasher;
use vstd::prelude::*;
use vstd::string::*;

verus! {

/// The engine. It owns the cache; the table is handed to each operation.
pub struct Actor {
    encoding: Encoding,
    cache: Cache,
}

/// What a read needs next.
pub enum ReadPlan {
    /// The token is malformed: the read ends in `MalformedInput`.
    Refuse,
    /// The cache holds the token: the read ends with this URI.
    Answer(String),
    /// The cache does not hold the token: the table is to be asked for it.
    Lookup,
}

/// What an insert needs next.
pub enum InsertPlan {
    /// The URI is empty: the insert ends in `MalformedInput`.
    Refuse,
    /// The cache holds the URI's token: the insert ends with the cached URI.
    Answer(String),
    /// The cache does not hold the token: the table is to store the URI
    /// under it unless it has a record there.
    Write { token: String },
}

/// What the table answered to a lookup.
pub enum LookupReply {
    Found(String),
    Absent,
    Fault,
}

/// What the table answered to an insert-or-ignore or to a delete. A write
/// that changed nothing is `Done` as well.
pub enum WriteReply {
    Done,
    Fault,
}

/// The text of a result, for contracts.
pub open spec fn text_of(result: Result<String, EngineError>) -> Result<Text, EngineError> {
    match result {
        Ok(text) => Ok(text@),
        Err(e) => Err(e),
    }
}

/// Whether `token` has a path separator in it.
fn has_separator(token: &str) -> (found: bool)
    ensures
        found == malformed_token(token@),
{
    let mut found = false;
    for c in it: token.chars()
        invariant
            it.seq() == token@,
            found == exists|j: int| 0 <= j < it.index() && token@[j] == '/',
    {
        if c == '/' {
            found = true;
        }
    }
    found
}

/// The bytes of a URI, each as a 64-bit value.
fn widen(bytes: &[u8]) -> (values: Vec<u64>)
    ensures
        values@ == widened(bytes@),
{
    let mut values: Vec<u64> = Vec::new();
    let mut i: usize = 0;
    while i < bytes.len()
        invariant
            i <= bytes.len(),
            values@ == widened(bytes@.take(i as int)),
        decreases bytes.len() - i,
    {
        values.push(bytes[i] as u64);
        assert(values@ =~= widened(bytes@.take(i + 1)));
        i += 1;
    }
    assert(bytes@.take(i as int) =~= bytes@);
    values
}

impl Actor {
    /// The token strategy of this engine.
    pub closed spec fn encoding(&self) -> Encoding {
        self.encoding
    }

    /// The cache of this engine, as the model sees it.
    pub closed spec fn cache_model(&self) -> CacheModel {
        self.cache@
    }

    /// The cache of this engine beside a table.
    pub open spec fn world(&self, records: Records) -> World {
        World { cache: self.cache_model(), records }
    }

    /// The cache is well formed, and the hash strategy has a token length of
    /// six or more.
    pub open spec fn wf(&self) -> bool {
        &&& self.cache_model().wf()
        &&& self.encoding() matches Encoding::Hash { length } ==> length >= MIN_HASH_LEN
    }

    /// Builds an engine with an empty cache, or refuses a configuration that
    /// is not valid.
    pub fn new(config: Config) -> (made: Result<Actor, EngineError>)
        ensures
            match made {
                Ok(actor) => {
                    &&& config.valid()
                    &&& actor.wf()
                    &&& actor.cache_model() == CacheModel::empty(config.capacity() as nat)
                    &&& match config.mode {
                        Mode::Hash => actor.encoding() == (Encoding::Hash {
                            length: config.hash_length(),
                        }),
                        Mode::Obfuscation => actor.encoding() == (Encoding::Obfuscation {
                            salt: config.salt->0,
                        }),
                    }
                },
                Err(e) => e == EngineError::ConfigurationError && !config.valid(),
            },
    {
        if config.database_url.is_none() {
            return Err(EngineError::ConfigurationError);
        }
        let capacity = match config.buffer_len {
            Some(capacity) => capacity,
            None => DEFAULT_BUFFER_LEN,
        };
        let encoding = match config.mode {
            Mode::Hash => {
                let length = match config.uri_len {
                    Some(length) => length,
                    None => DEFAULT_HASH_LEN,
                };
                if length < MIN_HASH_LEN {
                    return Err(EngineError::ConfigurationError);
                }
                Encoding::Hash { length }
            },
            Mode::Obfuscation => match config.salt {
                Some(salt) => Encoding::Obfuscation { salt },
                None => {
                    return Err(EngineError::ConfigurationError);
                },
            },
        };
        Ok(Actor { encoding, cache: Cache::new(capacity) })
    }

    /// Writes each value as its symbol.
    pub fn byte2b64(byte: &[u8]) -> (token: String)
        requires
            in_alphabet(byte@),
        ensures
            token@ == symbols(byte@),
    {
        let table = "0123456789ABCDEFGHIJKLMNOPQRSTUVWXYZabcdefghijklmnopqrstuvwxyz-_";
        proof {
            reveal_strlit("0123456789ABCDEFGHIJKLMNOPQRSTUVWXYZabcdefghijklmnopqrstuvwxyz-_");
        }
        assert(table@.len() == 64);
        assert(forall|v: u8| v < 64 ==> table@[v as int] == #[trigger] symbol(v));
        assert(is_ascii(table));
        let mut token = String::new();
        let mut i: usize = 0;
        while i < byte.len()
            invariant
                i <= byte.len(),
                in_alphabet(byte@),
                table@.len() == 64,
                is_ascii(table),
                forall|v: u8| v < 64 ==> table@[v as int] == #[trigger] symbol(v),
                token@ == symbols(byte@.take(i as int)),
            decreases byte.len() - i,
        {
            let e: usize = byte[i] as usize;
            let piece = table.substring_ascii(e, e + 1);
            token.append(piece);
            assert(token@ =~= symbols(byte@.take(i + 1)));
            i += 1;
        }
        assert(byte@.take(i as int) =~= byte@);
        token
    }

    /// Writes each value as its symbol, or tells of the first kind of fault
    /// where a value has none.
    pub fn try_byte2b64(byte: &[u8]) -> (written: Result<String, EngineError>)
        ensures
            match written {
                Ok(token) => in_alphabet(byte@) && token@ == symbols(byte@),
                Err(e) => e == EngineError::EncodingInvariantViolation && !in_alphabet(byte@),
            },
    {
        let mut i: usize = 0;
        while i < byte.len()
            invariant
                i <= byte.len(),
                forall|j: int| 0 <= j < i ==> byte@[j] < 64,
            decreases byte.len() - i,
        {
            if byte[i] >= 64 {
                return Err(EngineError::EncodingInvariantViolation);
            }
            i += 1;
        }
        Ok(Self::byte2b64(byte))
    }

    /// The token of the hash strategy: the seed is fed to one running hasher
    /// once for each symbol, and each symbol is the digest so far, modulo 64.
    fn hash_encode(seed: &str, length: usize) -> (token: String)
        ensures
            token@ == hash_token(seed@, length as nat),
            !malformed_token(token@),
    {
        let bytes = seed.as_bytes();
        let mut hasher = DefaultHasher::new();
        let mut slice: Vec<u8> = Vec::new();
        let mut i: usize = 0;
        while i < length
            invariant
                i <= length,
                hasher@ == writes(bytes@, i as nat),
                slice@ == hash_values(bytes@, i as nat),
            decreases length - i,
        {
            hasher.write(bytes);
            assert(hasher@ =~= writes(bytes@, (i + 1) as nat));
            let e = (hasher.finish() % 64) as u8;
            slice.push(e);
            assert(slice@ =~= hash_values(bytes@, (i + 1) as nat));
            i += 1;
        }
        proof {
            lemma_symbols_clean(slice@);
        }
        Self::byte2b64(slice.as_slice())
    }

    /// Whether the strategy of this engine can take `uri`.
    pub fn accepts(&self, uri: &str) -> (accepted: bool)
        ensures
            accepted == encodable(self.encoding(), uri@),
    {
        match &self.encoding {
            Encoding::Hash { .. } => true,
            Encoding::Obfuscation { .. } => uri.as_bytes().len() as u64 <= MAX_OBFUSCATED_LEN,
        }
    }

    /// The token of a URI under the strategy of this engine.
    pub fn encode(&self, s: &String) -> (token: String)
        requires
            encodable(self.encoding(), s@),
        ensures
            token@ == token_of(self.encoding(), s@),
            !malformed_token(token@),
    {
        match &self.encoding {
            Encoding::Hash { length } => Self::hash_encode(s.as_str(), *length),
            Encoding::Obfuscation { salt } => {
                let values = widen(s.as_str().as_bytes());
                let token = hashid_of(salt.as_str(), &values);
                assert(!malformed_token(token@)) by {
                    assert forall|i: int| 0 <= i < token@.len() implies token@[i] != '/' by {
                        assert(crate::encoding::alphanumeric(token@[i]));
                    }
                }
                token
            },
        }
    }

    /// Caches `value` under `key`, evicting the oldest entry if the cache is
    /// then over its capacity.
    pub fn cache(&mut self, key: String, value: String)
        requires
            old(self).wf(),
        ensures
            final(self).wf(),
            final(self).encoding() == old(self).encoding(),
            final(self).cache_model() == old(self).cache_model().put(key@, value@),
    {
        self.cache.put(key, value);
    }

    /// The cached tokens in the order in which they would be evicted, the
    /// oldest first.
    pub fn cached_tokens(&self) -> (tokens: Vec<String>)
        ensures
            texts(tokens@) == self.cache_model().order,
    {
        self.cache.tokens()
    }

    /// The first step of a read: refuse a malformed token, answer from the
    /// cache, or ask for a lookup in the table. Nothing changes.
    pub fn plan_read(&self, token: &str) -> (plan: ReadPlan)
        ensures
            match plan {
                ReadPlan::Refuse => malformed_token(token@),
                ReadPlan::Answer(uri) => !malformed_token(token@) && self.cache_model().get(
                    token@,
                ) == Some(uri@),
                ReadPlan::Lookup => !malformed_token(token@) && self.cache_model().get(token@)
                    is None,
            },
    {
        if has_separator(token) {
            return ReadPlan::Refuse;
        }
        match self.cache.get(token) {
            Some(uri) => ReadPlan::Answer(uri),
            None => ReadPlan::Lookup,
        }
    }

    /// The last step of a read that asked the table: a record that was found
    /// is cached and returned; an absent one and a fault each have their
    /// error, and leave the cache as it was.
    pub fn finish_read(&mut self, token: &str, reply: LookupReply) -> (result: Result<
        String,
        EngineError,
    >)
        requires
            old(self).wf(),
        ensures
            final(self).wf(),
            final(self).encoding() == old(self).encoding(),
            match reply {
                LookupReply::Found(uri) => {
                    &&& text_of(result) == Ok::<Text, EngineError>(uri@)
                    &&& final(self).cache_model() == old(self).cache_model().put(token@, uri@)
                },
                LookupReply::Absent => {
                    &&& result == Err::<String, EngineError>(EngineError::RecordNotFound)
                    &&& final(self).cache_model() == old(self).cache_model()
                },
                LookupReply::Fault => {
                    &&& result == Err::<String, EngineError>(EngineError::StorageFault)
                    &&& final(self).cache_model() == old(self).cache_model()
                },
            },
    {
        match reply {
            LookupReply::Found(uri) => {
                self.cache.put(token.to_owned(), uri.clone());
                Ok(uri)
            },
            LookupReply::Absent => Err(EngineError::RecordNotFound),
            LookupReply::Fault => Err(EngineError::StorageFault),
        }
    }

    /// Reads the original URI of a token, from the cache or else from the
    /// table.
    pub fn read(&mut self, store: &Store, token: &str) -> (result: Result<String, EngineError>)
        requires
            old(self).wf(),
        ensures
            final(self).wf(),
            final(self).encoding() == old(self).encoding(),
            (final(self).world(store@), text_of(result)) == read_model(
                old(self).world(store@),
                token@,
            ),
    {
        match self.plan_read(token) {
            ReadPlan::Refuse => Err(EngineError::MalformedInput),
            ReadPlan::Answer(uri) => Ok(uri),
            ReadPlan::Lookup => {
                let reply = match store.get(token) {
                    Some(record) => LookupReply::Found(record.into_original_uri()),
                    None => LookupReply::Absent,
                };
                self.finish_read(token, reply)
            },
        }
    }

    /// The first step of an insert of `uri` under `token`: refuse an empty
    /// URI, answer from the cache, or ask for a write to the table. Nothing
    /// changes.
    pub fn plan_insert_under(&self, token: String, uri: &String) -> (plan: InsertPlan)
        ensures
            match plan {
                InsertPlan::Refuse => uri@.len() == 0,
                InsertPlan::Answer(cached) => {
                    &&& uri@.len() > 0
                    &&& self.cache_model().get(token@) == Some(cached@)
                },
                InsertPlan::Write { token: key } => {
                    &&& uri@.len() > 0
                    &&& key@ == token@
                    &&& self.cache_model().get(token@) is None
                },
            },
    {
        if uri.as_str().is_empty() {
            return InsertPlan::Refuse;
        }
        match self.cache.get(token.as_str()) {
            Some(cached) => InsertPlan::Answer(cached),
            None => InsertPlan::Write { token },
        }
    }

    /// The first step of an insert: the URI's token is computed, and the
    /// plan is that of inserting the URI under it.
    pub fn plan_insert(&self, uri: &String) -> (plan: InsertPlan)
        requires
            encodable(self.encoding(), uri@),
        ensures
            match plan {
                InsertPlan::Refuse => uri@.len() == 0,
                InsertPlan::Answer(cached) => {
                    &&& uri@.len() > 0
                    &&& self.cache_model().get(token_of(self.encoding(), uri@)) == Some(cached@)
                },
                InsertPlan::Write { token } => {
                    &&& uri@.len() > 0
                    &&& token@ == token_of(self.encoding(), uri@)
                    &&& !malformed_token(token@)
                    &&& self.cache_model().get(token@) is None
                },
            },
    {
        let token = self.encode(uri);
        self.plan_insert_under(token, uri)
    }

    /// The last step of an insert that asked the table: after a write the
    /// record is cached and its token returned; a fault has its error and
    /// leaves the cache as it was.
    pub fn finish_insert(&mut self, token: String, uri: String, reply: WriteReply) -> (result:
        Result<String, EngineError>)
        requires
            old(self).wf(),
        ensures
            final(self).wf(),
            final(self).encoding() == old(self).encoding(),
            match reply {
                WriteReply::Done => {
                    &&& text_of(result) == Ok::<Text, EngineError>(token@)
                    &&& final(self).cache_model() == old(self).cache_model().put(token@, uri@)
                },
                WriteReply::Fault => {
                    &&& result == Err::<String, EngineError>(EngineError::StorageFault)
                    &&& final(self).cache_model() == old(self).cache_model()
                },
            },
    {
        match reply {
            WriteReply::Done => {
                self.cache.put(token.clone(), uri);
                Ok(token)
            },
            WriteReply::Fault => Err(EngineError::StorageFault),
        }
    }

    /// Inserts `uri` under `token`: an empty URI is refused; where the token
    /// is cached, the cached URI is returned and nothing is stored;
    /// otherwise the table takes the record unless it has one under the
    /// token, the cache takes it, and the token is returned.
    pub fn insert_under(&mut self, store: &mut Store, token: String, uri: String) -> (result:
        Result<String, EngineError>)
        requires
            old(self).wf(),
        ensures
            final(self).wf(),
            final(self).encoding() == old(self).encoding(),
            (final(self).world(final(store)@), text_of(result)) == insert_model(
                old(self).world(old(store)@),
                token@,
                uri@,
            ),
    {
        match self.plan_insert_under(token, &uri) {
            InsertPlan::Refuse => Err(EngineError::MalformedInput),
            InsertPlan::Answer(cached) => Ok(cached),
            InsertPlan::Write { token } => {
                store.insert(token.clone(), uri.clone());
                self.finish_insert(token, uri, WriteReply::Done)
            },
        }
    }

    /// Shortens a URI: inserts it under the token that the strategy of this
    /// engine gives it.
    pub fn insert(&mut self, store: &mut Store, uri: String) -> (result: Result<
        String,
        EngineError,
    >)
        requires
            old(self).wf(),
            encodable(old(self).encoding(), uri@),
        ensures
            final(self).wf(),
            final(self).encoding() == old(self).encoding(),
            !malformed_token(token_of(old(self).encoding(), uri@)),
            (final(self).world(final(store)@), text_of(result)) == insert_model(
                old(self).world(old(store)@),
                token_of(old(self).encoding(), uri@),
                uri@,
            ),
    {
        let token = self.encode(&uri);
        self.insert_under(store, token, uri)
    }

    /// The last step of a delete, after the table was asked to delete the
    /// token: the cache forgets it too, unless the table failed.
    pub fn finish_delete(&mut self, token: &str, reply: WriteReply) -> (result: Result<
        bool,
        EngineError,
    >)
        requires
            old(self).wf(),
        ensures
            final(self).wf(),
            final(self).encoding() == old(self).encoding(),
            match reply {
                WriteReply::Done => {
                    &&& result == Ok::<bool, EngineError>(true)
                    &&& final(self).cache_model() == old(self).cache_model().remove(token@)
                },
                WriteReply::Fault => {
                    &&& result == Err::<bool, EngineError>(EngineError::StorageFault)
                    &&& final(self).cache_model() == old(self).cache_model()
                },
            },
    {
        match reply {
            WriteReply::Done => {
                self.cache.remove(token);
                Ok(true)
            },
            WriteReply::Fault => Err(EngineError::StorageFault),
        }
    }

    /// Deletes a token from the table and from the cache. A token that was
    /// not stored is deleted with the same success.
    pub fn delete(&mut self, store: &mut Store, token: String) -> (result: Result<
        bool,
        EngineError,
    >)
        requires
            old(self).wf(),
        ensures
            final(self).wf(),
            final(self).encoding() == old(self).encoding(),
            (final(self).world(final(store)@), result) == delete_model(
                old(self).world(old(store)@),
                token@,
            ),
    {
        store.delete(token.as_str());
        self.finish_delete(token.as_str(), WriteReply::Done)
    }
}

} // verus!
