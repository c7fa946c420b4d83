//! The mathematical model of the cache and of the table of records.
//!
//! Tokens and URIs are sequences of characters. The executable types of this
//! crate are stated against these definitions, and the laws of the engine are
//! proved over them.

use crate::error::EngineError;
use vstd::prelude::*;

verus! {

/// A token or a URI as the model sees it.
pub type Text = Seq<char>;

/// The table of records: at most one original URI under each token.
pub type Records = Map<Text, Text>;

/// The eviction queue `order` with every occurrence of `token` taken out.
pub open spec fn without(order: Seq<Text>, token: Text) -> Seq<Text> {
    order.filter(|t: Text| t != token)
}

/// The record stored under `token`, if there is one.
pub open spec fn lookup(records: Records, token: Text) -> Option<Text> {
    if records.contains_key(token) {
        Some(records[token])
    } else {
        None
    }
}

/// Insert-or-ignore: a token that is already stored keeps its record.
pub open spec fn inserted(records: Records, token: Text, uri: Text) -> Records {
    if records.contains_key(token) {
        records
    } else {
        records.insert(token, uri)
    }
}

/// Deleting a token that is not stored changes nothing.
pub open spec fn deleted(records: Records, token: Text) -> Records {
    records.remove(token)
}

/// The bounded cache: the mapping, the tokens in the order in which they were
/// cached (oldest first), and the number of entries it may hold.
pub struct CacheModel {
    pub entries: Map<Text, Text>,
    pub order: Seq<Text>,
    pub capacity: nat,
}

impl CacheModel {
    /// Every cached token is queued exactly once, and nothing else is queued.
    pub open spec fn coherent(self) -> bool {
        &&& self.order.no_duplicates()
        &&& forall|t: Text| self.entries.contains_key(t) <==> self.order.contains(t)
    }

    /// The cache is coherent and within its capacity.
    pub open spec fn wf(self) -> bool {
        &&& self.coherent()
        &&& self.order.len() <= self.capacity
    }

    /// The cache that holds nothing yet.
    pub open spec fn empty(capacity: nat) -> CacheModel {
        CacheModel { entries: Map::empty(), order: Seq::empty(), capacity }
    }

    /// The URI cached under `token`, if there is one.
    pub open spec fn get(self, token: Text) -> Option<Text> {
        lookup(self.entries, token)
    }

    /// The new entry joins the back of the queue; an older entry for the same
    /// token gives up its place.
    pub open spec fn append(self, token: Text, uri: Text) -> CacheModel {
        CacheModel {
            entries: self.entries.insert(token, uri),
            order: without(self.order, token).push(token),
            capacity: self.capacity,
        }
    }

    /// When the queue is over the capacity, the entry at its head leaves,
    /// mapping and queue place together.
    pub open spec fn trim(self) -> CacheModel {
        if self.order.len() > self.capacity {
            CacheModel {
                entries: self.entries.remove(self.order.first()),
                order: self.order.drop_first(),
                capacity: self.capacity,
            }
        } else {
            self
        }
    }

    /// Caching an entry: it is appended, and the queue is trimmed.
    pub open spec fn put(self, token: Text, uri: Text) -> CacheModel {
        self.append(token, uri).trim()
    }

    /// Forgetting a token: its mapping and every place it has in the queue.
    pub open spec fn remove(self, token: Text) -> CacheModel {
        CacheModel {
            entries: self.entries.remove(token),
            order: without(self.order, token),
            capacity: self.capacity,
        }
    }

    /// No token is cached that the table does not hold.
    pub open spec fn backed_by(self, records: Records) -> bool {
        forall|t: Text| self.entries.contains_key(t) ==> records.contains_key(t)
    }
}

/// The cache and the table side by side: what one operation of the engine
/// starts from and what it leaves.
pub struct World {
    pub cache: CacheModel,
    pub records: Records,
}

/// A token with a path separator in it is refused before any lookup.
pub open spec fn malformed_token(token: Text) -> bool {
    token.contains('/')
}

/// Reading a token: the cache answers if it can; otherwise the table is
/// asked, and what it holds is cached on the way out.
pub open spec fn read_model(world: World, token: Text) -> (World, Result<Text, EngineError>) {
    if malformed_token(token) {
        (world, Err(EngineError::MalformedInput))
    } else {
        match world.cache.get(token) {
            Some(uri) => (world, Ok(uri)),
            None => match lookup(world.records, token) {
                Some(uri) => (
                    World { cache: world.cache.put(token, uri), records: world.records },
                    Ok(uri),
                ),
                None => (world, Err(EngineError::RecordNotFound)),
            },
        }
    }
}

/// Inserting a URI whose token is `token`: where the token is cached, the
/// cached URI is the answer and nothing changes; otherwise the table takes
/// the record unless it has one, the cache takes it in any case, and the
/// token is the answer.
pub open spec fn insert_model(world: World, token: Text, uri: Text) -> (
    World,
    Result<Text, EngineError>,
) {
    if uri.len() == 0 {
        (world, Err(EngineError::MalformedInput))
    } else {
        match world.cache.get(token) {
            Some(cached) => (world, Ok(cached)),
            None => (
                World {
                    cache: world.cache.put(token, uri),
                    records: inserted(world.records, token, uri),
                },
                Ok(token),
            ),
        }
    }
}

/// Deleting a token takes it out of the table and of the cache, and succeeds
/// whether or not it was there.
pub open spec fn delete_model(world: World, token: Text) -> (World, Result<bool, EngineError>) {
    (
        World { cache: world.cache.remove(token), records: deleted(world.records, token) },
        Ok(true),
    )
}

/// One operation of the engine, with the token that it goes by.
pub enum Operation {
    Read { token: Text },
    Insert { token: Text, uri: Text },
    Delete { token: Text },
}

/// What one operation leaves of the cache and the table.
pub open spec fn step(world: World, operation: Operation) -> World {
    match operation {
        Operation::Read { token } => read_model(world, token).0,
        Operation::Insert { token, uri } => insert_model(world, token, uri).0,
        Operation::Delete { token } => delete_model(world, token).0,
    }
}

/// What a sequence of operations leaves, the first of them applied first.
pub open spec fn run(world: World, operations: Seq<Operation>) -> World
    decreases operations.len(),
{
    if operations.len() == 0 {
        world
    } else {
        step(run(world, operations.drop_last()), operations.last())
    }
}

/// How `without` treats the last element of a queue.
pub proof fn lemma_without_last(order: Seq<Text>, token: Text)
    requires
        order.len() > 0,
    ensures
        without(order, token) == if order.last() == token {
            without(order.drop_last(), token)
        } else {
            without(order.drop_last(), token).push(order.last())
        },
{
    reveal(Seq::filter);
}

/// What `without` keeps: every other token, once where it stood once, and
/// the whole queue where `token` was not in it.
pub proof fn lemma_without(order: Seq<Text>, token: Text)
    ensures
        forall|t: Text| without(order, token).contains(t) <==> order.contains(t) && t != token,
        without(order, token).len() <= order.len(),
        order.no_duplicates() ==> without(order, token).no_duplicates(),
        !order.contains(token) ==> without(order, token) == order,
        order.no_duplicates() && order.contains(token) ==> without(order, token).len() + 1
            == order.len(),
    decreases order.len(),
{
    if order.len() == 0 {
        reveal(Seq::filter);
        assert(without(order, token) =~= order);
    } else {
        let rest = order.drop_last();
        let last = order.last();
        lemma_without(rest, token);
        lemma_without_last(order, token);
        let kept = without(rest, token);
        let out = without(order, token);
        assert forall|t: Text| order.contains(t) <==> rest.contains(t) || t == last by {
            if order.contains(t) {
                let i = choose|i: int| 0 <= i < order.len() && order[i] == t;
                if i < rest.len() {
                    assert(rest[i] == t);
                }
            }
            if rest.contains(t) {
                let i = choose|i: int| 0 <= i < rest.len() && rest[i] == t;
                assert(order[i] == t);
            }
            if t == last {
                assert(order[order.len() - 1] == t);
            }
        }
        if last == token {
            assert(order.contains(token));
            if order.no_duplicates() {
                assert(rest.no_duplicates());
                assert(!rest.contains(token)) by {
                    if rest.contains(token) {
                        let i = choose|i: int| 0 <= i < rest.len() && rest[i] == token;
                        assert(order[i] == order[order.len() - 1]);
                    }
                }
            }
        } else {
            assert forall|t: Text| out.contains(t) <==> kept.contains(t) || t == last by {
                if out.contains(t) {
                    let i = choose|i: int| 0 <= i < out.len() && out[i] == t;
                    if i < kept.len() {
                        assert(kept[i] == t);
                    }
                }
                if kept.contains(t) {
                    let i = choose|i: int| 0 <= i < kept.len() && kept[i] == t;
                    assert(out[i] == t);
                }
                if t == last {
                    assert(out[out.len() - 1] == t);
                }
            }
            if order.no_duplicates() {
                assert(rest.no_duplicates());
                assert(!kept.contains(last)) by {
                    if rest.contains(last) {
                        let i = choose|i: int| 0 <= i < rest.len() && rest[i] == last;
                        assert(order[i] == order[order.len() - 1]);
                    }
                }
                assert(out.no_duplicates());
            }
            if !order.contains(token) {
                assert(out =~= order);
            }
        }
    }
}

/// A sequence without duplicates keeps none when its head leaves, and the
/// head is then no longer in it.
pub proof fn lemma_drop_first(order: Seq<Text>)
    requires
        order.no_duplicates(),
        order.len() > 0,
    ensures
        order.drop_first().no_duplicates(),
        forall|t: Text| order.drop_first().contains(t) <==> order.contains(t) && t != order.first(),
{
    let rest = order.drop_first();
    assert forall|t: Text| rest.contains(t) <==> order.contains(t) && t != order.first() by {
        if rest.contains(t) {
            let i = choose|i: int| 0 <= i < rest.len() && rest[i] == t;
            assert(order[i + 1] == t);
        }
        if order.contains(t) && t != order.first() {
            let i = choose|i: int| 0 <= i < order.len() && order[i] == t;
            assert(rest[i - 1] == t);
        }
    }
}

/// Appending keeps the cache coherent and at most one entry over its
/// capacity; trimming brings it back within the capacity.
pub proof fn lemma_put(cache: CacheModel, token: Text, uri: Text)
    requires
        cache.wf(),
    ensures
        cache.append(token, uri).coherent(),
        cache.append(token, uri).order.len() <= cache.capacity + 1,
        cache.put(token, uri).wf(),
{
    lemma_without(cache.order, token);
    let kept = without(cache.order, token);
    let grown = cache.append(token, uri);
    assert(grown.order.no_duplicates());
    assert forall|t: Text| grown.entries.contains_key(t) <==> grown.order.contains(t) by {
        assert(kept.contains(t) <==> cache.order.contains(t) && t != token);
        assert(cache.entries.contains_key(t) <==> cache.order.contains(t));
        assert(grown.entries.contains_key(t) <==> t == token || cache.entries.contains_key(t));
        if grown.order.contains(t) {
            let i = choose|i: int| 0 <= i < grown.order.len() && grown.order[i] == t;
            if i < kept.len() {
                assert(kept[i] == t);
            }
        }
        if kept.contains(t) {
            let i = choose|i: int| 0 <= i < kept.len() && kept[i] == t;
            assert(grown.order[i] == t);
        }
        if t == token {
            assert(grown.order[grown.order.len() - 1] == t);
        }
    }
    assert(grown.coherent());
    if grown.order.len() > grown.capacity {
        lemma_drop_first(grown.order);
        let cut = grown.trim();
        assert forall|t: Text| cut.entries.contains_key(t) <==> cut.order.contains(t) by {
            assert(grown.entries.contains_key(t) <==> grown.order.contains(t));
            assert(cut.order.contains(t) <==> grown.order.contains(t) && t != grown.order.first());
        }
    }
}

/// Removing a token keeps the cache well formed.
pub proof fn lemma_remove(cache: CacheModel, token: Text)
    requires
        cache.wf(),
    ensures
        cache.remove(token).wf(),
        !cache.remove(token).entries.contains_key(token),
{
    lemma_without(cache.order, token);
    let cut = cache.remove(token);
    assert forall|t: Text| cut.entries.contains_key(t) <==> cut.order.contains(t) by {
        assert(cache.entries.contains_key(t) <==> cache.order.contains(t));
        assert(cut.order.contains(t) <==> cache.order.contains(t) && t != token);
    }
}

} // verus!
