//! What holds of the engine over a table that answers without faults, proved
//! over the model that the operations are stated against.

use crate::error::EngineError;
use crate::model::{
    delete_model, insert_model, lemma_put, lemma_remove, lemma_without, malformed_token,
    read_model, run, step, CacheModel, Operation, Text, World,
};
use vstd::prelude::*;

verus! {

/// Every operation leaves the cache well formed and backed by the table: no
/// token is cached that the table does not hold.
pub proof fn cache_stays_backed(world: World, token: Text, uri: Text)
    requires
        world.cache.wf(),
        world.cache.backed_by(world.records),
    ensures
        ({
            let after = read_model(world, token).0;
            after.cache.wf() && after.cache.backed_by(after.records)
        }),
        ({
            let after = insert_model(world, token, uri).0;
            after.cache.wf() && after.cache.backed_by(after.records)
        }),
        ({
            let after = delete_model(world, token).0;
            after.cache.wf() && after.cache.backed_by(after.records)
        }),
{
    lemma_put(world.cache, token, uri);
    lemma_remove(world.cache, token);
    if world.records.contains_key(token) {
        lemma_put(world.cache, token, world.records[token]);
    }
}

/// After any sequence of operations the cache is well formed, so its queue is
/// within the capacity, and it is backed by the table.
pub proof fn cache_stays_backed_through_any_run(world: World, operations: Seq<Operation>)
    requires
        world.cache.wf(),
        world.cache.backed_by(world.records),
    ensures
        run(world, operations).cache.wf(),
        run(world, operations).cache.backed_by(run(world, operations).records),
        run(world, operations).cache.capacity == world.cache.capacity,
        run(world, operations).cache.order.len() <= world.cache.capacity,
    decreases operations.len(),
{
    if operations.len() > 0 {
        cache_stays_backed_through_any_run(world, operations.drop_last());
        let before = run(world, operations.drop_last());
        match operations.last() {
            Operation::Read { token } => cache_stays_backed(before, token, token),
            Operation::Insert { token, uri } => cache_stays_backed(before, token, uri),
            Operation::Delete { token } => cache_stays_backed(before, token, token),
        }
        assert(step(before, operations.last()).cache.capacity == before.cache.capacity);
    }
}

/// The eviction queue is never more than one entry over the capacity while
/// an entry is put, and within the capacity afterwards. Where a new token is
/// put into a full cache, the entry that leaves is the one at the head of
/// the queue, the oldest, and the others keep their order.
pub proof fn eviction_is_first_in_first_out(cache: CacheModel, token: Text, uri: Text)
    requires
        cache.wf(),
    ensures
        cache.append(token, uri).order.len() <= cache.capacity + 1,
        cache.put(token, uri).wf(),
        cache.put(token, uri).order.len() <= cache.capacity,
        !cache.entries.contains_key(token) && cache.order.len() < cache.capacity ==> {
            &&& cache.put(token, uri).order == cache.order.push(token)
            &&& cache.put(token, uri).entries == cache.entries.insert(token, uri)
        },
        !cache.entries.contains_key(token) && cache.order.len() == cache.capacity
            && cache.capacity > 0 ==> {
            &&& cache.put(token, uri).order == cache.order.drop_first().push(token)
            &&& cache.put(token, uri).entries == cache.entries.insert(token, uri).remove(
                cache.order.first(),
            )
            &&& !cache.put(token, uri).entries.contains_key(cache.order.first())
        },
{
    lemma_put(cache, token, uri);
    lemma_without(cache.order, token);
    if !cache.entries.contains_key(token) {
        assert(!cache.order.contains(token));
        if cache.order.len() == cache.capacity && cache.capacity > 0 {
            let grown = cache.append(token, uri);
            assert(grown.order.first() == cache.order.first());
            assert(grown.order.drop_first() =~= cache.order.drop_first().push(token));
            assert(cache.order.contains(cache.order.first())) by {
                assert(cache.order[0] == cache.order.first());
            }
        }
    }
}

/// Reading the token that an insert returned gives the URI that was
/// inserted. This is stated of an insert that went to the table and returned
/// the token (one that finds its token cached returns the cached URI
/// instead), for a URI that is not empty and a token without a path
/// separator, as every token of `Actor::encode` is. A cache without room
/// keeps nothing, so there the table must not hold another URI under the
/// token.
pub proof fn read_returns_what_insert_stored(world: World, token: Text, uri: Text)
    requires
        world.cache.wf(),
        uri.len() > 0,
        !malformed_token(token),
        world.cache.get(token) is None,
        world.cache.capacity > 0 || !world.records.contains_key(token) || world.records[token]
            == uri,
    ensures
        insert_model(world, token, uri).1 == Ok::<Text, EngineError>(token),
        read_model(insert_model(world, token, uri).0, token).1 == Ok::<Text, EngineError>(uri),
{
    lemma_put(world.cache, token, uri);
    lemma_without(world.cache.order, token);
    let grown = world.cache.append(token, uri);
    let kept = grown.trim();
    assert(grown.order.last() == token);
    if world.cache.capacity > 0 {
        if grown.order.len() > grown.capacity {
            assert(grown.order.len() >= 2);
            assert(grown.order.first() != token) by {
                assert(grown.order[0] != grown.order[grown.order.len() - 1]);
            }
        }
        assert(kept.entries.contains_key(token));
    } else {
        assert(grown.order =~= seq![token]);
        assert(!kept.entries.contains_key(token));
    }
}

/// Inserting the same URI twice leaves the table after the second insert as
/// it was after the first, with one record under the token. The two inserts
/// return the same thing exactly when the first found its token cached, or
/// the cache has no room, or the URI is its own token: otherwise the first
/// returns the token and the second the URI that the first has cached.
pub proof fn insert_is_idempotent(world: World, token: Text, uri: Text)
    requires
        world.cache.wf(),
        world.cache.backed_by(world.records),
        uri.len() > 0,
    ensures
        ({
            let first = insert_model(world, token, uri);
            let second = insert_model(first.0, token, uri);
            &&& first.0.records.contains_key(token)
            &&& second.0.records == first.0.records
            &&& (first.1 == second.1 <==> world.cache.get(token) is Some || world.cache.capacity
                == 0 || uri == token)
            &&& world.cache.get(token) is None && world.cache.capacity == 0 ==> first.1 == Ok::<
                Text,
                EngineError,
            >(token)
        }),
{
    lemma_put(world.cache, token, uri);
    lemma_without(world.cache.order, token);
    let first = insert_model(world, token, uri);
    if world.cache.get(token) is None {
        let grown = world.cache.append(token, uri);
        let kept = grown.trim();
        assert(grown.order.last() == token);
        if world.cache.capacity > 0 {
            if grown.order.len() > grown.capacity {
                assert(grown.order.first() != token) by {
                    assert(grown.order[0] != grown.order[grown.order.len() - 1]);
                }
            }
            assert(kept.entries.contains_key(token));
            assert(kept.entries[token] == uri);
        } else {
            assert(grown.order =~= seq![token]);
            assert(!kept.entries.contains_key(token));
        }
    }
}

/// After a delete, a read of the same token finds no record, and a second
/// delete succeeds like the first. The read is of a token without a path
/// separator: a malformed one is refused before it is looked up.
pub proof fn deleted_token_is_gone(world: World, token: Text)
    requires
        world.cache.wf(),
        !malformed_token(token),
    ensures
        delete_model(world, token).1 == Ok::<bool, EngineError>(true),
        read_model(delete_model(world, token).0, token).1 == Err::<Text, EngineError>(
            EngineError::RecordNotFound,
        ),
        delete_model(delete_model(world, token).0, token).1 == Ok::<bool, EngineError>(true),
        delete_model(delete_model(world, token).0, token).0 == delete_model(world, token).0,
{
    lemma_remove(world.cache, token);
    let once = delete_model(world, token).0;
    lemma_without(once.cache.order, token);
    assert(!once.cache.order.contains(token));
    let twice = delete_model(once, token).0;
    assert(twice.cache.entries =~= once.cache.entries);
    assert(twice.records =~= once.records);
}

/// A malformed token is refused and nothing is touched.
pub proof fn malformed_token_is_refused(world: World, token: Text)
    requires
        malformed_token(token),
    ensures
        read_model(world, token) == (world, Err::<Text, EngineError>(EngineError::MalformedInput)),
{
}

} // verus!
