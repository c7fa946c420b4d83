//! The bounded cache: a mapping from token to original URI and the queue of
//! tokens that decides which entry leaves first.

use crate::model::{lemma_put, lemma_remove, lemma_without, lemma_without_last, without, CacheModel, Text};
use std::collections::VecDeque;
use vstd::hash_map::StringHashMap;
use vstd::prelude::*;

verus! {

/// The tokens of a queue, in order, as the model sees them.
pub open spec fn texts(queue: Seq<String>) -> Seq<Text> {
    queue.map_values(|s: String| s@)
}

/// A bounded mapping from token to original URI with first-in-first-out
/// eviction. Reading an entry does not renew it.
pub struct Cache {
    map: StringHashMap<String>,
    queue: VecDeque<String>,
    capacity: usize,
}

impl View for Cache {
    type V = CacheModel;

    closed spec fn view(&self) -> CacheModel {
        CacheModel {
            entries: self.map@.map_values(|s: String| s@),
            order: texts(self.queue@),
            capacity: self.capacity as nat,
        }
    }
}

/// Takes every occurrence of `token` out of the queue and keeps the others
/// in their order.
fn unqueue(queue: &mut VecDeque<String>, token: &String)
    ensures
        texts(final(queue)@) == without(texts(old(queue)@), token@),
{
    let ghost before = texts(queue@);
    let ghost mut seen: int = 0;
    let mut i: usize = 0;
    proof {
        reveal(Seq::filter);
        assert(before.take(0) =~= Seq::<Text>::empty());
        assert(without(before.take(0), token@) =~= Seq::<Text>::empty());
        assert(before.skip(0) =~= before);
    }
    while i < queue.len()
        invariant
            0 <= seen <= before.len(),
            i == without(before.take(seen), token@).len(),
            texts(queue@) == without(before.take(seen), token@) + before.skip(seen),
        decreases before.len() - seen,
    {
        let ghost kept = without(before.take(seen), token@);
        let ghost current = texts(queue@);
        proof {
            assert(current.len() == queue@.len());
            assert(seen < before.len());
            assert(current[i as int] == before.skip(seen)[0]);
            assert(before.take(seen + 1).drop_last() =~= before.take(seen));
            assert(before.take(seen + 1).last() == before[seen]);
            lemma_without_last(before.take(seen + 1), token@);
        }
        if queue[i] == *token {
            let ghost full = queue@;
            let taken = queue.remove(i);
            proof {
                assert(taken is Some);
                assert(queue@ == full.remove(i as int));
                assert(queue@.len() == full.len() - 1);
                assert forall|j: int| 0 <= j < queue@.len() implies texts(queue@)[j] == (kept
                    + before.skip(seen + 1))[j] by {
                    if j < i {
                        assert(queue@[j] == full[j]);
                        assert(current[j] == kept[j]);
                    } else {
                        assert(queue@[j] == full[j + 1]);
                        assert(current[j + 1] == before.skip(seen)[j + 1 - i]);
                    }
                }
                assert(texts(queue@) =~= kept + before.skip(seen + 1));
            }
        } else {
            i += 1;
            proof {
                assert(current =~= kept.push(before[seen]) + before.skip(seen + 1));
            }
        }
        proof {
            seen = seen + 1;
        }
    }
    proof {
        assert(before.skip(seen).len() == 0);
        assert(seen == before.len());
        assert(before.take(seen) =~= before);
        assert(texts(queue@) =~= without(before, token@));
    }
}

impl Cache {
    /// An empty cache that holds at most `capacity` entries.
    pub fn new(capacity: usize) -> (cache: Cache)
        ensures
            cache@ == CacheModel::empty(capacity as nat),
            cache@.wf(),
    {
        let cache = Cache { map: StringHashMap::new(), queue: VecDeque::new(), capacity };
        proof {
            assert(cache@.entries =~= Map::<Text, Text>::empty());
            assert(cache@.order =~= Seq::<Text>::empty());
        }
        cache
    }

    /// The number of entries the cache may hold.
    pub fn capacity(&self) -> (capacity: usize)
        ensures
            capacity == self@.capacity,
    {
        self.capacity
    }

    /// The number of entries in the eviction queue.
    pub fn len(&self) -> (len: usize)
        ensures
            len == self@.order.len(),
    {
        self.queue.len()
    }

    /// The cached tokens in the order in which they would be evicted, the
    /// oldest first.
    pub fn tokens(&self) -> (tokens: Vec<String>)
        ensures
            texts(tokens@) == self@.order,
    {
        let mut tokens: Vec<String> = Vec::new();
        let mut i: usize = 0;
        while i < self.queue.len()
            invariant
                i <= self.queue.len(),
                texts(tokens@) == texts(self.queue@).take(i as int),
            decreases self.queue.len() - i,
        {
            let ghost before = tokens@;
            assert(i < self.queue@.len());
            assert(texts(self.queue@).len() == self.queue@.len());
            assert(texts(before).len() == i);
            let token = self.queue[i].clone();
            assert(token@ == self.queue@[i as int]@);
            tokens.push(token);
            assert forall|j: int| 0 <= j < tokens@.len() implies texts(tokens@)[j] == texts(
                self.queue@,
            ).take(i + 1)[j] by {
                if j < i {
                    assert(texts(before)[j] == texts(self.queue@).take(i as int)[j]);
                }
            }
            assert(texts(tokens@) =~= texts(self.queue@).take(i + 1));
            i += 1;
        }
        assert(texts(self.queue@).take(i as int) =~= texts(self.queue@));
        tokens
    }

    /// The original URI cached under `token`. The cache is left as it is.
    pub fn get(&self, token: &str) -> (found: Option<String>)
        ensures
            match found {
                Some(uri) => self@.get(token@) == Some(uri@),
                None => self@.get(token@) is None,
            },
    {
        match self.map.get(token) {
            Some(uri) => Some(uri.clone()),
            None => None,
        }
    }

    /// Caches `uri` under `token` at the back of the queue, then evicts the
    /// oldest entry if the queue has grown over the capacity.
    pub fn put(&mut self, token: String, uri: String)
        requires
            old(self)@.wf(),
        ensures
            final(self)@ == old(self)@.put(token@, uri@),
            final(self)@.wf(),
    {
        proof {
            lemma_put(self@, token@, uri@);
            lemma_without(self@.order, token@);
        }
        if self.map.contains_key(token.as_str()) {
            unqueue(&mut self.queue, &token);
        }
        self.queue.push_back(token.clone());
        self.map.insert(token, uri);
        proof {
            let grown = old(self)@.append(token@, uri@);
            assert(self@.order =~= grown.order);
            assert(self@.entries =~= grown.entries);
        }
        if self.queue.len() > self.capacity {
            let ghost grown = self@;
            match self.queue.pop_front() {
                Some(head) => {
                    self.map.remove(head.as_str());
                    proof {
                        assert(self@.order =~= grown.order.drop_first());
                        assert(self@.entries =~= grown.entries.remove(grown.order.first()));
                    }
                },
                None => {},
            }
        }
    }

    /// Forgets `token`: its mapping and every place it has in the queue.
    pub fn remove(&mut self, token: &str)
        requires
            old(self)@.wf(),
        ensures
            final(self)@ == old(self)@.remove(token@),
            final(self)@.wf(),
    {
        proof {
            lemma_remove(self@, token@);
        }
        let needle = token.to_owned();
        self.map.remove(token);
        unqueue(&mut self.queue, &needle);
        proof {
            assert(self@.entries =~= old(self)@.entries.remove(token@));
        }
    }
}

} // verus!
