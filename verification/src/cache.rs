//! Memoization of derived key bundles, keyed by the canonical encoding of
//! the identity.
//!
//! The cache views as a map from encoded identities to key bundles. It is a
//! pure memoization layer: whatever it holds can be derived again from the
//! master secret and the identity.

use vstd::prelude::*;
use crate::bytes::{same_bytes, MasterSecret, PublicKey};
use crate::kdf::derive_spec;
use crate::keys::{ContractKey, ContractKeyView, KeyManagerError, RequestIds};
use crate::secret::MasterSecretHolder;

verus! {

/// The bundle that a request for `identity` is answered with: the cached one
/// if there is one, else the one derived from `secret`.
pub open spec fn lookup_or_derive(
    cache: Map<Seq<u8>, ContractKeyView>,
    secret: Seq<u8>,
    identity: Seq<u8>,
) -> ContractKeyView {
    if cache.dom().contains(identity) {
        cache[identity]
    } else {
        derive_spec(secret, identity)
    }
}

/// The number of derivations after a request for `identity`: a hit derives
/// nothing, a miss derives once. The count stops at `u64::MAX`.
pub open spec fn derivations_after(
    cache: Map<Seq<u8>, ContractKeyView>,
    identity: Seq<u8>,
    count: u64,
) -> u64 {
    if cache.dom().contains(identity) || count == u64::MAX {
        count
    } else {
        (count + 1) as u64
    }
}

/// Every bundle in `cache` is the one derived from `secret` for the identity
/// it is stored under.
pub open spec fn memoizes(cache: Map<Seq<u8>, ContractKeyView>, secret: Seq<u8>) -> bool {
    forall|identity: Seq<u8>| #[trigger]
        cache.dom().contains(identity) ==> cache[identity] == derive_spec(secret, identity)
}

/// One memoized bundle.
struct CacheEntry {
    key: Vec<u8>,
    value: ContractKey,
}

spec fn holds_at(entries: Seq<CacheEntry>, key: Seq<u8>, i: int) -> bool {
    0 <= i < entries.len() && entries[i].key@ == key
}

spec fn holds(entries: Seq<CacheEntry>, key: Seq<u8>) -> bool {
    exists|i: int| holds_at(entries, key, i)
}

spec fn position(entries: Seq<CacheEntry>, key: Seq<u8>) -> int {
    choose|i: int| holds_at(entries, key, i)
}

spec fn distinct(entries: Seq<CacheEntry>) -> bool {
    forall|i: int, j: int|
        0 <= i < j < entries.len() ==> (#[trigger] entries[i]).key@ != (#[trigger] entries[j]).key@
}

spec fn entries_map(entries: Seq<CacheEntry>) -> Map<Seq<u8>, ContractKeyView> {
    Map::new(|key: Seq<u8>| holds(entries, key), |key: Seq<u8>| entries[position(entries, key)].value@)
}

proof fn lemma_entry_at(entries: Seq<CacheEntry>, key: Seq<u8>, i: int)
    requires
        distinct(entries),
        holds_at(entries, key, i),
    ensures
        entries_map(entries).dom().contains(key),
        entries_map(entries)[key] == entries[i].value@,
{
    let p = position(entries, key);
    assert(holds_at(entries, key, p));
    if p < i {
        assert(entries[p].key@ != entries[i].key@);
    } else if i < p {
        assert(entries[i].key@ != entries[p].key@);
    }
}

proof fn lemma_push(entries: Seq<CacheEntry>, entry: CacheEntry)
    requires
        distinct(entries),
        !holds(entries, entry.key@),
    ensures
        distinct(entries.push(entry)),
        entries_map(entries.push(entry)) == entries_map(entries).insert(entry.key@, entry.value@),
{
    let after = entries.push(entry);
    assert forall|i: int, j: int| 0 <= i < j < after.len() implies (#[trigger] after[i]).key@ != (
    #[trigger] after[j]).key@ by {
        if j == entries.len() {
            assert(!holds_at(entries, entry.key@, i));
        } else {
            assert(entries[i].key@ != entries[j].key@);
        }
    }
    let grown = entries_map(entries).insert(entry.key@, entry.value@);
    assert forall|key: Seq<u8>| entries_map(after).dom().contains(key) <==> grown.dom().contains(
        key,
    ) by {
        if holds(after, key) {
            let p = position(after, key);
            assert(holds_at(after, key, p));
            if p < entries.len() {
                assert(holds_at(entries, key, p));
            }
        }
        if holds(entries, key) {
            let p = position(entries, key);
            assert(holds_at(after, key, p));
        }
        if key == entry.key@ {
            assert(holds_at(after, key, entries.len() as int));
        }
    }
    assert forall|key: Seq<u8>| entries_map(after).dom().contains(key) implies entries_map(
        after,
    )[key] == grown[key] by {
        let p = position(after, key);
        assert(holds_at(after, key, p));
        lemma_entry_at(after, key, p);
        if p < entries.len() {
            assert(holds_at(entries, key, p));
            lemma_entry_at(entries, key, p);
        }
    }
    assert(entries_map(after) =~= grown);
}

proof fn lemma_remove(entries: Seq<CacheEntry>, at: int)
    requires
        distinct(entries),
        0 <= at < entries.len(),
    ensures
        distinct(entries.remove(at)),
        entries_map(entries.remove(at)) == entries_map(entries).remove(entries[at].key@),
{
    let after = entries.remove(at);
    let gone = entries[at].key@;
    assert forall|i: int| 0 <= i < after.len() implies #[trigger] after[i] == entries[if i < at {
        i
    } else {
        i + 1
    }] by {}
    assert forall|i: int, j: int| 0 <= i < j < after.len() implies (#[trigger] after[i]).key@ != (
    #[trigger] after[j]).key@ by {
        let oi = if i < at { i } else { i + 1 };
        let oj = if j < at { j } else { j + 1 };
        assert(entries[oi].key@ != entries[oj].key@);
    }
    let shrunk = entries_map(entries).remove(gone);
    assert forall|key: Seq<u8>| entries_map(after).dom().contains(key) <==> shrunk.dom().contains(
        key,
    ) by {
        if holds(after, key) {
            let p = position(after, key);
            assert(holds_at(after, key, p));
            let op = if p < at { p } else { p + 1 };
            assert(holds_at(entries, key, op));
            if op < at {
                assert(entries[op].key@ != entries[at].key@);
            } else {
                assert(entries[at].key@ != entries[op].key@);
            }
        }
        if holds(entries, key) && key != gone {
            let p = position(entries, key);
            assert(holds_at(entries, key, p));
            let np = if p < at { p } else { p - 1 };
            assert(holds_at(after, key, np));
        }
    }
    assert forall|key: Seq<u8>| entries_map(after).dom().contains(key) implies entries_map(
        after,
    )[key] == shrunk[key] by {
        let p = position(after, key);
        assert(holds_at(after, key, p));
        lemma_entry_at(after, key, p);
        let op = if p < at { p } else { p + 1 };
        assert(holds_at(entries, key, op));
        lemma_entry_at(entries, key, op);
    }
    assert(entries_map(after) =~= shrunk);
}

/// Cache of derived key bundles.
pub struct ContractKeyCache {
    entries: Vec<CacheEntry>,
    derivations: u64,
}

impl View for ContractKeyCache {
    type V = Map<Seq<u8>, ContractKeyView>;

    closed spec fn view(&self) -> Map<Seq<u8>, ContractKeyView> {
        entries_map(self.entries@)
    }
}

impl ContractKeyCache {
    /// No identity is stored twice.
    #[verifier::type_invariant]
    spec fn no_identity_twice(self) -> bool {
        distinct(self.entries@)
    }

    /// How many derivations the cache has made.
    pub closed spec fn derivations(&self) -> u64 {
        self.derivations
    }

    /// An empty cache that has derived nothing.
    pub fn new() -> (cache: Self)
        ensures
            cache@ == Map::<Seq<u8>, ContractKeyView>::empty(),
            cache.derivations() == 0,
    {
        let cache = ContractKeyCache { entries: Vec::new(), derivations: 0 };
        assert(cache@ =~= Map::<Seq<u8>, ContractKeyView>::empty()) by {
            assert forall|key: Seq<u8>| !holds(cache.entries@, key) by {
                if holds(cache.entries@, key) {
                    assert(holds_at(cache.entries@, key, position(cache.entries@, key)));
                }
            }
        }
        cache
    }

    /// How many derivations the cache has made: one for each miss.
    pub fn derivation_count(&self) -> (count: u64)
        ensures
            count == self.derivations(),
    {
        self.derivations
    }

    /// Where `key` is stored, if it is.
    fn find(&self, key: &Vec<u8>) -> (found: Option<usize>)
        ensures
            match found {
                Some(i) => holds_at(self.entries@, key@, i as int),
                None => !holds(self.entries@, key@),
            },
    {
        let mut i: usize = 0;
        while i < self.entries.len()
            invariant
                i <= self.entries@.len(),
                forall|j: int| 0 <= j < i ==> !holds_at(self.entries@, key@, j),
            decreases self.entries@.len() - i,
        {
            if same_bytes(self.entries[i].key.as_slice(), key.as_slice()) {
                return Some(i);
            }
            i += 1;
        }
        assert(!holds(self.entries@, key@)) by {
            if holds(self.entries@, key@) {
                assert(holds_at(self.entries@, key@, position(self.entries@, key@)));
            }
        }
        None
    }

    /// The cached bundle of `id`, if there is one. Never derives.
    pub fn get_cached(&self, id: &RequestIds) -> (cached: Option<ContractKey>)
        ensures
            match cached {
                Some(key) => self@.dom().contains(id.cache_key()) && key@ == self@[id.cache_key()],
                None => !self@.dom().contains(id.cache_key()),
            },
    {
        let key = id.to_cache_key();
        proof {
            use_type_invariant(self);
        }
        match self.find(&key) {
            Some(i) => {
                proof {
                    lemma_entry_at(self.entries@, key@, i as int);
                }
                Some(self.entries[i].value)
            },
            None => None,
        }
    }

    /// The public key of the cached bundle of `id`, if there is one. A
    /// read-only lookup: it never derives.
    pub fn get_cached_public(&self, id: &RequestIds) -> (cached: Option<PublicKey>)
        ensures
            match cached {
                Some(pk) => self@.dom().contains(id.cache_key()) && pk@ == self@[id.cache_key()].input_keypair.pk,
                None => !self@.dom().contains(id.cache_key()),
            },
    {
        match self.get_cached(id) {
            Some(key) => Some(key.input_keypair.get_pk()),
            None => None,
        }
    }

    /// The bundle of `id`: the cached one on a hit; on a miss the one
    /// derived under the holder's master secret, which is then stored. An
    /// uninitialized holder fails the request and leaves the cache as it is.
    pub fn get_or_derive(&mut self, holder: &MasterSecretHolder, id: &RequestIds) -> (result: Result<
        ContractKey,
        KeyManagerError,
    >)
        ensures
            match holder@ {
                Some(secret) => {
                    &&& result matches Ok(key)
                    &&& key@ == lookup_or_derive(old(self)@, secret, id.cache_key())
                    &&& final(self)@ == old(self)@.insert(id.cache_key(), key@)
                    &&& final(self).derivations() == derivations_after(
                        old(self)@,
                        id.cache_key(),
                        old(self).derivations(),
                    )
                },
                None => {
                    &&& result == Err::<ContractKey, KeyManagerError>(KeyManagerError::NotInitialized)
                    &&& final(self)@ == old(self)@
                    &&& final(self).derivations() == old(self).derivations()
                },
            },
    {
        let key = id.to_cache_key();
        proof {
            use_type_invariant(&*self);
        }
        match self.find(&key) {
            Some(i) => {
                if !holder.is_initialized() {
                    return Err(KeyManagerError::NotInitialized);
                }
                proof {
                    lemma_entry_at(self.entries@, key@, i as int);
                    assert(self@.insert(key@, self@[key@]) =~= self@);
                }
                Ok(self.entries[i].value)
            },
            None => {
                let derive_for_id = |secret: &MasterSecret| -> (key: ContractKey)
                    ensures
                        key@ == derive_spec(secret@, id.cache_key()),
                    {
                        crate::kdf::derive(secret, id)
                    };
                let derived = holder.with_secret(derive_for_id);
                match derived {
                    Ok(value) => {
                        proof {
                            lemma_push(self.entries@, CacheEntry { key, value });
                        }
                        let mut entries: Vec<CacheEntry> = Vec::new();
                        std::mem::swap(&mut entries, &mut self.entries);
                        entries.push(CacheEntry { key, value });
                        self.entries = entries;
                        if self.derivations < u64::MAX {
                            self.derivations = self.derivations + 1;
                        }
                        Ok(value)
                    },
                    Err(e) => Err(e),
                }
            },
        }
    }

    /// Forgets the bundle of `id`, if it is cached.
    pub fn invalidate(&mut self, id: &RequestIds)
        ensures
            final(self)@ == old(self)@.remove(id.cache_key()),
            final(self).derivations() == old(self).derivations(),
    {
        let key = id.to_cache_key();
        proof {
            use_type_invariant(&*self);
        }
        match self.find(&key) {
            Some(i) => {
                proof {
                    lemma_remove(self.entries@, i as int);
                }
                let mut entries: Vec<CacheEntry> = Vec::new();
                std::mem::swap(&mut entries, &mut self.entries);
                entries.remove(i);
                self.entries = entries;
            },
            None => {
                assert(self@.remove(key@) =~= self@);
            },
        }
    }

    /// Forgets every bundle.
    pub fn clear(&mut self)
        ensures
            final(self)@ == Map::<Seq<u8>, ContractKeyView>::empty(),
            final(self).derivations() == old(self).derivations(),
    {
        self.entries = Vec::new();
        assert(self@ =~= Map::<Seq<u8>, ContractKeyView>::empty()) by {
            assert forall|key: Seq<u8>| !holds(self.entries@, key) by {
                if holds(self.entries@, key) {
                    assert(holds_at(self.entries@, key, position(self.entries@, key)));
                }
            }
        }
    }

    /// Memoization is kept by every operation: if each cached bundle is the
    /// derived one, then a request is answered with the derived bundle, and
    /// the cache after a request, after an invalidation and after clearing
    /// still holds derived bundles only.
    pub proof fn lemma_memoization_kept(
        cache: Map<Seq<u8>, ContractKeyView>,
        secret: Seq<u8>,
        identity: Seq<u8>,
    )
        requires
            memoizes(cache, secret),
        ensures
            lookup_or_derive(cache, secret, identity) == derive_spec(secret, identity),
            memoizes(cache.insert(identity, lookup_or_derive(cache, secret, identity)), secret),
            memoizes(cache.remove(identity), secret),
            memoizes(Map::<Seq<u8>, ContractKeyView>::empty(), secret),
    {
    }

    /// Losing an entry never changes a value: a request, then an
    /// invalidation of the same identity, then the request again yields the
    /// bundle that the first request yielded.
    pub proof fn lemma_rederive_after_invalidate(
        cache: Map<Seq<u8>, ContractKeyView>,
        secret: Seq<u8>,
        identity: Seq<u8>,
    )
        requires
            memoizes(cache, secret),
        ensures
            ({
                let first = lookup_or_derive(cache, secret, identity);
                let filled = cache.insert(identity, first);
                let emptied = filled.remove(identity);
                lookup_or_derive(emptied, secret, identity) == first
            }),
    {
    }

    /// A repeated request derives nothing: once an identity has been
    /// requested, every further request for it is a hit that yields the same
    /// bundle and leaves the cache and the derivation count as they are.
    pub proof fn lemma_repeated_request_hits(
        cache: Map<Seq<u8>, ContractKeyView>,
        secret: Seq<u8>,
        identity: Seq<u8>,
        count: u64,
    )
        ensures
            ({
                let first = lookup_or_derive(cache, secret, identity);
                let filled = cache.insert(identity, first);
                let counted = derivations_after(cache, identity, count);
                &&& lookup_or_derive(filled, secret, identity) == first
                &&& filled.insert(identity, first) == filled
                &&& derivations_after(filled, identity, counted) == counted
            }),
    {
        let first = lookup_or_derive(cache, secret, identity);
        let filled = cache.insert(identity, first);
        assert(filled.insert(identity, first) =~= filled);
    }
}

} // verus!
