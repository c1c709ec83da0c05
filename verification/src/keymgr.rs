//! The key manager: owns the configured backends, loads their contents into
//! an in-memory index at construction, and mediates generation and lookup.
//!
//! The index is a derived cache of the backends' durable storage, never the
//! source of truth: a key persisted but not indexed reappears when the next
//! manager is constructed. Two sources must never claim the same identifier;
//! the manager refuses to build or extend an index that would break this.

use vstd::prelude::*;

use crate::key::{Key, KeyView};
use crate::keyid::KeyId;
use crate::store::{
    spec_generated_entry, spec_key_result_view, spec_parse_entry, spec_secret_of, EntryView,
    GenerateError, Keystore, ListError,
};
use vstd::string::StrSliceExecFns;

verus! {

/// The identifier of the store that `generate` targets when the caller names
/// none.
pub const DEFAULT_STORE: &'static str = "default";

/// Whether every item of a backend's storage reads back as a key.
pub open spec fn spec_all_parse_ok(es: Seq<EntryView>) -> bool {
    forall|i: int| 0 <= i < es.len() ==> spec_parse_entry(#[trigger] es[i]) is Ok
}

/// The keys a backend's storage describes, item by item.
pub open spec fn spec_parsed_keys(es: Seq<EntryView>) -> Seq<KeyView> {
    es.map_values(|e: EntryView| spec_parse_entry(e)->Ok_0)
}

/// Whether the indexed keys carry pairwise distinct identifiers.
pub open spec fn spec_distinct_ids(s: Seq<KeyView>) -> bool {
    forall|i: int, j: int| #![trigger s[i], s[j]] 0 <= i < j < s.len() ==> s[i].id != s[j].id
}

/// Whether some indexed key carries this identifier.
pub open spec fn spec_index_has_id(s: Seq<KeyView>, id: Seq<u8>) -> bool {
    exists|i: int| #![trigger s[i]] 0 <= i < s.len() && s[i].id == id
}

/// An error of the key manager: a failure of one backend, wrapped with the
/// backend's identity, or a violated index invariant.
#[derive(Debug)]
pub enum KeyMgrError {
    /// One item of the named store's listing failed while the manager loaded
    /// its index.
    ListKeyFailed(&'static str, ListError),
    /// The named store failed to generate or persist a new key.
    GenerateFailed(&'static str, GenerateError),
    /// Two sources claimed the same key identifier: the index invariant is
    /// violated, and the offending key is not indexed.
    DuplicateKeyId,
}

/// Whether two strings hold the same characters.
fn str_eq(a: &str, b: &str) -> (r: bool)
    ensures
        r == (a@ == b@),
{
    let n = a.unicode_len();
    if n != b.unicode_len() {
        return false;
    }
    let mut i: usize = 0;
    while i < n
        invariant
            0 <= i <= n,
            n == a@.len() && n == b@.len(),
            forall|j: int| 0 <= j < i ==> a@[j] == b@[j],
        decreases n - i,
    {
        if a.get_char(i) != b.get_char(i) {
            return false;
        }
        i += 1;
    }
    proof {
        assert(a@ =~= b@);
    }
    true
}

/// Whether some key of the index carries this identifier.
fn contains_id(keys: &Vec<Key>, id: &KeyId) -> (r: bool)
    ensures
        r == spec_index_has_id(keys@.map_values(|k: Key| k@), id@),
{
    let ghost index = keys@.map_values(|k: Key| k@);
    let mut i: usize = 0;
    while i < keys.len()
        invariant
            0 <= i <= keys@.len(),
            index == keys@.map_values(|k: Key| k@),
            forall|j: int| 0 <= j < i ==> (#[trigger] index[j]).id != id@,
        decreases keys@.len() - i,
    {
        if keys[i].id().same_id(id) {
            proof {
                assert(index[i as int].id == id@);
            }
            return true;
        }
        i += 1;
    }
    false
}

/// Manage file encryption keys: one or more key stores, and an index of every
/// key they hold.
pub struct KeyMgr<S: Keystore> {
    store: S,
    keys: Vec<Key>,
}

impl<S: Keystore> KeyMgr<S> {
    /// The identity of the configured backend.
    pub closed spec fn store_id(&self) -> Seq<char> {
        self.store.spec_id()
    }

    /// The items in the configured backend's durable storage.
    pub closed spec fn entries(&self) -> Seq<EntryView> {
        self.store.entries()
    }

    /// The keys the manager has indexed.
    pub closed spec fn index(&self) -> Seq<KeyView> {
        self.keys@.map_values(|k: Key| k@)
    }

    /// The manager's invariant: its backend is well-formed and no two indexed
    /// keys share an identifier.
    pub closed spec fn wf(&self) -> bool {
        self.store.wf() && spec_distinct_ids(self.index())
    }

    /// Builds a manager over one store: lists everything the store holds and
    /// indexes it. Fails fast when any item of the listing fails, or when two
    /// items claim one identifier; no partially loaded manager is produced.
    pub fn new(store: S) -> (r: Result<KeyMgr<S>, KeyMgrError>)
        requires
            store.wf(),
        ensures
            spec_all_parse_ok(store.entries()) && spec_distinct_ids(
                spec_parsed_keys(store.entries()),
            ) ==> r is Ok,
            match r {
                Ok(m) => {
                    &&& m.wf()
                    &&& m.store_id() == store.spec_id()
                    &&& m.entries() == store.entries()
                    &&& m.index() == spec_parsed_keys(store.entries())
                    &&& spec_all_parse_ok(store.entries())
                },
                Err(KeyMgrError::ListKeyFailed(sid, e)) => sid@ == store.spec_id() && exists|
                    i: int,
                |
                    #![trigger store.entries()[i]]
                    {
                        &&& 0 <= i < store.entries().len()
                        &&& spec_parse_entry(store.entries()[i]) == Err::<KeyView, ListError>(e)
                        &&& forall|j: int| 0 <= j < i ==> spec_parse_entry(
                            #[trigger] store.entries()[j],
                        ) is Ok
                    },
                Err(KeyMgrError::DuplicateKeyId) => exists|a: int, b: int|
                    #![trigger store.entries()[a], store.entries()[b]]
                    {
                        &&& 0 <= a < b < store.entries().len()
                        &&& spec_parse_entry(store.entries()[a]) is Ok
                        &&& spec_parse_entry(store.entries()[b]) is Ok
                        &&& spec_parse_entry(store.entries()[a])->Ok_0.id == spec_parse_entry(
                            store.entries()[b],
                        )->Ok_0.id
                    },
                Err(KeyMgrError::GenerateFailed(_, _)) => false,
            },
    {
        let listed = store.list();
        let mut keys: Vec<Key> = Vec::new();
        let mut i: usize = 0;
        while i < listed.len()
            invariant
                store.wf(),
                listed@.len() == store.entries().len(),
                forall|t: int| 0 <= t < listed@.len() ==> spec_key_result_view(
                    #[trigger] listed@[t],
                ) == spec_parse_entry(store.entries()[t]),
                0 <= i <= listed@.len(),
                keys@.len() == i,
                forall|t: int| 0 <= t < i ==> spec_parse_entry(#[trigger] store.entries()[t])
                    == Ok::<KeyView, ListError>(keys@.map_values(|k: Key| k@)[t]),
                spec_distinct_ids(keys@.map_values(|k: Key| k@)),
            decreases listed@.len() - i,
        {
            match listed[i] {
                Ok(k) => {
                    if contains_id(&keys, k.id()) {
                        proof {
                            let index = keys@.map_values(|kk: Key| kk@);
                            let a = choose|a: int| 0 <= a < index.len() && index[a].id == k@.id;
                            assert(spec_parse_entry(store.entries()[a]) == Ok::<
                                KeyView,
                                ListError,
                            >(index[a]));
                            assert(spec_parse_entry(store.entries()[i as int]) == Ok::<
                                KeyView,
                                ListError,
                            >(k@));
                            let pk = spec_parsed_keys(store.entries());
                            assert(pk[a].id == pk[i as int].id);
                            assert(!spec_distinct_ids(pk));
                        }
                        return Err(KeyMgrError::DuplicateKeyId);
                    }
                    let ghost pre = keys@.map_values(|kk: Key| kk@);
                    keys.push(k);
                    proof {
                        assert(keys@.map_values(|kk: Key| kk@) =~= pre.push(k@));
                        lemma_generate_accumulates(pre, pre.push(k@), k@);
                    }
                },
                Err(e) => {
                    return Err(KeyMgrError::ListKeyFailed(store.id(), e));
                },
            }
            i += 1;
        }
        let m = KeyMgr { store, keys };
        proof {
            assert(m.index() =~= spec_parsed_keys(m.store.entries()));
        }
        Ok(m)
    }

    /// Whether the manager has indexed at least one key.
    pub fn has_keys(&self) -> (r: bool)
        ensures
            r == (self.index().len() != 0),
    {
        !self.keys.is_empty()
    }

    /// The identities of the configured stores.
    pub fn stores(&self) -> (r: Vec<&'static str>)
        ensures
            r@.len() == 1,
            r@[0]@ == self.store_id(),
    {
        let mut out: Vec<&'static str> = Vec::new();
        out.push(self.store.id());
        out
    }

    /// Generates a new key in the named store. An unknown store identifier is
    /// no error: the result is empty. On success the key is durably persisted
    /// by the store and then indexed; a persisted key whose identifier the
    /// index already holds is refused and left unindexed.
    pub fn generate(&mut self, store_id: &str) -> (r: Result<Option<Key>, KeyMgrError>)
        requires
            old(self).wf(),
        ensures
            final(self).wf(),
            final(self).store_id() == old(self).store_id(),
            store_id@ != old(self).store_id() ==> (r matches Ok(o) && o is None
                && final(self).index() == old(self).index()
                && final(self).entries() == old(self).entries()),
            store_id@ == old(self).store_id() ==> match r {
                Ok(Some(k)) => {
                    &&& k@.wf()
                    &&& !spec_index_has_id(old(self).index(), k@.id)
                    &&& final(self).index() == old(self).index().push(k@)
                    &&& exists|secret: Seq<u8>|
                        {
                            &&& spec_secret_of(k@, secret)
                            &&& final(self).entries() == old(self).entries().push(
                                #[trigger] spec_generated_entry(k@, secret),
                            )
                            &&& spec_parse_entry(spec_generated_entry(k@, secret)) == Ok::<
                                KeyView,
                                ListError,
                            >(k@)
                        }
                },
                Ok(None) => false,
                Err(KeyMgrError::GenerateFailed(sid, _)) => {
                    &&& sid@ == old(self).store_id()
                    &&& final(self).index() == old(self).index()
                    &&& final(self).entries() == old(self).entries()
                },
                Err(KeyMgrError::DuplicateKeyId) => {
                    &&& final(self).index() == old(self).index()
                    &&& exists|k: KeyView, secret: Seq<u8>|
                        {
                            &&& spec_secret_of(k, secret)
                            &&& final(self).entries() == old(self).entries().push(
                                #[trigger] spec_generated_entry(k, secret),
                            )
                            &&& spec_index_has_id(old(self).index(), k.id)
                        }
                },
                Err(KeyMgrError::ListKeyFailed(_, _)) => false,
            },
    {
        if !str_eq(store_id, self.store.id()) {
            return Ok(None);
        }
        let generated = self.store.generate();
        match generated {
            Ok(k) => {
                if contains_id(&self.keys, k.id()) {
                    return Err(KeyMgrError::DuplicateKeyId);
                }
                let ghost pre = self.index();
                self.keys.push(k);
                proof {
                    assert(self.index() =~= pre.push(k@));
                    lemma_generate_accumulates(pre, pre.push(k@), k@);
                }
                Ok(Some(k))
            },
            Err(e) => Err(KeyMgrError::GenerateFailed(self.store.id(), e)),
        }
    }

    /// A snapshot of the indexed keys, in index order.
    pub fn for_each_key(&self) -> (r: Vec<Key>)
        ensures
            r@.map_values(|k: Key| k@) == self.index(),
    {
        let mut out: Vec<Key> = Vec::new();
        let mut i: usize = 0;
        while i < self.keys.len()
            invariant
                0 <= i <= self.keys@.len(),
                out@.len() == i,
                forall|j: int| 0 <= j < i ==> (#[trigger] out@[j]) == self.keys@[j],
            decreases self.keys@.len() - i,
        {
            out.push(self.keys[i]);
            i += 1;
        }
        proof {
            assert(out@ =~= self.keys@);
        }
        out
    }
}

/// Concurrent generation accumulates distinct keys: each successfully
/// generated key carries an identifier that is fresh in the index, so every
/// success grows the index by exactly one key, keeps all identifiers
/// pairwise distinct, and loses nothing that was indexed before.
pub proof fn lemma_generate_accumulates(pre: Seq<KeyView>, post: Seq<KeyView>, k: KeyView)
    requires
        spec_distinct_ids(pre),
        !spec_index_has_id(pre, k.id),
        post == pre.push(k),
    ensures
        spec_distinct_ids(post),
        post.len() == pre.len() + 1,
        spec_index_has_id(post, k.id),
        forall|id: Seq<u8>| spec_index_has_id(pre, id) ==> spec_index_has_id(post, id),
{
    assert forall|i: int, j: int| 0 <= i < j < post.len() implies (#[trigger] post[i]).id
        != (#[trigger] post[j]).id by {
        if j < pre.len() {
            assert(post[i] == pre[i] && post[j] == pre[j]);
        } else {
            assert(post[j] == k);
            assert(post[i] == pre[i]);
            assert(!(pre[i].id == k.id));
        }
    }
    assert(post[pre.len() as int] == k);
    assert forall|id: Seq<u8>| spec_index_has_id(pre, id) implies spec_index_has_id(
        post,
        id,
    ) by {
        let i = choose|i: int| 0 <= i < pre.len() && (#[trigger] pre[i]).id == id;
        assert(post[i] == pre[i]);
    }
}

/// N generations accumulate N keys: when each generated key is fresh against
/// the index it meets (as every successful `generate` guarantees), the index
/// grows by exactly the generated keys, all identifiers stay pairwise
/// distinct, and every generated key is present afterward.
pub proof fn lemma_generate_n_accumulates(pre: Seq<KeyView>, ks: Seq<KeyView>)
    requires
        spec_distinct_ids(pre),
        forall|t: int| 0 <= t < ks.len() ==> !spec_index_has_id(pre + ks.take(t), (#[trigger] ks[t]).id),
    ensures
        spec_distinct_ids(pre + ks),
        (pre + ks).len() == pre.len() + ks.len(),
        forall|t: int| 0 <= t < ks.len() ==> spec_index_has_id(pre + ks, (#[trigger] ks[t]).id),
    decreases ks.len(),
{
    if ks.len() == 0 {
        assert(pre + ks =~= pre);
    } else {
        let n = ks.len() - 1;
        let front = ks.take(n);
        let k = ks[n];
        assert forall|t: int| 0 <= t < front.len() implies !spec_index_has_id(
            pre + front.take(t),
            (#[trigger] front[t]).id,
        ) by {
            assert(front.take(t) =~= ks.take(t));
            assert(front[t] == ks[t]);
        }
        lemma_generate_n_accumulates(pre, front);
        assert(pre + ks =~= (pre + front).push(k));
        lemma_generate_accumulates(pre + front, (pre + front).push(k), k);
        assert forall|t: int| 0 <= t < ks.len() implies spec_index_has_id(
            pre + ks,
            (#[trigger] ks[t]).id,
        ) by {
            if t < n {
                assert(front[t] == ks[t]);
                assert(spec_index_has_id(pre + front, ks[t].id));
            } else {
                assert(ks[t] == k);
            }
        }
    }
}

/// Lookups are idempotent: a manager loaded from a backend holding nothing
/// indexes nothing, and one successful generation leaves a nonempty index.
pub proof fn lemma_has_keys_after_load_and_generate(
    es: Seq<EntryView>,
    loaded: Seq<KeyView>,
    after: Seq<KeyView>,
    k: KeyView,
)
    requires
        es.len() == 0,
        loaded == spec_parsed_keys(es),
        after == loaded.push(k),
    ensures
        loaded.len() == 0,
        after.len() != 0,
{
}

} // verus!
