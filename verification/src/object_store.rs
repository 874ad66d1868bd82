//! The storage registry: named stores, each an ordered mapping from
//! validated keys to immutable-once-written values, with the four insert
//! conflict policies and optimistic-concurrency generation checks.

use vstd::prelude::*;

use crate::cursor::{b64_decode, b64_encode, b64_encoding, utf8_valid};
use crate::errors::{KvInsertMode, KvStoreError, ObjectStoreError};
use crate::keys::{starts_with_bytes, ObjectKey, ObjectStoreKey};
use crate::listing::{
    filtered_keys, keys_view, opt_str_bytes, opt_vec_bytes, page_data, page_next, render_listing,
    rendered_doc, selected,
};
use crate::order::{bytes_eq, bytes_lt, lemma_lex_irrefl, lemma_lex_trans, lemma_lex_trichotomy, lex_lt};
use vstd::utf8::{encode_utf8, valid_utf8};

verus! {

/// One stored object: raw body bytes, optional metadata bytes with their
/// declared length, and the generation stamp assigned at write time.
#[derive(Debug)]
pub struct ObjectValue {
    pub body: Vec<u8>,
    pub metadata: Vec<u8>,
    pub metadata_len: usize,
    pub generation: u32,
}

/// The mathematical content of one stored object.
pub ghost struct ValueView {
    pub body: Seq<u8>,
    pub metadata: Seq<u8>,
    pub generation: u32,
}

impl View for ObjectValue {
    type V = ValueView;

    open spec fn view(&self) -> ValueView {
        ValueView { body: self.body@, metadata: self.metadata@, generation: self.generation }
    }
}

impl ObjectValue {
    /// The declared metadata length always matches the metadata bytes.
    pub open spec fn wf(self) -> bool {
        self.metadata_len == self.metadata@.len()
    }
}

impl Clone for ObjectValue {
    fn clone(&self) -> (r: Self)
        ensures
            r@ == self@,
            self.wf() ==> r.wf(),
    {
        ObjectValue {
            body: self.body.clone(),
            metadata: self.metadata.clone(),
            metadata_len: self.metadata_len,
            generation: self.generation,
        }
    }
}

/// Some entry of `s` holds key bytes `k`.
pub open spec fn key_in(s: Seq<(ObjectKey, ObjectValue)>, k: Seq<u8>) -> bool {
    exists|a: int| 0 <= a < s.len() && s[a].0@ == k
}

/// The position of the entry holding `k` in `s`.
pub open spec fn index_in(s: Seq<(ObjectKey, ObjectValue)>, k: Seq<u8>) -> int {
    choose|a: int| 0 <= a < s.len() && s[a].0@ == k
}

/// The value stored under `k` in `s`.
pub open spec fn value_in(s: Seq<(ObjectKey, ObjectValue)>, k: Seq<u8>) -> ValueView {
    s[index_in(s, k)].1@
}

/// Entry keys strictly ascending in byte-lexicographic order.
pub open spec fn entries_sorted(s: Seq<(ObjectKey, ObjectValue)>) -> bool {
    forall|x: int, y: int| 0 <= x < y < s.len() ==> lex_lt(#[trigger] s[x].0@, #[trigger] s[y].0@)
}

/// In a strictly sorted entry sequence, a matching index is unique.
proof fn lemma_unique_in(s: Seq<(ObjectKey, ObjectValue)>, k: Seq<u8>, a: int)
    requires
        entries_sorted(s),
        0 <= a < s.len(),
        s[a].0@ == k,
    ensures
        key_in(s, k),
        value_in(s, k) == s[a].1@,
{
    assert(key_in(s, k));
    let b = index_in(s, k);
    assert(0 <= b < s.len() && s[b].0@ == k);
    if a < b {
        assert(lex_lt(s[a].0@, s[b].0@));
        lemma_lex_irrefl(k);
    }
    if b < a {
        assert(lex_lt(s[b].0@, s[a].0@));
        lemma_lex_irrefl(k);
    }
    assert(a == b);
}

/// One named store: keys kept unique and in ascending byte-lexicographic
/// order, as pagination requires.
#[derive(Debug)]
pub struct Store {
    entries: Vec<(ObjectKey, ObjectValue)>,
}

impl Store {
    /// The stored keys, in the order they are kept.
    pub closed spec fn skeys(self) -> Seq<Seq<u8>> {
        Seq::new(self.entries@.len(), |i: int| self.entries@[i].0@)
    }

    /// Some entry holds the key `k`.
    pub closed spec fn has_key(self, k: Seq<u8>) -> bool {
        key_in(self.entries@, k)
    }

    /// The value stored under `k`.
    pub closed spec fn value_at(self, k: Seq<u8>) -> ValueView {
        value_in(self.entries@, k)
    }

    /// Keys strictly ascending (hence unique), every value well formed.
    pub closed spec fn wf(self) -> bool {
        &&& entries_sorted(self.entries@)
        &&& forall|i: int| 0 <= i < self.entries@.len() ==> (#[trigger] self.entries@[i].1).wf()
    }

    /// The key sequence is strictly ascending and contains exactly the
    /// keys the store holds.
    pub proof fn lemma_skeys(self, k: Seq<u8>)
        requires
            self.wf(),
        ensures
            self.has_key(k) <==> self.skeys().contains(k),
            forall|x: int, y: int|
                0 <= x < y < self.skeys().len() ==> lex_lt(
                    #[trigger] self.skeys()[x],
                    #[trigger] self.skeys()[y],
                ),
    {
        if self.has_key(k) {
            let i = choose|i: int| 0 <= i < self.entries@.len() && self.entries@[i].0@ == k;
            assert(self.skeys()[i] == k);
        }
        if self.skeys().contains(k) {
            let i = choose|i: int| 0 <= i < self.skeys().len() && self.skeys()[i] == k;
            assert(self.entries@[i].0@ == k);
        }
    }

    /// An empty store.
    pub fn new() -> (r: Self)
        ensures
            r.wf(),
            forall|k: Seq<u8>| !r.has_key(k),
            r.skeys() =~= Seq::<Seq<u8>>::empty(),
    {
        Store { entries: Vec::new() }
    }

    /// Index of the entry holding key bytes `k`, if any.
    fn find(&self, k: &[u8]) -> (r: Option<usize>)
        requires
            self.wf(),
        ensures
            r matches Some(i) ==> i < self.entries@.len() && self.entries@[i as int].0@ == k@,
            r is None ==> !self.has_key(k@),
    {
        let n: usize = self.entries.len();
        let mut i: usize = 0;
        while i < n
            invariant
                n == self.entries@.len(),
                0 <= i <= n,
                forall|j: int| 0 <= j < i ==> (#[trigger] self.entries@[j].0@) != k@,
            decreases n - i,
        {
            let e = &self.entries[i];
            if bytes_eq(e.0.bytes(), k) {
                return Some(i);
            }
            i += 1;
        }
        None
    }

    /// The value under `key`, if present.
    pub fn get(&self, key: &ObjectKey) -> (r: Option<&ObjectValue>)
        requires
            self.wf(),
        ensures
            r matches Some(v) ==> self.has_key(key@) && v@ == self.value_at(key@) && v.wf(),
            r is None ==> !self.has_key(key@),
    {
        match self.find(key.bytes()) {
            Some(i) => {
                proof {
                    lemma_unique_in(self.entries@, key@, i as int);
                }
                Some(&self.entries[i].1)
            },
            None => None,
        }
    }

    /// First position whose key is not below `k`.
    fn lower_bound(&self, k: &[u8]) -> (r: usize)
        requires
            self.wf(),
        ensures
            0 <= r <= self.entries@.len(),
            forall|j: int| 0 <= j < r ==> lex_lt(#[trigger] self.entries@[j].0@, k@),
            r < self.entries@.len() ==> !lex_lt(self.entries@[r as int].0@, k@),
    {
        let n: usize = self.entries.len();
        let mut i: usize = 0;
        while i < n
            invariant
                self.wf(),
                n == self.entries@.len(),
                0 <= i <= n,
                forall|j: int| 0 <= j < i ==> lex_lt(#[trigger] self.entries@[j].0@, k@),
            decreases n - i,
        {
            let e = &self.entries[i];
            if !bytes_lt(e.0.bytes(), k) {
                return i;
            }
            i += 1;
        }
        n
    }

    /// Writes `val` under `key`, replacing any existing value and keeping
    /// the order invariant.
    pub fn upsert(&mut self, key: ObjectKey, val: ObjectValue)
        requires
            old(self).wf(),
            val.wf(),
        ensures
            final(self).wf(),
            final(self).has_key(key@),
            final(self).value_at(key@) == val@,
            forall|k2: Seq<u8>|
                k2 != key@ ==> final(self).has_key(k2) == old(self).has_key(k2),
            forall|k2: Seq<u8>|
                k2 != key@ && old(self).has_key(k2) ==> final(self).value_at(k2) == old(self).value_at(k2),
    {
        let ghost gk = key@;
        let ghost gv = val@;
        let ghost prev = self.entries@;
        let i = self.lower_bound(key.bytes());
        let mut replace = false;
        if i < self.entries.len() {
            let e = &self.entries[i];
            if bytes_eq(e.0.bytes(), key.bytes()) {
                replace = true;
            }
        }
        proof {
            if i < prev.len() && prev[i as int].0@ != gk {
                lemma_lex_trichotomy(prev[i as int].0@, gk);
            }
        }
        if replace {
            self.entries.remove(i);
            proof {
                assert(self.entries@ =~= prev.remove(i as int));
            }
            self.entries.insert(i, (key, val));
        } else {
            self.entries.insert(i, (key, val));
        }
        proof {
            let cur = self.entries@;
            let n = cur.len();
            assert(cur[i as int].0@ == gk && cur[i as int].1@ == gv && cur[i as int].1.wf());
            if replace {
                assert(forall|a: int|
                    0 <= a < prev.len() && a != i ==> #[trigger] cur[a] == prev[a]);
            } else {
                assert(forall|a: int| 0 <= a < i ==> #[trigger] cur[a] == prev[a]);
                assert(forall|a: int| i < a < n ==> #[trigger] cur[a] == prev[a - 1]);
            }
            assert(entries_sorted(cur)) by {
                assert forall|a: int, b: int| 0 <= a < b < n implies lex_lt(
                    #[trigger] cur[a].0@,
                    #[trigger] cur[b].0@,
                ) by {
                    if replace {
                        if a == i || b == i {
                        }
                    } else {
                        if a == i {
                            // key < prev[i] <= prev[b-1]
                            if b - 1 > i {
                                lemma_lex_trans(gk, prev[i as int].0@, prev[b - 1].0@);
                            }
                        } else if b == i {
                        } else if a < i && b > i {
                        }
                    }
                }
            }
            assert(final(self).wf());
            lemma_unique_in(cur, gk, i as int);
            assert forall|k2: Seq<u8>| k2 != gk implies (key_in(cur, k2) <==> key_in(
                prev,
                k2,
            )) by {
                if key_in(cur, k2) {
                    let a = choose|a: int| 0 <= a < n && cur[a].0@ == k2;
                    if replace {
                        assert(prev[a].0@ == k2);
                    } else if a < i {
                        assert(prev[a].0@ == k2);
                    } else {
                        assert(prev[a - 1].0@ == k2);
                    }
                }
                if key_in(prev, k2) {
                    let a = choose|a: int| 0 <= a < prev.len() && prev[a].0@ == k2;
                    if replace {
                        assert(cur[a].0@ == k2);
                    } else if a < i {
                        assert(cur[a].0@ == k2);
                    } else {
                        assert(cur[a + 1].0@ == k2);
                    }
                }
            }
            assert forall|k2: Seq<u8>| k2 != gk && key_in(prev, k2) implies value_in(cur, k2)
                == value_in(prev, k2) by {
                let a = choose|a: int| 0 <= a < prev.len() && prev[a].0@ == k2;
                lemma_unique_in(prev, k2, a);
                if replace {
                    assert(cur[a].0@ == k2);
                    lemma_unique_in(cur, k2, a);
                } else if a < i {
                    assert(cur[a].0@ == k2);
                    lemma_unique_in(cur, k2, a);
                } else {
                    assert(cur[a + 1].0@ == k2);
                    lemma_unique_in(cur, k2, a + 1);
                }
            }
        }
    }

    /// Removes `key`; reports whether it was present.
    pub fn remove_key(&mut self, key: &ObjectKey) -> (r: bool)
        requires
            old(self).wf(),
        ensures
            final(self).wf(),
            r == old(self).has_key(key@),
            !final(self).has_key(key@),
            forall|k2: Seq<u8>|
                k2 != key@ ==> final(self).has_key(k2) == old(self).has_key(k2),
            forall|k2: Seq<u8>|
                k2 != key@ && old(self).has_key(k2) ==> final(self).value_at(k2) == old(self).value_at(k2),
            !r ==> *final(self) == *old(self),
    {
        let opt = self.find(key.bytes());
        match opt {
            Some(i) => {
                let ghost prev = self.entries@;
                proof {
                    lemma_unique_in(prev, key@, i as int);
                }
                self.entries.remove(i);
                proof {
                    let cur = self.entries@;
                    let n = cur.len();
                    assert(cur =~= prev.remove(i as int));
                    assert(forall|a: int| 0 <= a < i ==> #[trigger] cur[a] == prev[a]);
                    assert(forall|a: int| i <= a < n ==> #[trigger] cur[a] == prev[a + 1]);
                    assert(entries_sorted(cur)) by {
                        assert forall|a: int, b: int| 0 <= a < b < n implies lex_lt(
                            #[trigger] cur[a].0@,
                            #[trigger] cur[b].0@,
                        ) by {}
                    }
                    assert(!key_in(cur, key@)) by {
                        if key_in(cur, key@) {
                            let a = choose|a: int| 0 <= a < n && cur[a].0@ == key@;
                            lemma_lex_irrefl(key@);
                        }
                    }
                    assert forall|k2: Seq<u8>| k2 != key@ implies (key_in(cur, k2) <==> key_in(
                        prev,
                        k2,
                    )) by {
                        if key_in(cur, k2) {
                            let a = choose|a: int| 0 <= a < n && cur[a].0@ == k2;
                            if a < i {
                                assert(prev[a].0@ == k2);
                            } else {
                                assert(prev[a + 1].0@ == k2);
                            }
                        }
                        if key_in(prev, k2) {
                            let a = choose|a: int| 0 <= a < prev.len() && prev[a].0@ == k2;
                            if a < i {
                                assert(cur[a].0@ == k2);
                            } else {
                                assert(a != i);
                                assert(cur[a - 1].0@ == k2);
                            }
                        }
                    }
                    assert forall|k2: Seq<u8>| k2 != key@ && key_in(prev, k2) implies value_in(
                        cur,
                        k2,
                    ) == value_in(prev, k2) by {
                        let a = choose|a: int| 0 <= a < prev.len() && prev[a].0@ == k2;
                        lemma_unique_in(prev, k2, a);
                        if a < i {
                            assert(cur[a].0@ == k2);
                            lemma_unique_in(cur, k2, a);
                        } else {
                            assert(a != i);
                            assert(cur[a - 1].0@ == k2);
                            lemma_unique_in(cur, k2, a - 1);
                        }
                    }
                }
                true
            },
            None => false,
        }
    }

    /// The number of stored entries.
    pub fn len(&self) -> (r: usize)
        ensures
            r == self.skeys().len(),
    {
        self.entries.len()
    }

    /// The key at position `i`, in stored (ascending) order.
    pub fn key_at(&self, i: usize) -> (r: &ObjectKey)
        requires
            i < self.skeys().len(),
        ensures
            r@ == self.skeys()[i as int],
    {
        &self.entries[i].0
    }
}

/// Some entry of `s` is the store named `n`.
pub open spec fn name_in(s: Seq<(ObjectStoreKey, Store)>, n: Seq<u8>) -> bool {
    exists|a: int| 0 <= a < s.len() && s[a].0@ == n
}

/// The position of the store named `n`.
pub open spec fn name_index_in(s: Seq<(ObjectStoreKey, Store)>, n: Seq<u8>) -> int {
    choose|a: int| 0 <= a < s.len() && s[a].0@ == n
}

/// Store names are pairwise distinct.
pub open spec fn names_unique(s: Seq<(ObjectStoreKey, Store)>) -> bool {
    forall|x: int, y: int| 0 <= x < y < s.len() ==> (#[trigger] s[x].0@) != (#[trigger] s[y].0@)
}

/// With distinct names, a matching position is unique.
proof fn lemma_name_unique(s: Seq<(ObjectStoreKey, Store)>, n: Seq<u8>, a: int)
    requires
        names_unique(s),
        0 <= a < s.len(),
        s[a].0@ == n,
    ensures
        name_in(s, n),
        name_index_in(s, n) == a,
{
    assert(name_in(s, n));
    let b = name_index_in(s, n);
    assert(0 <= b < s.len() && s[b].0@ == n);
}

/// What a write may find under the key before it runs.
pub open spec fn meta_view(m: Option<Vec<u8>>) -> Option<Seq<u8>> {
    match m {
        Option::Some(v) => Option::Some(v@),
        Option::None => Option::None,
    }
}

/// The precondition checks of an insert, in the order they run: a supplied
/// generation that does not match an existing value's fails first, then
/// `Add` against an existing value fails; everything else is allowed.
pub open spec fn insert_check(
    existing: Option<ValueView>,
    mode: KvInsertMode,
    egen: Option<u32>,
) -> Result<(), KvStoreError> {
    if egen matches Option::Some(g) && existing matches Option::Some(v) && v.generation != g {
        Result::Err(KvStoreError::PreconditionFailed)
    } else if mode is Add && existing is Some {
        Result::Err(KvStoreError::PreconditionFailed)
    } else {
        Result::Ok(())
    }
}

/// The body an insert writes: `Overwrite` and `Add` take the new bytes;
/// `Append` puts the new bytes after the prior body, `Prepend` before it;
/// with no prior value every mode writes the new bytes as they are.
pub open spec fn merged_body(
    existing: Option<ValueView>,
    obj: Seq<u8>,
    mode: KvInsertMode,
) -> Seq<u8> {
    match existing {
        Option::Some(v) => match mode {
            KvInsertMode::Overwrite => obj,
            KvInsertMode::Add => obj,
            KvInsertMode::Append => v.body + obj,
            KvInsertMode::Prepend => obj + v.body,
        },
        Option::None => obj,
    }
}

/// The reserved stamp value is remapped to keep one deterministic fixture
/// for integration tests; behavioural compatibility only.
pub open spec fn remap_stamp(stamp: u32) -> u32 {
    if stamp == 1337 {
        1338
    } else {
        stamp
    }
}

/// The value an allowed insert writes: the merged body, the new metadata
/// or none (a write without metadata clears it), and the remapped stamp.
pub open spec fn written_value(
    existing: Option<ValueView>,
    obj: Seq<u8>,
    mode: KvInsertMode,
    meta: Option<Seq<u8>>,
    stamp: u32,
) -> ValueView {
    ValueView {
        body: merged_body(existing, obj, mode),
        metadata: match meta {
            Option::Some(m) => m,
            Option::None => Seq::empty(),
        },
        generation: remap_stamp(stamp),
    }
}

/// Relies on std's `SystemTime::now`: the stamp is the low 32 bits of the
/// nanoseconds since the epoch.  Nothing is promised of its value.
#[verifier::external_body]
fn now_stamp() -> u32 {
    std::time::SystemTime::now()
        .duration_since(std::time::SystemTime::UNIX_EPOCH)
        .map(|d| d.as_nanos() as u32)
        .unwrap_or(0)
}

/// The registry of all named stores; the only component that touches
/// stored bytes.  Callers that share it across sessions wrap it in their
/// own exclusion primitive.
#[derive(Debug)]
pub struct ObjectStores {
    stores: Vec<(ObjectStoreKey, Store)>,
}

impl ObjectStores {
    /// A store named `n` exists.
    pub closed spec fn has_store(self, n: Seq<u8>) -> bool {
        name_in(self.stores@, n)
    }

    /// The store named `n`.
    pub closed spec fn store_at(self, n: Seq<u8>) -> Store {
        self.stores@[name_index_in(self.stores@, n)].1
    }

    /// Store names distinct, every store well formed.
    pub closed spec fn wf(self) -> bool {
        &&& names_unique(self.stores@)
        &&& forall|i: int| 0 <= i < self.stores@.len() ==> (#[trigger] self.stores@[i].1).wf()
    }

    /// The store named `n` holds the key `k`.
    pub open spec fn has_key(self, n: Seq<u8>, k: Seq<u8>) -> bool {
        self.has_store(n) && self.store_at(n).has_key(k)
    }

    /// The value under `k` in the store named `n`.
    pub open spec fn value_at(self, n: Seq<u8>, k: Seq<u8>) -> ValueView {
        self.store_at(n).value_at(k)
    }

    /// The value under `k` if the store and key exist.
    pub open spec fn value_opt(self, n: Seq<u8>, k: Seq<u8>) -> Option<ValueView> {
        if self.has_key(n, k) {
            Option::Some(self.value_at(n, k))
        } else {
            Option::None
        }
    }

    /// The keys of the store named `n`, in ascending order.
    pub open spec fn keys_of(self, n: Seq<u8>) -> Seq<Seq<u8>> {
        self.store_at(n).skeys()
    }

    /// An empty registry.
    pub fn new() -> (r: Self)
        ensures
            r.wf(),
            forall|n: Seq<u8>| !r.has_store(n),
    {
        ObjectStores { stores: Vec::new() }
    }

    /// Position of the store named `n`, if any.
    fn find_store(&self, n: &[u8]) -> (r: Option<usize>)
        requires
            self.wf(),
        ensures
            r matches Some(i) ==> self.has_store(n@) && i < self.stores@.len()
                && self.stores@[i as int].0@ == n@ && name_index_in(self.stores@, n@) == i as int,
            r is None ==> !self.has_store(n@),
    {
        let count: usize = self.stores.len();
        let mut i: usize = 0;
        while i < count
            invariant
                self.wf(),
                count == self.stores@.len(),
                0 <= i <= count,
                forall|j: int| 0 <= j < i ==> (#[trigger] self.stores@[j].0@) != n@,
            decreases count - i,
        {
            let e = &self.stores[i];
            if bytes_eq(e.0.bytes(), n) {
                proof {
                    lemma_name_unique(self.stores@, n@, i as int);
                }
                return Some(i);
            }
            i += 1;
        }
        None
    }

    /// Does a store with this name exist?  The `Result` mirrors a shared
    /// registry, whose lock can poison; owned directly, it cannot fail.
    pub fn store_exists(&self, name: &str) -> (r: Result<bool, ObjectStoreError>)
        requires
            self.wf(),
        ensures
            r matches Ok(b) && b == self.has_store(
                vstd::utf8::encode_utf8(name@),
            ),
    {
        let sk = ObjectStoreKey::new(name);
        Ok(self.find_store(sk.bytes()).is_some())
    }

    /// Creates the store named `sk` if it does not exist; requesting an
    /// existing store is a no-op, never an error.
    pub fn insert_empty_store(&mut self, sk: ObjectStoreKey) -> (r: Result<(), ObjectStoreError>)
        requires
            old(self).wf(),
        ensures
            final(self).wf(),
            r is Ok,
            final(self).has_store(sk@),
            old(self).has_store(sk@) ==> *final(self) == *old(self),
            !old(self).has_store(sk@) ==> final(self).keys_of(sk@) =~= Seq::<Seq<u8>>::empty(),
            forall|n2: Seq<u8>|
                n2 != sk@ ==> final(self).has_store(n2) == old(self).has_store(n2),
            forall|n2: Seq<u8>|
                n2 != sk@ && old(self).has_store(n2) ==> final(self).store_at(n2) == old(self).store_at(n2),
    {
        let ghost prev = self.stores@;
        match self.find_store(sk.bytes()) {
            Some(_) => Ok(()),
            None => {
                let ghost gn = sk@;
                self.stores.push((sk, Store::new()));
                proof {
                    let cur = self.stores@;
                    let n = cur.len();
                    assert(forall|a: int| 0 <= a < prev.len() ==> #[trigger] cur[a] == prev[a]);
                    assert(cur[n - 1].0@ == gn);
                    lemma_name_unique(cur, gn, n - 1);
                    assert forall|n2: Seq<u8>| n2 != gn && name_in(cur, n2) implies name_in(
                        prev,
                        n2,
                    ) by {
                        let a = choose|a: int| 0 <= a < cur.len() && cur[a].0@ == n2;
                        assert(prev[a].0@ == n2);
                    }
                    assert forall|n2: Seq<u8>| n2 != gn && name_in(prev, n2) implies name_in(
                        cur,
                        n2,
                    ) && final(self).store_at(n2) == old(self).store_at(n2) by {
                        let a = choose|a: int| 0 <= a < prev.len() && prev[a].0@ == n2;
                        assert(cur[a].0@ == n2);
                        lemma_name_unique(cur, n2, a);
                        lemma_name_unique(prev, n2, a);
                    }
                }
                Ok(())
            },
        }
    }

    /// The value stored under `obj_key` in the store named `obj_store_key`.
    pub fn lookup(&self, obj_store_key: &ObjectStoreKey, obj_key: &ObjectKey) -> (r: Result<
        ObjectValue,
        ObjectStoreError,
    >)
        requires
            self.wf(),
        ensures
            self.has_key(obj_store_key@, obj_key@) ==> (r matches Ok(v) && v@ == self.value_at(
                obj_store_key@,
                obj_key@,
            ) && v.wf()),
            !self.has_key(obj_store_key@, obj_key@) ==> r == Result::<
                ObjectValue,
                ObjectStoreError,
            >::Err(ObjectStoreError::MissingObject),
    {
        match self.find_store(obj_store_key.bytes()) {
            Some(i) => {
                let e = &self.stores[i];
                match e.1.get(obj_key) {
                    Some(v) => Ok(v.clone()),
                    None => Err(ObjectStoreError::MissingObject),
                }
            },
            None => Err(ObjectStoreError::MissingObject),
        }
    }

    /// Writes `obj` under `obj_key`, with the given conflict `mode`, an
    /// optional expected generation, optional metadata, and an explicit
    /// stamp.  The checks run in order: generation first, then the mode;
    /// a failed check mutates nothing.  The store is created if absent.
    pub fn insert_with_stamp(
        &mut self,
        obj_store_key: ObjectStoreKey,
        obj_key: ObjectKey,
        obj: Vec<u8>,
        mode: KvInsertMode,
        generation: Option<u32>,
        metadata: Option<Vec<u8>>,
        stamp: u32,
    ) -> (r: Result<(), KvStoreError>)
        requires
            old(self).wf(),
        ensures
            final(self).wf(),
            r == insert_check(old(self).value_opt(obj_store_key@, obj_key@), mode, generation),
            r is Err ==> *final(self) == *old(self),
            r is Ok ==> final(self).has_key(obj_store_key@, obj_key@) && final(self).value_at(
                obj_store_key@,
                obj_key@,
            ) == written_value(
                old(self).value_opt(obj_store_key@, obj_key@),
                obj@,
                mode,
                meta_view(metadata),
                stamp,
            ),
            r is Ok ==> forall|n2: Seq<u8>|
                final(self).has_store(n2) == (old(self).has_store(n2) || n2 == obj_store_key@),
            r is Ok ==> forall|n2: Seq<u8>, k2: Seq<u8>|
                !(n2 == obj_store_key@ && k2 == obj_key@) ==> final(self).has_key(n2, k2) == old(self).has_key(n2, k2),
            r is Ok ==> forall|n2: Seq<u8>, k2: Seq<u8>|
                !(n2 == obj_store_key@ && k2 == obj_key@) && old(self).has_key(n2, k2) ==> final(self).value_at(n2, k2) == old(self).value_at(n2, k2),
            r is Ok ==> forall|n2: Seq<u8>|
                n2 != obj_store_key@ && old(self).has_store(n2) ==> final(self).store_at(n2)
                    == old(self).store_at(n2),
    {
        let ghost gn = obj_store_key@;
        let ghost gk = obj_key@;
        let ghost gobj = obj@;
        let ghost gmeta = meta_view(metadata);
        let ghost gexist = old(self).value_opt(gn, gk);
        let existing: Option<ObjectValue> = match self.find_store(obj_store_key.bytes()) {
            Some(si) => {
                let e = &self.stores[si];
                match e.1.get(&obj_key) {
                    Some(v) => Some(v.clone()),
                    None => None,
                }
            },
            None => None,
        };
        proof {
            assert(existing matches Some(v) ==> gexist == Option::Some(v@));
            assert(existing is None ==> gexist is None);
        }
        if let Some(g) = generation {
            if let Some(v) = &existing {
                if v.generation != g {
                    return Err(KvStoreError::PreconditionFailed);
                }
            }
        }
        let new_body: Vec<u8> = match mode {
            KvInsertMode::Overwrite => obj,
            KvInsertMode::Add => {
                if existing.is_some() {
                    return Err(KvStoreError::PreconditionFailed);
                }
                obj
            },
            KvInsertMode::Append => match &existing {
                Some(v) => {
                    let mut b = v.body.clone();
                    let mut o = obj;
                    b.append(&mut o);
                    b
                },
                None => obj,
            },
            KvInsertMode::Prepend => match &existing {
                Some(v) => {
                    let mut b = obj;
                    let mut pb = v.body.clone();
                    b.append(&mut pb);
                    b
                },
                None => obj,
            },
        };
        assert(new_body@ == merged_body(gexist, gobj, mode));
        let gen_val: u32 = if stamp == 1337 {
            1338
        } else {
            stamp
        };
        let mut val = ObjectValue {
            body: new_body,
            metadata: Vec::new(),
            metadata_len: 0,
            generation: gen_val,
        };
        match metadata {
            Some(m) => {
                val.metadata_len = m.len();
                val.metadata = m;
            },
            None => {},
        }
        assert(val@ == written_value(gexist, gobj, mode, gmeta, stamp) && val.wf());
        let create = self.insert_empty_store(obj_store_key.clone());
        proof {
            if !old(self).has_store(gn) {
                self.store_at(gn).lemma_skeys(gk);
            }
            assert(self.value_opt(gn, gk) == gexist);
        }
        let ghost mid = *self;
        let si: usize = match self.find_store(obj_store_key.bytes()) {
            Some(si) => si,
            None => {
                proof {
                    assert(false);
                }
                return Err(KvStoreError::InternalError);
            },
        };
        let ghost prev = self.stores@;
        let pair = self.stores.remove(si);
        let name = pair.0;
        let mut st = pair.1;
        let ghost prev_st = st;
        st.upsert(obj_key, val);
        self.stores.insert(si, (name, st));
        proof {
            assert(self.stores@ =~= prev.update(si as int, self.stores@[si as int]));
            lemma_registry_replaced(prev, self.stores@, si as int);
            assert(final(self).store_at(gn) == st);
            assert(st.value_at(gk) == written_value(gexist, gobj, mode, gmeta, stamp));
            assert forall|n2: Seq<u8>, k2: Seq<u8>|
                !(n2 == gn && k2 == gk) implies final(self).has_key(n2, k2) == mid.has_key(
                n2,
                k2,
            ) by {
                if n2 == gn {
                    assert(mid.store_at(gn) == prev_st);
                }
            }
            assert forall|n2: Seq<u8>, k2: Seq<u8>|
                !(n2 == gn && k2 == gk) && mid.has_key(n2, k2) implies final(self).value_at(n2, k2)
                    == mid.value_at(n2, k2) by {
                if n2 == gn {
                    assert(mid.store_at(gn) == prev_st);
                }
            }
        }
        Ok(())
    }

    /// Writes `obj` under `obj_key` with a fresh time-derived stamp.  All
    /// checks and effects are those of `insert_with_stamp`; only the
    /// stamp's value is left open, being drawn from the clock.
    pub fn insert(
        &mut self,
        obj_store_key: ObjectStoreKey,
        obj_key: ObjectKey,
        obj: Vec<u8>,
        mode: KvInsertMode,
        generation: Option<u32>,
        metadata: Option<Vec<u8>>,
    ) -> (r: Result<(), KvStoreError>)
        requires
            old(self).wf(),
        ensures
            final(self).wf(),
            r == insert_check(old(self).value_opt(obj_store_key@, obj_key@), mode, generation),
            r is Err ==> *final(self) == *old(self),
            r is Ok ==> exists|stamp: u32|
                final(self).value_at(obj_store_key@, obj_key@) == written_value(
                    old(self).value_opt(obj_store_key@, obj_key@),
                    obj@,
                    mode,
                    meta_view(metadata),
                    stamp,
                ),
            r is Ok ==> final(self).has_key(obj_store_key@, obj_key@),
            r is Ok ==> final(self).value_at(obj_store_key@, obj_key@).body == merged_body(
                old(self).value_opt(obj_store_key@, obj_key@),
                obj@,
                mode,
            ),
            r is Ok ==> final(self).value_at(obj_store_key@, obj_key@).generation != 1337,
            r is Ok ==> final(self).value_at(obj_store_key@, obj_key@).metadata == (match meta_view(
                metadata,
            ) {
                Option::Some(m) => m,
                Option::None => Seq::<u8>::empty(),
            }),
            r is Ok ==> forall|n2: Seq<u8>|
                final(self).has_store(n2) == (old(self).has_store(n2) || n2 == obj_store_key@),
            r is Ok ==> forall|n2: Seq<u8>, k2: Seq<u8>|
                !(n2 == obj_store_key@ && k2 == obj_key@) ==> final(self).has_key(n2, k2) == old(self).has_key(n2, k2),
            r is Ok ==> forall|n2: Seq<u8>, k2: Seq<u8>|
                !(n2 == obj_store_key@ && k2 == obj_key@) && old(self).has_key(n2, k2) ==> final(self).value_at(n2, k2) == old(self).value_at(n2, k2),
    {
        let stamp = now_stamp();
        let r = self.insert_with_stamp(
            obj_store_key,
            obj_key,
            obj,
            mode,
            generation,
            metadata,
            stamp,
        );
        r
    }

    /// Removes `obj_key` from the store named `obj_store_key`; an absent
    /// key (or store) fails `NotFound` and mutates nothing.
    pub fn delete(&mut self, obj_store_key: ObjectStoreKey, obj_key: ObjectKey) -> (r: Result<
        (),
        KvStoreError,
    >)
        requires
            old(self).wf(),
        ensures
            final(self).wf(),
            !old(self).has_key(obj_store_key@, obj_key@) ==> r == Result::<
                (),
                KvStoreError,
            >::Err(KvStoreError::NotFound) && *final(self) == *old(self),
            old(self).has_key(obj_store_key@, obj_key@) ==> r is Ok && !final(self).has_key(
                obj_store_key@,
                obj_key@,
            ),
            r is Ok ==> forall|n2: Seq<u8>|
                final(self).has_store(n2) == old(self).has_store(n2),
            r is Ok ==> forall|n2: Seq<u8>, k2: Seq<u8>|
                !(n2 == obj_store_key@ && k2 == obj_key@) ==> final(self).has_key(n2, k2) == old(self).has_key(n2, k2),
            r is Ok ==> forall|n2: Seq<u8>, k2: Seq<u8>|
                !(n2 == obj_store_key@ && k2 == obj_key@) && old(self).has_key(n2, k2) ==> final(self).value_at(n2, k2) == old(self).value_at(n2, k2),
            r is Ok ==> forall|n2: Seq<u8>|
                n2 != obj_store_key@ && old(self).has_store(n2) ==> final(self).store_at(n2)
                    == old(self).store_at(n2),
    {
        let ghost gn = obj_store_key@;
        let ghost gk = obj_key@;
        let present: bool = match self.find_store(obj_store_key.bytes()) {
            Some(si) => {
                let e = &self.stores[si];
                e.1.get(&obj_key).is_some()
            },
            None => false,
        };
        if !present {
            return Err(KvStoreError::NotFound);
        }
        let si: usize = match self.find_store(obj_store_key.bytes()) {
            Some(si) => si,
            None => {
                proof {
                    assert(false);
                }
                return Err(KvStoreError::NotFound);
            },
        };
        let ghost prev = self.stores@;
        let pair = self.stores.remove(si);
        let name = pair.0;
        let mut st = pair.1;
        let ghost prev_st = st;
        st.remove_key(&obj_key);
        self.stores.insert(si, (name, st));
        proof {
            assert(self.stores@ =~= prev.update(si as int, self.stores@[si as int]));
            lemma_registry_replaced(prev, self.stores@, si as int);
            assert(final(self).store_at(gn) == st);
            assert(old(self).store_at(gn) == prev_st);
            assert forall|n2: Seq<u8>, k2: Seq<u8>|
                !(n2 == gn && k2 == gk) implies final(self).has_key(n2, k2) == old(self).has_key(n2, k2) by {}
            assert forall|n2: Seq<u8>, k2: Seq<u8>|
                !(n2 == gn && k2 == gk) && old(self).has_key(n2, k2) implies final(self).value_at(
                n2,
                k2,
            ) == old(self).value_at(n2, k2) by {}
        }
        Ok(())
    }
}

/// What the next-page token of a listing holds: the base64 encoding of
/// the last emitted key, as UTF-8 bytes, when truncation removed entries.
pub open spec fn encoded_next(
    keys: Seq<Seq<u8>>,
    cursor: Option<Seq<u8>>,
    prefix: Option<Seq<u8>>,
    limit: u32,
) -> Option<Seq<u8>> {
    match page_next(keys, cursor, prefix, limit) {
        Option::Some(k) => Option::Some(encode_utf8(b64_encoding(k))),
        Option::None => Option::None,
    }
}

/// The exact listing document for a store's keys, a decoded cursor, a
/// prefix and a limit.
pub open spec fn list_doc(
    keys: Seq<Seq<u8>>,
    cursor: Option<Seq<u8>>,
    prefix: Option<Seq<u8>>,
    limit: u32,
) -> Seq<u8> {
    rendered_doc(
        page_data(keys, cursor, prefix, limit),
        limit,
        prefix,
        encoded_next(keys, cursor, prefix, limit),
    )
}

impl ObjectStores {
    /// Produces the listing document for the store named `obj_store_key`:
    /// its keys in ascending order, those strictly after the decoded
    /// cursor and matching the prefix, truncated to `limit`, with a
    /// next-page token exactly when truncation removed entries.  The
    /// cursor has already been decoded to key bytes here.
    pub fn list_decoded(
        &self,
        obj_store_key: &ObjectStoreKey,
        cursor_key: Option<Vec<u8>>,
        prefix: Option<String>,
        limit: u32,
    ) -> (r: Result<Vec<u8>, KvStoreError>)
        requires
            self.wf(),
            limit >= 1,
        ensures
            !self.has_store(obj_store_key@) ==> r == Result::<Vec<u8>, KvStoreError>::Err(
                KvStoreError::InternalError,
            ),
            self.has_store(obj_store_key@) ==> (r matches Ok(doc) && doc@ == list_doc(
                self.keys_of(obj_store_key@),
                opt_vec_bytes(cursor_key),
                opt_str_bytes(prefix),
                limit,
            )),
    {
        let ghost gn = obj_store_key@;
        let ghost cv: Option<Seq<u8>> = opt_vec_bytes(cursor_key);
        let ghost pv = opt_str_bytes(prefix);
        let si: usize = match self.find_store(obj_store_key.bytes()) {
            Some(si) => si,
            None => {
                return Err(KvStoreError::InternalError);
            },
        };
        let entry = &self.stores[si];
        let st = &entry.1;
        let ghost allkeys = st.skeys();
        proof {
            assert(self.keys_of(gn) == allkeys);
        }
        let mut data: Vec<ObjectKey> = Vec::new();
        let count: usize = st.len();
        let mut i: usize = 0;
        while i < count
            invariant
                st.wf(),
                count == st.skeys().len(),
                allkeys == st.skeys(),
                0 <= i <= count,
                keys_view(data@) =~= filtered_keys(allkeys.take(i as int), cv, pv),
                cv == opt_vec_bytes(cursor_key),
                pv == opt_str_bytes(prefix),
            decreases count - i,
        {
            let k = st.key_at(i);
            let mut sel = true;
            match &cursor_key {
                Some(c) => {
                    if !bytes_lt(c.as_slice(), k.bytes()) {
                        sel = false;
                    }
                },
                None => {},
            }
            if sel {
                match &prefix {
                    Some(p) => {
                        if !starts_with_bytes(k.bytes(), p.as_str().as_bytes()) {
                            sel = false;
                        }
                    },
                    None => {},
                }
            }
            proof {
                assert(sel == selected(allkeys[i as int], cv, pv));
                assert(allkeys.take(i + 1 as int).drop_last() =~= allkeys.take(i as int));
                assert(allkeys.take(i + 1 as int).last() == allkeys[i as int]);
            }
            if sel {
                data.push(k.clone());
                proof {
                    assert(keys_view(data@) =~= filtered_keys(allkeys.take(i + 1 as int), cv, pv));
                }
            } else {
                proof {
                    assert(keys_view(data@) =~= filtered_keys(allkeys.take(i + 1 as int), cv, pv));
                }
            }
            i += 1;
        }
        proof {
            assert(allkeys.take(count as int) =~= allkeys);
        }
        let ghost f = filtered_keys(allkeys, cv, pv);
        let truncated: bool = data.len() > limit as usize;
        if truncated {
            data.truncate(limit as usize);
        }
        proof {
            assert(keys_view(data@) =~= page_data(allkeys, cv, pv, limit));
        }
        let next_cursor: Option<String> = if truncated {
            let last = &data[data.len() - 1];
            proof {
                assert(keys_view(data@)[limit - 1] == f[limit - 1]);
            }
            Some(b64_encode(last.bytes()))
        } else {
            None
        };
        proof {
            assert(opt_str_bytes(next_cursor) == encoded_next(allkeys, cv, pv, limit));
        }
        let doc = render_listing(&data, limit, &prefix, &next_cursor);
        Ok(doc)
    }

    /// Produces the listing document, decoding the opaque cursor token
    /// first: a token that is not canonical base64 of UTF-8 bytes is a
    /// `BadRequest`.  A listing of an unknown store is an internal error.
    pub fn list(
        &self,
        obj_store_key: ObjectStoreKey,
        cursor: Option<String>,
        prefix: Option<String>,
        limit: u32,
    ) -> (r: Result<Vec<u8>, KvStoreError>)
        requires
            self.wf(),
            limit >= 1,
        ensures
            !self.has_store(obj_store_key@) ==> r == Result::<Vec<u8>, KvStoreError>::Err(
                KvStoreError::InternalError,
            ),
            self.has_store(obj_store_key@) ==> (match cursor {
                Option::None => (r matches Ok(doc) && doc@ == list_doc(
                    self.keys_of(obj_store_key@),
                    Option::None,
                    opt_str_bytes(prefix),
                    limit,
                )),
                Option::Some(c) => {
                    if (exists|b: Seq<u8>| b64_encoding(b) == c@ && valid_utf8(b)) {
                        r matches Ok(doc) && (exists|b: Seq<u8>|
                            b64_encoding(b) == c@ && valid_utf8(b) && doc@ == list_doc(
                                self.keys_of(obj_store_key@),
                                Option::Some(b),
                                opt_str_bytes(prefix),
                                limit,
                            ))
                    } else {
                        r == Result::<Vec<u8>, KvStoreError>::Err(KvStoreError::BadRequest)
                    }
                },
            }),
    {
        let present = self.find_store(obj_store_key.bytes()).is_some();
        if !present {
            return Err(KvStoreError::InternalError);
        }
        let cursor_key: Option<Vec<u8>> = match &cursor {
            Some(c) => {
                match b64_decode(c.as_str()) {
                    Some(b) => {
                        if !utf8_valid(b.as_slice()) {
                            return Err(KvStoreError::BadRequest);
                        }
                        Some(b)
                    },
                    None => {
                        return Err(KvStoreError::BadRequest);
                    },
                }
            },
            None => None,
        };
        self.list_decoded(&obj_store_key, cursor_key, prefix, limit)
    }
}

/// An overwrite round-trips: inserting with `Overwrite` and no expected
/// generation is always allowed, and the value then stored — the value a
/// subsequent lookup returns — holds exactly the written bytes.
pub proof fn lemma_overwrite_round_trip(
    existing: Option<ValueView>,
    obj: Seq<u8>,
    meta: Option<Seq<u8>>,
    stamp: u32,
)
    ensures
        insert_check(existing, KvInsertMode::Overwrite, Option::None) is Ok,
        written_value(existing, obj, KvInsertMode::Overwrite, meta, stamp).body == obj,
{
}

/// `Append` puts the new bytes after the prior body and `Prepend` puts
/// them before it; against a missing key both write exactly what
/// `Overwrite` writes.
pub proof fn lemma_append_prepend(existing: ValueView, obj: Seq<u8>)
    ensures
        merged_body(Option::Some(existing), obj, KvInsertMode::Append) == existing.body + obj,
        merged_body(Option::Some(existing), obj, KvInsertMode::Prepend) == obj + existing.body,
        merged_body(Option::None, obj, KvInsertMode::Append) == merged_body(
            Option::None,
            obj,
            KvInsertMode::Overwrite,
        ),
        merged_body(Option::None, obj, KvInsertMode::Prepend) == merged_body(
            Option::None,
            obj,
            KvInsertMode::Overwrite,
        ),
{
}

/// `Add` against an existing value fails `PreconditionFailed` whatever
/// generation was supplied; by the insert's contract a failed check
/// leaves the registry — and so the existing value — unmodified.
pub proof fn lemma_add_existing_fails(existing: ValueView, egen: Option<u32>)
    ensures
        insert_check(Option::Some(existing), KvInsertMode::Add, egen) == Result::<
            (),
            KvStoreError,
        >::Err(KvStoreError::PreconditionFailed),
{
}

/// A supplied generation that does not match the current value's fails
/// `PreconditionFailed` regardless of mode; by the insert's contract a
/// failed check performs no mutation.
pub proof fn lemma_generation_mismatch(existing: ValueView, mode: KvInsertMode, g: u32)
    requires
        existing.generation != g,
    ensures
        insert_check(Option::Some(existing), mode, Option::Some(g)) == Result::<
            (),
            KvStoreError,
        >::Err(KvStoreError::PreconditionFailed),
{
}

/// After a delete the key is absent, so a lookup of it finds nothing:
/// by the lookup's contract it then fails with `MissingObject`.
pub proof fn lemma_delete_then_lookup(s: ObjectStores, n: Seq<u8>, k: Seq<u8>)
    requires
        !s.has_key(n, k),
    ensures
        s.value_opt(n, k) is None,
{
}

/// Replacing the store at one position, keeping its name, preserves which
/// names exist, their positions, and every other store.
proof fn lemma_registry_replaced(
    prev: Seq<(ObjectStoreKey, Store)>,
    cur: Seq<(ObjectStoreKey, Store)>,
    si: int,
)
    requires
        names_unique(prev),
        0 <= si < prev.len(),
        cur.len() == prev.len(),
        forall|a: int| 0 <= a < prev.len() && a != si ==> #[trigger] cur[a] == prev[a],
        cur[si].0 == prev[si].0,
    ensures
        names_unique(cur),
        forall|n2: Seq<u8>| name_in(cur, n2) == name_in(prev, n2),
        forall|n2: Seq<u8>|
            #[trigger] name_in(prev, n2) ==> name_index_in(cur, n2) == name_index_in(prev, n2),
        forall|n2: Seq<u8>|
            name_in(prev, n2) && name_index_in(prev, n2) != si ==> cur[name_index_in(cur, n2)].1
                == prev[name_index_in(prev, n2)].1,
{
    assert(forall|a: int| 0 <= a < cur.len() ==> (#[trigger] cur[a].0@) == prev[a].0@);
    assert forall|n2: Seq<u8>| name_in(cur, n2) == name_in(prev, n2) by {
        if name_in(cur, n2) {
            let a = choose|a: int| 0 <= a < cur.len() && cur[a].0@ == n2;
            assert(prev[a].0@ == n2);
            assert(name_in(prev, n2));
        }
        if name_in(prev, n2) {
            let a = choose|a: int| 0 <= a < prev.len() && prev[a].0@ == n2;
            assert(cur[a].0@ == n2);
            assert(name_in(cur, n2));
        }
    }
    assert forall|n2: Seq<u8>| #[trigger] name_in(prev, n2) implies name_index_in(cur, n2)
        == name_index_in(prev, n2) by {
        let a = name_index_in(prev, n2);
        assert(0 <= a < prev.len() && prev[a].0@ == n2);
        assert(cur[a].0@ == n2);
        lemma_name_unique(cur, n2, a);
    }
}

} // verus!
