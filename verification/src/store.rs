//! The local store: durable key/value persistence keyed by content
//! identifier.
//!
//! The store owns every stored object. `put` is idempotent — storing a
//! payload whose identifier is already present is a no-op — and atomic per
//! identifier, so racing stores of identical content leave exactly one
//! object. `get` and `has` treat absence as an ordinary outcome, not an
//! error. Writing the objects through to disk is the caller's concern; the
//! store is the authority on what is held under which identifier.

use vstd::prelude::*;
use crate::addr::{identify, sha256_of, ContentId};
use crate::hex::bytes_eq;

verus! {

/// What one stored object is: its identifier, its bytes, and bookkeeping.
pub ghost struct StoredObjectModel {
    pub id: Seq<u8>,
    pub data: Seq<u8>,
    pub size: nat,
    pub created_at: u64,
}

/// An association of a content identifier to payload bytes, plus size and
/// creation time.
pub struct StoredObject {
    pub id: ContentId,
    pub data: Vec<u8>,
    pub size: u64,
    pub created_at: u64,
}

impl View for StoredObject {
    type V = StoredObjectModel;

    open spec fn view(&self) -> StoredObjectModel {
        StoredObjectModel {
            id: self.id@,
            data: self.data@,
            size: self.size as nat,
            created_at: self.created_at,
        }
    }
}

/// A stored object is content-addressed: its identifier is the digest of its
/// bytes, and its recorded size is its length.
pub open spec fn object_wf(o: StoredObjectModel) -> bool {
    &&& o.id == sha256_of(o.data)
    &&& o.id.len() == 32
    &&& o.size == o.data.len()
}

/// The payload bytes held under an identifier: those of the first object
/// carrying it, if any.
pub open spec fn spec_find(s: Seq<StoredObjectModel>, id: Seq<u8>) -> Option<Seq<u8>>
    decreases s.len(),
{
    if s.len() == 0 {
        None
    } else if s.first().id == id {
        Some(s.first().data)
    } else {
        spec_find(s.drop_first(), id)
    }
}

/// How many objects carry an identifier.
pub open spec fn count_matching(s: Seq<StoredObjectModel>, id: Seq<u8>) -> nat
    decreases s.len(),
{
    if s.len() == 0 {
        0
    } else {
        (if s.first().id == id {
            1nat
        } else {
            0nat
        }) + count_matching(s.drop_first(), id)
    }
}

/// What `put` does to the store: nothing if the identifier is already
/// present, otherwise one new object appended.
pub open spec fn spec_put(s: Seq<StoredObjectModel>, p: Seq<u8>, now: u64) -> Seq<
    StoredObjectModel,
> {
    if spec_find(s, sha256_of(p)) is Some {
        s
    } else {
        s.push(
            (StoredObjectModel { id: sha256_of(p), data: p, size: p.len(), created_at: now }),
        )
    }
}

/// The local store: the set of stored objects, keyed by content identifier.
pub struct LocalStore {
    objects: Vec<StoredObject>,
}

impl View for LocalStore {
    type V = Seq<StoredObjectModel>;

    closed spec fn view(&self) -> Seq<StoredObjectModel> {
        self.objects@.map_values(|o: StoredObject| o@)
    }
}

impl LocalStore {
    /// Every object is content-addressed and no identifier appears twice.
    pub open spec fn wf(&self) -> bool {
        &&& (forall|i: int| 0 <= i < self@.len() ==> object_wf(#[trigger] self@[i]))
        &&& (forall|i: int, j: int|
            0 <= i < j < self@.len() ==> #[trigger] self@[i].id != #[trigger] self@[j].id)
    }

    /// An empty store.
    pub fn new() -> (r: LocalStore)
        ensures
            r@ == Seq::<StoredObjectModel>::empty(),
            r.wf(),
    {
        let r = LocalStore { objects: Vec::new() };
        proof {
            assert(r@ =~= Seq::<StoredObjectModel>::empty());
        }
        r
    }

    /// The number of stored objects.
    pub fn object_count(&self) -> (r: usize)
        ensures
            r == self@.len(),
    {
        self.objects.len()
    }

    /// The index of the object holding an identifier, if any.
    fn find_index(&self, id: &[u8]) -> (r: Option<usize>)
        ensures
            match r {
                Some(i) => i < self@.len() && self@[i as int].id == id@ && spec_find(self@, id@)
                    == Some(self@[i as int].data),
                None => spec_find(self@, id@) is None,
            },
    {
        let n: usize = self.objects.len();
        let mut i: usize = 0;
        assert(self@.skip(0) =~= self@);
        while i < n
            invariant
                n == self@.len(),
                n == self.objects@.len(),
                i <= n,
                spec_find(self@, id@) == spec_find(self@.skip(i as int), id@),
                forall|j: int| 0 <= j < i ==> self@[j].id != id@,
            decreases n - i,
        {
            proof {
                assert(self@.skip(i as int).first() == self@[i as int]);
                assert(self@.skip(i as int).drop_first() =~= self@.skip(i as int + 1));
            }
            if bytes_eq(self.objects[i].id.as_bytes(), id) {
                return Some(i);
            }
            i = i + 1;
        }
        assert(self@.skip(n as int) =~= Seq::<StoredObjectModel>::empty());
        None
    }

    /// Whether an object with this identifier is stored, without reading its
    /// bytes.
    pub fn has(&self, id: &ContentId) -> (r: bool)
        ensures
            r == (spec_find(self@, id@) is Some),
    {
        self.find_index(id.as_bytes()).is_some()
    }

    /// The payload stored under an identifier, or `None` if absent — absence
    /// is not an error.
    pub fn get(&self, id: &ContentId) -> (r: Option<Vec<u8>>)
        ensures
            match r {
                Some(v) => spec_find(self@, id@) == Some(v@),
                None => spec_find(self@, id@) is None,
            },
    {
        match self.find_index(id.as_bytes()) {
            Some(i) => Some(crate::hex::copy_bytes(self.objects[i].data.as_slice())),
            None => None,
        }
    }

    /// Stores a payload under its computed identifier and returns that
    /// identifier. If an object with the identifier is already present the
    /// call is an idempotent no-op; the identifier is returned either way.
    pub fn put(&mut self, payload: &[u8], now: u64) -> (r: ContentId)
        requires
            old(self).wf(),
        ensures
            r@ == sha256_of(payload@),
            r.wf(),
            final(self)@ == spec_put(old(self)@, payload@, now),
            final(self).wf(),
    {
        let id = identify(payload);
        match self.find_index(id.as_bytes()) {
            Some(_) => id,
            None => {
                let data = crate::hex::copy_bytes(payload);
                let size = payload.len() as u64;
                let obj = StoredObject { id: id.duplicate(), data, size, created_at: now };
                proof {
                    assert(obj@ == (StoredObjectModel {
                        id: sha256_of(payload@),
                        data: payload@,
                        size: payload@.len(),
                        created_at: now,
                    }));
                    lemma_find_none_iff_absent(self@, sha256_of(payload@));
                }
                let ghost pre = self@;
                self.objects.push(obj);
                proof {
                    assert(self@ =~= pre.push(obj@));
                }
                id
            },
        }
    }
}

/// No object carries an identifier exactly when lookup misses.
pub proof fn lemma_find_none_iff_absent(s: Seq<StoredObjectModel>, id: Seq<u8>)
    ensures
        (spec_find(s, id) is None) <==> (forall|i: int| 0 <= i < s.len() ==> (#[trigger] s[i]).id
            != id),
    decreases s.len(),
{
    if s.len() > 0 {
        lemma_find_none_iff_absent(s.drop_first(), id);
        if spec_find(s, id) is None {
            assert forall|i: int| 0 <= i < s.len() implies (#[trigger] s[i]).id != id by {
                if i > 0 {
                    assert(s.drop_first()[i - 1] == s[i]);
                }
            }
        }
        if forall|i: int| 0 <= i < s.len() ==> (#[trigger] s[i]).id != id {
            assert forall|i: int|
                0 <= i < s.drop_first().len() implies (#[trigger] s.drop_first()[i]).id != id by {
                assert(s.drop_first()[i] == s[i + 1]);
            }
        }
    }
}

/// Lookup in a store extended with a fresh object finds that object under its
/// identifier and is unchanged under every other identifier.
pub proof fn lemma_find_push(s: Seq<StoredObjectModel>, o: StoredObjectModel, id: Seq<u8>)
    ensures
        spec_find(s, id) is Some ==> spec_find(s.push(o), id) == spec_find(s, id),
        spec_find(s, id) is None && o.id == id ==> spec_find(s.push(o), id) == Some(o.data),
        spec_find(s, id) is None && o.id != id ==> spec_find(s.push(o), id) is None,
    decreases s.len(),
{
    if s.len() == 0 {
        assert(s.push(o)[0] == o);
        assert(spec_find(Seq::<StoredObjectModel>::empty(), id) is None);
        assert(s.push(o).drop_first() =~= Seq::<StoredObjectModel>::empty());
    } else {
        lemma_find_push(s.drop_first(), o, id);
        assert(s.push(o)[0] == s[0]);
        assert forall|i: int|
            0 <= i < s.push(o).drop_first().len() implies #[trigger] s.push(o).drop_first()[i]
            == s.drop_first().push(o)[i] by {
            assert(s.push(o).drop_first()[i] == s.push(o)[i + 1]);
            if i + 1 < s.len() {
                assert(s.push(o)[i + 1] == s[i + 1]);
                assert(s.drop_first().push(o)[i] == s.drop_first()[i]);
            }
        }
        assert(s.push(o).drop_first() =~= s.drop_first().push(o));
    }
}

/// Storing a payload makes it retrievable: after `put(p)`, lookup under
/// `identify(p)` yields exactly `p`. The one case left out is a store that
/// already holds a different payload under the same digest — a digest
/// collision, which content addressing presumes away.
pub proof fn lemma_put_then_get(s: Seq<StoredObjectModel>, p: Seq<u8>, now: u64)
    requires
        spec_find(s, sha256_of(p)) is Some ==> spec_find(s, sha256_of(p)) == Some(p),
    ensures
        spec_find(spec_put(s, p, now), sha256_of(p)) == Some(p),
{
    if spec_find(s, sha256_of(p)) is None {
        let o = StoredObjectModel { id: sha256_of(p), data: p, size: p.len(), created_at: now };
        lemma_find_push(s, o, sha256_of(p));
    }
}

/// `put` is idempotent: a second store of the same payload changes nothing,
/// both calls return the same identifier (the digest of the payload), and the
/// store grows by at most one object.
pub proof fn lemma_put_idempotent(s: Seq<StoredObjectModel>, p: Seq<u8>, n1: u64, n2: u64)
    ensures
        spec_put(spec_put(s, p, n1), p, n2) == spec_put(s, p, n1),
        spec_put(s, p, n1).len() <= s.len() + 1,
{
    let after = spec_put(s, p, n1);
    if spec_find(s, sha256_of(p)) is None {
        let o = StoredObjectModel { id: sha256_of(p), data: p, size: p.len(), created_at: n1 };
        lemma_find_push(s, o, sha256_of(p));
    }
    assert(spec_find(after, sha256_of(p)) is Some);
}

/// Counting objects seen through a push.
proof fn lemma_count_push(s: Seq<StoredObjectModel>, o: StoredObjectModel, id: Seq<u8>)
    ensures
        count_matching(s.push(o), id) == count_matching(s, id) + (if o.id == id {
            1nat
        } else {
            0nat
        }),
    decreases s.len(),
{
    if s.len() == 0 {
        assert(s.push(o)[0] == o);
        assert(count_matching(Seq::<StoredObjectModel>::empty(), id) == 0);
        assert(s.push(o).drop_first() =~= Seq::<StoredObjectModel>::empty());
    } else {
        lemma_count_push(s.drop_first(), o, id);
        assert(s.push(o)[0] == s[0]);
        assert forall|i: int|
            0 <= i < s.push(o).drop_first().len() implies #[trigger] s.push(o).drop_first()[i]
            == s.drop_first().push(o)[i] by {
            assert(s.push(o).drop_first()[i] == s.push(o)[i + 1]);
            if i + 1 < s.len() {
                assert(s.push(o)[i + 1] == s[i + 1]);
                assert(s.drop_first().push(o)[i] == s.drop_first()[i]);
            }
        }
        assert(s.push(o).drop_first() =~= s.drop_first().push(o));
    }
}

/// A miss means no object matches at all.
proof fn lemma_count_zero_when_absent(s: Seq<StoredObjectModel>, id: Seq<u8>)
    requires
        spec_find(s, id) is None,
    ensures
        count_matching(s, id) == 0,
    decreases s.len(),
{
    if s.len() > 0 {
        lemma_count_zero_when_absent(s.drop_first(), id);
    }
}

/// Racing stores of identical content never corrupt the stored object: in
/// whichever order two `put(p)` calls are serialized (per-identifier `put` is
/// atomic), a store that did not yet hold the digest ends up with exactly one
/// object under it, whose bytes are `p`.
pub proof fn lemma_racing_puts_single_object(s: Seq<StoredObjectModel>, p: Seq<u8>, n1: u64, n2: u64)
    requires
        spec_find(s, sha256_of(p)) is None,
    ensures
        spec_put(spec_put(s, p, n1), p, n2) == spec_put(s, p, n1),
        spec_find(spec_put(s, p, n1), sha256_of(p)) == Some(p),
        count_matching(spec_put(s, p, n1), sha256_of(p)) == 1,
{
    lemma_put_then_get(s, p, n1);
    lemma_put_idempotent(s, p, n1, n2);
    lemma_count_zero_when_absent(s, sha256_of(p));
    let o = StoredObjectModel { id: sha256_of(p), data: p, size: p.len(), created_at: n1 };
    lemma_count_push(s, o, sha256_of(p));
}

/// Storing a payload makes `has` answer true for its identifier; an
/// identifier never stored answers false, there being no object that carries
/// it.
pub proof fn lemma_has_after_put(s: Seq<StoredObjectModel>, p: Seq<u8>, now: u64)
    ensures
        spec_find(spec_put(s, p, now), sha256_of(p)) is Some,
{
    if spec_find(s, sha256_of(p)) is None {
        let o = StoredObjectModel { id: sha256_of(p), data: p, size: p.len(), created_at: now };
        lemma_find_push(s, o, sha256_of(p));
    }
}

} // verus!
