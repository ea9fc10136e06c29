//! The paste store: a durable, process-local namespace of identifier to
//! paste, with create, get and list-all, over the backing engine.

use crate::backing::{fresh_id, kv_contents, kv_entries, kv_get, kv_insert, open_db_at,
    open_temporary_db};
use crate::record::{all_decodable, decode, encode, encode_key, lemma_codec_round_trip, spec_decodable,
    spec_decode, spec_encode, spec_key, Paste, PasteModel};
use crate::StoreError;
use vstd::bytes::lemma_auto_spec_u128_to_from_le_bytes;
use vstd::prelude::*;

verus! {

/// The outcome a lookup is specified to have on given store contents,
/// whenever the backing engine serves the read.
pub open spec fn spec_get(m: Map<Seq<u8>, Seq<u8>>, id: u128) -> Result<PasteModel, StoreError> {
    if !m.contains_key(spec_key(id)) {
        Err(StoreError::NotFound)
    } else if !spec_decodable(m[spec_key(id)]) {
        Err(StoreError::CorruptRecord)
    } else {
        Ok(spec_decode(m[spec_key(id)]))
    }
}

/// The set of records that a store's contents hold: those its
/// well-formed values decode to.
pub open spec fn spec_pastes(m: Map<Seq<u8>, Seq<u8>>) -> Set<PasteModel> {
    Set::new(
        |p: PasteModel|
            exists|k: Seq<u8>|
                #[trigger] m.contains_key(k) && spec_decodable(m[k]) && spec_decode(m[k]) == p,
    )
}

/// The paste store. It exclusively owns its backing namespace; callers
/// receive owned copies of records on read, never references into it.
pub struct Store {
    tree: sled::Db,
}

impl Store {
    /// The byte contents of the store: which encoded record each
    /// present key holds.
    pub closed spec fn contents(self) -> Map<Seq<u8>, Seq<u8>> {
        kv_contents(self.tree)
    }

    /// Open a store backed by a fresh temporary database: its data
    /// vanishes at process exit, and it starts empty.
    pub fn open_temporary() -> (r: Result<Store, StoreError>)
        ensures
            match r {
                Ok(s) => s.contents() == Map::<Seq<u8>, Seq<u8>>::empty(),
                Err(e) => e == StoreError::BackingStoreUnavailable,
            },
    {
        match open_temporary_db() {
            Ok(tree) => Ok(Store { tree }),
            Err(_) => Err(StoreError::BackingStoreUnavailable),
        }
    }

    /// Open a store persisted in the directory at the given path: its
    /// data survives restarts. What the directory already holds is
    /// unknown, so nothing is known of the opened store's contents.
    pub fn open(path: &str) -> (r: Result<Store, StoreError>)
        ensures
            match r {
                Ok(_) => true,
                Err(e) => e == StoreError::BackingStoreUnavailable,
            },
    {
        match open_db_at(path) {
            Ok(tree) => Ok(Store { tree }),
            Err(_) => Err(StoreError::BackingStoreUnavailable),
        }
    }

    /// Persist a record under the given identifier's key, overwriting
    /// whatever that key held. One durable write; fails only when the
    /// backing engine does.
    pub fn insert(&mut self, id: &u128, value: &Paste) -> (r: Result<(), StoreError>)
        ensures
            match r {
                Ok(()) => final(self).contents() == old(self).contents().insert(
                    spec_key(*id),
                    spec_encode(value@),
                ),
                Err(e) => e == StoreError::BackingStoreUnavailable,
            },
    {
        let key = encode_key(*id);
        let bytes = encode(value);
        match kv_insert(&mut self.tree, &key, &bytes) {
            Ok(_) => Ok(()),
            Err(_) => Err(StoreError::BackingStoreUnavailable),
        }
    }

    /// Create a paste: generate a fresh random 128-bit identifier,
    /// persist the record `{id, body}` under it, and return the record.
    /// No collision re-check is made; a collision silently overwrites.
    /// Fails only when the backing engine does, and the caller must not
    /// assume the paste is visible until success is returned.
    pub fn create(&mut self, body: String) -> (r: Result<Paste, StoreError>)
        ensures
            match r {
                Ok(p) => p@.body == body@ && final(self).contents() == old(self).contents().insert(
                    spec_key(p@.id),
                    spec_encode(p@),
                ),
                Err(e) => e == StoreError::BackingStoreUnavailable,
            },
    {
        let id = fresh_id();
        let paste = Paste { id, body };
        match self.insert(&id, &paste) {
            Ok(()) => Ok(paste),
            Err(e) => Err(e),
        }
    }

    /// Look up a paste by identifier and return an owned copy of the
    /// stored record. `NotFound` exactly when the key is absent;
    /// `CorruptRecord` exactly when the key is present but its bytes
    /// are not a well-formed record; `BackingStoreUnavailable` only
    /// when the engine fails the read. The store is not mutated: the
    /// outcome is a function of the contents and the identifier alone.
    pub fn get(&self, id: u128) -> (r: Result<Paste, StoreError>)
        ensures
            match r {
                Ok(p) => spec_get(self.contents(), id) == Ok::<PasteModel, StoreError>(p@),
                Err(StoreError::BackingStoreUnavailable) => true,
                Err(e) => spec_get(self.contents(), id) == Err::<PasteModel, StoreError>(e),
            },
    {
        let key = encode_key(id);
        match kv_get(&self.tree, &key) {
            Ok(Some(bytes)) => match decode(&bytes) {
                Ok(p) => Ok(p),
                Err(_) => Err(StoreError::CorruptRecord),
            },
            Ok(None) => Err(StoreError::NotFound),
            Err(_) => Err(StoreError::BackingStoreUnavailable),
        }
    }

    /// List all pastes, in the backing store's natural key iteration
    /// order: one decoded record for every stored key — every stored
    /// record appears, and nothing else. `CorruptRecord` exactly when
    /// some stored value is not a well-formed record;
    /// `BackingStoreUnavailable` only when the engine fails.
    pub fn all(&self) -> (r: Result<Vec<Paste>, StoreError>)
        ensures
            match r {
                Ok(v) => {
                    &&& all_decodable(self.contents())
                    &&& v@.len() == self.contents().dom().len()
                    &&& forall|i: int|
                        0 <= i < v@.len() ==> spec_pastes(self.contents()).contains(
                            (#[trigger] v@[i])@,
                        )
                    &&& forall|p: PasteModel|
                        #[trigger] spec_pastes(self.contents()).contains(p) ==> exists|i: int|
                            0 <= i < v@.len() && (#[trigger] v@[i])@ == p
                },
                Err(StoreError::CorruptRecord) => !all_decodable(self.contents()),
                Err(StoreError::BackingStoreUnavailable) => true,
                Err(StoreError::NotFound) => false,
            },
    {
        let ghost m = self.contents();
        let entries = match kv_entries(&self.tree) {
            Ok(es) => es,
            Err(_) => {
                return Err(StoreError::BackingStoreUnavailable);
            },
        };
        let mut out: Vec<Paste> = Vec::new();
        let mut i: usize = 0;
        while i < entries.len()
            invariant
                0 <= i <= entries@.len(),
                out@.len() == i,
                m == self.contents(),
                m.dom().finite(),
                entries@.len() == m.dom().len(),
                forall|j: int|
                    0 <= j < entries@.len() ==> m.contains_key((#[trigger] entries@[j]).0@)
                        && entries@[j].1@ == m[entries@[j].0@],
                forall|k: Seq<u8>|
                    #[trigger] m.contains_key(k) ==> exists|j: int|
                        0 <= j < entries@.len() && (#[trigger] entries@[j]).0@ == k,
                forall|j: int|
                    0 <= j < i ==> spec_decodable(m[(#[trigger] entries@[j]).0@]),
                forall|j: int|
                    0 <= j < i ==> (#[trigger] out@[j])@ == spec_decode(m[entries@[j].0@]),
            decreases entries@.len() - i,
        {
            match decode(&entries[i].1) {
                Ok(p) => {
                    out.push(p);
                },
                Err(_) => {
                    proof {
                        assert(m.contains_key(entries@[i as int].0@));
                        assert(!spec_decodable(m[entries@[i as int].0@]));
                    }
                    return Err(StoreError::CorruptRecord);
                },
            }
            i += 1;
        }
        proof {
            assert forall|k: Seq<u8>| #[trigger] m.contains_key(k) implies spec_decodable(
                m[k],
            ) by {
                let j = choose|j: int|
                    0 <= j < entries@.len() && (#[trigger] entries@[j]).0@ == k;
                assert(spec_decodable(m[entries@[j].0@]));
            }
            assert forall|i2: int| 0 <= i2 < out@.len() implies spec_pastes(m).contains(
                (#[trigger] out@[i2])@,
            ) by {
                let k = entries@[i2].0@;
                assert(m.contains_key(k) && spec_decodable(m[k]) && spec_decode(m[k]) == out@[i2]@);
            }
            assert forall|p: PasteModel| #[trigger] spec_pastes(m).contains(p) implies exists|
                i2: int,
            |
                0 <= i2 < out@.len() && (#[trigger] out@[i2])@ == p by {
                let k = choose|k: Seq<u8>|
                    #[trigger] m.contains_key(k) && spec_decodable(m[k]) && spec_decode(m[k]) == p;
                let j = choose|j: int|
                    0 <= j < entries@.len() && (#[trigger] entries@[j]).0@ == k;
                assert(0 <= j < out@.len() && out@[j]@ == p);
            }
        }
        Ok(out)
    }
}

/// Law (read after write): in any store contents, once a record is
/// inserted at its identifier's key, that key holds a well-formed value
/// that decodes to the record itself — so a lookup of a just-created
/// paste returns a paste with an identical body, engine willing.
pub proof fn lemma_read_after_write(m: Map<Seq<u8>, Seq<u8>>, p: PasteModel)
    ensures
        spec_get(m.insert(spec_key(p.id), spec_encode(p)), p.id) == Ok::<PasteModel, StoreError>(p),
{
    lemma_codec_round_trip(p);
}

/// Whether store contents are well keyed: every present key holds a
/// well-formed record whose own identifier's key is that very key.
pub open spec fn well_keyed(m: Map<Seq<u8>, Seq<u8>>) -> bool {
    forall|k: Seq<u8>|
        #[trigger] m.contains_key(k) ==> spec_decodable(m[k]) && spec_key(spec_decode(m[k]).id)
            == k
}

/// Law (keys match records): an empty store is well keyed, and creating
/// a paste keeps the store well keyed — every identifier present maps
/// to exactly one record whose own identifier equals the storage key.
pub proof fn lemma_create_preserves_well_keyed(m: Map<Seq<u8>, Seq<u8>>, p: PasteModel)
    requires
        well_keyed(m),
    ensures
        well_keyed(Map::<Seq<u8>, Seq<u8>>::empty()),
        well_keyed(m.insert(spec_key(p.id), spec_encode(p))),
{
    lemma_codec_round_trip(p);
    let m2 = m.insert(spec_key(p.id), spec_encode(p));
    assert forall|k: Seq<u8>| #[trigger] m2.contains_key(k) implies spec_decodable(m2[k])
        && spec_key(spec_decode(m2[k]).id) == k by {
        if k != spec_key(p.id) {
            assert(m.contains_key(k));
        }
    }
}

/// Law (a lookup answers for its identifier): in a well-keyed store a
/// successful lookup returns a record bearing the identifier it was
/// asked for.
pub proof fn lemma_get_returns_queried_id(m: Map<Seq<u8>, Seq<u8>>, id: u128, p: PasteModel)
    requires
        well_keyed(m),
        spec_get(m, id) == Ok::<PasteModel, StoreError>(p),
    ensures
        p.id == id,
{
    lemma_auto_spec_u128_to_from_le_bytes();
    assert(spec_key(p.id) == spec_key(id));
}

/// Law (idempotent reads): `get` borrows the store immutably, so a read
/// leaves the contents untouched, and its contract pins every outcome
/// the engine serves to `spec_get` of those contents; hence two
/// successive lookups of one identifier return equal results.
pub proof fn lemma_get_idempotent(
    m: Map<Seq<u8>, Seq<u8>>,
    id: u128,
    first: Result<PasteModel, StoreError>,
    second: Result<PasteModel, StoreError>,
)
    requires
        first == spec_get(m, id),
        second == spec_get(m, id),
    ensures
        first == second,
{
}

/// Law (nothing from nothing): an empty store holds no records at all,
/// so a lookup of any identifier fails with `NotFound` and a listing is
/// empty.
pub proof fn lemma_empty_store(id: u128)
    ensures
        spec_get(Map::<Seq<u8>, Seq<u8>>::empty(), id) == Err::<PasteModel, StoreError>(
            StoreError::NotFound,
        ),
        spec_pastes(Map::<Seq<u8>, Seq<u8>>::empty()) =~= Set::<PasteModel>::empty(),
{
}

/// Law (list completeness): creating a paste under an identifier the
/// store does not yet hold adds exactly that record to the set a
/// listing yields, and keeps every record already there.
pub proof fn lemma_list_after_create(m: Map<Seq<u8>, Seq<u8>>, p: PasteModel)
    requires
        !m.contains_key(spec_key(p.id)),
    ensures
        spec_pastes(m.insert(spec_key(p.id), spec_encode(p))) =~= spec_pastes(m).insert(p),
{
    let m2 = m.insert(spec_key(p.id), spec_encode(p));
    lemma_codec_round_trip(p);
    assert forall|q: PasteModel| spec_pastes(m2).contains(q) implies spec_pastes(m).insert(
        p,
    ).contains(q) by {
        let k = choose|k: Seq<u8>|
            #[trigger] m2.contains_key(k) && spec_decodable(m2[k]) && spec_decode(m2[k]) == q;
        if k == spec_key(p.id) {
            assert(q == p);
        } else {
            assert(m.contains_key(k) && spec_decodable(m[k]) && spec_decode(m[k]) == q);
        }
    }
    assert forall|q: PasteModel| spec_pastes(m).insert(p).contains(q) implies spec_pastes(
        m2,
    ).contains(q) by {
        if q == p {
            assert(m2.contains_key(spec_key(p.id)) && spec_decodable(m2[spec_key(p.id)])
                && spec_decode(m2[spec_key(p.id)]) == p);
        } else {
            let k = choose|k: Seq<u8>|
                #[trigger] m.contains_key(k) && spec_decodable(m[k]) && spec_decode(m[k]) == q;
            assert(m2.contains_key(k) && spec_decodable(m2[k]) && spec_decode(m2[k]) == q);
        }
    }
}

} // verus!
