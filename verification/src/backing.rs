//! The backing engine boundary: trusted declarations for the durable
//! key-value store and for the random identifier source.
//!
//! Everything here is believed, not proved; each item's doc comment
//! names the outside function it relies on.

use vstd::prelude::*;

verus! {

/// The backing engine's database handle: a durable key-value namespace.
#[verifier::external_type_specification]
#[verifier::external_body]
pub struct ExDb(sled::Db);

/// The backing engine's error type.
#[verifier::external_type_specification]
#[verifier::external_body]
pub struct ExSledError(sled::Error);

/// The byte contents of a database's default keyspace: which value each
/// present key holds.
pub uninterp spec fn kv_contents(db: sled::Db) -> Map<Seq<u8>, Seq<u8>>;

/// Relies on `sled::Config::temporary` and `sled::Config::open`: a
/// temporary database is created in a fresh ephemeral directory, so it
/// opens empty and its data vanishes at process exit.
#[verifier::external_body]
pub(crate) fn open_temporary_db() -> (r: Result<sled::Db, sled::Error>)
    ensures
        match r {
            Ok(db) => kv_contents(db) == Map::<Seq<u8>, Seq<u8>>::empty(),
            Err(_) => true,
        },
{
    sled::Config::new().temporary(true).open()
}

/// Relies on `sled::open`: opens (or creates) a durable database in the
/// directory at the given path. Nothing is known of what the directory
/// already holds.
#[verifier::external_body]
pub(crate) fn open_db_at(path: &str) -> (r: Result<sled::Db, sled::Error>) {
    sled::open(path)
}

/// Relies on `sled::Tree::insert` (on the database's default keyspace):
/// it sets the key to the value and returns the key's former value.
/// Nothing is promised of the contents when the engine reports an error.
#[verifier::external_body]
pub(crate) fn kv_insert(db: &mut sled::Db, key: &Vec<u8>, value: &Vec<u8>) -> (r: Result<
    Option<Vec<u8>>,
    sled::Error,
>)
    ensures
        match r {
            Ok(prev) => {
                &&& kv_contents(*final(db)) == kv_contents(*old(db)).insert(key@, value@)
                &&& match prev {
                    Some(v) => kv_contents(*old(db)).contains_key(key@) && v@ == kv_contents(
                        *old(db),
                    )[key@],
                    None => !kv_contents(*old(db)).contains_key(key@),
                }
            },
            Err(_) => true,
        },
{
    db.insert(key.as_slice(), value.as_slice()).map(|o| o.map(|iv| iv.to_vec()))
}

/// Relies on `sled::Tree::get`: it returns the value the key holds, or
/// `None` when the key is absent.
#[verifier::external_body]
pub(crate) fn kv_get(db: &sled::Db, key: &Vec<u8>) -> (r: Result<Option<Vec<u8>>, sled::Error>)
    ensures
        match r {
            Ok(Some(v)) => kv_contents(*db).contains_key(key@) && v@ == kv_contents(*db)[key@],
            Ok(None) => !kv_contents(*db).contains_key(key@),
            Err(_) => true,
        },
{
    db.get(key.as_slice()).map(|o| o.map(|iv| iv.to_vec()))
}

/// Relies on `sled::Tree::iter`: it walks the keyspace in key order and
/// yields every present pair exactly once, each key with the value it
/// holds.
#[verifier::external_body]
pub(crate) fn kv_entries(db: &sled::Db) -> (r: Result<Vec<(Vec<u8>, Vec<u8>)>, sled::Error>)
    ensures
        match r {
            Ok(es) => {
                &&& kv_contents(*db).dom().finite()
                &&& es@.len() == kv_contents(*db).dom().len()
                &&& forall|i: int|
                    0 <= i < es@.len() ==> kv_contents(*db).contains_key((#[trigger] es@[i]).0@)
                        && es@[i].1@ == kv_contents(*db)[es@[i].0@]
                &&& forall|k: Seq<u8>|
                    #[trigger] kv_contents(*db).contains_key(k) ==> exists|i: int|
                        0 <= i < es@.len() && (#[trigger] es@[i]).0@ == k
            },
            Err(_) => true,
        },
{
    db.iter().map(|kv| kv.map(|(k, v)| (k.to_vec(), v.to_vec()))).collect()
}

/// Relies on `uuid::Uuid::new_v4`: a freshly generated random 128-bit
/// identifier from a cryptographically strong source. Nothing is
/// promised of the value; uniqueness is only probabilistic.
#[verifier::external_body]
pub(crate) fn fresh_id() -> u128 {
    uuid::Uuid::new_v4().as_u128()
}

} // verus!
