//! The document store's narrow interface: two logical collections, one of
//! user documents and one of normalized telemetry documents. Telemetry is
//! an append-only ingestion log; user documents can also be enumerated and
//! deleted by their store-assigned identifier.

use vstd::prelude::*;
use crate::data::Position;
use crate::data::User;
use crate::telemetry::PositionDocument;
use crate::telemetry::is_normalized;

verus! {

/// How a store operation failed.
#[derive(PartialEq, Eq, Structural, Clone, Copy, Debug)]
pub enum StoreError {
    /// The store could not be reached.
    Unavailable,
    /// The write collided with an existing document.
    Conflict,
    /// No document carries the given identifier.
    NotFound,
}

/// A stored user document: the record under its store-assigned identifier.
pub struct StoredUser {
    pub id: u64,
    pub user: User,
}

/// An in-memory document store with the persistence layer's narrow
/// interface: insert-one on both collections, enumerate and delete-one-by-id
/// for users, positional read-back for telemetry.
pub struct DocumentStore {
    next_user_id: u64,
    users: Vec<StoredUser>,
    positions: Vec<PositionDocument>,
}

/// Whether some stored user carries this identifier.
pub open spec fn has_user_id(users: Seq<StoredUser>, id: u64) -> bool {
    exists|i: int| 0 <= i < users.len() && users[i].id == id
}

impl DocumentStore {
    /// The users collection, in insertion order.
    pub closed spec fn users(&self) -> Seq<StoredUser> {
        self.users@
    }

    /// The positions collection, in insertion order.
    pub closed spec fn positions(&self) -> Seq<PositionDocument> {
        self.positions@
    }

    /// The identifier the next inserted user document will get.
    pub closed spec fn next_id(&self) -> u64 {
        self.next_user_id
    }

    /// An empty store.
    pub fn new() -> (s: Self)
        ensures
            s.users() == Seq::<StoredUser>::empty(),
            s.positions() == Seq::<PositionDocument>::empty(),
            s.next_id() == 0,
    {
        let s = DocumentStore { next_user_id: 0, users: Vec::new(), positions: Vec::new() };
        proof {
            assert(s.users() =~= Seq::<StoredUser>::empty());
            assert(s.positions() =~= Seq::<PositionDocument>::empty());
        }
        s
    }

    /// Appends one normalized telemetry document to the ingestion log.
    pub fn insert_position(&mut self, d: PositionDocument)
        ensures
            final(self).positions() == old(self).positions().push(d),
            final(self).users() == old(self).users(),
            final(self).next_id() == old(self).next_id(),
    {
        self.positions.push(d);
    }

    /// How many telemetry documents the log holds.
    pub fn position_count(&self) -> (n: usize)
        ensures
            n == self.positions().len(),
    {
        self.positions.len()
    }

    /// Reads one telemetry document back from the log.
    pub fn position_at(&self, i: usize) -> (d: &PositionDocument)
        requires
            i < self.positions().len(),
        ensures
            *d == self.positions()[i as int],
    {
        &self.positions[i]
    }

    /// Inserts one user document under a fresh identifier and returns the
    /// identifier.
    pub fn insert_user(&mut self, u: User) -> (id: u64)
        requires
            old(self).next_id() < u64::MAX,
        ensures
            id == old(self).next_id(),
            final(self).users() == old(self).users().push(StoredUser { id, user: u }),
            final(self).positions() == old(self).positions(),
            final(self).next_id() == old(self).next_id() + 1,
    {
        let id = self.next_user_id;
        self.next_user_id = self.next_user_id + 1;
        let ghost gu = u;
        self.users.push(StoredUser { id, user: u });
        proof {
            assert(self.users() =~= old(self).users().push(StoredUser { id, user: gu }));
        }
        id
    }

    /// Enumerates the stored user documents.
    pub fn users_all(&self) -> (r: &Vec<StoredUser>)
        ensures
            r@ == self.users(),
    {
        &self.users
    }

    /// Deletes the user document carrying the given identifier. A missing
    /// identifier is a not-found failure and leaves the store unchanged.
    pub fn delete_user_by_id(&mut self, id: u64) -> (r: Result<(), StoreError>)
        ensures
            match r {
                Result::Ok(()) => {
                    &&& has_user_id(old(self).users(), id)
                    &&& exists|i: int|
                        {
                            &&& 0 <= i < old(self).users().len()
                            &&& old(self).users()[i].id == id
                            &&& (forall|k: int| 0 <= k < i ==> old(self).users()[k].id != id)
                            &&& final(self).users() == old(self).users().remove(i)
                        }
                },
                Result::Err(e) => {
                    &&& e == StoreError::NotFound
                    &&& !has_user_id(old(self).users(), id)
                    &&& final(self).users() == old(self).users()
                },
            },
            final(self).positions() == old(self).positions(),
            final(self).next_id() == old(self).next_id(),
    {
        let n = self.users.len();
        let mut i: usize = 0;
        while i < n
            invariant
                0 <= i <= n,
                n == self.users@.len(),
                *self == *old(self),
                forall|k: int| 0 <= k < i ==> self.users@[k].id != id,
            decreases n - i,
        {
            if self.users[i].id == id {
                self.users.remove(i);
                return Result::Ok(());
            }
            i = i + 1;
        }
        proof {
            if has_user_id(self.users(), id) {
                let k = choose|k: int|
                    0 <= k < self.users().len() && self.users()[k].id == id;
                assert(false);
            }
        }
        Result::Err(StoreError::NotFound)
    }
}

/// Round trip: inserting a normalized telemetry document appends it to the
/// log unchanged, so the document read back carries the payload's
/// identity, location, I/O, sensor and flag fields verbatim; only the
/// arrival instant and the geo-point tag were generated by normalization.
pub proof fn lemma_position_round_trip(
    before: DocumentStore,
    after: DocumentStore,
    p: Position,
    instant: i64,
    now: i64,
    d: PositionDocument,
)
    requires
        is_normalized(p, instant, now, d),
        after.positions() == before.positions().push(d),
    ensures
        after.positions().len() == before.positions().len() + 1,
        after.positions().last() == d,
        is_normalized(p, instant, now, after.positions().last()),
{
    assert(after.positions().last() == d);
}

} // verus!
