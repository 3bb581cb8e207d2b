//! Storage layer: owns persistence of entries keyed by identifier and
//! enforces expiration, burn-after-reading and deletion rules atomically
//! at read and delete time.
//!
//! Expiration is enforced lazily: an expired record is removed by the
//! `get` that first observes it, not by a background sweeper. The
//! burn-after-reading check-then-delete runs inside a single `get` call,
//! so a burned entry is handed out at most once.

use vstd::prelude::*;
use std::collections::HashMap;
use crate::Entry;
use crate::Error;
use crate::id::Id;
use crate::id::ID_POOL;

verus! {

broadcast use vstd::std_specs::hash::group_hash_axioms;

/// Grace window, in seconds, during which an entry may be deleted by its
/// creator.
pub const DELETION_WINDOW: u32 = 60;

/// One persisted record: the inserted entry together with its creation
/// timestamp (seconds).
pub struct Stored {
    pub text: String,
    pub extension: Option<String>,
    pub expires: Option<u32>,
    pub burn_after_reading: Option<bool>,
    pub created: u64,
}

/// The record written for an entry inserted at time `now`.
pub open spec fn spec_record(e: Entry, now: u64) -> Stored {
    Stored {
        text: e.text,
        extension: e.extension,
        expires: e.expires,
        burn_after_reading: e.burn_after_reading,
        created: now,
    }
}

/// Whether the record's expiry time exists and has passed at `now`.
/// An `expires` of zero (or none) means the record never expires.
pub open spec fn spec_expired(rec: Stored, now: u64) -> bool {
    &&& rec.expires matches Some(s)
    &&& rec.expires.unwrap() > 0
    &&& rec.created + rec.expires.unwrap() <= now
}

/// Whether the record is deleted after its first successful read.
pub open spec fn spec_burns(rec: Stored) -> bool {
    rec.burn_after_reading == Some(true)
}

/// Seconds elapsed since the record's creation, clipped to `u32` and
/// never negative.
pub open spec fn spec_secs_since(created: u64, now: u64) -> u32 {
    if now < created {
        0
    } else if now - created > u32::MAX {
        u32::MAX
    } else {
        (now - created) as u32
    }
}

/// The entry handed back for a record read at time `now`.
pub open spec fn spec_entry_of(rec: Stored, now: u64) -> Entry {
    Entry {
        text: rec.text,
        extension: rec.extension,
        expires: rec.expires,
        burn_after_reading: rec.burn_after_reading,
        seconds_since_creation: spec_secs_since(rec.created, now),
    }
}

/// The record set after a `get` of `id` at time `now`: an expired record
/// is removed, a burn-after-reading record is removed by its first
/// successful read, anything else is left in place.
pub open spec fn spec_get_state(m: Map<u64, Stored>, id: u64, now: u64) -> Map<u64, Stored> {
    if !m.contains_key(id) {
        m
    } else if spec_expired(m[id], now) {
        m.remove(id)
    } else if spec_burns(m[id]) {
        m.remove(id)
    } else {
        m
    }
}

/// The result of a `get` of `id` at time `now`: the entry when a live,
/// unexpired record exists, `NotFound` otherwise.
pub open spec fn spec_get_result(m: Map<u64, Stored>, id: u64, now: u64) -> Result<Entry, Error> {
    if !m.contains_key(id) {
        Err(Error::NotFound)
    } else if spec_expired(m[id], now) {
        Err(Error::NotFound)
    } else {
        Ok(spec_entry_of(m[id], now))
    }
}

/// The record set after a `delete` of `id`.
pub open spec fn spec_delete_state(m: Map<u64, Stored>, id: u64) -> Map<u64, Stored> {
    m.remove(id)
}

/// The result of a `delete` of `id`: `Ok` when a record was present,
/// `NotFound` otherwise.
pub open spec fn spec_delete_result(m: Map<u64, Stored>, id: u64) -> Result<(), Error> {
    if m.contains_key(id) {
        Ok(())
    } else {
        Err(Error::NotFound)
    }
}

fn clone_opt_string(o: &Option<String>) -> (r: Option<String>)
    ensures
        r == *o,
{
    match o {
        Some(s) => Some(s.clone()),
        None => None,
    }
}

/// The storage layer. It exclusively owns the durable record set; all
/// mutation, including lazy expiration-triggered and burn-triggered
/// deletes, goes through its operations.
pub struct Layer {
    records: HashMap<u64, Stored>,
}

impl View for Layer {
    type V = Map<u64, Stored>;

    closed spec fn view(&self) -> Map<u64, Stored> {
        self.records@
    }
}

impl Layer {
    /// Builds an empty layer.
    pub fn new() -> (l: Layer)
        ensures
            l@ == Map::<u64, Stored>::empty(),
    {
        Layer { records: HashMap::new() }
    }

    /// Persists a new entry under `id` together with the creation time
    /// `now`. Fails with `IdentifierCollision` when the identifier is
    /// already in use, with no side effect.
    pub fn insert(&mut self, id: Id, entry: Entry, now: u64) -> (r: Result<(), Error>)
        ensures
            old(self)@.contains_key(id.spec_value()) ==> r == Err::<(), Error>(
                Error::IdentifierCollision,
            ) && final(self)@ == old(self)@,
            !old(self)@.contains_key(id.spec_value()) ==> r == Ok::<(), Error>(())
                && final(self)@ == old(self)@.insert(id.spec_value(), spec_record(entry, now)),
    {
        let key = id.value();
        if self.records.contains_key(&key) {
            return Err(Error::IdentifierCollision);
        }
        let rec = Stored {
            text: entry.text,
            extension: entry.extension,
            expires: entry.expires,
            burn_after_reading: entry.burn_after_reading,
            created: now,
        };
        self.records.insert(key, rec);
        Ok(())
    }

    /// Inserts `entry` under a freshly generated identifier, retrying up
    /// to `attempts` times when the generated identifier collides with a
    /// record already present. Returns the identifier on success; fails
    /// with `IdentifierCollision`, leaving the record set untouched, when
    /// every attempt collided — so never with a positive `attempts` while
    /// no stored key lies inside the identifier pool (in particular, on
    /// an empty record set).
    pub fn insert_generated(&mut self, entry: Entry, now: u64, attempts: usize) -> (r: Result<
        Id,
        Error,
    >)
        ensures
            match r {
                Ok(id) => {
                    &&& id.wf()
                    &&& !old(self)@.contains_key(id.spec_value())
                    &&& final(self)@ == old(self)@.insert(id.spec_value(), spec_record(entry, now))
                },
                Err(e) => e == Error::IdentifierCollision && final(self)@ == old(self)@,
            },
            attempts == 0 ==> r is Err,
            attempts >= 1 && (forall|k: u64|
                #[trigger] old(self)@.contains_key(k) ==> k >= ID_POOL) ==> r is Ok,
    {
        let ghost m0 = self@;
        let mut found: Option<Id> = None;
        let mut i: usize = 0;
        while i < attempts && found.is_none()
            invariant
                self@ == m0,
                i <= attempts,
                found is Some ==> i >= 1,
                found matches Some(id) ==> id.wf() && !m0.contains_key(id.spec_value()),
                found is None && (forall|k: u64| #[trigger] m0.contains_key(k) ==> k >= ID_POOL)
                    ==> i == 0,
            decreases attempts - i,
        {
            let id = Id::generate();
            if !self.records.contains_key(&id.value()) {
                found = Some(id);
            }
            i = i + 1;
        }
        match found {
            Some(id) => match self.insert(id, entry, now) {
                Ok(()) => Ok(id),
                Err(e) => Err(e),
            },
            None => Err(Error::IdentifierCollision),
        }
    }

    /// Retrieves the entry under `id` at time `now`, computing its
    /// seconds since creation. A record whose expiry time has passed is
    /// removed and reported `NotFound`; a burn-after-reading record is
    /// removed as part of this same call, after the returned value has
    /// been captured, so the content is handed out exactly once.
    pub fn get(&mut self, id: Id, now: u64) -> (r: Result<Entry, Error>)
        ensures
            final(self)@ == spec_get_state(old(self)@, id.spec_value(), now),
            r == spec_get_result(old(self)@, id.spec_value(), now),
    {
        let key = id.value();
        let expired: bool;
        let burn: bool;
        let entry: Entry;
        match self.records.get(&key) {
            None => {
                return Err(Error::NotFound);
            },
            Some(rec) => {
                expired = match rec.expires {
                    Some(s) => s > 0 && now >= rec.created && now - rec.created >= s as u64,
                    None => false,
                };
                burn = match rec.burn_after_reading {
                    Some(b) => b,
                    None => false,
                };
                let secs64: u64 = if now >= rec.created {
                    now - rec.created
                } else {
                    0
                };
                let secs: u32 = if secs64 > u32::MAX as u64 {
                    u32::MAX
                } else {
                    secs64 as u32
                };
                entry = Entry {
                    text: rec.text.clone(),
                    extension: clone_opt_string(&rec.extension),
                    expires: rec.expires,
                    burn_after_reading: rec.burn_after_reading,
                    seconds_since_creation: secs,
                };
            },
        }
        if expired {
            self.records.remove(&key);
            return Err(Error::NotFound);
        }
        if burn {
            self.records.remove(&key);
        }
        Ok(entry)
    }

    /// Removes the record under `id` unconditionally if present; fails
    /// with `NotFound` if absent.
    pub fn delete(&mut self, id: Id) -> (r: Result<(), Error>)
        ensures
            final(self)@ == if old(self)@.contains_key(id.spec_value()) {
                spec_delete_state(old(self)@, id.spec_value())
            } else {
                old(self)@
            },
            r == spec_delete_result(old(self)@, id.spec_value()),
    {
        let key = id.value();
        match self.records.remove(&key) {
            Some(_) => Ok(()),
            None => Err(Error::NotFound),
        }
    }

    /// Deletes the entry under `id` as a creator-initiated request:
    /// reads the entry at `now`, refuses with `DeletionTimeExpired` when
    /// its seconds since creation exceed the grace window, and removes it
    /// otherwise. The read enforces expiry and burn-after-reading first,
    /// exactly as `get` does.
    pub fn request_delete(&mut self, id: Id, now: u64) -> (r: Result<(), Error>)
        ensures
            ({
                let m1 = spec_get_state(old(self)@, id.spec_value(), now);
                match spec_get_result(old(self)@, id.spec_value(), now) {
                    Err(e) => r == Err::<(), Error>(e) && final(self)@ == m1,
                    Ok(en) => if en.seconds_since_creation > DELETION_WINDOW {
                        r == Err::<(), Error>(Error::DeletionTimeExpired) && final(self)@ == m1
                    } else {
                        r == spec_delete_result(m1, id.spec_value())
                            && final(self)@ == if m1.contains_key(id.spec_value()) {
                            spec_delete_state(m1, id.spec_value())
                        } else {
                            m1
                        }
                    },
                }
            }),
    {
        let entry = match self.get(id, now) {
            Ok(e) => e,
            Err(e) => {
                return Err(e);
            },
        };
        if entry.seconds_since_creation > DELETION_WINDOW {
            return Err(Error::DeletionTimeExpired);
        }
        self.delete(id)
    }
}

/// Round trip: an entry inserted under a fresh identifier and read back
/// immediately is returned unchanged, with `seconds_since_creation`
/// equal to zero, and the record set is otherwise untouched.
pub proof fn lemma_insert_get_round_trip(m: Map<u64, Stored>, id: u64, e: Entry, now: u64)
    requires
        !m.contains_key(id),
    ensures
        ({
            let m1 = m.insert(id, spec_record(e, now));
            &&& spec_get_result(m1, id, now) == Ok::<Entry, Error>(
                Entry {
                    text: e.text,
                    extension: e.extension,
                    expires: e.expires,
                    burn_after_reading: e.burn_after_reading,
                    seconds_since_creation: 0,
                },
            )
            &&& (!spec_burns(spec_record(e, now)) ==> spec_get_state(m1, id, now) == m1)
        }),
{
}

/// Burn once: after a successful read of a burn-after-reading record,
/// any later read of the same identifier reports `NotFound`, whatever
/// time it runs at.
pub proof fn lemma_burn_once(m: Map<u64, Stored>, id: u64, now: u64, later: u64)
    requires
        m.contains_key(id),
        spec_burns(m[id]),
        spec_get_result(m, id, now) is Ok,
    ensures
        spec_get_result(spec_get_state(m, id, now), id, later) == Err::<Entry, Error>(
            Error::NotFound,
        ),
        spec_delete_result(spec_get_state(m, id, now), id) == Err::<(), Error>(Error::NotFound),
{
}

/// Expiry: an entry inserted with a positive `expires` of `s` seconds is
/// returned by a read strictly before `s` seconds have elapsed, and
/// reported `NotFound` by a read at or after that moment.
pub proof fn lemma_expiry(m: Map<u64, Stored>, id: u64, e: Entry, s: u32, now: u64, later: u64)
    requires
        !m.contains_key(id),
        e.expires == Some(s),
        s > 0,
    ensures
        ({
            let m1 = m.insert(id, spec_record(e, now));
            &&& (later >= now + s ==> spec_get_result(m1, id, later) == Err::<Entry, Error>(
                Error::NotFound,
            ) && spec_get_state(m1, id, later) == m)
            &&& (later < now + s ==> spec_get_result(m1, id, later) == Ok::<Entry, Error>(
                spec_entry_of(spec_record(e, now), later),
            ))
        }),
{
    let m1 = m.insert(id, spec_record(e, now));
    if later >= now + s {
        assert(m1.remove(id) =~= m);
    }
}

/// Idempotent delete: deleting a present record succeeds, and a second
/// delete of the same identifier reports `NotFound`, never another
/// error.
pub proof fn lemma_delete_idempotent(m: Map<u64, Stored>, id: u64)
    requires
        m.contains_key(id),
    ensures
        spec_delete_result(m, id) == Ok::<(), Error>(()),
        spec_delete_result(spec_delete_state(m, id), id) == Err::<(), Error>(Error::NotFound),
        spec_get_result(spec_delete_state(m, id), id, 0) == Err::<Entry, Error>(Error::NotFound),
{
}

/// Deletion window: a creator-initiated delete of a live record (one
/// that is neither expired nor burn-after-reading, which the policy read
/// would consume) is refused strictly after the grace window, leaving
/// the record in place, and removes the record within the window, after
/// which a read reports `NotFound`. The window boundary itself, exactly
/// `DELETION_WINDOW` seconds, still permits deletion.
pub proof fn lemma_deletion_window(m: Map<u64, Stored>, id: u64, now: u64)
    requires
        m.contains_key(id),
        !spec_expired(m[id], now),
        !spec_burns(m[id]),
    ensures
        ({
            let en = spec_entry_of(m[id], now);
            &&& spec_get_result(m, id, now) == Ok::<Entry, Error>(en)
            &&& (en.seconds_since_creation > DELETION_WINDOW <==> spec_secs_since(
                m[id].created,
                now,
            ) > DELETION_WINDOW)
            &&& (en.seconds_since_creation > DELETION_WINDOW ==> spec_get_state(m, id, now) == m)
            &&& (en.seconds_since_creation <= DELETION_WINDOW ==> {
                &&& spec_delete_result(spec_get_state(m, id, now), id) == Ok::<(), Error>(())
                &&& spec_get_result(
                    spec_delete_state(spec_get_state(m, id, now), id),
                    id,
                    now,
                ) == Err::<Entry, Error>(Error::NotFound)
            })
        }),
{
}

} // verus!
