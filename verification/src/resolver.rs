//! Sensor identity resolution: a hardware address is mapped to a stable
//! sensor id, creating the identity lazily and exactly once.
use vstd::prelude::*;

use crate::model::{addr_known, resolve_model, STORE_CAP};
use crate::store::{StorageError, Store};
use crate::time::ts_in_window;

verus! {

/// Returns the existing sensor id for the address, or registers the address
/// with `first_seen = observed_at` and returns the new id.  The only failure
/// is an I/O failure from the storage layer (here: the sensor table at
/// capacity); it propagates unchanged.
pub fn resolve(store: &mut Store, mac_address: &str, observed_at: i64) -> (r: Result<
    usize,
    StorageError,
>)
    requires
        old(store).wf(),
        ts_in_window(observed_at),
    ensures
        final(store).wf(),
        match r {
            Ok(id) => final(store)@ == resolve_model(old(store)@, mac_address@, observed_at).0
                && id == resolve_model(old(store)@, mac_address@, observed_at).1,
            Err(e) => *final(store) == *old(store) && e == StorageError::Io && !addr_known(
                old(store)@,
                mac_address@,
            ) && old(store)@.sensors.len() >= STORE_CAP,
        },
{
    match store.find_sensor_id(mac_address) {
        Some(id) => Ok(id),
        None => match store.insert_sensor(mac_address, observed_at) {
            Ok(id) => Ok(id),
            Err(e) => Err(e),
        },
    }
}

/// What the resolver decides to do next while driving a storage engine that
/// is reached over I/O, after the step whose outcome it is handed.
#[derive(Clone, Copy, Debug, PartialEq, Eq, Structural)]
pub enum ResolveDecision {
    /// The address is resolved to this id.
    Done(usize),
    /// The address is absent: attempt to create the identity.
    TryCreate,
    /// A concurrent caller won the creation race: look the address up once
    /// more; its row is now visible.
    RetryLookup,
    /// Give up with this storage failure.
    Fail(StorageError),
}

/// Decision after the initial lookup: a hit resolves immediately, a miss
/// moves on to creation, and any storage failure propagates unchanged.
pub fn decide_after_lookup(r: Result<Option<usize>, StorageError>) -> (d: ResolveDecision)
    ensures
        match r {
            Ok(found) => match found {
                Some(id) => d == ResolveDecision::Done(id),
                None => d == ResolveDecision::TryCreate,
            },
            Err(e) => d == ResolveDecision::Fail(e),
        },
{
    match r {
        Ok(Some(id)) => ResolveDecision::Done(id),
        Ok(None) => ResolveDecision::TryCreate,
        Err(e) => ResolveDecision::Fail(e),
    }
}

/// Decision after attempting creation: exactly one class of failure is
/// recovered locally — a unique constraint violation, raised when a
/// concurrent caller created the same address first — by retrying the lookup
/// once.  Every other failure propagates unchanged.
pub fn decide_after_create(r: Result<usize, StorageError>) -> (d: ResolveDecision)
    ensures
        match r {
            Ok(id) => d == ResolveDecision::Done(id),
            Err(e) => if e == StorageError::UniqueViolation {
                d == ResolveDecision::RetryLookup
            } else {
                d == ResolveDecision::Fail(e)
            },
        },
{
    match r {
        Ok(id) => ResolveDecision::Done(id),
        Err(StorageError::UniqueViolation) => ResolveDecision::RetryLookup,
        Err(e) => ResolveDecision::Fail(e),
    }
}

/// Decision after the single post-race lookup: the winner's row resolves the
/// address; an address still absent is reported as the original constraint
/// violation; a storage failure propagates unchanged.  No further retry is
/// attempted.
pub fn decide_after_retry(r: Result<Option<usize>, StorageError>) -> (d: ResolveDecision)
    ensures
        match r {
            Ok(found) => match found {
                Some(id) => d == ResolveDecision::Done(id),
                None => d == ResolveDecision::Fail(StorageError::UniqueViolation),
            },
            Err(e) => d == ResolveDecision::Fail(e),
        },
{
    match r {
        Ok(Some(id)) => ResolveDecision::Done(id),
        Ok(None) => ResolveDecision::Fail(StorageError::UniqueViolation),
        Err(e) => ResolveDecision::Fail(e),
    }
}

} // verus!
