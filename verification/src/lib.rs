//! An append-only time series of environmental readings from networked
//! sensors, keyed by a stable per-device identity.
//!
//! The store maps each volatile hardware address to one sensor row, created
//! lazily on first contact and never duplicated; appends immutable readings;
//! and answers the latest-per-sensor snapshot, closed-interval range
//! queries ordered by capture time, and a per-day detail view.  Every
//! operation carries a contract over the model in `model`, and the laws the
//! store obeys — identity resolution is idempotent and race-free, range
//! results are determined by contents rather than insertion order — are
//! stated and proved in `laws`.  Only reading the wall clock and resolving
//! the local time zone are taken on trust, in `clock`.
mod clock;
mod date;
mod ingest;
mod laws;
mod model;
mod order;
mod query;
mod resolver;
mod store;
mod time;

pub use clock::{current_millis, floor_millis, millis_of, CLOCK_MS_MAX, CLOCK_MS_MIN};
pub use date::{
    days_in_month, days_in_month_of, is_leap_year, next_date, next_date_of, prev_date,
    prev_date_of, valid_date, CivilDate,
};
pub use ingest::{ingest, ingest_now, IngestionError};
pub use laws::{
    lemma_range_result_determined, lemma_resolve_exactly_one, lemma_resolve_idempotent,
    lemma_resolve_many_one_identity, lemma_resolve_many_stable, lemma_resolve_preserves_wf,
    lemma_strict_sorted_unique, resolve_many,
};
pub use model::{
    addr_ix, addr_known, has_reading, id_of_addr, in_range, ingest_model, is_latest_for, later,
    latest_of, new_sensor, range_result_ok, resolve_model, store_wf, SensorModel, StoreModel,
    STORE_CAP,
};
pub use query::{detail, history, lemma_latest_unique, snapshot, DetailView, QueryError};
pub use order::lex_le;
pub use resolver::{
    decide_after_create, decide_after_lookup, decide_after_retry, resolve, ResolveDecision,
};
pub use store::{
    entry_ok, snapshot_ok, Reading, Sensor, SensorValue, SensorWithValue, StorageError, Store,
};
pub use time::{ts_in_window, DAY_MS, TS_MAX, TS_MIN};
