//! Laws of the store, stated and proved over the model.
use vstd::prelude::*;

use crate::model::{
    addr_ix, addr_known, in_range, later, new_sensor, range_result_ok, resolve_model, store_wf,
    StoreModel, STORE_CAP,
};
use crate::store::Reading;
use crate::time::ts_in_window;

verus! {

/// Identity resolution preserves the store's well-formedness.
pub proof fn lemma_resolve_preserves_wf(m: StoreModel, mac: Seq<char>, observed_at: i64)
    requires
        store_wf(m),
        ts_in_window(observed_at),
        m.sensors.len() < STORE_CAP,
    ensures
        store_wf(resolve_model(m, mac, observed_at).0),
{
    if !addr_known(m, mac) {
        let m1 = resolve_model(m, mac, observed_at).0;
        let n = m.sensors.len() as int;
        assert(m1.sensors[n] == new_sensor(m, mac, observed_at));
        assert forall|i: int| 0 <= i < m1.sensors.len() implies (#[trigger] m1.sensors[i]).id == i
            + 1 by {
            if i < n {
                assert(m1.sensors[i] == m.sensors[i]);
            }
        }
        assert forall|i: int| 0 <= i < m1.sensors.len() implies ts_in_window(
            (#[trigger] m1.sensors[i]).first_seen,
        ) by {
            if i < n {
                assert(m1.sensors[i] == m.sensors[i]);
            }
        }
        assert forall|i: int, j: int| 0 <= i < j < m1.sensors.len() implies m1.sensors[i]
            .mac_address != m1.sensors[j].mac_address by {
            if j < n {
                assert(m1.sensors[i] == m.sensors[i] && m1.sensors[j] == m.sensors[j]);
            } else {
                assert(m1.sensors[i] == m.sensors[i]);
                assert(m.sensors[i].mac_address != mac);
            }
        }
    }
}

/// Resolving an address twice returns the same sensor id both times, the
/// second resolution changes nothing, and for a previously-unseen address
/// the persisted `first_seen` is the time of the first resolution — never
/// the second.
pub proof fn lemma_resolve_idempotent(m: StoreModel, mac: Seq<char>, t1: i64, t2: i64)
    requires
        store_wf(m),
        ts_in_window(t1),
        ts_in_window(t2),
        m.sensors.len() < STORE_CAP,
    ensures
        resolve_model(resolve_model(m, mac, t1).0, mac, t2).0 == resolve_model(m, mac, t1).0,
        resolve_model(resolve_model(m, mac, t1).0, mac, t2).1 == resolve_model(m, mac, t1).1,
        addr_known(resolve_model(m, mac, t1).0, mac),
        !addr_known(m, mac) ==> {
            let m1 = resolve_model(m, mac, t1).0;
            m1.sensors[addr_ix(m1, mac)].first_seen == t1
        },
{
    lemma_resolve_preserves_wf(m, mac, t1);
    let m1 = resolve_model(m, mac, t1).0;
    let id1 = resolve_model(m, mac, t1).1;
    if addr_known(m, mac) {
        assert(m1 == m);
    } else {
        let n = m.sensors.len() as int;
        assert(m1.sensors[n] == new_sensor(m, mac, t1));
        assert(addr_known(m1, mac));
        let j = addr_ix(m1, mac);
        assert(0 <= j < m1.sensors.len() && m1.sensors[j].mac_address == mac);
        assert(j == n) by {
            if j < n {
                assert(m1.sensors[j] == m.sensors[j]);
                assert(m.sensors[j].mac_address != mac);
            }
        }
        assert(m1.sensors[j].id == id1);
        assert(m1.sensors[j].first_seen == t1);
    }
}

/// However many times an address is resolved, exactly one sensor row carries
/// it: after a resolution the address is known, no two rows share it, and a
/// resolution of an already-known address changes nothing.
pub proof fn lemma_resolve_exactly_one(m: StoreModel, mac: Seq<char>, observed_at: i64)
    requires
        store_wf(m),
        ts_in_window(observed_at),
        m.sensors.len() < STORE_CAP,
    ensures
        addr_known(resolve_model(m, mac, observed_at).0, mac),
        forall|i: int, j: int|
            0 <= i < resolve_model(m, mac, observed_at).0.sensors.len() && 0 <= j
                < resolve_model(m, mac, observed_at).0.sensors.len() && (#[trigger] resolve_model(
                m,
                mac,
                observed_at,
            ).0.sensors[i]).mac_address == mac && (#[trigger] resolve_model(
                m,
                mac,
                observed_at,
            ).0.sensors[j]).mac_address == mac ==> i == j,
        addr_known(m, mac) ==> resolve_model(m, mac, observed_at).0 == m,
{
    lemma_resolve_preserves_wf(m, mac, observed_at);
    let m1 = resolve_model(m, mac, observed_at).0;
    if !addr_known(m, mac) {
        assert(m1.sensors[m.sensors.len() as int] == new_sensor(m, mac, observed_at));
        assert(addr_known(m1, mac));
    }
    assert forall|i: int, j: int|
        0 <= i < m1.sensors.len() && 0 <= j < m1.sensors.len() && (#[trigger] m1.sensors[i]).mac_address
            == mac && (#[trigger] m1.sensors[j]).mac_address == mac implies i == j by {
        if i < j {
            assert(m1.sensors[i].mac_address != m1.sensors[j].mac_address);
        }
        if j < i {
            assert(m1.sensors[j].mac_address != m1.sensors[i].mac_address);
        }
    }
}

/// The store after resolving one address at each time of `ts`, in order.
pub open spec fn resolve_many(m: StoreModel, mac: Seq<char>, ts: Seq<i64>) -> StoreModel
    decreases ts.len(),
{
    if ts.len() == 0 {
        m
    } else {
        resolve_many(resolve_model(m, mac, ts[0]).0, mac, ts.skip(1))
    }
}

/// Resolving a known address any number of times changes nothing.
pub proof fn lemma_resolve_many_stable(m: StoreModel, mac: Seq<char>, ts: Seq<i64>)
    requires
        addr_known(m, mac),
    ensures
        resolve_many(m, mac, ts) == m,
    decreases ts.len(),
{
    if ts.len() > 0 {
        assert(resolve_model(m, mac, ts[0]).0 == m);
        lemma_resolve_many_stable(m, mac, ts.skip(1));
    }
}

/// However many times an address is resolved — one call per caller, in any
/// order of their observation times — the store is the one the first call
/// left, and every later call returns the id the first call returned.
pub proof fn lemma_resolve_many_one_identity(m: StoreModel, mac: Seq<char>, ts: Seq<i64>)
    requires
        store_wf(m),
        ts.len() >= 1,
        forall|k: int| 0 <= k < ts.len() ==> ts_in_window(ts[k]),
        m.sensors.len() < STORE_CAP,
    ensures
        resolve_many(m, mac, ts) == resolve_model(m, mac, ts[0]).0,
        forall|k: int|
            1 <= k < ts.len() ==> resolve_model(resolve_model(m, mac, ts[0]).0, mac, ts[k]).1
                == resolve_model(m, mac, ts[0]).1,
{
    let m1 = resolve_model(m, mac, ts[0]).0;
    lemma_resolve_idempotent(m, mac, ts[0], ts[0]);
    lemma_resolve_many_stable(m1, mac, ts.skip(1));
    assert forall|k: int| 1 <= k < ts.len() implies resolve_model(m1, mac, ts[k]).1
        == resolve_model(m, mac, ts[0]).1 by {
        lemma_resolve_idempotent(m, mac, ts[0], ts[k]);
    }
}

/// Two sequences in strictly descending-free order — strictly ascending by
/// `(reading_time, id)` — holding the same readings are the same sequence.
pub proof fn lemma_strict_sorted_unique(r1: Seq<Reading>, r2: Seq<Reading>)
    requires
        forall|i: int, j: int| 0 <= i < j < r1.len() ==> later(r1[j], r1[i]),
        forall|i: int, j: int| 0 <= i < j < r2.len() ==> later(r2[j], r2[i]),
        forall|x: Reading| r1.contains(x) <==> r2.contains(x),
    ensures
        r1 == r2,
    decreases r1.len(),
{
    if r1.len() == 0 {
        if r2.len() > 0 {
            assert(r2.contains(r2[0]));
            assert(r1.contains(r2[0]));
        }
        assert(r1 =~= r2);
    } else {
        assert(r1.contains(r1[0]));
        assert(r2.contains(r1[0]));
        let j = choose|k: int| 0 <= k < r2.len() && r2[k] == r1[0];
        assert(r2.contains(r2[0]));
        assert(r1.contains(r2[0]));
        let i = choose|k: int| 0 <= k < r1.len() && r1[k] == r2[0];
        if i > 0 && j > 0 {
            assert(later(r1[i], r1[0]));
            assert(later(r2[j], r2[0]));
            assert(false);
        }
        assert(r1[0] == r2[0]);
        let t1 = r1.skip(1);
        let t2 = r2.skip(1);
        assert forall|a: int, b: int| 0 <= a < b < t1.len() implies later(t1[b], t1[a]) by {
            assert(t1[a] == r1[a + 1] && t1[b] == r1[b + 1]);
        }
        assert forall|a: int, b: int| 0 <= a < b < t2.len() implies later(t2[b], t2[a]) by {
            assert(t2[a] == r2[a + 1] && t2[b] == r2[b + 1]);
        }
        assert forall|x: Reading| t1.contains(x) implies t2.contains(x) by {
            let k = choose|k: int| 0 <= k < t1.len() && t1[k] == x;
            assert(r1[k + 1] == x);
            assert(r1.contains(x));
            assert(r2.contains(x));
            let k2 = choose|k2: int| 0 <= k2 < r2.len() && r2[k2] == x;
            if k2 == 0 {
                assert(later(r1[k + 1], r1[0]));
                assert(false);
            }
            assert(t2[k2 - 1] == x);
            assert(t2.contains(x));
        }
        assert forall|x: Reading| t2.contains(x) implies t1.contains(x) by {
            let k = choose|k: int| 0 <= k < t2.len() && t2[k] == x;
            assert(r2[k + 1] == x);
            assert(r2.contains(x));
            assert(r1.contains(x));
            let k2 = choose|k2: int| 0 <= k2 < r1.len() && r1[k2] == x;
            if k2 == 0 {
                assert(later(r2[k + 1], r2[0]));
                assert(false);
            }
            assert(t1[k2 - 1] == x);
            assert(t1.contains(x));
        }
        lemma_strict_sorted_unique(t1, t2);
        assert(r1 =~= r2) by {
            assert(t1 == t2);
            assert(r1.len() == r2.len());
            assert forall|a: int| 0 <= a < r1.len() implies r1[a] == r2[a] by {
                if a > 0 {
                    assert(r1[a] == t1[a - 1]);
                    assert(r2[a] == t2[a - 1]);
                }
            }
        }
    }
}

/// The result of a range query is determined by which readings the store
/// holds, never by the order in which they were inserted or scanned: two
/// stores holding the same readings answer the same closed interval for the
/// same sensor with the same sequence, ordered by capture time ascending.
pub proof fn lemma_range_result_determined(
    m1: StoreModel,
    m2: StoreModel,
    sensor_id: usize,
    from: int,
    to: int,
    r1: Seq<Reading>,
    r2: Seq<Reading>,
)
    requires
        forall|x: Reading| m1.readings.contains(x) <==> m2.readings.contains(x),
        range_result_ok(m1, sensor_id, from, to, r1),
        range_result_ok(m2, sensor_id, from, to, r2),
    ensures
        r1 == r2,
{
    assert forall|x: Reading| r1.contains(x) implies r2.contains(x) by {
        let k = choose|k: int| 0 <= k < r1.len() && r1[k] == x;
        assert(m1.readings.contains(x) && in_range(x, sensor_id, from, to));
        assert(m2.readings.contains(x));
        let k2 = choose|k2: int| 0 <= k2 < m2.readings.len() && m2.readings[k2] == x;
        assert(in_range(m2.readings[k2], sensor_id, from, to));
        assert(r2.contains(m2.readings[k2]));
    }
    assert forall|x: Reading| r2.contains(x) implies r1.contains(x) by {
        let k = choose|k: int| 0 <= k < r2.len() && r2[k] == x;
        assert(m2.readings.contains(x) && in_range(x, sensor_id, from, to));
        assert(m1.readings.contains(x));
        let k2 = choose|k2: int| 0 <= k2 < m1.readings.len() && m1.readings[k2] == x;
        assert(in_range(m1.readings[k2], sensor_id, from, to));
        assert(r1.contains(m1.readings[k2]));
    }
    lemma_strict_sorted_unique(r1, r2);
}

} // verus!
