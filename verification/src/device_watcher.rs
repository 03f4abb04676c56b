//! Audio input device watching. A background poller (run by the application
//! layer) lists the input devices every second and reports a change
//! whenever the device set or the system default changes; this module holds
//! the comparison signature and the stop flag.

use vstd::prelude::*;
use vstd::relations::{sorted_by, total_ordering};
use std::sync::Arc;
use std::sync::atomic::{AtomicBool, Ordering};
use crate::platform::types::AudioInputDevice;

verus! {

broadcast use vstd::seq_lib::group_to_multiset_ensures;

/// Interval between two polls.
pub const POLL_INTERVAL_MS: u64 = 1000;

/// Numeric order on device ids.
pub open spec fn id_leq() -> spec_fn(u32, u32) -> bool {
    |a: u32, b: u32| a <= b
}

/// The ids of the devices, in list order.
pub open spec fn device_ids(d: Seq<AudioInputDevice>) -> Seq<u32> {
    d.map_values(|x: AudioInputDevice| x.id)
}

/// The id of the first device marked default, if any.
pub open spec fn first_default(d: Seq<AudioInputDevice>) -> Option<u32>
    decreases d.len(),
{
    if d.len() == 0 {
        None
    } else if d[0].is_default {
        Some(d[0].id)
    } else {
        first_default(d.skip(1))
    }
}

/// The signature of a device list: its ids in ascending order and the
/// default device's id.
pub open spec fn signature(d: Seq<AudioInputDevice>) -> (Seq<u32>, Option<u32>) {
    (device_ids(d).sort_by(id_leq()), first_default(d))
}

proof fn lemma_id_leq_total()
    ensures
        total_ordering(id_leq()),
{
}

/// Inserts `x` into the sorted `v`, keeping it sorted.
fn insert_sorted(v: &mut Vec<u32>, x: u32)
    requires
        sorted_by(old(v)@, id_leq()),
    ensures
        sorted_by(final(v)@, id_leq()),
        final(v)@.to_multiset() == old(v)@.to_multiset().insert(x),
{
    let mut p: usize = 0;
    while p < v.len() && v[p] <= x
        invariant
            p <= v.len(),
            forall|k: int| 0 <= k < p ==> v@[k] <= x,
        decreases v.len() - p,
    {
        p += 1;
    }
    let ghost before = v@;
    v.insert(p, x);
    proof {
        assert(v@ == before.insert(p as int, x));
        assert forall|i: int, j: int| 0 <= i < j < v@.len() implies #[trigger] id_leq()(v@[i], v@[j]) by {
            if j < p {
                assert(v@[i] == before[i] && v@[j] == before[j]);
                assert(id_leq()(before[i], before[j]));
            } else if j == p {
                assert(v@[i] == before[i]);
            } else if i < p {
                assert(v@[i] == before[i] && v@[j] == before[j - 1]);
                assert(id_leq()(before[i], before[j - 1]));
            } else if i == p {
                assert(v@[j] == before[j - 1]);
                assert(before[p as int] > x);
                if j - 1 > p {
                    assert(id_leq()(before[p as int], before[j - 1]));
                }
            } else {
                assert(v@[i] == before[i - 1] && v@[j] == before[j - 1]);
                assert(id_leq()(before[i - 1], before[j - 1]));
            }
        }
    }
}

/// Compact signature of a device list — equal iff the device set and the
/// system-default device are both unchanged. Order-independent.
pub fn snapshot(devices: &[AudioInputDevice]) -> (r: (Vec<u32>, Option<u32>))
    ensures
        (r.0@, r.1) == signature(devices@),
{
    let ghost ids = device_ids(devices@);
    let mut sorted: Vec<u32> = Vec::new();
    let mut i: usize = 0;
    while i < devices.len()
        invariant
            i <= devices.len(),
            ids == device_ids(devices@),
            sorted_by(sorted@, id_leq()),
            sorted@.to_multiset() == ids.take(i as int).to_multiset(),
        decreases devices.len() - i,
    {
        insert_sorted(&mut sorted, devices[i].id);
        proof {
            assert(ids.take(i + 1) == ids.take(i as int).push(ids[i as int]));
        }
        i += 1;
    }
    proof {
        assert(ids.take(devices.len() as int) == ids);
        lemma_id_leq_total();
        ids.lemma_sort_by_ensures(id_leq());
        vstd::seq_lib::lemma_sorted_unique(sorted@, ids.sort_by(id_leq()), id_leq());
    }
    let mut default_id: Option<u32> = None;
    let mut j: usize = 0;
    assert(devices@.skip(0) == devices@);
    while j < devices.len() && default_id.is_none()
        invariant
            j <= devices.len(),
            default_id is None ==> first_default(devices@) == first_default(devices@.skip(j as int)),
            default_id is Some ==> default_id == first_default(devices@),
        decreases devices.len() - j + (if default_id is None { 1int } else { 0int }),
    {
        assert(devices@.skip(j as int)[0] == devices@[j as int]);
        if devices[j].is_default {
            default_id = Some(devices[j].id);
        } else {
            assert(devices@.skip(j as int).skip(1) == devices@.skip(j + 1));
            j += 1;
        }
    }
    (sorted, default_id)
}

/// Two device lists have the same signature exactly when they hold the
/// same ids (with multiplicity, in any order) and the same first default
/// device.
pub proof fn law_signature_ignores_order(a: Seq<AudioInputDevice>, b: Seq<AudioInputDevice>)
    ensures
        signature(a) == signature(b) <==> (device_ids(a).to_multiset() == device_ids(b).to_multiset()
            && first_default(a) == first_default(b)),
{
    lemma_id_leq_total();
    device_ids(a).lemma_sort_by_ensures(id_leq());
    device_ids(b).lemma_sort_by_ensures(id_leq());
    if device_ids(a).to_multiset() == device_ids(b).to_multiset() {
        vstd::seq_lib::lemma_sorted_unique(
            device_ids(a).sort_by(id_leq()),
            device_ids(b).sort_by(id_leq()),
            id_leq(),
        );
    }
}

/// At most one device of the list is marked default.
pub open spec fn at_most_one_default(d: Seq<AudioInputDevice>) -> bool {
    forall|i: int, j: int| 0 <= i < j < d.len() && #[trigger] d[i].is_default ==> !#[trigger] d[j].is_default
}

proof fn lemma_first_default(d: Seq<AudioInputDevice>)
    ensures
        first_default(d) matches Some(id) ==> exists|k: int| 0 <= k < d.len() && #[trigger] d[k].is_default && d[k].id == id,
        first_default(d) is None ==> forall|k: int| 0 <= k < d.len() ==> !(#[trigger] d[k].is_default),
    decreases d.len(),
{
    if d.len() > 0 {
        if d[0].is_default {
            assert(d[0].is_default && d[0].id == d[0].id);
        } else {
            let t = d.skip(1);
            lemma_first_default(t);
            if let Some(id) = first_default(t) {
                let k = choose|k: int| 0 <= k < t.len() && #[trigger] t[k].is_default && t[k].id == id;
                assert(d[k + 1] == t[k]);
            } else {
                assert forall|k: int| 0 <= k < d.len() implies !(#[trigger] d[k].is_default) by {
                    if k > 0 {
                        assert(d[k] == t[k - 1]);
                    }
                }
            }
        }
    }
}

proof fn lemma_reordered_ids(a: Seq<AudioInputDevice>, b: Seq<AudioInputDevice>)
    requires
        a.to_multiset() == b.to_multiset(),
    ensures
        device_ids(a).to_multiset() == device_ids(b).to_multiset(),
    decreases a.len(),
{
    if a.len() == 0 {
        vstd::seq_lib::to_multiset_len(a);
        vstd::seq_lib::to_multiset_len(b);
        assert(b.len() == 0);
        assert(device_ids(a) =~= device_ids(b));
    } else {
        let x = a.last();
        let a1 = a.drop_last();
        assert(a =~= a1.push(x));
        assert(a.to_multiset().contains(x));
        assert(b.contains(x));
        let k = choose|k: int| 0 <= k < b.len() && b[k] == x;
        let b1 = b.remove(k);
        assert(b1.to_multiset() == b.to_multiset().remove(x));
        assert(a1.to_multiset() =~= b1.to_multiset());
        lemma_reordered_ids(a1, b1);
        assert(device_ids(a) =~= device_ids(a1).push(x.id));
        assert(device_ids(b1) =~= device_ids(b).remove(k));
        assert(device_ids(b)[k] == x.id);
        assert(device_ids(b1).to_multiset() == device_ids(b).to_multiset().remove(x.id));
        assert(device_ids(b).to_multiset().contains(x.id));
        assert(device_ids(a).to_multiset() =~= device_ids(b).to_multiset());
    }
}

/// In a list with at most one default device, the signature's default is
/// that device's id, or nothing when no device is marked default; with
/// `law_signature_ignores_order`, two such lists have equal snapshots
/// exactly when they hold the same ids and the same default.
pub proof fn law_snapshot_default_is_the_default(d: Seq<AudioInputDevice>)
    requires
        at_most_one_default(d),
    ensures
        forall|k: int| 0 <= k < d.len() && #[trigger] d[k].is_default ==> signature(d).1 == Some(d[k].id),
        (forall|k: int| 0 <= k < d.len() ==> !(#[trigger] d[k].is_default)) ==> signature(d).1 is None,
{
    lemma_first_default(d);
    assert forall|k: int| 0 <= k < d.len() && #[trigger] d[k].is_default implies signature(d).1 == Some(d[k].id) by {
        if let Some(id) = first_default(d) {
            let i = choose|i: int| 0 <= i < d.len() && #[trigger] d[i].is_default && d[i].id == id;
            if i < k {
                assert(!d[k].is_default);
            } else if k < i {
                assert(!d[i].is_default);
            }
        }
    }
}

/// The device snapshot does not depend on the order in which the devices
/// are listed: a reordering of a list with at most one default device has
/// the same signature (the same ids and the same default).
pub proof fn law_snapshot_ignores_reordering(a: Seq<AudioInputDevice>, b: Seq<AudioInputDevice>)
    requires
        a.to_multiset() == b.to_multiset(),
        at_most_one_default(a),
    ensures
        signature(a) == signature(b),
{
    lemma_reordered_ids(a, b);
    law_signature_ignores_order(a, b);
    lemma_first_default(a);
    lemma_first_default(b);
    if let Some(id) = first_default(b) {
        let k = choose|k: int| 0 <= k < b.len() && #[trigger] b[k].is_default && b[k].id == id;
        assert(b.to_multiset().contains(b[k]));
        assert(a.contains(b[k]));
        let j = choose|j: int| 0 <= j < a.len() && a[j] == b[k];
        assert(a[j].is_default);
        if let Some(ida) = first_default(a) {
            let i = choose|i: int| 0 <= i < a.len() && #[trigger] a[i].is_default && a[i].id == ida;
            if i < j {
                assert(!a[j].is_default);
            } else if j < i {
                assert(!a[i].is_default);
            }
        }
    } else {
        if let Some(ida) = first_default(a) {
            let i = choose|i: int| 0 <= i < a.len() && #[trigger] a[i].is_default && a[i].id == ida;
            assert(a.to_multiset().contains(a[i]));
            assert(b.contains(a[i]));
            let k = choose|k: int| 0 <= k < b.len() && b[k] == a[i];
            assert(b[k].is_default);
        }
    }
}

/// Returned when the watcher starts. Call [`WatcherHandle::stop`] (or drop
/// it) to shut the poller down.
pub struct WatcherHandle {
    stop: Arc<AtomicBool>,
}

impl WatcherHandle {
    /// A handle sharing `stop` with the polling thread.
    pub fn new(stop: Arc<AtomicBool>) -> (h: Self)
        ensures
            h.flag() == stop,
    {
        WatcherHandle { stop }
    }

    /// The shared stop flag.
    pub closed spec fn flag(&self) -> Arc<AtomicBool> {
        self.stop
    }

    /// Raises the stop flag; the poller exits before its next poll.
    pub fn stop(&self) {
        self.stop.store(true, Ordering::SeqCst);
    }
}

} // verus!
