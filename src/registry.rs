//! The table of known devices, and what one poll of one device records.

use vstd::prelude::*;
use crate::text::same_text;
use crate::metrics::{Metrics, MetricName, Value, up_labels};
use crate::shelly::{FetchError, ShellyGeneration, ShellyStatus, generation_label, generation_text};

verus! {

/// A device that was detected and set up.
#[derive(Debug)]
pub struct DeviceHandle {
    /// Base URL; identifies the device.
    pub host: String,
    pub name: String,
    pub model: String,
    pub generation: ShellyGeneration,
}

impl DeviceHandle {
    pub fn duplicate(&self) -> (r: DeviceHandle)
        ensures
            r == *self,
    {
        DeviceHandle {
            host: self.host.clone(),
            name: self.name.clone(),
            model: self.model.clone(),
            generation: self.generation,
        }
    }
}

/// Whether some handle of `e` has host `h`.
pub open spec fn has_host(e: Seq<DeviceHandle>, h: Seq<char>) -> bool {
    exists|i: int| 0 <= i < e.len() && #[trigger] e[i].host@ == h
}

/// No two handles of `e` share a host.
pub open spec fn hosts_unique(e: Seq<DeviceHandle>) -> bool {
    forall|i: int, j: int|
        0 <= i < e.len() && 0 <= j < e.len() && i != j ==> #[trigger] e[i].host@ != #[trigger] e[j].host@
}

/// `e` after inserting `d` unless its host is already present.
pub open spec fn inserted(e: Seq<DeviceHandle>, d: DeviceHandle) -> Seq<DeviceHandle> {
    if has_host(e, d.host@) {
        e
    } else {
        e.push(d)
    }
}

/// Known devices in insertion order, at most one per host.
pub struct DeviceRegistry {
    devices: Vec<DeviceHandle>,
}

impl DeviceRegistry {
    pub closed spec fn entries(&self) -> Seq<DeviceHandle> {
        self.devices@
    }

    pub open spec fn wf(&self) -> bool {
        hosts_unique(self.entries())
    }

    pub fn new() -> (r: DeviceRegistry)
        ensures
            r.entries() == Seq::<DeviceHandle>::empty(),
            r.wf(),
    {
        DeviceRegistry { devices: Vec::new() }
    }

    pub fn len(&self) -> (r: usize)
        ensures
            r == self.entries().len(),
    {
        self.devices.len()
    }

    /// Whether a device with this host is known.
    pub fn contains(&self, host: &str) -> (r: bool)
        ensures
            r == has_host(self.entries(), host@),
    {
        let n = self.devices.len();
        let mut i: usize = 0;
        while i < n
            invariant
                n == self.devices@.len(),
                i <= n,
                forall|k: int| 0 <= k < i ==> #[trigger] self.devices@[k].host@ != host@,
            decreases n - i,
        {
            if same_text(self.devices[i].host.as_str(), host) {
                return true;
            }
            i = i + 1;
        }
        false
    }

    /// Adds `device` unless a device with the same host is already known; returns whether
    /// it was added.
    pub fn insert_if_absent(&mut self, device: DeviceHandle) -> (added: bool)
        requires
            old(self).wf(),
        ensures
            final(self).wf(),
            final(self).entries() == inserted(old(self).entries(), device),
            added == !has_host(old(self).entries(), device.host@),
    {
        if self.contains(device.host.as_str()) {
            false
        } else {
            self.devices.push(device);
            proof {
                let e = self.devices@;
                assert forall|i: int, j: int|
                    0 <= i < e.len() && 0 <= j < e.len() && i != j implies #[trigger] e[i].host@
                    != #[trigger] e[j].host@ by {
                    if i < e.len() - 1 && j < e.len() - 1 {
                        assert(old(self).devices@[i] == e[i] && old(self).devices@[j] == e[j]);
                    } else if i < e.len() - 1 {
                        assert(old(self).devices@[i] == e[i]);
                    } else {
                        assert(old(self).devices@[j] == e[j]);
                    }
                }
            }
            true
        }
    }

    /// The discovered hosts that are not known yet, in the order found; each is kept once.
    pub fn unknown_hosts(&self, candidates: &Vec<String>) -> (r: Vec<String>)
        ensures
            forall|j: int| 0 <= j < r@.len() ==> !has_host(self.entries(), #[trigger] r@[j]@),
            forall|j: int| 0 <= j < r@.len() ==> in_texts(candidates@, #[trigger] r@[j]@),
            forall|i: int|
                0 <= i < candidates@.len() && !has_host(self.entries(), #[trigger] candidates@[i]@)
                    ==> in_texts(r@, candidates@[i]@),
            forall|a: int, b: int| 0 <= a < b < r@.len() ==> #[trigger] r@[a]@ != #[trigger] r@[b]@,
            exists|idx: Seq<int>| positions_in(candidates@, r@, idx),
    {
        let n = candidates.len();
        let mut r: Vec<String> = Vec::new();
        let mut i: usize = 0;
        let ghost mut idx: Seq<int> = Seq::empty();
        while i < n
            invariant
                n == candidates@.len(),
                i <= n,
                forall|j: int| 0 <= j < r@.len() ==> !has_host(self.entries(), #[trigger] r@[j]@),
                forall|j: int| 0 <= j < r@.len() ==> in_texts(candidates@, #[trigger] r@[j]@),
                forall|k: int|
                    0 <= k < i && !has_host(self.entries(), #[trigger] candidates@[k]@)
                        ==> in_texts(r@, candidates@[k]@),
                forall|a: int, b: int| 0 <= a < b < r@.len() ==> #[trigger] r@[a]@ != #[trigger] r@[b]@,
                positions_in(candidates@, r@, idx),
                forall|a: int| 0 <= a < idx.len() ==> #[trigger] idx[a] < i,
            decreases n - i,
        {
            let c = &candidates[i];
            let ghost prev = r@;
            if !self.contains(c.as_str()) && !contains_text(&r, c.as_str()) {
                r.push(c.clone());
                proof {
                    let old_idx = idx;
                    idx = idx.push(i as int);
                    assert forall|a: int| 0 <= a < idx.len() implies 0 <= #[trigger] idx[a] < candidates@.len()
                        && candidates@[idx[a]]@ == r@[a]@ by {
                        if a < old_idx.len() {
                            assert(idx[a] == old_idx[a]);
                            assert(r@[a] == prev[a]);
                        }
                    }
                    assert forall|a: int, b: int| 0 <= a < b < idx.len() implies #[trigger] idx[a] < #[trigger] idx[b] by {
                        assert(idx[a] == old_idx[a]);
                        if b < old_idx.len() {
                            assert(idx[b] == old_idx[b]);
                        }
                    }
                    assert(in_texts(candidates@, candidates@[i as int]@));
                    assert forall|j: int| 0 <= j < r@.len() implies in_texts(candidates@, #[trigger] r@[j]@) by {
                        if j < prev.len() {
                            assert(r@[j] == prev[j]);
                        }
                    }
                    assert forall|j: int| 0 <= j < r@.len() implies !has_host(self.entries(), #[trigger] r@[j]@) by {
                        if j < prev.len() {
                            assert(r@[j] == prev[j]);
                        }
                    }
                    assert forall|a: int, b: int| 0 <= a < b < r@.len() implies #[trigger] r@[a]@ != #[trigger] r@[b]@ by {
                        if b < prev.len() {
                            assert(r@[a] == prev[a] && r@[b] == prev[b]);
                        } else {
                            assert(r@[a] == prev[a]);
                        }
                    }
                    assert forall|k: int|
                        0 <= k < i + 1 && !has_host(self.entries(), #[trigger] candidates@[k]@)
                            implies in_texts(r@, candidates@[k]@) by {
                        lemma_in_texts_push(prev, r@[prev.len() as int], candidates@[k]@);
                    }
                }
            } else {
                proof {
                    assert forall|k: int|
                        0 <= k < i + 1 && !has_host(self.entries(), #[trigger] candidates@[k]@)
                            implies in_texts(r@, candidates@[k]@) by {
                        if k == i {
                            assert(in_texts(r@, c@));
                        }
                    }
                }
            }
            i = i + 1;
        }
        assert(positions_in(candidates@, r@, idx));
        r
    }

    /// A copy of the device list, in insertion order, for one poll pass.
    pub fn snapshot(&self) -> (r: Vec<DeviceHandle>)
        ensures
            r@ == self.entries(),
    {
        let n = self.devices.len();
        let mut r: Vec<DeviceHandle> = Vec::new();
        let mut i: usize = 0;
        while i < n
            invariant
                n == self.devices@.len(),
                i <= n,
                r@ == self.devices@.subrange(0, i as int),
            decreases n - i,
        {
            r.push(self.devices[i].duplicate());
            assert(r@ =~= self.devices@.subrange(0, i + 1));
            i = i + 1;
        }
        assert(self.devices@.subrange(0, n as int) =~= self.devices@);
        r
    }
}

/// `idx` gives, for each string of `r`, a position in `c` holding the same characters,
/// with positions increasing: `r` keeps the order of `c`.
pub open spec fn positions_in(c: Seq<String>, r: Seq<String>, idx: Seq<int>) -> bool {
    &&& idx.len() == r.len()
    &&& forall|a: int| 0 <= a < idx.len() ==> 0 <= #[trigger] idx[a] < c.len() && c[idx[a]]@ == r[a]@
    &&& forall|a: int, b: int| 0 <= a < b < idx.len() ==> #[trigger] idx[a] < #[trigger] idx[b]
}

/// Whether some string of `v` holds the characters `t`.
pub open spec fn in_texts(v: Seq<String>, t: Seq<char>) -> bool {
    exists|i: int| 0 <= i < v.len() && #[trigger] v[i]@ == t
}

proof fn lemma_in_texts_push(v: Seq<String>, s: String, t: Seq<char>)
    ensures
        in_texts(v.push(s), t) == (in_texts(v, t) || s@ == t),
{
    let w = v.push(s);
    if in_texts(v, t) {
        let i = choose|i: int| 0 <= i < v.len() && #[trigger] v[i]@ == t;
        assert(w[i] == v[i]);
    }
    if s@ == t {
        assert(w[v.len() as int] == s);
    }
    if in_texts(w, t) {
        let i = choose|i: int| 0 <= i < w.len() && #[trigger] w[i]@ == t;
        if i < v.len() {
            assert(w[i] == v[i]);
        }
    }
}

/// Whether some string of `v` holds the characters of `t`.
fn contains_text(v: &Vec<String>, t: &str) -> (r: bool)
    ensures
        r == in_texts(v@, t@),
{
    let n = v.len();
    let mut i: usize = 0;
    while i < n
        invariant
            n == v@.len(),
            i <= n,
            forall|k: int| 0 <= k < i ==> #[trigger] v@[k]@ != t@,
        decreases n - i,
    {
        if same_text(v[i].as_str(), t) {
            return true;
        }
        i = i + 1;
    }
    false
}

/// The `device_up` labels of a device handle.
pub open spec fn device_up_labels(d: DeviceHandle) -> Seq<Seq<char>> {
    up_labels(d.name@, d.host@, d.model@, generation_text(d.generation))
}

/// Records the outcome of fetching one device's status: the translated status when the
/// fetch succeeded, `device_up` = 0 under the device's labels when it failed.
pub fn record_poll(
    metrics: &mut Metrics,
    device: &DeviceHandle,
    outcome: &Result<ShellyStatus, FetchError>,
)
    requires
        old(metrics).wf(),
    ensures
        final(metrics).wf(),
        match outcome {
            Ok(status) => final(metrics).writes() == old(metrics).writes().push(
                (MetricName::DeviceUp, device_up_labels(*device), Value::Int(1)),
            ) + crate::metrics::status_writes(device.name@, device.host@, *status),
            Err(_) => final(metrics).writes() == old(metrics).writes().push(
                (MetricName::DeviceUp, device_up_labels(*device), Value::Int(0)),
            ),
        },
        final(metrics).value_of(MetricName::DeviceUp, device_up_labels(*device)) == Some(
            Value::Int(if outcome is Ok { 1 } else { 0 }),
        ),
{
    let generation = generation_label(device.generation);
    match outcome {
        Ok(status) => metrics.update_device(
            device.name.as_str(),
            device.host.as_str(),
            device.model.as_str(),
            generation,
            status,
        ),
        Err(_) => metrics.mark_device_down(
            device.name.as_str(),
            device.host.as_str(),
            device.model.as_str(),
            generation,
        ),
    }
}

/// Inserting twice with the same host leaves exactly one entry for it: the one that
/// was there before, or else the first handle inserted.
pub proof fn lemma_insert_if_absent_idempotent(e: Seq<DeviceHandle>, a: DeviceHandle, b: DeviceHandle)
    requires
        hosts_unique(e),
        a.host@ == b.host@,
    ensures
        inserted(inserted(e, a), b) == inserted(e, a),
        hosts_unique(inserted(e, a)),
        has_host(inserted(e, a), a.host@),
        !has_host(e, a.host@) ==> inserted(e, a).len() == e.len() + 1 && inserted(e, a).last()
            == a,
{
    let e1 = inserted(e, a);
    if !has_host(e, a.host@) {
        assert(e1[e1.len() - 1].host@ == a.host@);
        assert forall|i: int, j: int|
            0 <= i < e1.len() && 0 <= j < e1.len() && i != j implies #[trigger] e1[i].host@
            != #[trigger] e1[j].host@ by {
            if i < e.len() && j < e.len() {
                assert(e1[i] == e[i] && e1[j] == e[j]);
            } else if i < e.len() {
                assert(e1[i] == e[i]);
            } else {
                assert(e1[j] == e[j]);
            }
        }
    }
}

} // verus!
