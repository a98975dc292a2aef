use vstd::prelude::*;
use krnl::device::Device;
use krnl::device::error::DeviceIndexOutOfRange;

verus! {

#[verifier::external_type_specification]
#[verifier::external_body]
pub struct ExDevice(Device);

/// Static capability data of an accelerator.
#[derive(Clone, Copy, Debug, PartialEq, Eq, Structural)]
pub struct Capabilities {
    pub max_groups: u32,
    pub max_threads_per_group: u32,
    pub min_subgroup_threads: u32,
    pub max_subgroup_threads: u32,
    pub float64: bool,
}

/// A compute backend: the host, which has no capabilities, or one
/// accelerator, which always has them.
#[derive(Clone, Copy, Debug, PartialEq, Eq, Structural)]
pub enum DeviceKind {
    Host,
    Accelerator { index: usize, caps: Capabilities },
}

impl DeviceKind {
    pub fn capabilities(&self) -> (r: Option<Capabilities>)
        ensures
            match *self {
                DeviceKind::Host => r is None,
                DeviceKind::Accelerator { caps, .. } => r == Some(caps),
            },
    {
        match self {
            DeviceKind::Host => None,
            DeviceKind::Accelerator { caps, .. } => Some(*caps),
        }
    }

    pub fn is_host(&self) -> (r: bool)
        ensures
            r == (*self is Host),
    {
        match self {
            DeviceKind::Host => true,
            DeviceKind::Accelerator { .. } => false,
        }
    }
}

/// What probing one device index gave.
pub enum Probe<D> {
    Found(D),
    /// The index is past the last device: enumeration is over.
    OutOfRange,
    /// Any other failure, with its message: enumeration stops there too.
    Failed(String),
}

/// An unexpected probe failure, at the index where enumeration stopped.
#[derive(Debug, PartialEq, Eq)]
pub struct ProbeWarning {
    pub index: usize,
    pub message: String,
}

/// The devices found, in probe order, and the warning that ended the
/// enumeration, if it ended on an unexpected failure.
pub struct Enumeration<D> {
    pub devices: Vec<D>,
    pub warning: Option<ProbeWarning>,
}

/// Index of the first outcome from `i` on that is not a device, or the
/// number of outcomes if there is none.
pub open spec fn stop_at<D>(s: Seq<Probe<D>>, i: nat) -> nat
    decreases s.len() - i,
{
    if i >= s.len() {
        s.len()
    } else if s[i as int] is Found {
        stop_at(s, i + 1)
    } else {
        i
    }
}

/// Where enumeration over the outcomes `s` of probing indices 0, 1, 2, ... stops.
pub open spec fn stop_index<D>(s: Seq<Probe<D>>) -> nat {
    stop_at(s, 0)
}

/// The device held by each outcome of `s`.
pub open spec fn found_devices<D>(s: Seq<Probe<D>>) -> Seq<D> {
    s.map_values(|p: Probe<D>| p->Found_0)
}

/// The devices that enumeration over the outcomes `s` collects, in index order.
pub open spec fn enumerated<D>(s: Seq<Probe<D>>) -> Seq<D> {
    found_devices(s.take(stop_index(s) as int))
}

/// The warning that enumeration over the outcomes `s` reports.
pub open spec fn stop_warning<D>(s: Seq<Probe<D>>) -> Option<ProbeWarning> {
    let k = stop_index(s);
    if k < s.len() && s[k as int] is Failed {
        Some(ProbeWarning { index: k as usize, message: s[k as int]->Failed_0 })
    } else {
        None
    }
}

proof fn lemma_stop_at_skips_found<D>(s: Seq<Probe<D>>, j: nat, i: nat)
    requires
        j <= i <= s.len(),
        forall|k: int| j <= k < i ==> #[trigger] s[k] is Found,
    ensures
        stop_at(s, j) == stop_at(s, i),
    decreases i - j,
{
    if j < i {
        lemma_stop_at_skips_found(s, j + 1, i);
    }
}

/// Takes the outcome of probing the next index, `e.devices.len()`.
/// Returns whether to probe further.
pub fn record_probe<D>(e: &mut Enumeration<D>, outcome: Probe<D>) -> (more: bool)
    requires
        old(e).warning is None,
    ensures
        more == (outcome is Found),
        match outcome {
            Probe::Found(d) => final(e).devices@ == old(e).devices@.push(d) && final(e).warning is None,
            Probe::OutOfRange => final(e).devices@ == old(e).devices@ && final(e).warning is None,
            Probe::Failed(m) => final(e).devices@ == old(e).devices@
                && final(e).warning == Some(ProbeWarning { index: old(e).devices@.len() as usize, message: m }),
        },
{
    match outcome {
        Probe::Found(d) => {
            e.devices.push(d);
            true
        },
        Probe::OutOfRange => false,
        Probe::Failed(message) => {
            e.warning = Some(ProbeWarning { index: e.devices.len(), message });
            false
        },
    }
}

/// Enumerates over given probe outcomes, one per index from 0.
pub fn enumerate_probes<D>(outcomes: Vec<Probe<D>>) -> (r: Enumeration<D>)
    ensures
        r.devices@ == enumerated(outcomes@),
        r.warning == stop_warning(outcomes@),
{
    let ghost all = outcomes@;
    let mut rest = outcomes;
    let mut e = Enumeration { devices: Vec::new(), warning: None };
    while rest.len() > 0
        invariant
            all == outcomes@,
            e.devices@.len() <= all.len(),
            rest@ == all.skip(e.devices@.len() as int),
            forall|k: int| 0 <= k < e.devices@.len() ==> #[trigger] all[k] is Found,
            e.devices@ == found_devices(all.take(e.devices@.len() as int)),
            e.warning is None,
        decreases rest@.len(),
    {
        let ghost i: int = e.devices@.len() as int;
        let outcome = rest.remove(0);
        assert(outcome == all[i]);
        let ghost before = e.devices@;
        if !record_probe(&mut e, outcome) {
            proof {
                lemma_stop_at_skips_found(all, 0, i as nat);
                assert(stop_at(all, i as nat) == i as nat);
                assert(stop_index(all) == i);
            }
            return e;
        }
        assert(found_devices(all.take(i + 1 as int)) =~= before.push(all[i]->Found_0));
        assert(rest@ =~= all.skip(i + 1 as int));
    }
    proof {
        lemma_stop_at_skips_found(all, 0, all.len());
        assert(stop_at(all, all.len()) == all.len());
    }
    e
}

/// With `n` devices, enumeration collects exactly the `n` devices, in probe
/// order, and ends without a warning when index `n` is out of range.
pub proof fn lemma_enumeration_ends_at_out_of_range<D>(s: Seq<Probe<D>>, n: nat)
    requires
        n < s.len(),
        forall|k: int| 0 <= k < n ==> #[trigger] s[k] is Found,
        s[n as int] is OutOfRange,
    ensures
        enumerated(s).len() == n,
        forall|k: int| 0 <= k < n ==> enumerated(s)[k] == s[k]->Found_0,
        stop_warning(s) is None,
{
    lemma_stop_at_skips_found(s, 0, n);
}

/// Relies on krnl's `DeviceBuilder::build` for the device at `index`. Which
/// outcome comes back depends on the machine, so nothing is stated of it.
#[verifier::external_body]
fn probe_device(index: usize) -> (r: Probe<Device>) {
    match Device::builder().index(index).build() {
        Ok(device) => Probe::Found(device),
        Err(err) => if err.downcast_ref::<DeviceIndexOutOfRange>().is_some() {
            Probe::OutOfRange
        } else {
            Probe::Failed(format!("{err:#}"))
        },
    }
}

/// Probes device indices 0, 1, 2, ... and collects the devices until a probe
/// is out of range or fails otherwise; a failure of the second kind is kept
/// as the warning, and no higher index is probed after it.
pub fn available_devices() -> (r: Enumeration<Device>)
    ensures
        exists|s: Seq<Probe<Device>>| r.devices@ == enumerated(s) && r.warning == stop_warning(s),
        r.warning matches Some(w) ==> w.index == r.devices@.len(),
{
    let mut e = Enumeration { devices: Vec::new(), warning: None };
    let ghost seen: Seq<Probe<Device>> = Seq::empty();
    let mut index: usize = 0;
    while index < usize::MAX
        invariant
            seen.len() == index,
            e.devices@.len() == index,
            forall|k: int| 0 <= k < seen.len() ==> #[trigger] seen[k] is Found,
            e.devices@ == found_devices(seen),
            e.warning is None,
        decreases usize::MAX - index,
    {
        let outcome = probe_device(index);
        let ghost g = outcome;
        let ghost before = e.devices@;
        if !record_probe(&mut e, outcome) {
            proof {
                let s = seen.push(g);
                lemma_stop_at_skips_found(s, 0, index as nat);
                assert(s.take(index as int) =~= seen);
                assert(e.devices@ == enumerated(s));
                assert(e.warning == stop_warning(s));
            }
            return e;
        }
        proof {
            seen = seen.push(g);
            assert(e.devices@ =~= found_devices(seen));
        }
        index = index + 1;
    }
    proof {
        lemma_stop_at_skips_found(seen, 0, seen.len());
        assert(stop_at(seen, seen.len()) == seen.len());
        assert(seen.take(seen.len() as int) =~= seen);
        assert(e.devices@ == enumerated(seen) && e.warning == stop_warning(seen));
    }
    e
}

} // verus!
