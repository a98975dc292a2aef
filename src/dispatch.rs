use vstd::prelude::*;
use crate::buffer::{Buffer, Location};

verus! {

/// Why a dispatch was refused before any kernel ran.
#[derive(Clone, Copy, Debug, PartialEq, Eq, Structural)]
pub enum DispatchError {
    /// Per-item arguments of differing lengths: the first argument's length and
    /// the first length that differs from it.
    ShapeMismatch { expected_len: usize, found_len: usize },
    /// Per-item arguments at differing locations: the first argument's location
    /// and the first location that differs from it.
    LocationMismatch { expected_loc: Location, found_loc: Location },
}

/// How a validated dispatch went on.
#[derive(Clone, Copy, Debug, PartialEq, Eq, Structural)]
pub enum Dispatched {
    /// Ran on the calling thread over host-resident buffers.
    Completed,
    /// Left for the device with this index: the compiled kernel runs there.
    Submitted(usize),
}

/// The first length from position `i` on that differs from the first length.
pub open spec fn first_len_diff(lens: Seq<usize>, i: nat) -> Option<usize>
    decreases lens.len() - i,
{
    if i >= lens.len() {
        None
    } else if lens[i as int] != lens[0] {
        Some(lens[i as int])
    } else {
        first_len_diff(lens, i + 1)
    }
}

/// The first location from position `i` on that differs from the first location.
pub open spec fn first_loc_diff(locs: Seq<Location>, i: nat) -> Option<Location>
    decreases locs.len() - i,
{
    if i >= locs.len() {
        None
    } else if locs[i as int] != locs[0] {
        Some(locs[i as int])
    } else {
        first_loc_diff(locs, i + 1)
    }
}

/// The outcome of validating per-item arguments with lengths `lens` and
/// locations `locs`: shapes are checked before locations, and a valid set
/// resolves to the shared location.
pub open spec fn checked(lens: Seq<usize>, locs: Seq<Location>) -> Result<Location, DispatchError> {
    match first_len_diff(lens, 0) {
        Some(found) => Err(DispatchError::ShapeMismatch { expected_len: lens[0], found_len: found }),
        None => match first_loc_diff(locs, 0) {
            Some(found) => Err(DispatchError::LocationMismatch { expected_loc: locs[0], found_loc: found }),
            None => Ok(locs[0]),
        },
    }
}

/// Lengths of the buffers of one affine dispatch, in argument order.
pub open spec fn affine_lens<T>(a: Buffer<T>, b: Buffer<T>, x: Buffer<T>, y: Buffer<T>) -> Seq<usize> {
    seq![
        a.elems().len() as usize,
        b.elems().len() as usize,
        x.elems().len() as usize,
        y.elems().len() as usize,
    ]
}

/// Locations of the buffers of one affine dispatch, in argument order.
pub open spec fn affine_locs<T>(a: Buffer<T>, b: Buffer<T>, x: Buffer<T>, y: Buffer<T>) -> Seq<Location> {
    seq![a.loc(), b.loc(), x.loc(), y.loc()]
}

proof fn lemma_first_len_diff_none(lens: Seq<usize>, i: nat)
    requires
        i <= lens.len(),
    ensures
        first_len_diff(lens, i).is_none() <==> (forall|j: int| i <= j < lens.len() ==> #[trigger] lens[j] == lens[0]),
    decreases lens.len() - i,
{
    if i < lens.len() {
        lemma_first_len_diff_none(lens, i + 1);
    }
}

proof fn lemma_first_loc_diff_none(locs: Seq<Location>, i: nat)
    requires
        i <= locs.len(),
    ensures
        first_loc_diff(locs, i).is_none() <==> (forall|j: int| i <= j < locs.len() ==> #[trigger] locs[j] == locs[0]),
    decreases locs.len() - i,
{
    if i < locs.len() {
        lemma_first_loc_diff_none(locs, i + 1);
    }
}

/// Validates per-item arguments given by their lengths and locations.
pub fn validate_items(lens: &Vec<usize>, locs: &Vec<Location>) -> (r: Result<Location, DispatchError>)
    requires
        lens@.len() == locs@.len(),
        lens@.len() > 0,
    ensures
        r == checked(lens@, locs@),
{
    let n = lens.len();
    let mut i: usize = 0;
    while i < n
        invariant
            n == lens@.len(),
            n > 0,
            i <= n,
            first_len_diff(lens@, 0) == first_len_diff(lens@, i as nat),
        decreases n - i,
    {
        if lens[i] != lens[0] {
            return Err(DispatchError::ShapeMismatch { expected_len: lens[0], found_len: lens[i] });
        }
        i = i + 1;
    }
    let mut k: usize = 0;
    while k < n
        invariant
            n == locs@.len(),
            n > 0,
            k <= n,
            first_len_diff(lens@, 0).is_none(),
            first_loc_diff(locs@, 0) == first_loc_diff(locs@, k as nat),
        decreases n - k,
    {
        if locs[k] != locs[0] {
            return Err(DispatchError::LocationMismatch { expected_loc: locs[0], found_loc: locs[k] });
        }
        k = k + 1;
    }
    Ok(locs[0])
}

/// Dispatches the elementwise `kernel` over `y[i] = kernel(a[i], b[i], x[i])`.
///
/// Lengths and then locations are validated first; a refused dispatch writes
/// nothing. Over host-resident buffers the kernel runs here, element by
/// element. Over device-resident buffers nothing is written here: the caller
/// hands the work to the compiled kernel of that device.
pub fn dispatch<T: Copy, F: Fn(T, T, T) -> T>(
    kernel: &F,
    a: &Buffer<T>,
    b: &Buffer<T>,
    x: &Buffer<T>,
    y: &mut Buffer<T>,
) -> (r: Result<Dispatched, DispatchError>)
    requires
        forall|p: T, q: T, s: T| kernel.requires((p, q, s)),
    ensures
        final(y).loc() == old(y).loc(),
        final(y).elems().len() == old(y).elems().len(),
        match checked(affine_lens(*a, *b, *x, *old(y)), affine_locs(*a, *b, *x, *old(y))) {
            Err(e) => r == Err::<Dispatched, DispatchError>(e) && *final(y) == *old(y),
            Ok(Location::Device(d)) => r == Ok::<Dispatched, DispatchError>(Dispatched::Submitted(d))
                && *final(y) == *old(y),
            Ok(Location::Host) => r == Ok::<Dispatched, DispatchError>(Dispatched::Completed)
                && forall|i: int| 0 <= i < final(y).elems().len() ==> kernel.ensures(
                    (a.elems()[i], b.elems()[i], x.elems()[i]),
                    final(y).elems()[i],
                ),
        },
{
    let mut lens: Vec<usize> = Vec::new();
    lens.push(a.len());
    lens.push(b.len());
    lens.push(x.len());
    lens.push(y.len());
    let mut locs: Vec<Location> = Vec::new();
    locs.push(a.location());
    locs.push(b.location());
    locs.push(x.location());
    locs.push(y.location());
    assert(lens@ =~= affine_lens(*a, *b, *x, *y));
    assert(locs@ =~= affine_locs(*a, *b, *x, *y));
    match validate_items(&lens, &locs) {
        Err(e) => Err(e),
        Ok(Location::Device(d)) => Ok(Dispatched::Submitted(d)),
        Ok(Location::Host) => {
            proof {
                lemma_first_len_diff_none(lens@, 0);
                assert(lens@[1] == lens@[0] && lens@[2] == lens@[0] && lens@[3] == lens@[0]);
            }
            let n = y.len();
            let mut i: usize = 0;
            while i < n
                invariant
                    n == y.elems().len(),
                    n == a.elems().len(),
                    n == b.elems().len(),
                    n == x.elems().len(),
                    i <= n,
                    y.loc() == old(y).loc(),
                    forall|p: T, q: T, s: T| kernel.requires((p, q, s)),
                    forall|j: int| 0 <= j < i ==> kernel.ensures(
                        (a.elems()[j], b.elems()[j], x.elems()[j]),
                        y.elems()[j],
                    ),
                decreases n - i,
            {
                let v = kernel(*a.get(i), *b.get(i), *x.get(i));
                y.set(i, v);
                i = i + 1;
            }
            Ok(Dispatched::Completed)
        },
    }
}

/// Per-item arguments whose lengths are not all equal are refused with a
/// shape mismatch, whatever their locations.
pub proof fn lemma_unequal_lengths_refused(lens: Seq<usize>, locs: Seq<Location>, i: int, j: int)
    requires
        0 <= i < lens.len(),
        0 <= j < lens.len(),
        lens[i] != lens[j],
    ensures
        checked(lens, locs) is Err,
        checked(lens, locs)->Err_0 is ShapeMismatch,
{
    lemma_first_len_diff_none(lens, 0);
}

/// Per-item arguments of one length, one of them on the host and another on
/// a device, are refused with a location mismatch.
pub proof fn lemma_host_device_mix_refused(lens: Seq<usize>, locs: Seq<Location>, h: int, k: int, d: usize)
    requires
        lens.len() == locs.len(),
        forall|j: int| 0 <= j < lens.len() ==> #[trigger] lens[j] == lens[0],
        0 <= h < locs.len(),
        0 <= k < locs.len(),
        locs[h] == Location::Host,
        locs[k] == Location::Device(d),
    ensures
        checked(lens, locs) is Err,
        checked(lens, locs)->Err_0 is LocationMismatch,
{
    lemma_first_len_diff_none(lens, 0);
    lemma_first_loc_diff_none(locs, 0);
}

} // verus!
