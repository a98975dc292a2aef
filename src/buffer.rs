use vstd::prelude::*;

verus! {

/// Where the elements of a buffer live.
#[derive(Clone, Copy, Debug, PartialEq, Eq, Structural)]
pub enum Location {
    Host,
    Device(usize),
}

/// An owned, contiguous sequence of elements tagged with its location.
#[derive(Debug)]
pub struct Buffer<T> {
    data: Vec<T>,
    location: Location,
}

impl<T> Buffer<T> {
    /// The elements held.
    pub closed spec fn elems(&self) -> Seq<T> {
        self.data@
    }

    /// Where the elements live.
    pub closed spec fn loc(&self) -> Location {
        self.location
    }

    /// A host buffer holding `data`.
    pub fn from_host(data: Vec<T>) -> (r: Self)
        ensures
            r.elems() == data@,
            r.loc() == Location::Host,
    {
        Buffer { data, location: Location::Host }
    }

    /// The same elements at `location`.
    pub closed spec fn relocated(self, location: Location) -> Self {
        Buffer { data: self.data, location }
    }

    /// Moves the elements to `location`, consuming the source buffer.
    pub fn relocate(self, location: Location) -> (r: Self)
        ensures
            r == self.relocated(location),
            r.elems() == self.elems(),
            r.loc() == location,
    {
        Buffer { data: self.data, location }
    }

    /// The elements, brought back to the host.
    pub fn into_host_vec(self) -> (r: Vec<T>)
        ensures
            r@ == self.elems(),
    {
        self.data
    }

    pub fn len(&self) -> (r: usize)
        ensures
            r == self.elems().len(),
    {
        self.data.len()
    }

    pub fn location(&self) -> (r: Location)
        ensures
            r == self.loc(),
    {
        self.location
    }

    pub fn get(&self, i: usize) -> (r: &T)
        requires
            i < self.elems().len(),
        ensures
            *r == self.elems()[i as int],
    {
        &self.data[i]
    }

    pub(crate) fn set(&mut self, i: usize, v: T)
        requires
            i < old(self).elems().len(),
        ensures
            final(self).elems() == old(self).elems().update(i as int, v),
            final(self).loc() == old(self).loc(),
    {
        self.data.set(i, v);
    }
}

impl<T: Copy> Buffer<T> {
    /// A buffer of `len` copies of `value` at `location`.
    pub fn filled(location: Location, len: usize, value: T) -> (r: Self)
        ensures
            r.elems() == Seq::new(len as nat, |_i: int| value),
            r.loc() == location,
    {
        let mut data: Vec<T> = Vec::new();
        let mut i: usize = 0;
        while i < len
            invariant
                i <= len,
                data@ == Seq::new(i as nat, |_j: int| value),
            decreases len - i,
        {
            data.push(value);
            i = i + 1;
            assert(data@ =~= Seq::new(i as nat, |_j: int| value));
        }
        Buffer { data, location }
    }
}

/// A buffer moved to any location and back to the host holds the elements it
/// started with, and they are the elements that `into_host_vec` hands out.
pub proof fn lemma_relocate_round_trip<T>(buf: Buffer<T>, device: Location)
    ensures
        buf.relocated(device).relocated(Location::Host).elems() == buf.elems(),
        buf.relocated(device).relocated(Location::Host).loc() == Location::Host,
{
}

} // verus!
