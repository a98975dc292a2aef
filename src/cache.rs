use vstd::prelude::*;
use crate::buffer::Location;

verus! {

/// Identity of one compiled kernel: which module, built for which device.
#[derive(Clone, Copy, Debug, PartialEq, Eq, Structural)]
pub struct KernelKey {
    pub module: u64,
    pub device: Location,
}

/// Compiled kernels, at most one per key, each built once and then reused.
#[derive(Debug)]
pub struct KernelCache<V> {
    entries: Vec<(KernelKey, V)>,
}

/// Whether `entries` holds an entry for `key`.
pub open spec fn has_key<V>(entries: Seq<(KernelKey, V)>, key: KernelKey) -> bool {
    exists|i: int| 0 <= i < entries.len() && (#[trigger] entries[i]).0 == key
}

impl<V> KernelCache<V> {
    /// The entries, in the order they were built.
    pub closed spec fn entries(&self) -> Seq<(KernelKey, V)> {
        self.entries@
    }

    /// No key appears twice.
    pub open spec fn wf(&self) -> bool {
        forall|i: int, j: int|
            0 <= i < self.entries().len() && 0 <= j < self.entries().len() && i != j
                ==> (#[trigger] self.entries()[i]).0 != (#[trigger] self.entries()[j]).0
    }

    pub open spec fn contains_key(&self, key: KernelKey) -> bool {
        has_key(self.entries(), key)
    }

    pub fn new() -> (r: Self)
        ensures
            r.wf(),
            r.entries() == Seq::<(KernelKey, V)>::empty(),
    {
        KernelCache { entries: Vec::new() }
    }

    /// How many compilations the cache has kept.
    pub fn compilations(&self) -> (r: usize)
        ensures
            r == self.entries().len(),
    {
        self.entries.len()
    }

    /// Position of the entry for `key`, if the cache holds one.
    pub fn find(&self, key: KernelKey) -> (r: Option<usize>)
        ensures
            match r {
                Some(i) => i < self.entries().len() && self.entries()[i as int].0 == key,
                None => !self.contains_key(key),
            },
    {
        let mut i: usize = 0;
        while i < self.entries.len()
            invariant
                i <= self.entries@.len(),
                forall|j: int| 0 <= j < i ==> (#[trigger] self.entries@[j]).0 != key,
            decreases self.entries@.len() - i,
        {
            if self.entries[i].0 == key {
                return Some(i);
            }
            i = i + 1;
        }
        None
    }

    /// The compiled kernel at position `i`.
    pub fn get(&self, i: usize) -> (r: &V)
        requires
            i < self.entries().len(),
        ensures
            *r == self.entries()[i as int].1,
    {
        &self.entries[i].1
    }

    /// The position of the compiled kernel for `key`, and whether it was
    /// already there. On a miss `build` compiles it, once; a failed build is
    /// returned and leaves the cache as it was.
    pub fn get_or_build<E, F: FnOnce() -> Result<V, E>>(&mut self, key: KernelKey, build: F) -> (r: Result<(usize, bool), E>)
        requires
            old(self).wf(),
            build.requires(()),
        ensures
            final(self).wf(),
            old(self).contains_key(key) ==> *final(self) == *old(self) && r is Ok && r->Ok_0.1
                && r->Ok_0.0 < old(self).entries().len() && old(self).entries()[r->Ok_0.0 as int].0 == key,
            !old(self).contains_key(key) ==> match r {
                Ok((i, hit)) => !hit && i == old(self).entries().len()
                    && build.ensures((), Ok::<V, E>(final(self).entries()[i as int].1))
                    && final(self).entries() == old(self).entries().push((key, final(self).entries()[i as int].1)),
                Err(e) => build.ensures((), Err::<V, E>(e)) && *final(self) == *old(self),
            },
    {
        match self.find(key) {
            Some(i) => Ok((i, true)),
            None => {
                match build() {
                    Ok(v) => {
                        let i = self.entries.len();
                        self.entries.push((key, v));
                        assert(self.entries@[i as int].0 == key);
                        Ok((i, false))
                    },
                    Err(e) => Err(e),
                }
            },
        }
    }
}

/// Once a kernel has been built for a key, asking for that key again is a
/// hit: the entry is found, and one compilation has been counted in all.
pub proof fn lemma_second_request_hits<V>(before: KernelCache<V>, after: KernelCache<V>, key: KernelKey, value: V)
    requires
        before.wf(),
        !before.contains_key(key),
        after.entries() == before.entries().push((key, value)),
    ensures
        after.wf(),
        after.contains_key(key),
        after.entries().len() == before.entries().len() + 1,
{
    assert(after.entries()[before.entries().len() as int].0 == key);
}

} // verus!
