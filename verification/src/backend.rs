use vstd::prelude::*;
use crate::error::Error;

verus! {

/// A device that can allocate buffers and move data in and out.
/// Operations of the bulk-evaluation graph are implemented against a
/// backend, so several backends can share one graph structure.
pub trait Backend<T> {
    type DevicePtr;

    /// What a device buffer holds, as a sequence.
    spec fn buf(p: &Self::DevicePtr) -> Seq<T>;

    /// Whether this backend's allocations and transfers always
    /// succeed. Host-memory backends say yes, and their callers can
    /// then count on `Ok`; a device may say no.
    spec fn transfers_succeed() -> bool;

    /// Allocates a buffer of `elements` elements.
    fn allocate(&self, elements: usize) -> (r: Result<Self::DevicePtr, Error>)
        ensures
            r matches Ok(p) ==> Self::buf(&p).len() == elements,
            Self::transfers_succeed() ==> r is Ok,
    ;

    /// Copies `host` into the existing buffer `device`.
    fn htod_into(&self, host: Vec<T>, device: &mut Self::DevicePtr) -> (r: Result<(), Error>)
        ensures
            r matches Ok(_) ==> Self::buf(final(device)) == host@,
            Self::transfers_succeed() ==> r is Ok,
    ;

    /// Copies `host` into a new buffer.
    fn htod(&self, host: Vec<T>) -> (r: Result<Self::DevicePtr, Error>)
        ensures
            r matches Ok(p) ==> Self::buf(&p) == host@,
            Self::transfers_succeed() ==> r is Ok,
    {
        let mut data = match self.allocate(host.len()) {
            Ok(d) => d,
            Err(e) => {
                return Err(e);
            },
        };
        match self.htod_into(host, &mut data) {
            Ok(_) => Ok(data),
            Err(e) => Err(e),
        }
    }

    /// Copies the contents of `src` back to the host.
    fn dtoh(&self, src: &Self::DevicePtr) -> (r: Result<Vec<T>, Error>)
        ensures
            r matches Ok(v) ==> v@ == Self::buf(src),
            Self::transfers_succeed() ==> r is Ok,
    ;
}

/// A backend that keeps every buffer in host memory.
#[derive(Debug)]
pub struct CpuHeap;

impl<T: Copy + Default> Backend<T> for CpuHeap {
    type DevicePtr = Vec<T>;

    open spec fn buf(p: &Vec<T>) -> Seq<T> {
        p@
    }

    /// Host memory: every transfer succeeds.
    open spec fn transfers_succeed() -> bool {
        true
    }

    /// A fresh buffer of `elements` default-initialized elements.
    fn allocate(&self, elements: usize) -> (r: Result<Vec<T>, Error>) {
        let mut v: Vec<T> = Vec::new();
        let mut i: usize = 0;
        while i < elements
            invariant
                i <= elements,
                v@.len() == i,
            decreases elements - i,
        {
            v.push(T::default());
            i = i + 1;
        }
        Ok(v)
    }

    fn htod_into(&self, host: Vec<T>, device: &mut Vec<T>) -> (r: Result<(), Error>) {
        *device = host;
        Ok(())
    }

    fn dtoh(&self, src: &Vec<T>) -> (r: Result<Vec<T>, Error>) {
        let mut v: Vec<T> = Vec::new();
        let mut i: usize = 0;
        while i < src.len()
            invariant
                i <= src@.len(),
                v@ == src@.subrange(0, i as int),
            decreases src@.len() - i,
        {
            v.push(src[i]);
            i = i + 1;
        }
        proof {
            assert(v@ =~= src@);
        }
        Ok(v)
    }
}

} // verus!
