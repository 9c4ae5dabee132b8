use crate::pack::PackTarget;
use vstd::prelude::*;

verus! {

/// A pack target that appends to a growing vector.
pub struct VecPackTarget(Vec<u8>);

/// A vector target never fails: no value of this type can be made.
#[derive(Debug, PartialEq, Eq)]
pub enum VecPackError {
    Never(core::convert::Infallible),
}

impl PackTarget for VecPackTarget {
    type Error = VecPackError;

    closed spec fn written(&self) -> Seq<u8> {
        self.0@
    }

    open spec fn room(&self) -> Option<nat> {
        None
    }

    fn append(self, data: &[u8]) -> (r: Result<Self, Self::Error>) {
        let VecPackTarget(mut vec) = self;
        let mut i: usize = 0;
        let ghost start = vec@;
        while i < data.len()
            invariant
                i <= data@.len(),
                vec@ == start + data@.subrange(0, i as int),
            decreases data@.len() - i,
        {
            vec.push(data[i]);
            i = i + 1;
            assert(vec@ =~= start + data@.subrange(0, i as int));
        }
        assert(data@.subrange(0, data@.len() as int) =~= data@);
        Ok(VecPackTarget(vec))
    }
}

impl VecPackTarget {
    /// An empty target.
    pub fn new() -> (r: VecPackTarget)
        ensures
            r.written() == Seq::<u8>::empty(),
    {
        VecPackTarget(Vec::new())
    }

    /// The bytes written.
    pub fn into_vec(self) -> (r: Vec<u8>)
        ensures
            r@ == self.written(),
    {
        self.0
    }
}

impl From<VecPackTarget> for Vec<u8> {
    fn from(target: VecPackTarget) -> (r: Vec<u8>) {
        target.0
    }
}

impl vstd::std_specs::convert::FromSpecImpl<VecPackTarget> for Vec<u8> {
    open spec fn obeys_from_spec() -> bool {
        true
    }

    closed spec fn from_spec(target: VecPackTarget) -> Vec<u8> {
        target.0
    }
}

} // verus!
