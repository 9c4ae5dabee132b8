use crate::pack::{PackError, PackTarget};
use vstd::prelude::*;

verus! {

/// A pack target that fills a caller's byte slice from its start.
pub struct SlicePackTarget<'lifetime>(&'lifetime mut [u8], usize);

/// The slice has no room left for the data.
#[derive(Debug, PartialEq, Eq)]
pub enum SlicePackError {
    NotEnoughSpace,
}

impl<'lifetime> SlicePackTarget<'lifetime> {
    /// The number of bytes written so far.
    pub closed spec fn offset(&self) -> nat {
        self.1 as nat
    }

    /// The bytes the slice holds.
    pub closed spec fn contents(&self) -> Seq<u8> {
        self.0@
    }

    /// The size of the slice.
    pub closed spec fn capacity(&self) -> nat {
        self.0@.len()
    }

    #[verifier::type_invariant]
    closed spec fn wf(&self) -> bool {
        self.1 <= self.0@.len()
    }

    /// A target that writes into `target`, from its first byte on.
    pub fn new(target: &'lifetime mut [u8]) -> (r: Self)
        ensures
            r.offset() == 0,
            r.capacity() == old(target)@.len(),
            r.written() == Seq::<u8>::empty(),
            r.contents() == old(target)@,
    {
        SlicePackTarget(target, 0)
    }

    /// The bytes written are the first `offset` bytes of the slice, and the
    /// room left is the rest of it.
    pub proof fn lemma_written_offset(&self)
        requires
            self.offset() <= self.capacity(),
        ensures
            self.written().len() == self.offset(),
            self.room() == Some((self.capacity() - self.offset()) as nat),
    {
    }

    /// The number of bytes written.
    pub fn written_len(self) -> (r: usize)
        ensures
            r == self.offset(),
            r <= self.capacity(),
    {
        proof {
            use_type_invariant(&self);
        }
        self.1
    }
}

impl<'lifetime> PackTarget for SlicePackTarget<'lifetime> {
    type Error = SlicePackError;

    closed spec fn written(&self) -> Seq<u8> {
        self.0@.subrange(0, self.1 as int)
    }

    closed spec fn room(&self) -> Option<nat> {
        Some((self.0@.len() - self.1) as nat)
    }

    /// Appends `data` after the bytes written; the rest of the slice is left
    /// as it was.
    fn append(self, data: &[u8]) -> (r: Result<Self, Self::Error>)
        ensures
            r matches Ok(t) ==> t.contents() == self.contents().take(self.offset() as int) + data@
                + self.contents().skip((self.offset() + data@.len()) as int),
    {
        proof {
            use_type_invariant(&self);
        }
        let SlicePackTarget(target, offset) = self;
        if data.len() > target.len() - offset {
            Err(SlicePackError::NotEnoughSpace)
        } else {
            let ghost start = target@;
            let end: usize = offset + data.len();
            let mut i: usize = 0;
            while i < data.len()
                invariant
                    i <= data@.len(),
                    offset + data@.len() <= target@.len(),
                    end == offset + data@.len(),
                    target@.len() == start.len(),
                    target@.subrange(0, offset as int) == start.subrange(0, offset as int),
                    target@.subrange(offset as int, offset + i) == data@.subrange(0, i as int),
                    target@.skip(offset + data@.len()) == start.skip(offset + data@.len()),
                decreases data@.len() - i,
            {
                target[offset + i] = data[i];
                i = i + 1;
                assert(target@.subrange(0, offset as int) =~= start.subrange(0, offset as int));
                assert(target@.subrange(offset as int, offset + i) =~= data@.subrange(0, i as int));
                assert(target@.skip(offset + data@.len()) =~= start.skip(offset + data@.len()));
            }
            let ghost fin = target@;
            assert(data@.subrange(0, data@.len() as int) =~= data@);
            assert(fin.subrange(0, offset + data@.len()) =~= fin.subrange(0, offset as int)
                + fin.subrange(offset as int, offset + data@.len()));
            assert(fin =~= fin.subrange(0, offset + data@.len()) + fin.skip(offset + data@.len()));
            let r = SlicePackTarget(target, end);
            assert(r.written() =~= start.subrange(0, offset as int) + data@);
            assert(r.contents() =~= start.take(offset as int) + data@ + start.skip(offset + data@.len()));
            Ok(r)
        }
    }
}

impl<'lifetime> From<SlicePackError> for PackError<SlicePackError> {
    fn from(e: SlicePackError) -> (r: PackError<SlicePackError>) {
        PackError::TargetError(e)
    }
}

impl<'lifetime> vstd::std_specs::convert::FromSpecImpl<SlicePackError> for PackError<SlicePackError> {
    open spec fn obeys_from_spec() -> bool {
        true
    }

    open spec fn from_spec(e: SlicePackError) -> PackError<SlicePackError> {
        PackError::TargetError(e)
    }
}

impl<'lifetime> From<SlicePackTarget<'lifetime>> for usize {
    fn from(target: SlicePackTarget<'lifetime>) -> (r: usize) {
        target.1
    }
}

impl<'lifetime> vstd::std_specs::convert::FromSpecImpl<SlicePackTarget<'lifetime>> for usize {
    open spec fn obeys_from_spec() -> bool {
        true
    }

    open spec fn from_spec(target: SlicePackTarget<'lifetime>) -> usize {
        target.offset() as usize
    }
}

} // verus!
