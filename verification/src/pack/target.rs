use vstd::prelude::*;

verus! {

/// A destination for packed bytes.
pub trait PackTarget: Sized {
    type Error;

    /// The bytes appended so far.
    spec fn written(&self) -> Seq<u8>;

    /// How many more bytes the target takes, `None` when it has no limit.
    spec fn room(&self) -> Option<nat>;

    /// Appends `data`; fails, consuming the target, when there is no room.
    fn append(self, data: &[u8]) -> (r: Result<Self, Self::Error>)
        ensures
            r is Ok <==> (self.room() is None || data@.len() <= self.room()->0),
            r matches Ok(t) ==> {
                &&& t.written() == self.written() + data@
                &&& t.room() == match self.room() {
                    None => None,
                    Some(n) => Some((n - data@.len()) as nat),
                }
            },
    ;
}

/// Whether a target with `room` takes `n` more bytes.
pub open spec fn fits(room: Option<nat>, n: nat) -> bool {
    room is None || n <= room->0
}

} // verus!
