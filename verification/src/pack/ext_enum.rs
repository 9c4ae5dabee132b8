use vstd::prelude::*;

verus! {

/// A tag that names no variant.
#[derive(PartialEq, Eq, Debug, Copy, Clone)]
pub enum ExtEnumError {
    InvalidTag,
}

/// An enum whose variants are named by a tag value.
pub trait ExtEnum: Sized {
    type Tag;

    /// The tag of the variant.
    fn into_tag(&self) -> Self::Tag;

    /// The variant named by `value`.
    fn try_from_tag(value: Self::Tag) -> Result<Self, ExtEnumError>;
}

} // verus!
