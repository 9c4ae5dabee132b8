use vstd::prelude::*;

verus! {

/// Status codes of the MAC services.
#[derive(Debug, Clone, Copy, PartialEq, Eq, Structural)]
pub enum Error {
    ChannelAccessFailure,
    FrameTooLong,
    ReadOnly,
    UnsupportedAttribute,
    InvalidIndex,
    InvalidParameter,
    InvalidHandle,
    NoShortAddress,
    TransactionExpired,
    NoAck,
}

} // verus!
