//! Byte level reading and writing shared by the frame encoders.
use vstd::bytes::*;
use vstd::prelude::*;

verus! {

/// Why a value could not be serialized or deserialized.
#[derive(Debug, Clone, Copy, PartialEq, Eq)]
pub enum SerializeError {
    /// The input ended before the value did.
    InsufficientData,
    /// The input holds a value that the format does not allow.
    UnexpectedData,
    /// The value uses a part of the format that is not implemented.
    Unimplemented(&'static str),
    /// Input was left after a complete value.
    DataLeft,
}

/// The bytes of a little endian `u16`.
pub open spec fn le16(x: u16) -> Seq<u8> {
    spec_u16_to_le_bytes(x)
}

/// The bytes of a little endian `u64`.
pub open spec fn le64(x: u64) -> Seq<u8> {
    spec_u64_to_le_bytes(x)
}

/// The little endian `u16` at the front of `data` (at least two bytes).
pub open spec fn read_le16(data: Seq<u8>) -> u16 {
    spec_u16_from_le_bytes(data.take(2))
}

/// The little endian `u64` at the front of `data` (at least eight bytes).
pub open spec fn read_le64(data: Seq<u8>) -> u64 {
    spec_u64_from_le_bytes(data.take(8))
}

/// Reading back a little endian `u16` gives it back, whatever follows.
pub proof fn lemma_le16_roundtrip(x: u16, rest: Seq<u8>)
    ensures
        le16(x).len() == 2,
        read_le16(le16(x) + rest) == x,
        (le16(x) + rest).skip(2) == rest,
{
    lemma_auto_spec_u16_to_from_le_bytes();
    assert((le16(x) + rest).take(2) =~= le16(x));
    assert((le16(x) + rest).skip(2) =~= rest);
}

/// Reading back a little endian `u64` gives it back, whatever follows.
pub proof fn lemma_le64_roundtrip(x: u64, rest: Seq<u8>)
    ensures
        le64(x).len() == 8,
        read_le64(le64(x) + rest) == x,
        (le64(x) + rest).skip(8) == rest,
{
    lemma_auto_spec_u64_to_from_le_bytes();
    assert((le64(x) + rest).take(8) =~= le64(x));
    assert((le64(x) + rest).skip(8) =~= rest);
}

/// Appends `data` to `target`.
pub fn extend_from(target: &mut Vec<u8>, data: &[u8])
    ensures
        final(target)@ == old(target)@ + data@,
{
    let mut i: usize = 0;
    while i < data.len()
        invariant
            i <= data@.len(),
            target@ == old(target)@ + data@.take(i as int),
        decreases data@.len() - i,
    {
        target.push(data[i]);
        i = i + 1;
        assert(target@ =~= old(target)@ + data@.take(i as int));
    }
    assert(data@.take(data@.len() as int) =~= data@);
}

/// Appends a little endian `u16`.
pub fn push_le16(target: &mut Vec<u8>, x: u16)
    ensures
        final(target)@ == old(target)@ + le16(x),
{
    let bytes = u16_to_le_bytes(x);
    extend_from(target, bytes.as_slice());
}

/// Appends a little endian `u64`.
pub fn push_le64(target: &mut Vec<u8>, x: u64)
    ensures
        final(target)@ == old(target)@ + le64(x),
{
    let bytes = u64_to_le_bytes(x);
    extend_from(target, bytes.as_slice());
}

/// Splits the first byte off `input`.
pub fn take_u8(input: &[u8]) -> (r: Result<(&[u8], u8), SerializeError>)
    ensures
        input@.len() < 1 ==> r == Err::<(&[u8], u8), SerializeError>(SerializeError::InsufficientData),
        input@.len() >= 1 ==> (r matches Ok((rest, x)) && x == input@[0] && rest@ == input@.skip(1)),
{
    if input.len() < 1 {
        Err(SerializeError::InsufficientData)
    } else {
        let (_, rest) = input.split_at(1);
        assert(rest@ =~= input@.skip(1));
        Ok((rest, input[0]))
    }
}

/// Splits a little endian `u16` off `input`.
pub fn take_le16(input: &[u8]) -> (r: Result<(&[u8], u16), SerializeError>)
    ensures
        input@.len() < 2 ==> r == Err::<(&[u8], u16), SerializeError>(SerializeError::InsufficientData),
        input@.len() >= 2 ==> (r matches Ok((rest, x)) && x == read_le16(input@) && rest@ == input@.skip(2)),
{
    if input.len() < 2 {
        Err(SerializeError::InsufficientData)
    } else {
        let (head, rest) = input.split_at(2);
        assert(head@ =~= input@.take(2));
        assert(rest@ =~= input@.skip(2));
        Ok((rest, u16_from_le_bytes(head)))
    }
}

/// Splits a little endian `u64` off `input`.
pub fn take_le64(input: &[u8]) -> (r: Result<(&[u8], u64), SerializeError>)
    ensures
        input@.len() < 8 ==> r == Err::<(&[u8], u64), SerializeError>(SerializeError::InsufficientData),
        input@.len() >= 8 ==> (r matches Ok((rest, x)) && x == read_le64(input@) && rest@ == input@.skip(8)),
{
    if input.len() < 8 {
        Err(SerializeError::InsufficientData)
    } else {
        let (head, rest) = input.split_at(8);
        assert(head@ =~= input@.take(8));
        assert(rest@ =~= input@.skip(8));
        Ok((rest, u64_from_le_bytes(head)))
    }
}

/// Copies all of `input` into a vector.
pub fn take_all(input: &[u8]) -> (r: Vec<u8>)
    ensures
        r@ == input@,
{
    let mut v: Vec<u8> = Vec::new();
    extend_from(&mut v, input);
    assert(Seq::<u8>::empty() + input@ =~= input@);
    v
}

} // verus!
