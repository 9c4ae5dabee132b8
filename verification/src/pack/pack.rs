use crate::pack::{fits, ExtEnumError, PackTarget};
use vstd::bytes::*;
use vstd::prelude::*;

verus! {

/// Why bytes could not be unpacked.
#[derive(Debug, PartialEq, Eq)]
pub enum UnpackError {
    /// Not enough data available.
    NotEnoughData,
    /// Invalid enum tag.
    InvalidEnumTag,
    /// Unpacking of this structure is not supported (e.g. reserved data is not 0).
    Unsupported(Option<&'static str>),
    /// Unpacking of this structure is not implemented.
    Unimplemented(Option<&'static str>),
}

/// Why a value could not be packed.
#[derive(Debug, PartialEq, Eq)]
pub enum PackError<T> {
    /// Packing is not allowed, e.g. a field does not fit in its encoding.
    NotAllowed(Option<&'static str>),
    /// The target refused the data.
    TargetError(T),
}

impl From<ExtEnumError> for UnpackError {
    fn from(e: ExtEnumError) -> (r: Self) {
        match e {
            ExtEnumError::InvalidTag => UnpackError::InvalidEnumTag,
        }
    }
}

impl vstd::std_specs::convert::FromSpecImpl<ExtEnumError> for UnpackError {
    open spec fn obeys_from_spec() -> bool {
        true
    }

    open spec fn from_spec(e: ExtEnumError) -> UnpackError {
        UnpackError::InvalidEnumTag
    }
}

/// The room of a target after `n` more bytes were appended.
pub open spec fn room_after(room: Option<nat>, n: nat) -> Option<nat> {
    match room {
        None => None,
        Some(m) => Some((m - n) as nat),
    }
}

/// `r` is what unpacking `data` gives when the format says `expected`.
pub open spec fn unpack_result<V: DeepView>(
    data: Seq<u8>,
    expected: Result<(V::V, nat), UnpackError>,
    r: Result<(V, &[u8]), UnpackError>,
) -> bool {
    match expected {
        Ok((v, n)) => {
            &&& n <= data.len()
            &&& r matches Ok((w, rest)) && w.deep_view() == v && rest@ == data.skip(n as int)
        },
        Err(e) => r matches Err(f) && f == e,
    }
}

/// `r` is what packing gives when the format says `expected` bytes, onto
/// `target`.
pub open spec fn pack_result<T: PackTarget>(
    expected: Option<Seq<u8>>,
    target: T,
    r: Result<T, PackError<T::Error>>,
) -> bool {
    match expected {
        None => r is Err,
        Some(b) => {
            &&& (r is Ok <==> fits(target.room(), b.len()))
            &&& r matches Ok(t) ==> t.written() == target.written() + b && t.room() == room_after(
                target.room(),
                b.len(),
            )
            &&& r is Err ==> r matches Err(PackError::TargetError(_))
        },
    }
}

/// A value with a byte encoding.
pub trait Pack: Sized + DeepView {
    /// The bytes the value packs to, `None` when it cannot be packed.
    spec fn spec_pack(&self) -> Option<Seq<u8>>;

    /// The value unpacked from the front of `data`, and how many bytes it took.
    spec fn spec_unpack(data: Seq<u8>) -> Result<(<Self as DeepView>::V, nat), UnpackError>;

    /// Unpacks a value from the front of `data`; returns it and the rest.
    fn unpack(data: &[u8]) -> (r: Result<(Self, &[u8]), UnpackError>)
        ensures
            unpack_result(data@, Self::spec_unpack(data@), r),
    ;

    /// Packs the value onto `target`.
    fn pack<T: PackTarget>(&self, target: T) -> (r: Result<T, PackError<T::Error>>)
        ensures
            pack_result(self.spec_pack(), target, r),
    ;
}

/// Appends `data` to a target, as a pack result.
pub fn append_bytes<T: PackTarget>(target: T, data: &[u8]) -> (r: Result<T, PackError<T::Error>>)
    ensures
        pack_result(Some(data@), target, r),
{
    match target.append(data) {
        Ok(t) => Ok(t),
        Err(e) => Err(PackError::TargetError(e)),
    }
}

/// Splits `data` after `n` bytes.
pub fn split(data: &[u8], n: usize) -> (r: (&[u8], &[u8]))
    requires
        n <= data@.len(),
    ensures
        r.0@ == data@.take(n as int),
        r.1@ == data@.skip(n as int),
{
    let (a, b) = data.split_at(n);
    assert(a@ =~= data@.take(n as int));
    assert(b@ =~= data@.skip(n as int));
    (a, b)
}

impl Pack for u8 {
    open spec fn spec_pack(&self) -> Option<Seq<u8>> {
        Some(seq![*self])
    }

    open spec fn spec_unpack(data: Seq<u8>) -> Result<(u8, nat), UnpackError> {
        if data.len() < 1 {
            Err(UnpackError::NotEnoughData)
        } else {
            Ok((data[0], 1))
        }
    }

    fn unpack(data: &[u8]) -> (r: Result<(Self, &[u8]), UnpackError>) {
        if data.len() < 1 {
            Err(UnpackError::NotEnoughData)
        } else {
            let (_, rest) = split(data, 1);
            Ok((data[0], rest))
        }
    }

    fn pack<T: PackTarget>(&self, target: T) -> (r: Result<T, PackError<T::Error>>) {
        let bytes: [u8; 1] = [*self];
        let r = append_bytes(target, &bytes);
        assert(bytes@ =~= seq![*self]);
        r
    }
}

impl Pack for u16 {
    open spec fn spec_pack(&self) -> Option<Seq<u8>> {
        Some(spec_u16_to_le_bytes(*self))
    }

    open spec fn spec_unpack(data: Seq<u8>) -> Result<(u16, nat), UnpackError> {
        if data.len() < 2 {
            Err(UnpackError::NotEnoughData)
        } else {
            Ok((spec_u16_from_le_bytes(data.take(2)), 2))
        }
    }

    fn unpack(data: &[u8]) -> (r: Result<(Self, &[u8]), UnpackError>) {
        if data.len() < 2 {
            Err(UnpackError::NotEnoughData)
        } else {
            let (head, rest) = split(data, 2);
            Ok((u16_from_le_bytes(head), rest))
        }
    }

    fn pack<T: PackTarget>(&self, target: T) -> (r: Result<T, PackError<T::Error>>) {
        let bytes = u16_to_le_bytes(*self);
        append_bytes(target, bytes.as_slice())
    }
}

impl Pack for u32 {
    open spec fn spec_pack(&self) -> Option<Seq<u8>> {
        Some(spec_u32_to_le_bytes(*self))
    }

    open spec fn spec_unpack(data: Seq<u8>) -> Result<(u32, nat), UnpackError> {
        if data.len() < 4 {
            Err(UnpackError::NotEnoughData)
        } else {
            Ok((spec_u32_from_le_bytes(data.take(4)), 4))
        }
    }

    fn unpack(data: &[u8]) -> (r: Result<(Self, &[u8]), UnpackError>) {
        if data.len() < 4 {
            Err(UnpackError::NotEnoughData)
        } else {
            let (head, rest) = split(data, 4);
            Ok((u32_from_le_bytes(head), rest))
        }
    }

    fn pack<T: PackTarget>(&self, target: T) -> (r: Result<T, PackError<T::Error>>) {
        let bytes = u32_to_le_bytes(*self);
        append_bytes(target, bytes.as_slice())
    }
}

impl Pack for u64 {
    open spec fn spec_pack(&self) -> Option<Seq<u8>> {
        Some(spec_u64_to_le_bytes(*self))
    }

    open spec fn spec_unpack(data: Seq<u8>) -> Result<(u64, nat), UnpackError> {
        if data.len() < 8 {
            Err(UnpackError::NotEnoughData)
        } else {
            Ok((spec_u64_from_le_bytes(data.take(8)), 8))
        }
    }

    fn unpack(data: &[u8]) -> (r: Result<(Self, &[u8]), UnpackError>) {
        if data.len() < 8 {
            Err(UnpackError::NotEnoughData)
        } else {
            let (head, rest) = split(data, 8);
            Ok((u64_from_le_bytes(head), rest))
        }
    }

    fn pack<T: PackTarget>(&self, target: T) -> (r: Result<T, PackError<T::Error>>) {
        let bytes = u64_to_le_bytes(*self);
        append_bytes(target, bytes.as_slice())
    }
}

impl Pack for u128 {
    open spec fn spec_pack(&self) -> Option<Seq<u8>> {
        Some(spec_u128_to_le_bytes(*self))
    }

    open spec fn spec_unpack(data: Seq<u8>) -> Result<(u128, nat), UnpackError> {
        if data.len() < 16 {
            Err(UnpackError::NotEnoughData)
        } else {
            Ok((spec_u128_from_le_bytes(data.take(16)), 16))
        }
    }

    fn unpack(data: &[u8]) -> (r: Result<(Self, &[u8]), UnpackError>) {
        if data.len() < 16 {
            Err(UnpackError::NotEnoughData)
        } else {
            let (head, rest) = split(data, 16);
            Ok((u128_from_le_bytes(head), rest))
        }
    }

    fn pack<T: PackTarget>(&self, target: T) -> (r: Result<T, PackError<T::Error>>) {
        let bytes = u128_to_le_bytes(*self);
        append_bytes(target, bytes.as_slice())
    }
}

impl Pack for bool {
    open spec fn spec_pack(&self) -> Option<Seq<u8>> {
        Some(seq![if *self { 1u8 } else { 0u8 }])
    }

    open spec fn spec_unpack(data: Seq<u8>) -> Result<(bool, nat), UnpackError> {
        if data.len() < 1 {
            Err(UnpackError::NotEnoughData)
        } else {
            Ok((data[0] > 0, 1))
        }
    }

    fn unpack(data: &[u8]) -> (r: Result<(Self, &[u8]), UnpackError>) {
        let (x, rest) = u8::unpack(data)?;
        Ok((x > 0, rest))
    }

    fn pack<T: PackTarget>(&self, target: T) -> (r: Result<T, PackError<T::Error>>) {
        let x: u8 = if *self { 1 } else { 0 };
        x.pack(target)
    }
}

impl Pack for i8 {
    open spec fn spec_pack(&self) -> Option<Seq<u8>> {
        Some(seq![*self as u8])
    }

    open spec fn spec_unpack(data: Seq<u8>) -> Result<(i8, nat), UnpackError> {
        if data.len() < 1 {
            Err(UnpackError::NotEnoughData)
        } else {
            Ok((data[0] as i8, 1))
        }
    }

    fn unpack(data: &[u8]) -> (r: Result<(Self, &[u8]), UnpackError>) {
        let (x, rest) = u8::unpack(data)?;
        Ok((x as i8, rest))
    }

    fn pack<T: PackTarget>(&self, target: T) -> (r: Result<T, PackError<T::Error>>) {
        (*self as u8).pack(target)
    }
}

impl Pack for i16 {
    open spec fn spec_pack(&self) -> Option<Seq<u8>> {
        Some(spec_u16_to_le_bytes(*self as u16))
    }

    open spec fn spec_unpack(data: Seq<u8>) -> Result<(i16, nat), UnpackError> {
        if data.len() < 2 {
            Err(UnpackError::NotEnoughData)
        } else {
            Ok((spec_u16_from_le_bytes(data.take(2)) as i16, 2))
        }
    }

    fn unpack(data: &[u8]) -> (r: Result<(Self, &[u8]), UnpackError>) {
        let (x, rest) = u16::unpack(data)?;
        Ok((x as i16, rest))
    }

    fn pack<T: PackTarget>(&self, target: T) -> (r: Result<T, PackError<T::Error>>) {
        (*self as u16).pack(target)
    }
}

impl Pack for i32 {
    open spec fn spec_pack(&self) -> Option<Seq<u8>> {
        Some(spec_u32_to_le_bytes(*self as u32))
    }

    open spec fn spec_unpack(data: Seq<u8>) -> Result<(i32, nat), UnpackError> {
        if data.len() < 4 {
            Err(UnpackError::NotEnoughData)
        } else {
            Ok((spec_u32_from_le_bytes(data.take(4)) as i32, 4))
        }
    }

    fn unpack(data: &[u8]) -> (r: Result<(Self, &[u8]), UnpackError>) {
        let (x, rest) = u32::unpack(data)?;
        Ok((x as i32, rest))
    }

    fn pack<T: PackTarget>(&self, target: T) -> (r: Result<T, PackError<T::Error>>) {
        (*self as u32).pack(target)
    }
}

impl Pack for i64 {
    open spec fn spec_pack(&self) -> Option<Seq<u8>> {
        Some(spec_u64_to_le_bytes(*self as u64))
    }

    open spec fn spec_unpack(data: Seq<u8>) -> Result<(i64, nat), UnpackError> {
        if data.len() < 8 {
            Err(UnpackError::NotEnoughData)
        } else {
            Ok((spec_u64_from_le_bytes(data.take(8)) as i64, 8))
        }
    }

    fn unpack(data: &[u8]) -> (r: Result<(Self, &[u8]), UnpackError>) {
        let (x, rest) = u64::unpack(data)?;
        Ok((x as i64, rest))
    }

    fn pack<T: PackTarget>(&self, target: T) -> (r: Result<T, PackError<T::Error>>) {
        (*self as u64).pack(target)
    }
}

impl Pack for i128 {
    open spec fn spec_pack(&self) -> Option<Seq<u8>> {
        Some(spec_u128_to_le_bytes(*self as u128))
    }

    open spec fn spec_unpack(data: Seq<u8>) -> Result<(i128, nat), UnpackError> {
        if data.len() < 16 {
            Err(UnpackError::NotEnoughData)
        } else {
            Ok((spec_u128_from_le_bytes(data.take(16)) as i128, 16))
        }
    }

    fn unpack(data: &[u8]) -> (r: Result<(Self, &[u8]), UnpackError>) {
        let (x, rest) = u128::unpack(data)?;
        Ok((x as i128, rest))
    }

    fn pack<T: PackTarget>(&self, target: T) -> (r: Result<T, PackError<T::Error>>) {
        (*self as u128).pack(target)
    }
}

proof fn lemma_skip_skip(data: Seq<u8>, n: int, m: int)
    requires
        0 <= n <= data.len(),
        0 <= m <= data.len() - n,
    ensures
        data.skip(n).skip(m) == data.skip(n + m),
{
    assert(data.skip(n).skip(m) =~= data.skip(n + m));
}

impl Pack for () {
    open spec fn spec_pack(&self) -> Option<Seq<u8>> {
        Some(Seq::empty())
    }

    open spec fn spec_unpack(data: Seq<u8>) -> Result<((), nat), UnpackError> {
        Ok(((), 0))
    }

    fn unpack(data: &[u8]) -> (r: Result<(Self, &[u8]), UnpackError>) {
        assert(data@.skip(0) =~= data@);
        Ok(((), data))
    }

    fn pack<T: PackTarget>(&self, target: T) -> (r: Result<T, PackError<T::Error>>) {
        let empty: [u8; 0] = [];
        let r = append_bytes(target, &empty);
        assert(empty@ =~= Seq::<u8>::empty());
        r
    }
}

impl<A: Pack> Pack for (A,) {
    open spec fn spec_pack(&self) -> Option<Seq<u8>> {
        self.0.spec_pack()
    }

    open spec fn spec_unpack(data: Seq<u8>) -> Result<((<A as DeepView>::V,), nat), UnpackError> {
        match A::spec_unpack(data) {
            Err(e) => Err(e),
            Ok((a, n)) => Ok(((a,), n)),
        }
    }

    fn unpack(data: &[u8]) -> (r: Result<(Self, &[u8]), UnpackError>) {
        match A::unpack(data) {
            Err(e) => Err(e),
            Ok((a, rest)) => Ok(((a,), rest)),
        }
    }

    fn pack<T: PackTarget>(&self, target: T) -> (r: Result<T, PackError<T::Error>>) {
        self.0.pack(target)
    }
}

/// The bytes of two packed parts, one after the other.
pub open spec fn concat_packed(a: Option<Seq<u8>>, b: Option<Seq<u8>>) -> Option<Seq<u8>> {
    match (a, b) {
        (Some(x), Some(y)) => Some(x + y),
        _ => None,
    }
}

/// Packs `b` after a pack result `a`.
proof fn lemma_pack_then<T: PackTarget>(
    ea: Option<Seq<u8>>,
    eb: Option<Seq<u8>>,
    target: T,
    a: Result<T, PackError<T::Error>>,
    r: Result<T, PackError<T::Error>>,
)
    requires
        pack_result(ea, target, a),
        a matches Ok(t) ==> pack_result(eb, t, r),
        a is Err ==> r is Err && (a matches Err(PackError::TargetError(_)) ==> r matches Err(PackError::TargetError(_))),
    ensures
        pack_result(concat_packed(ea, eb), target, r),
{
    match (ea, eb) {
        (Some(x), Some(y)) => {
            assert(target.written() + x + y == target.written() + (x + y));
        },
        _ => {},
    }
}

impl<A: Pack, B: Pack> Pack for (A, B) {
    open spec fn spec_pack(&self) -> Option<Seq<u8>> {
        concat_packed(self.0.spec_pack(), self.1.spec_pack())
    }

    open spec fn spec_unpack(data: Seq<u8>) -> Result<((<A as DeepView>::V, <B as DeepView>::V), nat), UnpackError> {
        match A::spec_unpack(data) {
            Err(e) => Err(e),
            Ok((a, n)) => match B::spec_unpack(data.skip(n as int)) {
                Err(e) => Err(e),
                Ok((b, m)) => Ok(((a, b), n + m)),
            },
        }
    }

    fn unpack(data: &[u8]) -> (r: Result<(Self, &[u8]), UnpackError>) {
        let (a, rest) = match A::unpack(data) {
            Err(e) => { return Err(e); },
            Ok(x) => x,
        };
        let ghost n = match A::spec_unpack(data@) { Ok((_, n)) => n, Err(_) => 0 };
        let (b, rest2) = match B::unpack(rest) {
            Err(e) => { return Err(e); },
            Ok(x) => x,
        };
        proof {
            let m = match B::spec_unpack(rest@) { Ok((_, m)) => m, Err(_) => 0 };
            lemma_skip_skip(data@, n as int, m as int);
        }
        Ok(((a, b), rest2))
    }

    fn pack<T: PackTarget>(&self, target: T) -> (r: Result<T, PackError<T::Error>>) {
        let a = self.0.pack(target);
        let r = match a {
            Ok(t) => self.1.pack(t),
            Err(e) => Err(e),
        };
        proof {
            lemma_pack_then(self.0.spec_pack(), self.1.spec_pack(), target, a, r);
        }
        r
    }
}

impl<A: Pack, B: Pack, C: Pack> Pack for (A, B, C) {
    open spec fn spec_pack(&self) -> Option<Seq<u8>> {
        concat_packed(concat_packed(self.0.spec_pack(), self.1.spec_pack()), self.2.spec_pack())
    }

    open spec fn spec_unpack(data: Seq<u8>) -> Result<((<A as DeepView>::V, <B as DeepView>::V, <C as DeepView>::V), nat), UnpackError> {
        match <(A, B)>::spec_unpack(data) {
            Err(e) => Err(e),
            Ok((ab, n)) => match C::spec_unpack(data.skip(n as int)) {
                Err(e) => Err(e),
                Ok((c, m)) => Ok(((ab.0, ab.1, c), n + m)),
            },
        }
    }

    fn unpack(data: &[u8]) -> (r: Result<(Self, &[u8]), UnpackError>) {
        let (ab, rest) = match <(A, B)>::unpack(data) {
            Err(e) => { return Err(e); },
            Ok(x) => x,
        };
        let ghost n = match <(A, B)>::spec_unpack(data@) { Ok((_, n)) => n, Err(_) => 0 };
        let (c, rest2) = match C::unpack(rest) {
            Err(e) => { return Err(e); },
            Ok(x) => x,
        };
        proof {
            let m = match C::spec_unpack(rest@) { Ok((_, m)) => m, Err(_) => 0 };
            lemma_skip_skip(data@, n as int, m as int);
        }
        let (a, b) = ab;
        Ok(((a, b, c), rest2))
    }

    fn pack<T: PackTarget>(&self, target: T) -> (r: Result<T, PackError<T::Error>>) {
        let a = self.0.pack(target);
        let ab = match a {
            Ok(t) => self.1.pack(t),
            Err(e) => Err(e),
        };
        proof {
            lemma_pack_then(self.0.spec_pack(), self.1.spec_pack(), target, a, ab);
        }
        let r = match ab {
            Ok(t) => self.2.pack(t),
            Err(e) => Err(e),
        };
        proof {
            lemma_pack_then(concat_packed(self.0.spec_pack(), self.1.spec_pack()), self.2.spec_pack(), target, ab, r);
        }
        r
    }
}

impl<A: Pack, B: Pack, C: Pack, D: Pack> Pack for (A, B, C, D) {
    open spec fn spec_pack(&self) -> Option<Seq<u8>> {
        concat_packed(
            concat_packed(concat_packed(self.0.spec_pack(), self.1.spec_pack()), self.2.spec_pack()),
            self.3.spec_pack(),
        )
    }

    open spec fn spec_unpack(data: Seq<u8>) -> Result<((<A as DeepView>::V, <B as DeepView>::V, <C as DeepView>::V, <D as DeepView>::V), nat), UnpackError> {
        match <(A, B, C)>::spec_unpack(data) {
            Err(e) => Err(e),
            Ok((abc, n)) => match D::spec_unpack(data.skip(n as int)) {
                Err(e) => Err(e),
                Ok((d, m)) => Ok(((abc.0, abc.1, abc.2, d), n + m)),
            },
        }
    }

    fn unpack(data: &[u8]) -> (r: Result<(Self, &[u8]), UnpackError>) {
        let (abc, rest) = match <(A, B, C)>::unpack(data) {
            Err(e) => { return Err(e); },
            Ok(x) => x,
        };
        let ghost n = match <(A, B, C)>::spec_unpack(data@) { Ok((_, n)) => n, Err(_) => 0 };
        let (d, rest2) = match D::unpack(rest) {
            Err(e) => { return Err(e); },
            Ok(x) => x,
        };
        proof {
            let m = match D::spec_unpack(rest@) { Ok((_, m)) => m, Err(_) => 0 };
            lemma_skip_skip(data@, n as int, m as int);
        }
        let (a, b, c) = abc;
        Ok(((a, b, c, d), rest2))
    }

    fn pack<T: PackTarget>(&self, target: T) -> (r: Result<T, PackError<T::Error>>) {
        let a = self.0.pack(target);
        let ab = match a {
            Ok(t) => self.1.pack(t),
            Err(e) => Err(e),
        };
        proof {
            lemma_pack_then(self.0.spec_pack(), self.1.spec_pack(), target, a, ab);
        }
        let abc = match ab {
            Ok(t) => self.2.pack(t),
            Err(e) => Err(e),
        };
        proof {
            lemma_pack_then(concat_packed(self.0.spec_pack(), self.1.spec_pack()), self.2.spec_pack(), target, ab, abc);
        }
        let r = match abc {
            Ok(t) => self.3.pack(t),
            Err(e) => Err(e),
        };
        proof {
            lemma_pack_then(
                concat_packed(concat_packed(self.0.spec_pack(), self.1.spec_pack()), self.2.spec_pack()),
                self.3.spec_pack(), target, abc, r);
        }
        r
    }
}

/// A value whose encoding is prefixed by a tag that is written elsewhere.
pub trait PackTagged: Sized + DeepView {
    type Tag;

    /// The tag of the value.
    spec fn spec_tag(&self) -> Self::Tag;

    /// The bytes that follow the tag, `None` when the value cannot be packed.
    spec fn spec_pack_data(&self) -> Option<Seq<u8>>;

    /// The value with tag `tag` unpacked from the front of `data`, and how many
    /// bytes it took.
    spec fn spec_unpack_data(tag: Self::Tag, data: Seq<u8>) -> Result<(<Self as DeepView>::V, nat), UnpackError>;

    fn get_tag(&self) -> (r: Self::Tag)
        ensures
            r == self.spec_tag(),
    ;

    fn unpack_data(tag: Self::Tag, data: &[u8]) -> (r: Result<(Self, &[u8]), UnpackError>)
        ensures
            unpack_result(data@, Self::spec_unpack_data(tag, data@), r),
    ;

    fn pack_data<T: PackTarget>(&self, target: T) -> (r: Result<T, PackError<T::Error>>)
        ensures
            pack_result(self.spec_pack_data(), target, r),
    ;
}

impl<V: Pack> PackTagged for Option<V> {
    type Tag = bool;

    open spec fn spec_tag(&self) -> bool {
        self is Some
    }

    open spec fn spec_pack_data(&self) -> Option<Seq<u8>> {
        match self {
            Some(inner) => inner.spec_pack(),
            None => Some(Seq::empty()),
        }
    }

    open spec fn spec_unpack_data(tag: bool, data: Seq<u8>) -> Result<(Option<<V as DeepView>::V>, nat), UnpackError> {
        if tag {
            match V::spec_unpack(data) {
                Ok((v, n)) => Ok((Some(v), n)),
                Err(e) => Err(e),
            }
        } else {
            Ok((None, 0))
        }
    }

    fn get_tag(&self) -> (r: bool) {
        self.is_some()
    }

    fn unpack_data(tag: bool, data: &[u8]) -> (r: Result<(Self, &[u8]), UnpackError>) {
        if tag {
            match V::unpack(data) {
                Ok((inner, rest)) => Ok((Some(inner), rest)),
                Err(e) => Err(e),
            }
        } else {
            assert(data@.skip(0) =~= data@);
            Ok((None, data))
        }
    }

    fn pack_data<T: PackTarget>(&self, target: T) -> (r: Result<T, PackError<T::Error>>) {
        match self {
            Some(inner) => inner.pack(target),
            None => {
                let empty: [u8; 0] = [];
                let r = append_bytes(target, &empty);
                assert(empty@ =~= Seq::<u8>::empty());
                r
            },
        }
    }
}

/// Unpacking what a value packs to, followed by anything, gives the value back
/// and consumes exactly its bytes.
pub open spec fn roundtrips<V: Pack>(v: V) -> bool {
    forall|rest: Seq<u8>|
        #![trigger V::spec_unpack(v.spec_pack()->0 + rest)]
        v.spec_pack() is Some ==> V::spec_unpack(v.spec_pack()->0 + rest) == Ok::<(V::V, nat), UnpackError>(
            (v.deep_view(), v.spec_pack()->0.len()),
        )
}

/// Every `u8` packs and unpacks back to itself.
pub proof fn lemma_u8_roundtrip(x: u8)
    ensures
        roundtrips(x),
{
    assert forall|rest: Seq<u8>| #[trigger] u8::spec_unpack(x.spec_pack()->0 + rest) == Ok::<(u8, nat), UnpackError>((x, 1)) by {
        assert((seq![x] + rest)[0] == x);
    }
}

/// Every `u16` packs and unpacks back to itself.
pub proof fn lemma_u16_roundtrip(x: u16)
    ensures
        roundtrips(x),
{
    lemma_auto_spec_u16_to_from_le_bytes();
    assert forall|rest: Seq<u8>| #[trigger] u16::spec_unpack(x.spec_pack()->0 + rest) == Ok::<(u16, nat), UnpackError>((x, 2)) by {
        let b = spec_u16_to_le_bytes(x);
        assert((b + rest).take(2) =~= b);
    }
}

/// Every `u32` packs and unpacks back to itself.
pub proof fn lemma_u32_roundtrip(x: u32)
    ensures
        roundtrips(x),
{
    lemma_auto_spec_u32_to_from_le_bytes();
    assert forall|rest: Seq<u8>| #[trigger] u32::spec_unpack(x.spec_pack()->0 + rest) == Ok::<(u32, nat), UnpackError>((x, 4)) by {
        let b = spec_u32_to_le_bytes(x);
        assert((b + rest).take(4) =~= b);
    }
}

/// Every `u64` packs and unpacks back to itself.
pub proof fn lemma_u64_roundtrip(x: u64)
    ensures
        roundtrips(x),
{
    lemma_auto_spec_u64_to_from_le_bytes();
    assert forall|rest: Seq<u8>| #[trigger] u64::spec_unpack(x.spec_pack()->0 + rest) == Ok::<(u64, nat), UnpackError>((x, 8)) by {
        let b = spec_u64_to_le_bytes(x);
        assert((b + rest).take(8) =~= b);
    }
}

/// Every `bool` packs and unpacks back to itself.
pub proof fn lemma_bool_roundtrip(x: bool)
    ensures
        roundtrips(x),
{
    assert forall|rest: Seq<u8>| #[trigger] bool::spec_unpack(x.spec_pack()->0 + rest) == Ok::<(bool, nat), UnpackError>((x, 1)) by {
        let b = x.spec_pack()->0;
        assert((b + rest)[0] == b[0]);
    }
}

/// A pair whose parts round trip, round trips.
pub proof fn lemma_pair_roundtrip<A: Pack, B: Pack>(a: A, b: B)
    requires
        roundtrips(a),
        roundtrips(b),
    ensures
        roundtrips((a, b)),
{
    assert forall|rest: Seq<u8>| #![trigger <(A, B)>::spec_unpack((a, b).spec_pack()->0 + rest)]
        (a, b).spec_pack() is Some implies <(A, B)>::spec_unpack((a, b).spec_pack()->0 + rest)
            == Ok::<((A::V, B::V), nat), UnpackError>(((a.deep_view(), b.deep_view()), (a, b).spec_pack()->0.len())) by {
        let x = a.spec_pack()->0;
        let y = b.spec_pack()->0;
        assert(x + y + rest =~= x + (y + rest));
        assert(A::spec_unpack(x + (y + rest)) == Ok::<(A::V, nat), UnpackError>((a.deep_view(), x.len())));
        assert((x + (y + rest)).skip(x.len() as int) =~= y + rest);
        assert(B::spec_unpack(y + rest) == Ok::<(B::V, nat), UnpackError>((b.deep_view(), y.len())));
    }
}

} // verus!
