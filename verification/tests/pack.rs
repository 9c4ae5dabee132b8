use zigbee_mac::pack::{Pack, PackError, SlicePackError, SlicePackTarget, UnpackError, VecPackTarget};

fn test_roundtrip<T: core::fmt::Debug + Eq + PartialEq + Pack>(input: T, packed: Vec<u8>) {
    let (unpacked, remaining) = T::unpack(&packed).unwrap();
    assert!(remaining.is_empty());
    assert_eq!(unpacked, input);

    let repacked: Vec<u8> = input.pack(VecPackTarget::new()).unwrap().into();
    assert_eq!(packed, repacked);
}

#[test]
fn test_default_impls() {
    test_roundtrip::<bool>(false, vec![0x00]);
    test_roundtrip::<bool>(true, vec![0x01]);
    test_roundtrip::<u8>(0x12, vec![0x12]);
    test_roundtrip::<u16>(0x1234, vec![0x34, 0x12]);
    test_roundtrip::<u32>(0x12345678, vec![0x78, 0x56, 0x34, 0x12]);
    test_roundtrip::<u64>(
        0x0123456789ABCDEF,
        vec![0xEF, 0xCD, 0xAB, 0x89, 0x67, 0x45, 0x23, 0x01],
    );
}

#[test]
fn test_tuples() {
    test_roundtrip::<()>((), vec![]);
    test_roundtrip::<(u8, u16, u32, u64)>(
        (0x01, 0x2345, 0x6789ABCD, 0xDEADBEEFCAFEBABE),
        vec![
            0x01, 0x45, 0x23, 0xCD, 0xAB, 0x89, 0x67, 0xBE, 0xBA, 0xFE, 0xCA, 0xEF, 0xBE, 0xAD,
            0xDE,
        ],
    );
}

#[test]
fn test_slice_target() {
    let mut packed = [0; 8];
    let unpacked: (u16, u16, u16) = (0x1234, 0x5678, 0x1020);
    let size: usize = unpacked
        .pack(SlicePackTarget::new(&mut packed[..]))
        .unwrap()
        .into();
    assert_eq!(size, 6);
    assert_eq!(packed, [0x34, 0x12, 0x78, 0x56, 0x20, 0x10, 0, 0]);

    let mut packed = [0; 4];
    let unpacked: (u16, u16, u16) = (0x1234, 0x5678, 0x1020);
    assert_eq!(
        Err(PackError::TargetError(SlicePackError::NotEnoughSpace)),
        unpacked
            .pack(SlicePackTarget::new(&mut packed[..]))
            .map(core::mem::drop)
    );
}

#[test]
fn pack_signed_and_short_input() {
    test_roundtrip::<i16>(-2, vec![0xFE, 0xFF]);
    test_roundtrip::<i8>(-1, vec![0xFF]);
    assert_eq!(u32::unpack(&[1, 2, 3]), Err(UnpackError::NotEnoughData));
    let (x, rest) = u16::unpack(&[1, 2, 3]).unwrap();
    assert_eq!(x, 0x0201);
    assert_eq!(rest, &[3]);
}
