use std::convert::TryInto;
use std::time::Duration;
use zigbee_mac::ieee802154::pib::PIBValue;
use zigbee_mac::ieee802154::{ExtendedAddress, ShortAddress, PANID};

#[test]
fn pib_value_from_plain_values() {
    assert_eq!(PIBValue::from(true), PIBValue::Bool(true));
    assert_eq!(PIBValue::from(7u8), PIBValue::U8(7));
    assert_eq!(PIBValue::from(25u16), PIBValue::U16(25));
    assert_eq!(PIBValue::from(vec![1u8, 2]), PIBValue::Blob(vec![1, 2]));
    assert_eq!(PIBValue::from(Duration::from_secs(3)), PIBValue::Duration(Duration::from_secs(3)));
    assert_eq!(PIBValue::from(ShortAddress(0x10)), PIBValue::ShortAddress(ShortAddress(0x10)));
    assert_eq!(PIBValue::from(ExtendedAddress(0x20)), PIBValue::ExtendedAddress(ExtendedAddress(0x20)));
    assert_eq!(PIBValue::from(PANID(0x30)), PIBValue::PANID(PANID(0x30)));
}

#[test]
fn pib_value_from_pairs_and_options() {
    assert_eq!(
        PIBValue::from((ExtendedAddress(1), ShortAddress(2))),
        PIBValue::Pair(
            Box::new(PIBValue::ExtendedAddress(ExtendedAddress(1))),
            Box::new(PIBValue::ShortAddress(ShortAddress(2)))
        )
    );
    assert_eq!(PIBValue::from(None::<u16>), PIBValue::Empty);
    assert_eq!(PIBValue::from(Some(4u16)), PIBValue::U16(4));
}

#[test]
fn pib_value_try_into() {
    let b: Result<bool, ()> = PIBValue::Bool(true).try_into();
    assert_eq!(b, Ok(true));
    let wrong: Result<bool, ()> = PIBValue::U8(1).try_into();
    assert_eq!(wrong, Err(()));
    let d: Result<Duration, ()> = PIBValue::Duration(Duration::from_secs(9)).try_into();
    assert_eq!(d, Ok(Duration::from_secs(9)));
    let blob: Result<Vec<u8>, ()> = PIBValue::Blob(vec![5]).try_into();
    assert_eq!(blob, Ok(vec![5]));
    let pan: Result<PANID, ()> = PIBValue::PANID(PANID(3)).try_into();
    assert_eq!(pan, Ok(PANID(3)));
    let pair: Result<(ExtendedAddress, ShortAddress), ()> = PIBValue::Pair(
        Box::new(PIBValue::ExtendedAddress(ExtendedAddress(1))),
        Box::new(PIBValue::ShortAddress(ShortAddress(2))),
    )
    .try_into();
    assert_eq!(pair, Ok((ExtendedAddress(1), ShortAddress(2))));
    let bad_pair: Result<(ExtendedAddress, ShortAddress), ()> = PIBValue::Pair(
        Box::new(PIBValue::ExtendedAddress(ExtendedAddress(1))),
        Box::new(PIBValue::U8(2)),
    )
    .try_into();
    assert_eq!(bad_pair, Err(()));
}

#[test]
fn address_conversions() {
    assert_eq!(ShortAddress::from(0x1234u16), ShortAddress(0x1234));
    let s: u16 = ShortAddress(0x1234).into();
    assert_eq!(s, 0x1234);
    assert_eq!(ExtendedAddress::from(0xABCDu64), ExtendedAddress(0xABCD));
    let e: u64 = ExtendedAddress(0xABCD).into();
    assert_eq!(e, 0xABCD);
    assert_eq!(PANID::from(0x22u16), PANID(0x22));
    let p: u16 = PANID(0x22).into();
    assert_eq!(p, 0x22);
}
