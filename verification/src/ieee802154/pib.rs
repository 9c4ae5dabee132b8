//! The PAN information base (IEEE Std 802.15.4-2015, 8.4); only the
//! attributes this implementation uses are kept.
use crate::ieee802154::mac::frame::{Address, FullAddress};
use crate::ieee802154::services::mlme;
use crate::ieee802154::{ExtendedAddress, ShortAddress, PANID};
use std::time::Duration;
use vstd::prelude::*;

verus! {

/// The attributes of the PIB.
#[derive(Debug, Clone, Copy, PartialEq, Eq, Structural)]
pub enum PIBProperty {
    MacExtendedAddress,
    MacAssociatedPanCoord,
    MacAssociationPermit,
    MacBeaconPayload,
    MacBsn,
    MacDsn,
    MacPanId,
    MacShortAddress,
    MacBeaconAutoRespond,
    MacTransactionPersistenceTime,
    MacMaxFrameRetries,
    PhyCurrentChannel,
    PhyMaxTxPower,
    PhyTxPower,
}

/// The value of an attribute.
#[derive(Debug, PartialEq)]
pub enum PIBValue {
    Bool(bool),
    U8(u8),
    U16(u16),
    Blob(Vec<u8>),
    Duration(Duration),
    ShortAddress(ShortAddress),
    ExtendedAddress(ExtendedAddress),
    PANID(PANID),
    Pair(Box<PIBValue>, Box<PIBValue>),
    Empty,
}

/// The value of an attribute, with blobs as sequences.
pub enum PIBValueView {
    Bool(bool),
    U8(u8),
    U16(u16),
    Blob(Seq<u8>),
    Duration(Duration),
    ShortAddress(ShortAddress),
    ExtendedAddress(ExtendedAddress),
    PANID(PANID),
    Pair(Box<PIBValueView>, Box<PIBValueView>),
    Empty,
}

/// The view of a value.
pub open spec fn pib_value_view(v: PIBValue) -> PIBValueView
    decreases v,
{
    match v {
        PIBValue::Bool(b) => PIBValueView::Bool(b),
        PIBValue::U8(x) => PIBValueView::U8(x),
        PIBValue::U16(x) => PIBValueView::U16(x),
        PIBValue::Blob(b) => PIBValueView::Blob(b@),
        PIBValue::Duration(d) => PIBValueView::Duration(d),
        PIBValue::ShortAddress(a) => PIBValueView::ShortAddress(a),
        PIBValue::ExtendedAddress(a) => PIBValueView::ExtendedAddress(a),
        PIBValue::PANID(p) => PIBValueView::PANID(p),
        PIBValue::Pair(a, b) => PIBValueView::Pair(Box::new(pib_value_view(*a)), Box::new(pib_value_view(*b))),
        PIBValue::Empty => PIBValueView::Empty,
    }
}

impl View for PIBValue {
    type V = PIBValueView;

    open spec fn view(&self) -> PIBValueView {
        pib_value_view(*self)
    }
}

impl Clone for PIBValue {
    fn clone(&self) -> (r: Self)
        ensures
            r@ == self@,
        decreases self,
    {
        match self {
            PIBValue::Bool(b) => PIBValue::Bool(*b),
            PIBValue::U8(x) => PIBValue::U8(*x),
            PIBValue::U16(x) => PIBValue::U16(*x),
            PIBValue::Blob(b) => {
                let c = b.clone();
                assert(c@ =~= b@);
                PIBValue::Blob(c)
            },
            PIBValue::Duration(d) => PIBValue::Duration(*d),
            PIBValue::ShortAddress(a) => PIBValue::ShortAddress(*a),
            PIBValue::ExtendedAddress(a) => PIBValue::ExtendedAddress(*a),
            PIBValue::PANID(p) => PIBValue::PANID(*p),
            PIBValue::Pair(a, b) => {
                let a2: PIBValue = (**a).clone();
                let b2: PIBValue = (**b).clone();
                PIBValue::Pair(Box::new(a2), Box::new(b2))
            },
            PIBValue::Empty => PIBValue::Empty,
        }
    }
}

/// The PIB.
pub struct PIB {
    pub mac_extended_address: ExtendedAddress,
    /// The PAN coordinator the device is associated with, by its extended and
    /// short address.
    pub mac_associated_pan_coord: Option<(ExtendedAddress, ShortAddress)>,
    pub mac_association_permit: bool,
    pub mac_beacon_payload: Vec<u8>,
    pub mac_bsn: u8,
    pub mac_dsn: u8,
    pub mac_pan_id: PANID,
    pub mac_short_address: ShortAddress,
    pub mac_beacon_auto_respond: bool,
    pub mac_transaction_persistence_time: Duration,
    pub mac_max_frame_retries: u16,
    pub phy_current_channel: u16,
    pub phy_max_tx_power: u16,
    pub phy_tx_power: u16,
}

/// The PIB, with the beacon payload as a sequence.
pub struct PIBView {
    pub mac_extended_address: ExtendedAddress,
    pub mac_associated_pan_coord: Option<(ExtendedAddress, ShortAddress)>,
    pub mac_association_permit: bool,
    pub mac_beacon_payload: Seq<u8>,
    pub mac_bsn: u8,
    pub mac_dsn: u8,
    pub mac_pan_id: PANID,
    pub mac_short_address: ShortAddress,
    pub mac_beacon_auto_respond: bool,
    pub mac_transaction_persistence_time: Duration,
    pub mac_max_frame_retries: u16,
    pub phy_current_channel: u16,
    pub phy_max_tx_power: u16,
    pub phy_tx_power: u16,
}

impl From<bool> for PIBValue {
    fn from(value: bool) -> (r: PIBValue) {
        PIBValue::Bool(value)
    }
}

impl vstd::std_specs::convert::FromSpecImpl<bool> for PIBValue {
    open spec fn obeys_from_spec() -> bool {
        true
    }

    open spec fn from_spec(value: bool) -> PIBValue {
        PIBValue::Bool(value)
    }
}

impl From<u8> for PIBValue {
    fn from(value: u8) -> (r: PIBValue) {
        PIBValue::U8(value)
    }
}

impl vstd::std_specs::convert::FromSpecImpl<u8> for PIBValue {
    open spec fn obeys_from_spec() -> bool {
        true
    }

    open spec fn from_spec(value: u8) -> PIBValue {
        PIBValue::U8(value)
    }
}

impl From<u16> for PIBValue {
    fn from(value: u16) -> (r: PIBValue) {
        PIBValue::U16(value)
    }
}

impl vstd::std_specs::convert::FromSpecImpl<u16> for PIBValue {
    open spec fn obeys_from_spec() -> bool {
        true
    }

    open spec fn from_spec(value: u16) -> PIBValue {
        PIBValue::U16(value)
    }
}

impl From<Vec<u8>> for PIBValue {
    fn from(value: Vec<u8>) -> (r: PIBValue) {
        PIBValue::Blob(value)
    }
}

impl vstd::std_specs::convert::FromSpecImpl<Vec<u8>> for PIBValue {
    open spec fn obeys_from_spec() -> bool {
        true
    }

    open spec fn from_spec(value: Vec<u8>) -> PIBValue {
        PIBValue::Blob(value)
    }
}

impl From<Duration> for PIBValue {
    fn from(value: Duration) -> (r: PIBValue) {
        PIBValue::Duration(value)
    }
}

impl vstd::std_specs::convert::FromSpecImpl<Duration> for PIBValue {
    open spec fn obeys_from_spec() -> bool {
        true
    }

    open spec fn from_spec(value: Duration) -> PIBValue {
        PIBValue::Duration(value)
    }
}

impl From<ShortAddress> for PIBValue {
    fn from(value: ShortAddress) -> (r: PIBValue) {
        PIBValue::ShortAddress(value)
    }
}

impl vstd::std_specs::convert::FromSpecImpl<ShortAddress> for PIBValue {
    open spec fn obeys_from_spec() -> bool {
        true
    }

    open spec fn from_spec(value: ShortAddress) -> PIBValue {
        PIBValue::ShortAddress(value)
    }
}

impl From<ExtendedAddress> for PIBValue {
    fn from(value: ExtendedAddress) -> (r: PIBValue) {
        PIBValue::ExtendedAddress(value)
    }
}

impl vstd::std_specs::convert::FromSpecImpl<ExtendedAddress> for PIBValue {
    open spec fn obeys_from_spec() -> bool {
        true
    }

    open spec fn from_spec(value: ExtendedAddress) -> PIBValue {
        PIBValue::ExtendedAddress(value)
    }
}

impl From<PANID> for PIBValue {
    fn from(value: PANID) -> (r: PIBValue) {
        PIBValue::PANID(value)
    }
}

impl vstd::std_specs::convert::FromSpecImpl<PANID> for PIBValue {
    open spec fn obeys_from_spec() -> bool {
        true
    }

    open spec fn from_spec(value: PANID) -> PIBValue {
        PIBValue::PANID(value)
    }
}

impl<A, B> From<(A, B)> for PIBValue where PIBValue: From<A> + From<B> {
    fn from(value: (A, B)) -> (r: PIBValue) {
        PIBValue::Pair(Box::new(PIBValue::from(value.0)), Box::new(PIBValue::from(value.1)))
    }
}

impl<A, B> vstd::std_specs::convert::FromSpecImpl<(A, B)> for PIBValue where PIBValue: From<A> + From<B> {
    open spec fn obeys_from_spec() -> bool {
        <PIBValue as vstd::std_specs::convert::FromSpec<A>>::obeys_from_spec()
            && <PIBValue as vstd::std_specs::convert::FromSpec<B>>::obeys_from_spec()
    }

    open spec fn from_spec(value: (A, B)) -> PIBValue {
        PIBValue::Pair(
            Box::new(<PIBValue as vstd::std_specs::convert::FromSpec<A>>::from_spec(value.0)),
            Box::new(<PIBValue as vstd::std_specs::convert::FromSpec<B>>::from_spec(value.1)),
        )
    }
}

impl<T> From<Option<T>> for PIBValue where PIBValue: From<T> {
    fn from(value: Option<T>) -> (r: PIBValue) {
        match value {
            Some(x) => PIBValue::from(x),
            None => PIBValue::Empty,
        }
    }
}

impl<T> vstd::std_specs::convert::FromSpecImpl<Option<T>> for PIBValue where PIBValue: From<T> {
    open spec fn obeys_from_spec() -> bool {
        <PIBValue as vstd::std_specs::convert::FromSpec<T>>::obeys_from_spec()
    }

    open spec fn from_spec(value: Option<T>) -> PIBValue {
        match value {
            Some(x) => <PIBValue as vstd::std_specs::convert::FromSpec<T>>::from_spec(x),
            None => PIBValue::Empty,
        }
    }
}

impl TryInto<bool> for PIBValue {
    type Error = ();

    fn try_into(self) -> (r: Result<bool, ()>) {
        match self {
            PIBValue::Bool(x) => Ok(x),
            _ => Err(()),
        }
    }
}

impl vstd::std_specs::convert::TryIntoSpecImpl<bool> for PIBValue {
    open spec fn obeys_try_into_spec() -> bool {
        true
    }

    open spec fn try_into_spec(self) -> Result<bool, ()> {
        match self {
            PIBValue::Bool(x) => Ok(x),
            _ => Err(()),
        }
    }
}

impl TryInto<u8> for PIBValue {
    type Error = ();

    fn try_into(self) -> (r: Result<u8, ()>) {
        match self {
            PIBValue::U8(x) => Ok(x),
            _ => Err(()),
        }
    }
}

impl vstd::std_specs::convert::TryIntoSpecImpl<u8> for PIBValue {
    open spec fn obeys_try_into_spec() -> bool {
        true
    }

    open spec fn try_into_spec(self) -> Result<u8, ()> {
        match self {
            PIBValue::U8(x) => Ok(x),
            _ => Err(()),
        }
    }
}

impl TryInto<u16> for PIBValue {
    type Error = ();

    fn try_into(self) -> (r: Result<u16, ()>) {
        match self {
            PIBValue::U16(x) => Ok(x),
            _ => Err(()),
        }
    }
}

impl vstd::std_specs::convert::TryIntoSpecImpl<u16> for PIBValue {
    open spec fn obeys_try_into_spec() -> bool {
        true
    }

    open spec fn try_into_spec(self) -> Result<u16, ()> {
        match self {
            PIBValue::U16(x) => Ok(x),
            _ => Err(()),
        }
    }
}

impl TryInto<Vec<u8>> for PIBValue {
    type Error = ();

    fn try_into(self) -> (r: Result<Vec<u8>, ()>) {
        match self {
            PIBValue::Blob(x) => Ok(x),
            _ => Err(()),
        }
    }
}

impl vstd::std_specs::convert::TryIntoSpecImpl<Vec<u8>> for PIBValue {
    open spec fn obeys_try_into_spec() -> bool {
        true
    }

    open spec fn try_into_spec(self) -> Result<Vec<u8>, ()> {
        match self {
            PIBValue::Blob(x) => Ok(x),
            _ => Err(()),
        }
    }
}

impl TryInto<Duration> for PIBValue {
    type Error = ();

    fn try_into(self) -> (r: Result<Duration, ()>) {
        match self {
            PIBValue::Duration(x) => Ok(x),
            _ => Err(()),
        }
    }
}

impl vstd::std_specs::convert::TryIntoSpecImpl<Duration> for PIBValue {
    open spec fn obeys_try_into_spec() -> bool {
        true
    }

    open spec fn try_into_spec(self) -> Result<Duration, ()> {
        match self {
            PIBValue::Duration(x) => Ok(x),
            _ => Err(()),
        }
    }
}

impl TryInto<ShortAddress> for PIBValue {
    type Error = ();

    fn try_into(self) -> (r: Result<ShortAddress, ()>) {
        match self {
            PIBValue::ShortAddress(x) => Ok(x),
            _ => Err(()),
        }
    }
}

impl vstd::std_specs::convert::TryIntoSpecImpl<ShortAddress> for PIBValue {
    open spec fn obeys_try_into_spec() -> bool {
        true
    }

    open spec fn try_into_spec(self) -> Result<ShortAddress, ()> {
        match self {
            PIBValue::ShortAddress(x) => Ok(x),
            _ => Err(()),
        }
    }
}

impl TryInto<ExtendedAddress> for PIBValue {
    type Error = ();

    fn try_into(self) -> (r: Result<ExtendedAddress, ()>) {
        match self {
            PIBValue::ExtendedAddress(x) => Ok(x),
            _ => Err(()),
        }
    }
}

impl vstd::std_specs::convert::TryIntoSpecImpl<ExtendedAddress> for PIBValue {
    open spec fn obeys_try_into_spec() -> bool {
        true
    }

    open spec fn try_into_spec(self) -> Result<ExtendedAddress, ()> {
        match self {
            PIBValue::ExtendedAddress(x) => Ok(x),
            _ => Err(()),
        }
    }
}

impl TryInto<PANID> for PIBValue {
    type Error = ();

    fn try_into(self) -> (r: Result<PANID, ()>) {
        match self {
            PIBValue::PANID(x) => Ok(x),
            _ => Err(()),
        }
    }
}

impl vstd::std_specs::convert::TryIntoSpecImpl<PANID> for PIBValue {
    open spec fn obeys_try_into_spec() -> bool {
        true
    }

    open spec fn try_into_spec(self) -> Result<PANID, ()> {
        match self {
            PIBValue::PANID(x) => Ok(x),
            _ => Err(()),
        }
    }
}

impl<A, B> TryInto<(A, B)> for PIBValue where PIBValue: TryInto<A, Error = ()> + TryInto<B, Error = ()> {
    type Error = ();

    fn try_into(self) -> (r: Result<(A, B), ()>) {
        match self {
            PIBValue::Pair(a, b) => {
                let a: PIBValue = *a;
                let b: PIBValue = *b;
                let x: Result<A, ()> = a.try_into();
                match x {
                    Ok(x) => {
                        let y: Result<B, ()> = b.try_into();
                        match y {
                            Ok(y) => Ok((x, y)),
                            Err(e) => Err(e),
                        }
                    },
                    Err(e) => Err(e),
                }
            },
            _ => Err(()),
        }
    }
}

impl<A, B> vstd::std_specs::convert::TryIntoSpecImpl<(A, B)> for PIBValue where PIBValue: TryInto<A, Error = ()> + TryInto<B, Error = ()> {
    open spec fn obeys_try_into_spec() -> bool {
        <PIBValue as vstd::std_specs::convert::TryIntoSpec<A>>::obeys_try_into_spec()
            && <PIBValue as vstd::std_specs::convert::TryIntoSpec<B>>::obeys_try_into_spec()
    }

    open spec fn try_into_spec(self) -> Result<(A, B), ()> {
        match self {
            PIBValue::Pair(a, b) => match <PIBValue as vstd::std_specs::convert::TryIntoSpec<A>>::try_into_spec(*a) {
                Ok(x) => match <PIBValue as vstd::std_specs::convert::TryIntoSpec<B>>::try_into_spec(*b) {
                    Ok(y) => Ok((x, y)),
                    Err(e) => Err(e),
                },
                Err(e) => Err(e),
            },
            _ => Err(()),
        }
    }
}

impl View for PIB {
    type V = PIBView;

    open spec fn view(&self) -> PIBView {
        PIBView {
            mac_extended_address: self.mac_extended_address,
            mac_associated_pan_coord: self.mac_associated_pan_coord,
            mac_association_permit: self.mac_association_permit,
            mac_beacon_payload: self.mac_beacon_payload@,
            mac_bsn: self.mac_bsn,
            mac_dsn: self.mac_dsn,
            mac_pan_id: self.mac_pan_id,
            mac_short_address: self.mac_short_address,
            mac_beacon_auto_respond: self.mac_beacon_auto_respond,
            mac_transaction_persistence_time: self.mac_transaction_persistence_time,
            mac_max_frame_retries: self.mac_max_frame_retries,
            phy_current_channel: self.phy_current_channel,
            phy_max_tx_power: self.phy_max_tx_power,
            phy_tx_power: self.phy_tx_power,
        }
    }
}

/// What `std::time::Duration::from_secs` returns for `secs`.
pub uninterp spec fn duration_of_secs(secs: u64) -> Duration;

/// Calls `std::time::Duration::from_secs`, which depends on its argument
/// alone.
#[verifier::external_body]
pub(crate) fn duration_from_secs(secs: u64) -> (r: Duration)
    ensures
        r == duration_of_secs(secs),
{
    Duration::from_secs(secs)
}

/// Calls `rand::random::<u8>()`; any byte may come back.
#[verifier::external_body]
fn random_u8() -> (r: u8) {
    rand::random::<u8>()
}

/// The value of an attribute, `Err(())` for one that cannot be read.
pub open spec fn pib_get(p: PIBView, param: PIBProperty) -> Result<PIBValueView, ()> {
    match param {
        PIBProperty::MacExtendedAddress => Ok(PIBValueView::ExtendedAddress(p.mac_extended_address)),
        PIBProperty::MacAssociatedPanCoord => Ok(
            match p.mac_associated_pan_coord {
                Some((e, s)) => PIBValueView::Pair(
                    Box::new(PIBValueView::ExtendedAddress(e)),
                    Box::new(PIBValueView::ShortAddress(s)),
                ),
                None => PIBValueView::Empty,
            },
        ),
        PIBProperty::MacAssociationPermit => Ok(PIBValueView::Bool(p.mac_association_permit)),
        PIBProperty::MacBeaconPayload => Ok(PIBValueView::Blob(p.mac_beacon_payload)),
        PIBProperty::MacBsn => Ok(PIBValueView::U8(p.mac_bsn)),
        PIBProperty::MacDsn => Ok(PIBValueView::U8(p.mac_dsn)),
        PIBProperty::MacPanId => Ok(PIBValueView::PANID(p.mac_pan_id)),
        PIBProperty::MacShortAddress => Ok(PIBValueView::ShortAddress(p.mac_short_address)),
        PIBProperty::MacBeaconAutoRespond => Ok(PIBValueView::Bool(p.mac_beacon_auto_respond)),
        PIBProperty::MacTransactionPersistenceTime => Ok(PIBValueView::Duration(p.mac_transaction_persistence_time)),
        PIBProperty::MacMaxFrameRetries => Err(()),
        PIBProperty::PhyCurrentChannel => Ok(PIBValueView::U16(p.phy_current_channel)),
        PIBProperty::PhyMaxTxPower => Ok(PIBValueView::U16(p.phy_max_tx_power)),
        PIBProperty::PhyTxPower => Ok(PIBValueView::U16(p.phy_tx_power)),
    }
}

/// Setting an attribute: the PIB after, and the outcome. The extended
/// address is read only; the associated coordinator and the frame retry count
/// cannot be set; a value of the wrong kind is an invalid parameter. A PIB
/// that refuses stays as it was.
pub open spec fn pib_set(p: PIBView, param: PIBProperty, v: PIBValueView) -> (PIBView, Result<(), mlme::Error>) {
    match param {
        PIBProperty::MacExtendedAddress => (p, Err(mlme::Error::ReadOnly)),
        PIBProperty::MacAssociationPermit => match v {
            PIBValueView::Bool(b) => (PIBView { mac_association_permit: b, ..p }, Ok(())),
            _ => (p, Err(mlme::Error::InvalidParameter)),
        },
        PIBProperty::MacBeaconPayload => match v {
            PIBValueView::Blob(b) => (PIBView { mac_beacon_payload: b, ..p }, Ok(())),
            _ => (p, Err(mlme::Error::InvalidParameter)),
        },
        PIBProperty::MacBsn => match v {
            PIBValueView::U8(x) => (PIBView { mac_bsn: x, ..p }, Ok(())),
            _ => (p, Err(mlme::Error::InvalidParameter)),
        },
        PIBProperty::MacDsn => match v {
            PIBValueView::U8(x) => (PIBView { mac_dsn: x, ..p }, Ok(())),
            _ => (p, Err(mlme::Error::InvalidParameter)),
        },
        PIBProperty::MacPanId => match v {
            PIBValueView::PANID(x) => (PIBView { mac_pan_id: x, ..p }, Ok(())),
            _ => (p, Err(mlme::Error::InvalidParameter)),
        },
        PIBProperty::MacShortAddress => match v {
            PIBValueView::ShortAddress(x) => (PIBView { mac_short_address: x, ..p }, Ok(())),
            _ => (p, Err(mlme::Error::InvalidParameter)),
        },
        PIBProperty::MacBeaconAutoRespond => match v {
            PIBValueView::Bool(b) => (PIBView { mac_beacon_auto_respond: b, ..p }, Ok(())),
            _ => (p, Err(mlme::Error::InvalidParameter)),
        },
        PIBProperty::MacTransactionPersistenceTime => match v {
            PIBValueView::Duration(d) => (PIBView { mac_transaction_persistence_time: d, ..p }, Ok(())),
            _ => (p, Err(mlme::Error::InvalidParameter)),
        },
        PIBProperty::PhyCurrentChannel => match v {
            PIBValueView::U16(x) => (PIBView { phy_current_channel: x, ..p }, Ok(())),
            _ => (p, Err(mlme::Error::InvalidParameter)),
        },
        PIBProperty::PhyMaxTxPower => match v {
            PIBValueView::U16(x) => (PIBView { phy_max_tx_power: x, ..p }, Ok(())),
            _ => (p, Err(mlme::Error::InvalidParameter)),
        },
        PIBProperty::PhyTxPower => match v {
            PIBValueView::U16(x) => (PIBView { phy_tx_power: x, ..p }, Ok(())),
            _ => (p, Err(mlme::Error::InvalidParameter)),
        },
        PIBProperty::MacAssociatedPanCoord => (p, Err(mlme::Error::UnsupportedAttribute)),
        PIBProperty::MacMaxFrameRetries => (p, Err(mlme::Error::UnsupportedAttribute)),
    }
}

/// A PIB as `PIB::new` makes it, but for the two sequence numbers, which are
/// drawn at random.
pub open spec fn is_fresh_pib(p: PIBView, extended_address: ExtendedAddress, phy_current_channel: u16, phy_max_tx_power: u16) -> bool {
    &&& p.mac_extended_address == extended_address
    &&& p.mac_associated_pan_coord is None
    &&& !p.mac_association_permit
    &&& p.mac_beacon_payload.len() == 0
    &&& p.mac_pan_id == PANID(0xFFFF)
    &&& p.mac_short_address == ShortAddress(0xFFFF)
    &&& !p.mac_beacon_auto_respond
    &&& p.mac_transaction_persistence_time == duration_of_secs(300)
    &&& p.mac_max_frame_retries == 3
    &&& p.phy_current_channel == phy_current_channel
    &&& p.phy_max_tx_power == phy_max_tx_power
    &&& p.phy_tx_power == phy_max_tx_power
}

/// After a successful set, getting the attribute gives the value set.
pub proof fn lemma_set_then_get(p: PIBView, param: PIBProperty, v: PIBValueView)
    requires
        pib_set(p, param, v).1 is Ok,
    ensures
        pib_get(pib_set(p, param, v).0, param) == Ok::<PIBValueView, ()>(v),
{
}

/// Setting an attribute leaves every other attribute as it was.
pub proof fn lemma_set_keeps_others(p: PIBView, param: PIBProperty, v: PIBValueView, other: PIBProperty)
    requires
        other != param,
    ensures
        pib_get(pib_set(p, param, v).0, other) == pib_get(p, other),
{
}

/// Whether two values are of the same kind (both flags, both addresses, ...).
pub open spec fn same_kind(a: PIBValueView, b: PIBValueView) -> bool {
    match (a, b) {
        (PIBValueView::Bool(_), PIBValueView::Bool(_)) => true,
        (PIBValueView::U8(_), PIBValueView::U8(_)) => true,
        (PIBValueView::U16(_), PIBValueView::U16(_)) => true,
        (PIBValueView::Blob(_), PIBValueView::Blob(_)) => true,
        (PIBValueView::Duration(_), PIBValueView::Duration(_)) => true,
        (PIBValueView::ShortAddress(_), PIBValueView::ShortAddress(_)) => true,
        (PIBValueView::ExtendedAddress(_), PIBValueView::ExtendedAddress(_)) => true,
        (PIBValueView::PANID(_), PIBValueView::PANID(_)) => true,
        _ => false,
    }
}

/// The attributes that `set` refuses whatever the value: the extended
/// address, the associated coordinator and the frame retry count.
pub open spec fn is_fixed_attribute(param: PIBProperty) -> bool {
    ||| param == PIBProperty::MacExtendedAddress
    ||| param == PIBProperty::MacAssociatedPanCoord
    ||| param == PIBProperty::MacMaxFrameRetries
}

/// Every other attribute can be written: setting it to a value of the kind
/// that reading it gives succeeds, and a later read gives the new value.
pub proof fn lemma_writable_set_succeeds(p: PIBView, param: PIBProperty, v: PIBValueView)
    requires
        !is_fixed_attribute(param),
        pib_get(p, param) is Ok,
        same_kind(pib_get(p, param)->Ok_0, v),
    ensures
        pib_set(p, param, v).1 is Ok,
        pib_get(pib_set(p, param, v).0, param) == Ok::<PIBValueView, ()>(v),
{
}

/// Each attribute but the fixed ones reads as a value of one kind, whatever
/// the PIB holds.
pub proof fn lemma_kind_is_fixed(p: PIBView, q: PIBView, param: PIBProperty)
    requires
        !is_fixed_attribute(param),
    ensures
        pib_get(p, param) is Ok,
        pib_get(q, param) is Ok,
        same_kind(pib_get(p, param)->Ok_0, pib_get(q, param)->Ok_0),
{
}

/// Setting the PAN id to any identifier succeeds and the PIB then holds it.
pub proof fn lemma_set_pan_id(p: PIBView, x: PANID)
    ensures
        pib_set(p, PIBProperty::MacPanId, PIBValueView::PANID(x)).1 is Ok,
        pib_set(p, PIBProperty::MacPanId, PIBValueView::PANID(x)).0 == (PIBView { mac_pan_id: x, ..p }),
{
}

/// The fixed attributes are never written: the PIB stays as it was and the
/// request is refused.
pub proof fn lemma_fixed_attribute_refused(p: PIBView, param: PIBProperty, v: PIBValueView)
    requires
        is_fixed_attribute(param),
    ensures
        pib_set(p, param, v).0 == p,
        pib_set(p, param, v).1 is Err,
{
}

impl PIB {
    /// A PIB for a device with the given extended address and radio
    /// channel; the sequence numbers start at random values.
    pub fn new(extended_address: ExtendedAddress, phy_current_channel: u16, phy_max_tx_power: u16) -> (r: PIB)
        ensures
            is_fresh_pib(r@, extended_address, phy_current_channel, phy_max_tx_power),
    {
        PIB {
            mac_extended_address: extended_address,
            mac_associated_pan_coord: None,
            mac_association_permit: false,
            mac_beacon_payload: Vec::new(),
            mac_bsn: random_u8(),
            mac_dsn: random_u8(),
            mac_pan_id: PANID(0xFFFF),
            mac_short_address: ShortAddress(0xFFFF),
            mac_beacon_auto_respond: false,
            mac_transaction_persistence_time: duration_from_secs(5 * 60),
            mac_max_frame_retries: 3,
            phy_current_channel,
            phy_max_tx_power,
            phy_tx_power: phy_max_tx_power,
        }
    }

    /// Resets the PIB to its defaults, keeping the extended address and the
    /// channel; the current transmit power becomes the maximum.
    pub fn reset(&mut self)
        ensures
            is_fresh_pib(final(self)@, old(self).mac_extended_address, old(self).phy_current_channel, old(self).phy_tx_power),
    {
        *self = PIB::new(self.mac_extended_address, self.phy_current_channel, self.phy_tx_power);
    }

    /// The value of `param`; `Err(())` for the frame retry count, which is
    /// not kept as an attribute value.
    pub fn get(&self, param: PIBProperty) -> (r: Result<PIBValue, ()>)
        ensures
            match pib_get(self@, param) {
                Ok(v) => r matches Ok(w) && w@ == v,
                Err(()) => r is Err,
            },
    {
        match param {
            PIBProperty::MacExtendedAddress => Ok(PIBValue::ExtendedAddress(self.mac_extended_address)),
            PIBProperty::MacAssociatedPanCoord => {
                let v = match self.mac_associated_pan_coord {
                    Some((e, s)) => PIBValue::Pair(
                        Box::new(PIBValue::ExtendedAddress(e)),
                        Box::new(PIBValue::ShortAddress(s)),
                    ),
                    None => PIBValue::Empty,
                };
                proof {
                    reveal_with_fuel(pib_value_view, 2);
                }
                Ok(v)
            },
            PIBProperty::MacAssociationPermit => Ok(PIBValue::Bool(self.mac_association_permit)),
            PIBProperty::MacBeaconPayload => {
                let payload = self.mac_beacon_payload.clone();
                assert(payload@ =~= self.mac_beacon_payload@);
                Ok(PIBValue::Blob(payload))
            },
            PIBProperty::MacBsn => Ok(PIBValue::U8(self.mac_bsn)),
            PIBProperty::MacDsn => Ok(PIBValue::U8(self.mac_dsn)),
            PIBProperty::MacPanId => Ok(PIBValue::PANID(self.mac_pan_id)),
            PIBProperty::MacShortAddress => Ok(PIBValue::ShortAddress(self.mac_short_address)),
            PIBProperty::MacBeaconAutoRespond => Ok(PIBValue::Bool(self.mac_beacon_auto_respond)),
            PIBProperty::MacTransactionPersistenceTime => Ok(PIBValue::Duration(self.mac_transaction_persistence_time)),
            PIBProperty::PhyCurrentChannel => Ok(PIBValue::U16(self.phy_current_channel)),
            PIBProperty::PhyMaxTxPower => Ok(PIBValue::U16(self.phy_max_tx_power)),
            PIBProperty::PhyTxPower => Ok(PIBValue::U16(self.phy_tx_power)),
            PIBProperty::MacMaxFrameRetries => Err(()),
        }
    }

    /// Sets `param` to `value`.
    pub fn set(&mut self, param: PIBProperty, value: PIBValue) -> (r: Result<(), mlme::Error>)
        ensures
            (final(self)@, r) == pib_set(old(self)@, param, value@),
    {
        match param {
            PIBProperty::MacExtendedAddress => Err(mlme::Error::ReadOnly),
            PIBProperty::MacAssociationPermit => match value {
                PIBValue::Bool(b) => {
                    self.mac_association_permit = b;
                    Ok(())
                },
                _ => Err(mlme::Error::InvalidParameter),
            },
            PIBProperty::MacBeaconPayload => match value {
                PIBValue::Blob(b) => {
                    self.mac_beacon_payload = b;
                    Ok(())
                },
                _ => Err(mlme::Error::InvalidParameter),
            },
            PIBProperty::MacBsn => match value {
                PIBValue::U8(x) => {
                    self.mac_bsn = x;
                    Ok(())
                },
                _ => Err(mlme::Error::InvalidParameter),
            },
            PIBProperty::MacDsn => match value {
                PIBValue::U8(x) => {
                    self.mac_dsn = x;
                    Ok(())
                },
                _ => Err(mlme::Error::InvalidParameter),
            },
            PIBProperty::MacPanId => match value {
                PIBValue::PANID(x) => {
                    self.mac_pan_id = x;
                    Ok(())
                },
                _ => Err(mlme::Error::InvalidParameter),
            },
            PIBProperty::MacShortAddress => match value {
                PIBValue::ShortAddress(x) => {
                    self.mac_short_address = x;
                    Ok(())
                },
                _ => Err(mlme::Error::InvalidParameter),
            },
            PIBProperty::MacBeaconAutoRespond => match value {
                PIBValue::Bool(b) => {
                    self.mac_beacon_auto_respond = b;
                    Ok(())
                },
                _ => Err(mlme::Error::InvalidParameter),
            },
            PIBProperty::MacTransactionPersistenceTime => match value {
                PIBValue::Duration(d) => {
                    self.mac_transaction_persistence_time = d;
                    Ok(())
                },
                _ => Err(mlme::Error::InvalidParameter),
            },
            PIBProperty::PhyCurrentChannel => match value {
                PIBValue::U16(x) => {
                    self.phy_current_channel = x;
                    Ok(())
                },
                _ => Err(mlme::Error::InvalidParameter),
            },
            PIBProperty::PhyMaxTxPower => match value {
                PIBValue::U16(x) => {
                    self.phy_max_tx_power = x;
                    Ok(())
                },
                _ => Err(mlme::Error::InvalidParameter),
            },
            PIBProperty::PhyTxPower => match value {
                PIBValue::U16(x) => {
                    self.phy_tx_power = x;
                    Ok(())
                },
                _ => Err(mlme::Error::InvalidParameter),
            },
            PIBProperty::MacAssociatedPanCoord => Err(mlme::Error::UnsupportedAttribute),
            PIBProperty::MacMaxFrameRetries => Err(mlme::Error::UnsupportedAttribute),
        }
    }

    /// Returns the beacon sequence number and advances it, wrapping at 256.
    pub fn next_beacon_sequence_nr(&mut self) -> (r: u8)
        ensures
            r == old(self).mac_bsn,
            final(self)@ == (PIBView { mac_bsn: ((old(self).mac_bsn + 1) % 256) as u8, ..old(self)@ }),
    {
        let ret = self.mac_bsn;
        self.mac_bsn = self.mac_bsn.wrapping_add(1);
        ret
    }

    /// Returns the data sequence number and advances it, wrapping at 256.
    pub fn next_data_sequence_nr(&mut self) -> (r: u8)
        ensures
            r == old(self).mac_dsn,
            final(self)@ == (PIBView { mac_dsn: ((old(self).mac_dsn + 1) % 256) as u8, ..old(self)@ }),
    {
        let ret = self.mac_dsn;
        self.mac_dsn = self.mac_dsn.wrapping_add(1);
        ret
    }

    /// The device's own address: the short address when one is assigned,
    /// else the extended address, with the PAN identifier.
    pub fn get_full_short_address(&self) -> (r: FullAddress)
        ensures
            r.pan_id == self.mac_pan_id,
            r.address == if self.mac_short_address != ShortAddress(0xFFFE) {
                Address::Short(self.mac_short_address)
            } else {
                Address::Extended(self.mac_extended_address)
            },
    {
        FullAddress {
            pan_id: self.mac_pan_id,
            address: if self.mac_short_address.0 != ShortAddress::none_assigned().0 {
                Address::Short(self.mac_short_address)
            } else {
                Address::Extended(self.mac_extended_address)
            },
        }
    }

    /// The device's extended address, with the PAN identifier.
    pub fn get_full_extended_address(&self) -> (r: FullAddress)
        ensures
            r == (FullAddress { pan_id: self.mac_pan_id, address: Address::Extended(self.mac_extended_address) }),
    {
        FullAddress { pan_id: self.mac_pan_id, address: Address::Extended(self.mac_extended_address) }
    }
}

} // verus!
