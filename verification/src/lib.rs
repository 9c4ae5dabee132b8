//! Building blocks of an IEEE 802.15.4 / Zigbee coordinator: MAC frame
//! encoding, the MAC PIB, pending-data bookkeeping and the serial protocol
//! spoken with the radio dongle.
pub mod ieee802154;
pub mod coordinator;
pub mod item;
pub mod map_update;
pub mod mru_set;
pub mod pack;
pub mod parse_serialize;
pub mod radio;
pub mod radio_bridge;
pub mod saved_waker;
pub mod tokenmap;
pub mod unique_key;
pub mod waker_store;
pub mod zigbee;
