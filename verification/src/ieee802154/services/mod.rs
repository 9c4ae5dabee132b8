//! The primitives of the MAC services (IEEE Std 802.15.4-2015, 8).
pub mod error;
pub mod mcps;
pub mod mlme;
pub mod mpcs;
