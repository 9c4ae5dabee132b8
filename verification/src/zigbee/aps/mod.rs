//! The Zigbee application support sub-layer.
pub mod frame;
