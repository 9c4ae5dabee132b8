//! The IEEE 802.15.4 MAC layer.
pub mod combinedpendingtable;
pub mod commands;
pub mod data;
pub mod device_queue;
pub mod devicequeue;
pub mod frame;
pub mod frame_queue;
pub mod management;
pub mod mru_address_set;
pub mod pending_handler;
pub mod pendingtable;
pub mod queue;
pub mod service;
