//! Exposes the file tree of tethered Android devices as host volumes: the
//! wire protocol, the caches, the device list parser and the decisions of the
//! host-side adapter and of the on-device daemon.

mod utf8_text;

pub mod adapter;
pub mod adb;
pub mod cache;
pub mod client;
pub mod daemon;
pub mod models;
pub mod requests;
pub mod responses;
pub mod supervisor;
pub mod wire;
pub mod messages;
pub mod protocol;
