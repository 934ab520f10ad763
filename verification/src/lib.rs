//! Library of a LAN device scanner: address arithmetic, text parsing of
//! command output, the device list and the terminal application state.

pub mod text;
pub mod ipv4;
pub mod device;
pub mod cidr;
pub mod app;
pub mod arp;
pub mod scanner;
pub mod events;
pub mod laws;
pub mod view_text;
pub mod layout;
