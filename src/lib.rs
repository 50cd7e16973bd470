//! Host-side VPN kill switch: gateway detection, interface discovery and
//! packet-filter rule synthesis, with the decisions of the firewall
//! controller kept separate from the commands that carry them out.
pub mod actions;
pub mod controller;
pub mod error;
pub mod interfaces;
pub mod ip;
pub mod ipv6;
pub mod network;
pub mod rules;
pub mod text;
pub mod verbosity;
