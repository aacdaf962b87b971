//! Mole's packet layer and decision logic, verified.
//!
//! The crate parses just enough IPv4/IPv6, TCP and TLS to find a ClientHello and
//! its server name, reshapes that ClientHello with one of the desync strategies,
//! computes the checksums a deliberately broken decoy needs, encodes and decodes
//! the DNS-over-HTTPS wire format, and holds the decisions the probe, the live
//! engine, the service, the command line and the window make around them.
//! Everything that touches the network, the driver, the registry or the service
//! manager lives outside this crate and hands plain values in.

pub mod checksum;
pub mod packet;
pub mod text;
pub mod ffi;
pub mod windivert;
pub mod strategy;
pub mod label;
pub mod dns;
pub mod engine;
pub mod probe;
pub mod config;
pub mod service;
pub mod servicelog;
pub mod deploy;
pub mod serve;
pub mod cli;
pub mod gui;
