//! Core logic of a local-network diagnostics dashboard: IPv4/CIDR
//! arithmetic, a cancellable subnet-scan run, an ICMP ping session with
//! rolling statistics, traffic-rate sampling, adapter cataloguing, and the
//! small pieces of state (tabs, cursors, settings, localisation) that drive
//! them.
//!
//! Everything here is plain data and decisions. The I/O around it (the
//! terminal, the OS queries, the probing sockets) lives in the front end,
//! which feeds outcomes in as plain values and reads plain values back.

pub mod config;
pub mod dashboard;
pub mod i18n;
pub mod ifaces;
pub mod ip;
pub mod nav;
pub mod ping;
pub mod ring;
pub mod scanner;
pub mod settings;
pub mod text;
pub mod traffic;
