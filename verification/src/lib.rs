//! A small library for IPv4 subnet calculation: an address type with
//! dotted-decimal parsing and formatting, the bitwise subnet arithmetic
//! (network address, broadcast address, subnet and host counts), and the
//! state machine behind an interactive calculator.

pub mod ip;
pub mod subnet;
pub mod app;
