//! Client side of a line-oriented, CRC-checked ASCII protocol spoken by
//! inverter and UPS class power devices.
//!
//! The framing codec turns a growing byte buffer into validated responses and
//! requests into wire bytes; each device command supplies its own identifier
//! and payload grammar; the inverter engine decides, one read at a time, when
//! an exchange is complete.

pub mod buffer;
pub mod codec;
pub mod command;
pub mod commands;
pub mod crc;
pub mod error;
pub mod inverter;
pub mod text;
