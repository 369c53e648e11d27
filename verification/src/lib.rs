//! Bluetooth mesh lower-transport PDUs and configuration messages: parsing
//! them from bytes, emitting them into bounded buffers, and the decisions a
//! configuration server makes on AppKey messages, with verified contracts.

pub mod app_key;
pub mod buffer;
pub mod common;
pub mod composition;
pub mod composition_data;
pub mod configuration;
pub mod lower;
pub mod network;
pub mod opcode;
