//! Verified core of a console avatar-editor: a fixed-layout binary record
//! codec with packed bit-fields, the checksummed profile database built on
//! it, and the resource-container, texture and model decoders.

pub mod asset;
pub mod codec;
pub mod crc;
pub mod database;
pub mod model;
pub mod romfs;
pub mod sample;
pub mod texture;
pub mod ui;
