//! Reversible byte padding that lets arbitrary data be laid out as 32-byte
//! field-element symbols: a zero byte is put in front of every 31 payload bytes.

pub mod codec;

pub use codec::{convert_by_padding_empty_byte, remove_empty_byte_from_padded_bytes};
