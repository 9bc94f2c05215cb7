//! Core data model and codecs for DICOM data sets.
//!
//! - [`tag`], [`vr`], [`header`]: the names of attributes, value
//!   representations, lengths and headers.
//! - [`value`], [`conversion`], [`wire`]: primitive values, their readings as
//!   integers and text, and their bytes.
//! - [`object`], [`dictionary`]: data elements and the object that holds them
//!   in the order of their tags.
//! - [`source`], [`endian`], [`decode`], [`encode`]: reading and writing of
//!   numbers and headers in the three encodings.
//! - [`dataset`]: whole data sets on the wire, with sequences, items and
//!   fragments, and what reading and writing have to do with each other.
//! - [`registry`]: transfer syntaxes by their identifiers.
//! - [`json`]: the JSON form of data sets.
//! - [`pixeldata`]: decoding of pixel data.

pub mod conversion;
pub mod dataset;
pub mod decimal;
pub mod decode;
pub mod dictionary;
pub mod encode;
pub mod endian;
pub mod header;
pub mod ieee;
pub mod json;
pub mod object;
pub mod pixeldata;
pub mod registry;
pub mod source;
pub mod tag;
pub mod text;
pub mod value;
pub mod vr;
pub mod wire;
