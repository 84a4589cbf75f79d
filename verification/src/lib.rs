//! Conversion of amateur-radio contact logs from ADIF (a tag-value text
//! format) into the sectioned REG1TEST text used by contest software.
//!
//! The library works on an already parsed document ([`tree::ParseNode`]) and
//! produces the REG1TEST text, one section per radio band
//! ([`converter::convert_to_reg1test`]).
//!
//! What a conversion gives is stated once, as a mathematical walk over the
//! document ([`model`]), which the executable walk ([`walk`]) follows step
//! by step. The walk pairs tag names with their values through latches
//! ([`utils`], [`tags`]), normalises the values ([`text`], [`reg1test`]),
//! keeps the earliest and the latest contact date ([`dates`]) and gathers
//! the contacts band by band ([`bands`]).
//!
//! [`laws`] holds what follows for every document, [`latches`] what a
//! single field does, and [`ledger`] the reasoning that both rest on.
//!
//! Around the conversion, [`cli`] decides what a command line asks for, and
//! [`files`] cuts the text into one file for each band.

pub mod bands;
pub mod cli;
pub mod converter;
pub mod dates;
pub mod files;
pub mod latches;
pub mod laws;
pub mod ledger;
pub mod model;
pub mod reg1test;
pub mod tags;
pub mod text;
pub mod tree;
pub mod utils;
pub mod walk;
