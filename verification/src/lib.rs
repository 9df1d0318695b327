//! A personal reference-library manager core: classifies bibliographic
//! identifiers, resolves published versions of preprints, fetches citation
//! metadata, locates open-access PDFs, and derives deterministic citekeys.
use vstd::prelude::*;

pub mod citekey;
pub mod config;
pub mod date;
pub mod entry;
pub mod fetch;
pub mod json;
pub mod ops;
pub mod source;
pub mod tags;
pub mod text;

verus! {

} // verus!
