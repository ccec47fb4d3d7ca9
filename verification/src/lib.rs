//! A typed, self-describing property list: an ordered collection of named,
//! tagged values, together with the bridge that decodes it from, and encodes
//! it into, a foreign name/value list.
#![allow(non_camel_case_types)]

pub mod bridge;
pub mod error;
pub mod foreign;
pub mod laws;
pub mod list;
pub mod value;

pub use error::Error;
pub use foreign::{boolean_t, data_type_t, nvlist_t, nvpair_t};
pub use list::{List, Uniqueness};
pub use value::{Pair, PairValue};
