//! Reconstruction of a runtime object graph from read-only snapshots of a
//! game client's memory: region bookkeeping and lookup, parallel structural
//! scanning, discovery of the self-typed meta-type, an address-keyed object
//! cache, and typed decoders for the runtime's object headers.

pub mod error;
pub mod region;
pub mod process;
pub mod py_struct;
pub mod scan;
pub mod engine;
pub mod parser;
pub mod laws;
