use vstd::prelude::*;

verus! {

/// The error kinds of the engine.
///
/// `NotFound` — no process matches a filter, or no meta-type candidate
/// verifies. `InvalidAddr` — a zero or unusable address was supplied to the
/// node factory. `OutOfBounds` — a typed view would exceed the region it
/// targets. `NotMapped` — an address lies in no snapshotted region.
/// `DecodeFail` — a decoder met bytes it cannot interpret (empty type name,
/// unsupported key type, a tail past the snapshot). `ReadError` — the target
/// memory provider failed to read.
#[derive(Clone, Copy, Debug, PartialEq, Eq, Structural)]
pub enum EngineError {
    NotFound,
    InvalidAddr,
    OutOfBounds,
    NotMapped,
    DecodeFail,
    ReadError,
}

impl EngineError {
    /// A short human-readable description of the error kind.
    pub fn describe(&self) -> (r: &'static str)
        ensures
            r@.len() > 0,
    {
        let s = match self {
            EngineError::NotFound => "not found",
            EngineError::InvalidAddr => "invalid address",
            EngineError::OutOfBounds => "out of bounds",
            EngineError::NotMapped => "address not mapped",
            EngineError::DecodeFail => "decode failed",
            EngineError::ReadError => "read error",
        };
        proof {
            reveal_strlit("not found");
            reveal_strlit("invalid address");
            reveal_strlit("out of bounds");
            reveal_strlit("address not mapped");
            reveal_strlit("decode failed");
            reveal_strlit("read error");
        }
        s
    }
}

} // verus!
