use vstd::prelude::*;

verus! {

/// Failures surfaced to the caller. Lookup failures carry the symbol bytes
/// that were asked for; `Corrupt` marks ledger-fetched bytes that do not
/// decode; `InvalidAddress` and `InvalidInteger` mark malformed caller input.
#[derive(Debug)]
pub enum Error {
    /// No active market in the snapshot carries this symbol.
    MarketSymbolNotFound(Vec<u8>),
    /// No active collateral in the snapshot carries this oracle symbol.
    CollateralSymbolNotFound(Vec<u8>),
    /// The user has no open-orders account for this market yet.
    OpenOrdersNotFound(Vec<u8>),
    /// Account bytes fetched from the ledger do not match the expected layout.
    Corrupt,
    /// A caller-supplied account address did not parse.
    InvalidAddress,
    /// A caller-supplied numeric filter did not parse.
    InvalidInteger,
}

impl Error {
    /// Stable discriminant for the surrounding application's status mapping:
    /// lookup and input errors are caller faults, `Corrupt` an upstream one.
    pub fn kind_code(&self) -> (r: u32)
        ensures
            r == 0 <==> self is MarketSymbolNotFound,
            r == 1 <==> self is CollateralSymbolNotFound,
            r == 2 <==> self is OpenOrdersNotFound,
            r == 3 <==> self is Corrupt,
            r == 4 <==> self is InvalidAddress,
            r == 5 <==> self is InvalidInteger,
    {
        match self {
            Error::MarketSymbolNotFound(_) => 0,
            Error::CollateralSymbolNotFound(_) => 1,
            Error::OpenOrdersNotFound(_) => 2,
            Error::Corrupt => 3,
            Error::InvalidAddress => 4,
            Error::InvalidInteger => 5,
        }
    }
}

} // verus!
