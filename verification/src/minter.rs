use vstd::prelude::*;

verus! {

/// Static configuration of the mint entry points: the code id of the
/// collection contract they instantiate.
#[derive(Debug, Clone, Copy, PartialEq, Eq, Structural)]
pub struct Config {
    pub collection_code_id: u64,
}

/// The messages the mint execution entry point accepts.  The entry point
/// itself dispatches cross-contract calls and lives outside the verified
/// core.
#[derive(Debug, Clone, PartialEq, Eq)]
pub enum ExecuteMsg {
    Mint { token_uri: String },
}

/// The response of the mint entry points' configuration query.
#[derive(Debug, Clone, Copy, PartialEq, Eq, Structural)]
pub struct ConfigResponse {
    pub config: Config,
}

} // verus!
