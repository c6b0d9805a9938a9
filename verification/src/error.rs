//! The ways an entry point can fail.

use vstd::prelude::*;

verus! {

/// Why a call was turned down. A call that fails leaves the state as it was.
#[derive(Clone, Copy, Debug, PartialEq, Eq, Structural)]
pub enum ContractError {
    /// The state holds no proxy address yet.
    NotFound,
    /// An answer could not be put into its wire form.
    Serialize,
    /// The host does not accept the proxy address.
    InvalidProxyAddress,
    /// The delivered randomness is not 32 bytes long.
    InvalidRandomness,
}

} // verus!
