//! Configuration errors.

use vstd::prelude::*;

verus! {

/// Raised when a configuration is invalid or inconsistent, or when an MLS
/// configuration is used that is not supported.
#[derive(Clone, Copy, Debug, PartialEq, Eq, Structural)]
pub enum ConfigError {
    InvalidConfig,
    UnsupportedMlsVersion,
    UnsupportedCiphersuite,
    UnsupportedSignatureScheme,
    UnsupportedProposalType,
    UnsupportedExtensionsType,
    IncompatibleMlsVersion,
    IncompatibleCiphersuite,
    LibraryError,
}

} // verus!
