//! Constants that the whole library shares.

use vstd::prelude::*;

verus! {

/// ROOT_PATH indicates the location of vaults in the file system
pub const ROOT_PATH: &'static str = "./.zpass";

/// SECRET_LENGTH indicates the length of the vault-secret in characters
pub const SECRET_LENGTH: usize = 256;

} // verus!
