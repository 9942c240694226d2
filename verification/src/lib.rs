//! A local password manager core: vaults hold an encrypted secret from which
//! passwords are derived deterministically, together with per-domain
//! preferences.

pub mod cli;
pub use cli::parser;
pub use cli::run;

pub mod safe;
pub use safe::collection;
pub use safe::crypto;
pub use safe::preference;
pub use safe::vault;
