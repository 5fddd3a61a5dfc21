//! Static checks for Soroban smart-contract source code.

pub mod syntax;
pub mod text;
pub mod walk;
pub mod numbering;
pub mod finding;
pub mod contract;
pub mod checks;
