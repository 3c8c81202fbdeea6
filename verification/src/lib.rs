//! Checks the completeness and validity of `NatSpec` doc-comments in Solidity source items.
//!
//! The library holds the comment grammar, the validation rules and the position bookkeeping;
//! reading files and walking the Solidity syntax tree is left to the caller.
pub mod config;
pub mod textindex;
pub mod definitions;
pub mod natspec;
pub mod comment;
pub mod lint;
pub mod error;
pub mod parser;
pub mod items;
pub mod tree;
pub mod solidity;
pub mod overrides;
pub mod case;
pub mod files;
pub mod laws;
pub mod sort;
mod text;
