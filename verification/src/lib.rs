//! Verified core of the Fankor framework's code generators: the checks of
//! the `Fankor.toml` configuration, the argument lists of the attribute
//! macros, the numbering of discriminants and error codes, the rules of the
//! `#[account(...)]` attributes of instruction accounts, the plans of the
//! derived Borsh serializers, and the names that the generators derive.
//! The generators themselves read Rust syntax and write code around these
//! functions.

pub mod syntax;
pub mod numbers;
pub mod literals;
pub mod pubkey;
pub mod config;
pub mod meta_args;
pub mod attribute_args;
pub mod naming;
pub mod discriminants;
pub mod error_code;
pub mod type_options;
pub mod borsh_plan;
pub mod accounts;
pub mod program;
pub mod instruction;
pub mod account_field;
pub mod instruction_accounts;
pub mod field_laws;
pub mod zero_copy;
pub mod ts_gen;
