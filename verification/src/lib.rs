//! Finding, installing and asking the `resolc` compiler.
//!
//! The modules [`compiler`], [`install`], [`process`] and [`versions`] decide what
//! to run, what to fetch and what the outcome means. They touch neither files nor
//! processes nor the network: a caller carries out what they ask for and hands
//! back what came of it. The modules whose names end in `laws` state what holds of
//! several of these functions together. What is taken as known about other crates
//! stands in [`outside`].

pub mod compiler;
pub mod error;
pub mod install;
pub mod install_laws;
pub mod laws;
pub mod listing_laws;
pub mod machine_laws;
pub mod operation_laws;
pub mod order;
pub mod os;
pub mod outside;
pub mod paths;
pub mod precedence;
pub mod process;
pub mod reading_laws;
pub mod report_laws;
pub mod text;
pub mod text_laws;
pub mod version;
pub mod version_laws;
pub mod versions;
