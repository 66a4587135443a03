//! Verified core of the Aria language tooling: the MIR data structures and
//! passes, and the text logic of the language server.

pub mod text;
pub mod lsp_types;
pub mod definition;
pub mod completion;
pub mod diagnostics;
pub mod assoc;
pub mod mir;
pub mod optimize;
pub mod contract_verifier;
pub mod ast;
pub mod lower;
pub mod lower_expr;
pub mod outline;
pub mod handlers;
pub mod display;
pub mod piece;
pub mod pretty;
pub mod state;
