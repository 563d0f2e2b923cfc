//! pwdv: a local encrypted password vault. The file format, the two-level
//! key scheme (password → Argon2id → KEK → DEK → vault), the storage rules and
//! the decisions of the command line and of the graphical interface.

pub mod error;
pub mod wipe;
pub mod key;
pub mod text;
pub mod format;
pub mod crypto;
pub mod vault;
pub mod store;
pub mod security;
pub mod unlock;
pub mod search;
pub mod main_view;
pub mod app;
pub mod calendar;
pub mod cli;
