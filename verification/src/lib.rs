//! Core logic of the jsscli command-line client for JSS / Frappe sites.
pub mod text;
pub mod strmap;
pub mod error;
pub mod settings;
pub mod cli;
pub mod accounts;
pub mod crypto;
pub mod session;
pub mod json;
pub mod output;
pub mod parsing;
pub mod reports;
pub mod replies;
