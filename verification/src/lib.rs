//! Single-session FTP/FTPS transfer engine: a verified core.
//!
//! The library holds the decision logic of the engine: the
//! directory-listing parser, the presentation ordering of listings, the
//! session state machine with its one-session invariant, transfer-progress
//! accounting, and the recursive folder-download engine as an explicit
//! step machine. Network and file I/O are performed by a driver outside
//! the library, which executes the actions these functions decide on and
//! feeds the outcomes back in.

pub mod cloud;
pub mod config;
pub mod errors;
pub mod local;
pub mod policy;
pub mod listing;
pub mod order;
pub mod session;
pub mod text;
pub mod transfer;
pub mod verbs;
pub mod walk;
