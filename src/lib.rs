//! Builds subscription requests (`["REQ", <id>, <filter>...]`) for a
//! publish/subscribe event relay from already-resolved command-line options.

pub mod json;
pub mod filter;
pub mod options;
pub mod groups;
pub mod message;

pub use filter::Request;
pub use groups::split_groups;
pub use message::{assemble, assemble_request, GroupOptions};
pub use options::{request_from_cli, FilterOption};
