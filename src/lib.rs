//! Capture the open application windows of a desktop session, persist the
//! commands that launched them, and replay those commands later.
pub mod codec;
pub mod decode;
pub mod listing;
pub mod paths;
pub mod record;
pub mod resolve;
pub mod restore;
mod round_trip;
pub mod store;
pub mod text;
