//! The logic of the FeO node runtime and its upload client: the framing of packets, the
//! messages of upload and start sessions on both sides, which files an upload leaves out,
//! and the decisions taken on what the native runtime reports.
pub mod frame;
pub mod link;
pub mod paths;
pub mod protocol;
pub mod text;
