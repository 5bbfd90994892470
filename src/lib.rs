//! Verified core of a desktop download and batch-task service: text helpers,
//! the task records and their store, the download retry and progress rules,
//! data-URI encoding of local files and the machine identifier.

pub mod text;
pub mod model;
pub mod store;
pub mod download;
pub mod media;
pub mod machine;
