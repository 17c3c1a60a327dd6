//! Core of a columnar-table service exposed to a foreign host across a
//! runtime boundary where pointers cannot be shared: an opaque-handle
//! registry for native-owned resources, zero-copy table/column/row views
//! resolved through those handles, a byte-format sniffer with a fixed
//! precedence order, and compression configuration.  The actual columnar
//! codecs are an external collaborator reached through a narrow engine
//! layer.

pub mod builder;
pub mod compression;
pub mod compute;
pub mod detect;
pub mod engine;
pub mod error;
pub mod handles;
pub mod mem;
pub mod model;
pub mod plugin;
pub mod schema;
pub mod table;
pub mod text;
