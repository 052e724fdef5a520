//! A verified core for a dynamically-typed query interface over an embedded
//! SQL engine.
//!
//! The crate holds the pure logic of such a bridge: the bidirectional codec
//! between native column values and the dynamic value model, ordered result
//! rows and their decoding, versioned migration lists and the one-shot
//! pending-migration map, the registry of live connection pools, and
//! connection-URL resolution. The asynchronous engine calls themselves
//! (connecting, migrating, running statements) are performed by an embedding
//! layer, which hands plain values in and out of this core and stores its
//! pool handles in the registry.

pub mod assoc;
pub mod error;
pub mod migrations;
pub mod options;
pub mod registry;
pub mod row;
pub mod value;

pub use error::Error;
pub use migrations::{Builder, Migration, MigrationKind, MigrationList, PendingMigrations};
pub use options::{path_mapper, ConnectOptions, PluginConfig};
pub use registry::DbInstances;
pub use row::Row;
pub use value::{BoundParam, ColumnValue, DynValue};
