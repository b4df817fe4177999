//! Read-only access to HFSQL tables: fixed-length record files, blob files
//! and index files, decoded into typed records.

pub mod activity;
pub mod api;
pub mod decode;
pub mod endian;
pub mod engine;
pub mod error;
pub mod fic;
pub mod logger;
pub mod migration;
pub mod mmo;
pub mod names;
pub mod ndx;
pub mod odbc;
pub mod query;
pub mod recency;
pub mod record;
pub mod schema;
pub mod settings;
pub mod tables;
pub mod text;
