//! MiZe: items made of CBOR-like data, addressed by ids, kept in stores and
//! exchanged with peers through a small message protocol.

pub mod value;
pub mod text;
pub mod error;
pub mod item;
pub mod formats;
pub mod id;
pub mod proto;
pub mod item_laws;
pub mod memstore;
pub mod instance;
pub mod updater;
pub mod instance_laws;
pub mod log;
pub mod tracer;
pub mod module;
pub mod fsstore;
pub mod unix_socket;
pub mod web;
pub mod itemstore;
pub mod server;
pub mod os;
