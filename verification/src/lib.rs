//! ETH token-balance PIR service layer.
//!
//! A server holds a record for each address and a keyword directory that names the
//! slot of each; a client resolves an address to a slot, queries the slot
//! privately, and verifies that what comes back belongs to the address.
//!
//! The PIR layer and the keyword directory themselves stand outside this crate:
//! each function that needs them takes the calls it makes as parameters, and says
//! what holds whatever they give back. Where a function hands something on, it says
//! exactly what is handed to the call; where the order of calls matters, each acts on
//! the outside world as the call before it left it.

pub mod address_map;
pub mod bytes;
pub mod client;
pub mod client_laws;
pub mod error;
pub mod function_laws;
pub mod laws;
pub mod record;
pub mod server;
pub mod shape;
pub mod text;

pub use client::{EthPirClient, LookupState, Session};
pub use error::{
    eth_error_to_io, EthIoError, EthPirError, KeywordError, PirError, WireError,
};
pub use record::{
    payload_of, record_of, Address, Balance, Record, RecordCodec, U256Balance, PAYLOAD_BYTES,
};
pub use server::keyword::{
    DirectoryState, KeywordCheckpoint, KeywordSyncMode, KeywordWire, RestoreReport,
};
pub use server::report::{
    Duration, InitTimings, KeywordRebuildTimings, MemoryReport, RefreshTimings, ServingMemory,
    ServingTimings,
};
pub use server::responder::EthPirResponder;
pub use server::service::Service;
pub use server::EthPirServer;
pub use shape::{default_shape, Collapse, Config, DatabaseLayout, DEFAULT_CAPACITY};
