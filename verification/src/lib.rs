//! A key-value store facade whose values carry a one-byte "data level".
//!
//! Every stored value is framed as `[b'\n', level, b'\n', data...]`. A value may
//! only be overwritten by data whose level is not above the level already stored,
//! unless the write is forced. The modules hold the verified logic of the store:
//! the level framing, the decisions that surround each database operation, the
//! option settings handed to the storage engine, the request handling of the HTTP
//! front end and a few formatting helpers.

pub mod config;
pub mod error;
pub mod level;
pub mod redact;
pub mod server;
pub mod store;
pub mod text;
pub mod utils;


pub use config::{parse_recovery_mode, OptionSettings, RecoveryMode, RocksdbOptions};
pub use error::DbError;
pub use level::{check_level, DataLevel, DEFAULT_LEVEL, SEG};
pub use server::{authorize, call_and_serialize, token_matches, DbConfig, DbReply, HttpRequest, RequestType};
pub use store::{
    collect_prefix_entries, db_full_path, is_db_path_allowed, plan_put_batch, prepare_put, stored_value,
    PrefixScan,
};
pub use utils::{bytes_to_hide_hex, debug_hash_data, sha2_hash256};
