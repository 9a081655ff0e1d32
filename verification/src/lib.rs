//! A named, disk-persisted string-to-string map. A store is obtained by
//! name; the name is used verbatim as the path of the backing file, whose
//! whole content is one JSON object of the shape `{"inner":{...}}`.
//!
//! The file is modeled here as a plain value, `Option<String>`: `None` when
//! the file does not exist, `Some(text)` when it holds `text`. Callers that
//! keep real files hand the current content in and write the new content
//! back out after each operation.

pub mod codec;
pub mod late;
pub mod laws;
pub mod persist;
pub mod snapshot;
pub mod store;

pub use crate::late::{create_or_load_late_save_map_env, LateSaveMapEnv};
pub use crate::persist::{env_default_at, PersistenceEnv, StoreError};
pub use crate::snapshot::Snapshot;
pub use crate::store::{create_or_load_map_env, MapEnv};
