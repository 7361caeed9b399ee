//! Verified core of a terminal browser for the keys and values of a Redis server:
//! the state of the screen and how it answers keys, the filtering and ordering of
//! keys, and the contents of hash values.
pub mod app;
pub mod laws;
pub mod list_state;
pub mod redis_client;
pub mod sort;
pub mod text;

pub use app::{App, KeyCode, KeyEvent, KeyEventKind, Mode, Part, RedisKeysItem, ValuePanel};
pub use redis_client::{is_hash_type, render_redis_value, RedisHash, RedisValue};
pub use sort::sort_strings;
pub use text::horizontal_slice;
