//! Bang-style search shortcuts: resolve a free-text query to a redirect URL.
//!
//! A query is a `+`-separated list of words.  If some word is a recognized
//! shortcut token (such as `!gh`), the query is redirected to that shortcut's
//! site or search URL; otherwise it falls through to a default search engine.

pub mod resolver;
pub mod table;
pub mod text;
