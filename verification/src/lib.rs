//! Text-processing core of the CodeGod code-running chat bot: parsing of
//! messages (arguments, fenced code blocks, language tags), the language
//! tables of the compilers it forwards code to, the requests it sends them,
//! the handling of their replies, and the decisions taken around a run.

pub use vstd::hash_map::StringHashMap;
pub use vstd::hash_set::StringHashSet;

pub mod commands;
pub mod compilers;
pub mod database;
pub mod events;
pub mod numeric;
pub mod text;
pub mod utils;
