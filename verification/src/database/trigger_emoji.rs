//! The per-server trigger emoji store: the decision of how a new emoji is
//! written. The store itself lives in a database reached by the caller.

use vstd::prelude::*;

verus! {

/// How a server's trigger emoji is written.
pub enum EmojiWrite {
    /// The server has no record yet: insert one.
    Insert,
    /// The server has a record: update its emoji.
    Update,
}

/// A new emoji is inserted for a server that has none, and updated for a
/// server that has one.
pub fn emoji_write(existing: &Option<String>) -> (r: EmojiWrite)
    ensures
        (r is Insert) == (existing is None),
{
    match existing {
        None => EmojiWrite::Insert,
        Some(_) => EmojiWrite::Update,
    }
}

} // verus!
