//! The decisions of the bot's chat commands; the chat work stays with the
//! caller.

use vstd::prelude::*;

verus! {

/// The first reply of `setemoji`: the command only works in a server and
/// only for its administrators; otherwise the user is asked to react with
/// the new emoji.
pub open spec fn setemoji_prompt_of(in_guild: bool, is_admin: bool) -> (Seq<char>, bool) {
    if !in_guild {
        ("This command can only be used in a guild/server."@, false)
    } else if !is_admin {
        ("I'm sorry, this command is admin only."@, false)
    } else {
        ("React to this message with the emoji you want to set."@, true)
    }
}

/// The first reply of `setemoji`, and whether to wait for the emoji (see
/// `setemoji_prompt_of`).
pub fn setemoji_prompt(in_guild: bool, is_admin: bool) -> (r: (String, bool))
    ensures
        (r.0@, r.1) == setemoji_prompt_of(in_guild, is_admin),
{
    if !in_guild {
        (String::from_str("This command can only be used in a guild/server."), false)
    } else if !is_admin {
        (String::from_str("I'm sorry, this command is admin only."), false)
    } else {
        (String::from_str("React to this message with the emoji you want to set."), true)
    }
}

/// The final reply of `setemoji`: `stored` is `None` when nobody reacted in
/// time, else whether the emoji was stored.
pub open spec fn setemoji_outcome_of(stored: Option<bool>, emoji: Seq<char>) -> Seq<char> {
    match stored {
        None => "You did not react in time."@,
        Some(true) => "Successfully set the trigger emoji to "@ + emoji + "."@,
        Some(false) => "An error occured while setting the emoji, please try again."@,
    }
}

/// Builds the final reply of `setemoji` (see `setemoji_outcome_of`).
pub fn setemoji_outcome(stored: Option<bool>, emoji: &str) -> (r: String)
    ensures
        r@ == setemoji_outcome_of(stored, emoji@),
{
    match stored {
        None => String::from_str("You did not react in time."),
        Some(true) => {
            let mut m = String::from_str("Successfully set the trigger emoji to ");
            m.append(emoji);
            m.append(".");
            m
        },
        Some(false) => String::from_str(
            "An error occured while setting the emoji, please try again.",
        ),
    }
}

} // verus!
