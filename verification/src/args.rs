//! Command arguments, as the command framework splits a message.
use vstd::prelude::*;

verus! {

/// One argument: the argument itself, and the raw text of the message from
/// this argument to its end.
pub struct ArgToken {
    pub text: String,
    pub rest: String,
}

/// The texts of a command's arguments, in order.
pub open spec fn token_texts(toks: Seq<ArgToken>) -> Seq<Seq<char>> {
    toks.map_values(|t: ArgToken| t.text@)
}

} // verus!
