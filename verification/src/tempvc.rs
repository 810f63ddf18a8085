//! Temporary voice channels: joining the hub creates a personal channel,
//! and a temporary channel that empties is deleted.
use vstd::prelude::*;
use crate::text::{append_chars, chars_eq, chars_of, decimal, decimal_chars, string_of};

verus! {

/// Whether joining `joined` is joining the guild's hub, whose id is stored
/// as text.
pub fn joins_hub(joined: Option<u64>, hub: Option<&str>) -> (r: bool)
    ensures
        r == (joined is Some && hub is Some && hub->0@ == decimal(joined->0 as nat)),
{
    match (joined, hub) {
        (Some(c), Some(h)) => chars_eq(&chars_of(h), &decimal_chars(c)),
        _ => false,
    }
}

/// The name of the channel created for a member who joins the hub: `🔊 `
/// and the member's display name, or `Salon` when it is unknown.
pub fn temp_channel_name(display_name: Option<&str>) -> (r: String)
    ensures
        r@ == "🔊 "@ + match display_name {
            Some(n) => n@,
            None => "Salon"@,
        },
{
    let mut name = chars_of("🔊 ");
    match display_name {
        Some(n) => append_chars(&mut name, &chars_of(n)),
        None => append_chars(&mut name, &chars_of("Salon")),
    }
    string_of(&name)
}

/// Nobody's voice state is in `channel`.
pub open spec fn unoccupied(states: Seq<Option<u64>>, channel: u64) -> bool {
    forall|i: int| 0 <= i < states.len() ==> states[i] != Some(channel)
}

/// Whether nobody's voice state is in `channel`.
fn is_unoccupied(states: &Vec<Option<u64>>, channel: u64) -> (r: bool)
    ensures
        r == unoccupied(states@, channel),
{
    let mut i: usize = 0;
    while i < states.len()
        invariant
            i <= states.len(),
            forall|j: int| 0 <= j < i ==> states@[j] != Some(channel),
        decreases states.len() - i,
    {
        if states[i] == Some(channel) {
            assert(states@[i as int] == Some(channel));
            return false;
        }
        i = i + 1;
    }
    true
}

/// Whether the channel a member left is deleted: it is a temporary one
/// that nobody is in any more. When the guild is not in the cache its
/// voice states cannot be read; the channel the member just left is then
/// taken to be empty and deleted.
pub fn deletes_left_channel(left: u64, is_temp: bool, states: Option<&Vec<Option<u64>>>) -> (r: bool)
    ensures
        r == (is_temp && match states {
            Some(s) => unoccupied(s@, left),
            None => true,
        }),
{
    if !is_temp {
        return false;
    }
    match states {
        None => true,
        Some(s) => is_unoccupied(s, left),
    }
}

} // verus!
