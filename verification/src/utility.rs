//! Channel utilities and member information: slow mode, locking, the
//! `userinfo` card, the moderation log channel.
use vstd::prelude::*;
use crate::args::ArgToken;
use crate::mention::{channel_id_of, parse_channel_mention, parse_user_id, role_mention, role_mention_chars, user_id_of};
use crate::perms::{Overwrite, Target, SEND_MESSAGES};
use crate::text::{chars_of, join, join_chars, parse_unsigned, parse_unsigned_chars, string_of};

verus! {

/// The longest slow mode Discord accepts, in seconds (six hours).
pub const MAX_SLOWMODE: u16 = 21600;

/// The slow mode that `slowmode` sets: its argument as a `u16`, at most
/// six hours; `None` for a usage error.
pub fn plan_slowmode(toks: &Vec<ArgToken>) -> (r: Option<u16>)
    ensures
        r == if toks.len() == 0 {
            None
        } else {
            match parse_unsigned(toks@[0].text@, 65535) {
                Some(n) => if n <= 21600 {
                    Some(n as u16)
                } else {
                    None
                },
                None => None,
            }
        },
{
    if toks.len() == 0 {
        return None;
    }
    match parse_unsigned_chars(&chars_of(toks[0].text.as_str()), 65535) {
        Some(n) => if n <= 21600 {
            Some(n as u16)
        } else {
            None
        },
        None => None,
    }
}

/// The channel that `lock` or `unlock` acts on: the one its argument
/// names, else the current one.
pub fn target_channel(toks: &Vec<ArgToken>, current: u64) -> (r: u64)
    ensures
        r == if toks.len() > 0 {
            match channel_id_of(toks@[0].text@) {
                Some(c) => c,
                None => current,
            }
        } else {
            current
        },
{
    if toks.len() == 0 {
        return current;
    }
    match parse_channel_mention(toks[0].text.as_str()) {
        Some(c) => c,
        None => current,
    }
}

/// The overwrite that `lock` sets: `@everyone` (the role whose id is the
/// guild's) may not send messages.
pub fn lock_overwrite(guild: u64) -> (r: Overwrite)
    ensures
        r == (Overwrite { target: Target::Role(guild), allow: 0, deny: SEND_MESSAGES }),
{
    Overwrite { target: Target::Role(guild), allow: 0, deny: SEND_MESSAGES }
}

/// The member `userinfo` describes: the one its argument names, else the
/// author.
pub fn userinfo_target(toks: &Vec<ArgToken>, author: u64) -> (r: u64)
    ensures
        r == if toks.len() > 0 {
            match user_id_of(toks@[0].text@) {
                Some(u) => u,
                None => author,
            }
        } else {
            author
        },
{
    if toks.len() == 0 {
        return author;
    }
    match parse_user_id(toks[0].text.as_str()) {
        Some(u) => u,
        None => author,
    }
}

/// The roles line of `userinfo`: `Aucun`, or the role mentions separated
/// by `, `.
pub open spec fn roles_line(roles: Seq<u64>) -> Seq<char> {
    if roles.len() == 0 {
        "Aucun"@
    } else {
        join(roles.map_values(|r: u64| role_mention(r)), ", "@)
    }
}

/// The roles line of `userinfo`.
pub fn roles_text(roles: &Vec<u64>) -> (r: String)
    ensures
        r@ == roles_line(roles@),
{
    if roles.len() == 0 {
        return String::from_str("Aucun");
    }
    let mut parts: Vec<Vec<char>> = Vec::new();
    let mut i: usize = 0;
    while i < roles.len()
        invariant
            i <= roles.len(),
            parts.len() == i,
            forall|j: int| 0 <= j < i ==> #[trigger] parts@[j]@ == role_mention(roles@[j]),
        decreases roles.len() - i,
    {
        parts.push(role_mention_chars(roles[i]));
        i = i + 1;
    }
    assert(parts@.map_values(|p: Vec<char>| p@) =~= roles@.map_values(|r: u64| role_mention(r)));
    string_of(&join_chars(&parts, &chars_of(", ")))
}

/// The Unix time at which a Discord id was made: its top 42 bits count
/// milliseconds from the start of 2015.
pub open spec fn snowflake_secs(id: u64) -> int {
    ((id >> 22) + 1_420_070_400_000) / 1000
}

/// `UserId::created_at`, as whole seconds of Unix time.
#[verifier::external_body]
fn created_at_secs(id: u64) -> (r: i64)
    requires
        id != 0,
    ensures
        r == snowflake_secs(id),
{
    serenity::model::id::UserId::new(id).created_at().unix_timestamp()
}

/// When the account of user `id` was created, in Unix time. A zero id
/// names no user.
pub fn account_created(id: u64) -> (r: i64)
    requires
        id != 0,
    ensures
        r == snowflake_secs(id),
{
    created_at_secs(id)
}

/// The channel that `setmodlog` records: the one its argument names.
/// `Err(true)` when there is no argument, `Err(false)` when it names no
/// channel.
pub fn plan_modlog(toks: &Vec<ArgToken>) -> (r: Result<u64, bool>)
    ensures
        toks.len() == 0 ==> r == Err::<u64, bool>(true),
        toks.len() > 0 ==> r == match channel_id_of(toks@[0].text@) {
            Some(c) => Ok::<u64, bool>(c),
            None => Err::<u64, bool>(false),
        },
{
    if toks.len() == 0 {
        return Err(true);
    }
    match parse_channel_mention(toks[0].text.as_str()) {
        Some(c) => Ok(c),
        None => Err(false),
    }
}

} // verus!
