//! The moderation commands: who they act on, why, for how long, and the
//! listing of a member's warnings.
//!
//! `ban`, `unban`, `kick`, `mute`, `unmute` and `warn` take one or more
//! users in a row (mentions or ids); what follows them is the reason, or,
//! for `mute`, the duration and then the reason.
use vstd::prelude::*;
use crate::args::{token_texts, ArgToken};
use crate::database::Warning;
use crate::duration::{deadline_fits, deadline_representable, duration_secs, parse_duration};
use crate::mention::{parse_user_id, user_id_of};
use crate::text::{
    chars_of, decimal, decimal_chars, join, join_chars, parse_unsigned, parse_unsigned_chars,
    string_of, trim, trim_chars,
};

verus! {

/// Why a moderation command does nothing.
#[derive(Clone, Copy, Debug, PartialEq, Eq)]
pub enum ModerationError {
    /// No argument at all.
    Usage,
    /// The first argument names no user.
    UnknownUser,
    /// `mute` has its users but no duration.
    MissingDuration,
    /// `mute`'s duration is not `<number><s|m|h|d>`.
    InvalidDuration,
    /// `warn` has its users but no reason.
    MissingReason,
}

/// The users a command acts on and the reason it gives.
pub struct Targets {
    pub users: Vec<u64>,
    pub reason: String,
}

/// A timeout: who, for how long (as written), until when, and why.
pub struct MutePlan {
    pub users: Vec<u64>,
    pub duration_text: String,
    pub until: i64,
    pub reason: String,
}

/// How many of the leading arguments name users.
pub open spec fn target_count(texts: Seq<Seq<char>>) -> nat
    decreases texts.len(),
{
    if texts.len() > 0 && user_id_of(texts[0]) is Some {
        1 + target_count(texts.drop_first())
    } else {
        0
    }
}

/// The users named by the first `k` arguments.
pub open spec fn targets_of(texts: Seq<Seq<char>>, k: nat) -> Seq<u64> {
    Seq::new(k, |i: int| user_id_of(texts[i])->0)
}

/// The reason given from argument `k` on: the rest of the message, or the
/// default one when there is nothing left.
pub open spec fn reason_from(toks: Seq<ArgToken>, k: int) -> Seq<char> {
    if k < toks.len() {
        toks[k].rest@
    } else {
        "Aucune raison fournie"@
    }
}

/// What `ban`, `unban`, `kick` and `unmute` act on.
pub open spec fn targets_spec(toks: Seq<ArgToken>) -> Result<(Seq<u64>, Seq<char>), ModerationError> {
    let texts = token_texts(toks);
    if toks.len() == 0 {
        Err(ModerationError::Usage)
    } else if user_id_of(texts[0]) is None {
        Err(ModerationError::UnknownUser)
    } else {
        let k = target_count(texts);
        Ok((targets_of(texts, k), reason_from(toks, k as int)))
    }
}

/// What `mute` does: users, then a duration, then an optional reason.
pub open spec fn mute_spec(toks: Seq<ArgToken>, now: i64) -> Result<(Seq<u64>, Seq<char>, int, Seq<char>), ModerationError> {
    let texts = token_texts(toks);
    let k = target_count(texts);
    if toks.len() == 0 {
        Err(ModerationError::Usage)
    } else if user_id_of(texts[0]) is None {
        Err(ModerationError::UnknownUser)
    } else if k == toks.len() {
        Err(ModerationError::MissingDuration)
    } else {
        match duration_secs(texts[k as int]) {
            None => Err(ModerationError::InvalidDuration),
            Some(d) => Ok((targets_of(texts, k), texts[k as int], now + d, reason_from(toks, (k + 1) as int))),
        }
    }
}

/// `mute`'s deadline, when it has users and a duration, is one that
/// `chrono` computes without panicking.
pub open spec fn mute_representable(toks: Seq<ArgToken>, now: i64) -> bool {
    let texts = token_texts(toks);
    let k = target_count(texts);
    0 < k < toks.len() ==> deadline_representable(texts[k as int], now)
}

/// What `warn` does: users, then a reason that must not be blank.
pub open spec fn warn_spec(toks: Seq<ArgToken>) -> Result<(Seq<u64>, Seq<char>), ModerationError> {
    let texts = token_texts(toks);
    let k = target_count(texts);
    let reason = if k < toks.len() {
        trim(toks[k as int].rest@)
    } else {
        Seq::empty()
    };
    if toks.len() == 0 {
        Err(ModerationError::Usage)
    } else if user_id_of(texts[0]) is None {
        Err(ModerationError::UnknownUser)
    } else if reason.len() == 0 {
        Err(ModerationError::MissingReason)
    } else {
        Ok((targets_of(texts, k), reason))
    }
}

/// The user that `warnings` and `clearwarns` look at: the first argument.
pub open spec fn single_user_spec(toks: Seq<ArgToken>) -> Result<u64, ModerationError> {
    if toks.len() == 0 {
        Err(ModerationError::Usage)
    } else {
        match user_id_of(toks[0].text@) {
            Some(u) => Ok(u),
            None => Err(ModerationError::UnknownUser),
        }
    }
}

/// How many messages `clear` removes: the first argument as a `u8`, from
/// 1 to 100.
pub open spec fn clear_spec(toks: Seq<ArgToken>) -> Option<u8> {
    if toks.len() == 0 {
        None
    } else {
        match parse_unsigned(toks[0].text@, 255) {
            Some(n) => if 1 <= n <= 100 {
                Some(n as u8)
            } else {
                None
            },
            None => None,
        }
    }
}

/// One line of the `warnings` listing: its number from 1, the reason, and
/// the moderator who gave it.
pub open spec fn warning_line(i: nat, w: Warning) -> Seq<char> {
    "`#"@ + decimal(i + 1) + "` — "@ + w.reason@ + " — par <@"@ + w.moderator_id@ + ">"@
}

/// The `warnings` listing, one line per warning in the order given.
pub open spec fn warnings_listing(ws: Seq<Warning>) -> Seq<char> {
    join(Seq::new(ws.len(), |i: int| warning_line(i as nat, ws[i])), "\n"@)
}

proof fn lemma_target_count_step(texts: Seq<Seq<char>>, i: int)
    requires
        0 <= i < texts.len(),
        user_id_of(texts[i]) is Some,
    ensures
        target_count(texts.skip(i)) == 1 + target_count(texts.skip(i + 1)),
{
    assert(texts.skip(i).drop_first() =~= texts.skip(i + 1));
    assert(texts.skip(i)[0] == texts[i]);
}

proof fn lemma_target_count_bound(texts: Seq<Seq<char>>)
    ensures
        target_count(texts) <= texts.len(),
    decreases texts.len(),
{
    if texts.len() > 0 && user_id_of(texts[0]) is Some {
        lemma_target_count_bound(texts.drop_first());
    }
}

/// The leading arguments that name users, and the users they name.
fn leading_targets(toks: &Vec<ArgToken>) -> (r: (Vec<u64>, usize))
    ensures
        r.1 == target_count(token_texts(toks@)),
        r.1 <= toks.len(),
        r.0@ == targets_of(token_texts(toks@), r.1 as nat),
{
    let ghost texts = token_texts(toks@);
    let mut users: Vec<u64> = Vec::new();
    let mut i: usize = 0;
    assert(texts.skip(0) =~= texts);
    while i < toks.len()
        invariant
            texts == token_texts(toks@),
            i <= toks.len(),
            target_count(texts) == i + target_count(texts.skip(i as int)),
            users@ == targets_of(texts, i as nat),
        ensures
            i <= toks.len(),
            target_count(texts) == i + target_count(texts.skip(i as int)),
            users@ == targets_of(texts, i as nat),
            target_count(texts.skip(i as int)) == 0,
        decreases toks.len() - i,
    {
        assert(texts.skip(i as int)[0] == texts[i as int]);
        match parse_user_id(toks[i].text.as_str()) {
            Some(u) => {
                proof {
                    lemma_target_count_step(texts, i as int);
                }
                users.push(u);
                i = i + 1;
                assert(users@ =~= targets_of(texts, i as nat));
            },
            None => {
                break ;
            },
        }
    }
    proof {
        lemma_target_count_bound(texts);
    }
    (users, i)
}

fn reason_at(toks: &Vec<ArgToken>, k: usize) -> (r: String)
    ensures
        r@ == reason_from(toks@, k as int),
{
    if k < toks.len() {
        toks[k].rest.clone()
    } else {
        String::from_str("Aucune raison fournie")
    }
}

/// The users that `ban`, `unban`, `kick` or `unmute` act on, and the
/// reason that follows them.
pub fn plan_targets(toks: &Vec<ArgToken>) -> (r: Result<Targets, ModerationError>)
    ensures
        match (r, targets_spec(toks@)) {
            (Ok(t), Ok((users, reason))) => t.users@ == users && t.reason@ == reason,
            (Err(e), Err(f)) => e == f,
            _ => false,
        },
{
    if toks.len() == 0 {
        return Err(ModerationError::Usage);
    }
    if parse_user_id(toks[0].text.as_str()).is_none() {
        return Err(ModerationError::UnknownUser);
    }
    let (users, k) = leading_targets(toks);
    let reason = reason_at(toks, k);
    Ok(Targets { users, reason })
}

/// Whether `mute`'s deadline can be computed; when it cannot, `chrono`
/// panics, and the caller does the same.
pub fn mute_fits(toks: &Vec<ArgToken>, now: i64) -> (r: bool)
    ensures
        r == mute_representable(toks@, now),
{
    let (_users, k) = leading_targets(toks);
    if 0 < k && k < toks.len() {
        deadline_fits(toks[k].text.as_str(), now)
    } else {
        true
    }
}

/// The timeout that `mute` gives, from the arguments and the current
/// Unix time.
pub fn plan_mute(toks: &Vec<ArgToken>, now: i64) -> (r: Result<MutePlan, ModerationError>)
    requires
        mute_representable(toks@, now),
    ensures
        match (r, mute_spec(toks@, now)) {
            (Ok(p), Ok((users, dur, until, reason))) => p.users@ == users && p.duration_text@
                == dur && p.until == until && p.reason@ == reason,
            (Err(e), Err(f)) => e == f,
            _ => false,
        },
{
    if toks.len() == 0 {
        return Err(ModerationError::Usage);
    }
    if parse_user_id(toks[0].text.as_str()).is_none() {
        return Err(ModerationError::UnknownUser);
    }
    let (users, k) = leading_targets(toks);
    if k == toks.len() {
        return Err(ModerationError::MissingDuration);
    }
    let ghost texts = token_texts(toks@);
    assert(texts[k as int] == toks@[k as int].text@);
    match parse_duration(toks[k].text.as_str()) {
        None => Err(ModerationError::InvalidDuration),
        Some(d) => {
            let until = now + d;
            let reason = reason_at(toks, k + 1);
            Ok(MutePlan { users, duration_text: toks[k].text.clone(), until, reason })
        },
    }
}

/// The users that `warn` warns and the reason, which must not be blank.
pub fn plan_warn(toks: &Vec<ArgToken>) -> (r: Result<Targets, ModerationError>)
    ensures
        match (r, warn_spec(toks@)) {
            (Ok(t), Ok((users, reason))) => t.users@ == users && t.reason@ == reason,
            (Err(e), Err(f)) => e == f,
            _ => false,
        },
{
    if toks.len() == 0 {
        return Err(ModerationError::Usage);
    }
    if parse_user_id(toks[0].text.as_str()).is_none() {
        return Err(ModerationError::UnknownUser);
    }
    let (users, k) = leading_targets(toks);
    let reason: Vec<char> = if k < toks.len() {
        let raw = chars_of(toks[k].rest.as_str());
        trim_chars(&raw)
    } else {
        Vec::new()
    };
    if reason.len() == 0 {
        return Err(ModerationError::MissingReason);
    }
    Ok(Targets { users, reason: string_of(&reason) })
}

/// The user that `warnings` or `clearwarns` looks at.
pub fn plan_single_user(toks: &Vec<ArgToken>) -> (r: Result<u64, ModerationError>)
    ensures
        r == single_user_spec(toks@),
{
    if toks.len() == 0 {
        return Err(ModerationError::Usage);
    }
    match parse_user_id(toks[0].text.as_str()) {
        Some(u) => Ok(u),
        None => Err(ModerationError::UnknownUser),
    }
}

/// How many messages `clear` removes, or `None` for a usage error.
pub fn plan_clear(toks: &Vec<ArgToken>) -> (r: Option<u8>)
    ensures
        r == clear_spec(toks@),
{
    if toks.len() == 0 {
        return None;
    }
    let raw = chars_of(toks[0].text.as_str());
    match parse_unsigned_chars(&raw, 255) {
        Some(n) => if 1 <= n && n <= 100 {
            Some(n as u8)
        } else {
            None
        },
        None => None,
    }
}

fn warning_line_chars(i: usize, w: &Warning) -> (r: Vec<char>)
    requires
        i < usize::MAX,
    ensures
        r@ == warning_line(i as nat, *w),
{
    let mut r = chars_of("`#");
    let num = decimal_chars((i + 1) as u64);
    crate::text::append_chars(&mut r, &num);
    crate::text::append_chars(&mut r, &chars_of("` — "));
    crate::text::append_chars(&mut r, &chars_of(w.reason.as_str()));
    crate::text::append_chars(&mut r, &chars_of(" — par <@"));
    crate::text::append_chars(&mut r, &chars_of(w.moderator_id.as_str()));
    crate::text::append_chars(&mut r, &chars_of(">"));
    r
}

/// The `warnings` listing: `` `#n` — reason — par <@moderator> `` for each
/// warning, numbered from 1 in the order given, one per line.
pub fn warnings_list(ws: &Vec<Warning>) -> (r: String)
    ensures
        r@ == warnings_listing(ws@),
{
    let mut lines: Vec<Vec<char>> = Vec::new();
    let mut i: usize = 0;
    while i < ws.len()
        invariant
            i <= ws.len(),
            lines.len() == i,
            forall|j: int| 0 <= j < i ==> #[trigger] lines@[j]@ == warning_line(j as nat, ws@[j]),
        decreases ws.len() - i,
    {
        let line = warning_line_chars(i, &ws[i]);
        lines.push(line);
        i = i + 1;
    }
    assert(lines@.map_values(|p: Vec<char>| p@) =~= Seq::new(
        ws.len() as nat,
        |j: int| warning_line(j as nat, ws@[j]),
    ));
    let sep = chars_of("\n");
    let joined = join_chars(&lines, &sep);
    string_of(&joined)
}


/// How the messages fetched by `clear` are deleted.
#[derive(Clone, Copy, Debug, PartialEq, Eq)]
pub enum Deletion {
    /// None were fetched.
    Nothing,
    /// One message, deleted on its own.
    One,
    /// Several, deleted in bulk.
    Many,
}

/// How `count` fetched messages are deleted.
pub fn deletion_for(count: usize) -> (r: Deletion)
    ensures
        count == 0 ==> r == Deletion::Nothing,
        count == 1 ==> r == Deletion::One,
        count > 1 ==> r == Deletion::Many,
{
    if count == 0 {
        Deletion::Nothing
    } else if count == 1 {
        Deletion::One
    } else {
        Deletion::Many
    }
}

/// The arguments before the reason all name users.
proof fn lemma_target_count_prefix(texts: Seq<Seq<char>>, i: int)
    requires
        0 <= i < target_count(texts),
    ensures
        user_id_of(texts[i]) is Some,
    decreases texts.len(),
{
    lemma_target_count_bound(texts);
    if i > 0 {
        assert(texts.drop_first()[i - 1] == texts[i]);
        lemma_target_count_prefix(texts.drop_first(), i - 1);
    }
}

/// `warn` warns exactly the users named in a row at the start, in order,
/// and records as its reason the whole rest of the message from the first
/// argument that is not a user, trimmed (not that argument alone); it is
/// the reason `ban` or `kick` would give on the same arguments, trimmed.
pub proof fn warn_reason_is_rest_of_message(toks: Seq<ArgToken>)
    ensures
        warn_spec(toks) matches Ok((users, reason)) ==> {
            let k = target_count(token_texts(toks));
            &&& 0 < k < toks.len()
            &&& reason == trim(toks[k as int].rest@)
            &&& reason.len() > 0
            &&& users.len() == k
            &&& forall|i: int|
                0 <= i < k ==> user_id_of(toks[i].text@) == Some(#[trigger] users[i])
            &&& user_id_of(toks[k as int].text@) is None
            &&& targets_spec(toks) matches Ok((users2, reason2)) && users2 == users && reason
                == trim(reason2)
        },
{
    let texts = token_texts(toks);
    let k = target_count(texts);
    lemma_target_count_bound(texts);
    if warn_spec(toks) is Ok {
        if k == 0 {
            assert(texts[0] == toks[0].text@);
        }
        assert forall|i: int| 0 <= i < k implies user_id_of(toks[i].text@) == Some(
            #[trigger] targets_of(texts, k)[i],
        ) by {
            lemma_target_count_prefix(texts, i);
            assert(texts[i] == toks[i].text@);
        }
        assert(texts.skip(0) =~= texts);
        lemma_target_count_stop(texts, 0);
        assert(texts[k as int] == toks[k as int].text@);
    }
}

/// The argument after the users does not name a user.
proof fn lemma_target_count_stop(texts: Seq<Seq<char>>, i: int)
    requires
        0 <= i <= target_count(texts),
        target_count(texts) < texts.len(),
        target_count(texts.skip(i)) == target_count(texts) - i,
    ensures
        user_id_of(texts[target_count(texts) as int]) is None,
    decreases target_count(texts) - i,
{
    let k = target_count(texts) as int;
    if i < k {
        lemma_target_count_prefix(texts, i);
        lemma_target_count_step(texts, i);
        lemma_target_count_stop(texts, i + 1);
    } else {
        assert(texts.skip(i)[0] == texts[i]);
    }
}

/// `ban`, `kick`, `unban` and `unmute` act on the users named in a row at
/// the start and give as reason the whole rest of the message from the
/// first argument that is not a user, or `Aucune raison fournie` when
/// nothing follows; `mute` reads its duration from that argument and its
/// reason from the rest of the message after it.
pub proof fn moderation_reason_is_rest_of_message(toks: Seq<ArgToken>, now: i64)
    ensures
        targets_spec(toks) matches Ok((users, reason)) ==> {
            let k = target_count(token_texts(toks));
            &&& users.len() == k > 0
            &&& forall|i: int|
                0 <= i < k ==> user_id_of(toks[i].text@) == Some(#[trigger] users[i])
            &&& reason == if k < toks.len() {
                toks[k as int].rest@
            } else {
                "Aucune raison fournie"@
            }
        },
        mute_spec(toks, now) matches Ok((users, dur, until, reason)) ==> {
            let k = target_count(token_texts(toks));
            &&& users.len() == k > 0
            &&& k < toks.len()
            &&& dur == toks[k as int].text@
            &&& duration_secs(dur) is Some
            &&& until == now + duration_secs(dur)->0
            &&& reason == if k + 1 < toks.len() {
                toks[k + 1 as int].rest@
            } else {
                "Aucune raison fournie"@
            }
        },
{
    let texts = token_texts(toks);
    let k = target_count(texts);
    lemma_target_count_bound(texts);
    if toks.len() > 0 && user_id_of(texts[0]) is Some {
        assert(texts.skip(0) =~= texts);
        assert(texts[0] == toks[0].text@);
        assert forall|i: int| 0 <= i < k implies user_id_of(toks[i].text@) == Some(
            #[trigger] targets_of(texts, k)[i],
        ) by {
            lemma_target_count_prefix(texts, i);
            assert(texts[i] == toks[i].text@);
        }
        if k < toks.len() {
            assert(texts[k as int] == toks[k as int].text@);
        }
    }
}

} // verus!
