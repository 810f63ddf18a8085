//! Giveaways: creating one from its arguments, drawing its winners,
//! drawing again, listing the running ones and keeping track of entries
//! through reactions.
use vstd::prelude::*;
use rand::seq::SliceRandom;
use crate::args::ArgToken;
use crate::database::Giveaway;
use crate::duration::{
    deadline_fits, duration_fits, duration_representable, duration_secs, instant_in_range,
    parse_duration,
};
use crate::text::{
    append_chars, chars_of, int_chars, join, join_chars, parse_i64_chars, parse_i64_spec,
    parse_u64_chars, parse_u64_spec, signed_padded, string_of, trim, trim_chars,
};

verus! {

/// The emoji that enters a giveaway.
pub open spec fn giveaway_emoji() -> Seq<char> {
    "🎉"@
}

/// Why `gcreate` creates nothing.
#[derive(Clone, Copy, Debug, PartialEq, Eq)]
pub enum CreateError {
    /// No argument at all.
    Usage,
    /// The first argument is not a duration.
    InvalidDuration,
    /// The second argument is missing, is not an `i64`, or is below 1.
    InvalidWinnerCount,
    /// Nothing, or only blanks, after the winner count.
    MissingPrize,
}

/// A giveaway to create: its prize, how many win, and when it ends.
pub struct GiveawayPlan {
    pub winner_count: i64,
    pub prize: String,
    pub end_time: i64,
}

/// The winner count argument, when it is valid.
pub open spec fn winner_count_of(toks: Seq<ArgToken>) -> Option<i64> {
    if toks.len() < 2 {
        None
    } else {
        match parse_i64_spec(toks[1].text@) {
            Some(n) => if n >= 1 {
                Some(n)
            } else {
                None
            },
            None => None,
        }
    }
}

/// The prize: everything after the winner count, trimmed.
pub open spec fn prize_of(toks: Seq<ArgToken>) -> Seq<char> {
    if toks.len() < 3 {
        Seq::empty()
    } else {
        trim(toks[2].rest@)
    }
}

/// What `gcreate <duration> <winners> <prize...>` creates at Unix time `now`.
pub open spec fn create_spec(toks: Seq<ArgToken>, now: i64) -> Result<(i64, Seq<char>, int), CreateError> {
    if toks.len() == 0 {
        Err(CreateError::Usage)
    } else {
        match duration_secs(toks[0].text@) {
            None => Err(CreateError::InvalidDuration),
            Some(d) => match winner_count_of(toks) {
                None => Err(CreateError::InvalidWinnerCount),
                Some(w) => if prize_of(toks).len() == 0 {
                    Err(CreateError::MissingPrize)
                } else {
                    Ok((w, prize_of(toks), now + d))
                },
            },
        }
    }
}

/// `chrono` can compute what `gcreate` computes: the duration is within
/// `TimeDelta`'s bounds, and a giveaway that would be created ends within
/// `DateTime`'s range.
pub open spec fn create_representable(toks: Seq<ArgToken>, now: i64) -> bool {
    toks.len() > 0 ==> {
        &&& duration_representable(toks[0].text@)
        &&& match create_spec(toks, now) {
            Ok((_, _, end)) => instant_in_range(end),
            Err(_) => true,
        }
    }
}

/// Whether `gcreate`'s arguments can be handled without `chrono`
/// panicking; the caller tests this first and panics as `chrono` does.
pub fn create_fits(toks: &Vec<ArgToken>, now: i64) -> (r: bool)
    ensures
        r == create_representable(toks@, now),
{
    if toks.len() == 0 {
        return true;
    }
    if !duration_fits(toks[0].text.as_str()) {
        return false;
    }
    match plan_create_parts(toks) {
        Ok(_) => deadline_fits(toks[0].text.as_str(), now),
        Err(_) => true,
    }
}

/// The parts of `gcreate` that do not depend on time: the winner count,
/// the prize and the duration in seconds.
fn plan_create_parts(toks: &Vec<ArgToken>) -> (r: Result<(i64, String, i64), CreateError>)
    requires
        toks.len() > 0,
        duration_representable(toks@[0].text@),
    ensures
        match (r, create_spec(toks@, 0)) {
            (Ok((w, p, d)), Ok((w2, p2, d2))) => w == w2 && p@ == p2 && d == d2,
            (Err(e), Err(f)) => e == f,
            _ => false,
        },
{
    let d = match parse_duration(toks[0].text.as_str()) {
        None => return Err(CreateError::InvalidDuration),
        Some(d) => d,
    };
    let winners = if toks.len() < 2 {
        None
    } else {
        let raw = chars_of(toks[1].text.as_str());
        match parse_i64_chars(&raw) {
            Some(n) => if n >= 1 {
                Some(n)
            } else {
                None
            },
            None => None,
        }
    };
    let w = match winners {
        None => return Err(CreateError::InvalidWinnerCount),
        Some(w) => w,
    };
    let prize: Vec<char> = if toks.len() < 3 {
        Vec::new()
    } else {
        let raw = chars_of(toks[2].rest.as_str());
        trim_chars(&raw)
    };
    if prize.len() == 0 {
        return Err(CreateError::MissingPrize);
    }
    Ok((w, string_of(&prize), d))
}

/// The giveaway that `gcreate` creates at Unix time `now`.
pub fn plan_create(toks: &Vec<ArgToken>, now: i64) -> (r: Result<GiveawayPlan, CreateError>)
    requires
        create_representable(toks@, now),
    ensures
        match (r, create_spec(toks@, now)) {
            (Ok(p), Ok((w, prize, end))) => p.winner_count == w && p.prize@ == prize && p.end_time
                == end,
            (Err(e), Err(f)) => e == f,
            _ => false,
        },
{
    if toks.len() == 0 {
        return Err(CreateError::Usage);
    }
    match plan_create_parts(toks) {
        Err(e) => Err(e),
        Ok((w, prize, d)) => Ok(GiveawayPlan { winner_count: w, prize, end_time: now + d }),
    }
}

/// `SliceRandom::choose_multiple` with the thread's generator: up to
/// `amount` entries, drawn at random without taking any position twice.
#[verifier::external_body]
fn choose_entries(entries: &Vec<String>, amount: usize) -> (r: Vec<String>)
    ensures
        r.len() == if amount < entries.len() {
            amount
        } else {
            entries.len()
        },
        r@.to_multiset().subset_of(entries@.to_multiset()),
{
    entries.choose_multiple(&mut rand::thread_rng(), amount).cloned().collect()
}

/// `SliceRandom::choose` with the thread's generator: one entry at random.
#[verifier::external_body]
fn choose_entry(entries: &Vec<String>) -> (r: Option<String>)
    ensures
        r is Some <==> entries.len() > 0,
        r matches Some(e) ==> entries@.contains(e),
{
    entries.choose(&mut rand::thread_rng()).cloned()
}

/// `<@id>` for a user id stored as text.
pub open spec fn stored_mention(id: Seq<char>) -> Seq<char> {
    "<@"@ + id + ">"@
}

/// The winners as mentions separated by `, `.
pub open spec fn mentions_of(ids: Seq<String>) -> Seq<char> {
    join(ids.map_values(|u: String| stored_mention(u@)), ", "@)
}

/// How a giveaway ends.
pub enum Conclusion {
    /// Nobody entered.
    NoEntries,
    /// The winners drawn, and their mentions.
    Winners { winners: Vec<String>, mentions: String },
}

/// Where a giveaway's message is: its channel and message ids, read from
/// their stored text.
pub open spec fn location_spec(g: Giveaway) -> Option<(u64, u64)> {
    match (parse_u64_spec(g.channel_id@), parse_u64_spec(g.message_id@)) {
        (Some(c), Some(m)) => Some((c, m)),
        _ => None,
    }
}

/// The channel and message of a giveaway; `None` when either stored id is
/// not a number, which ends the draw with an error.
pub fn giveaway_location(g: &Giveaway) -> (r: Option<(u64, u64)>)
    ensures
        r == location_spec(*g),
{
    let c = parse_u64_chars(&chars_of(g.channel_id.as_str()));
    let c = match c {
        Some(c) => c,
        None => return None,
    };
    match parse_u64_chars(&chars_of(g.message_id.as_str())) {
        Some(m) => Some((c, m)),
        None => None,
    }
}

/// The winners as mentions: `<@a>, <@b>, ...`.
pub fn mention_list(ids: &Vec<String>) -> (r: String)
    ensures
        r@ == mentions_of(ids@),
{
    let mut parts: Vec<Vec<char>> = Vec::new();
    let mut i: usize = 0;
    while i < ids.len()
        invariant
            i <= ids.len(),
            parts.len() == i,
            forall|j: int| 0 <= j < i ==> #[trigger] parts@[j]@ == stored_mention(ids@[j]@),
        decreases ids.len() - i,
    {
        let mut m = chars_of("<@");
        append_chars(&mut m, &chars_of(ids[i].as_str()));
        append_chars(&mut m, &chars_of(">"));
        parts.push(m);
        i = i + 1;
    }
    assert(parts@.map_values(|p: Vec<char>| p@) =~= ids@.map_values(
        |u: String| stored_mention(u@),
    ));
    string_of(&join_chars(&parts, &chars_of(", ")))
}

/// Draws the winners of a giveaway among its entries: as many as its
/// winner count (taken as `usize`), or everyone when fewer entered, each
/// entry at most as often as it appears.
pub fn draw_winners(entries: &Vec<String>, winner_count: i64) -> (r: Conclusion)
    ensures
        entries.len() == 0 <==> r is NoEntries,
        r matches Conclusion::Winners { winners, mentions } ==> {
            &&& winners.len() == if (winner_count as usize) < entries.len() {
                winner_count as usize
            } else {
                entries.len()
            }
            &&& winners@.to_multiset().subset_of(entries@.to_multiset())
            &&& mentions@ == mentions_of(winners@)
        },
{
    if entries.len() == 0 {
        return Conclusion::NoEntries;
    }
    let winners = choose_entries(entries, winner_count as usize);
    let mentions = mention_list(&winners);
    Conclusion::Winners { winners, mentions }
}

/// Draws one new winner for `greroll`; `None` when nobody entered.
pub fn reroll(entries: &Vec<String>) -> (r: Option<String>)
    ensures
        r is Some <==> entries.len() > 0,
        r matches Some(w) ==> entries@.contains(w),
{
    choose_entry(entries)
}

/// Why `greroll` draws nobody.
#[derive(Clone, Copy, Debug, PartialEq, Eq)]
pub enum RerollError {
    /// The giveaway is still running: only an ended one is drawn again.
    NotEnded,
    /// Nobody entered.
    NoEntries,
}

/// A new draw for `greroll`: refused while the giveaway runs, and when
/// nobody entered; otherwise one of the entries.
pub fn plan_reroll(g: &Giveaway, entries: &Vec<String>) -> (r: Result<String, RerollError>)
    ensures
        g.ended == 0 ==> r == Err::<String, RerollError>(RerollError::NotEnded),
        g.ended != 0 && entries.len() == 0 ==> r == Err::<String, RerollError>(
            RerollError::NoEntries,
        ),
        g.ended != 0 && entries.len() > 0 ==> (r matches Ok(w) && entries@.contains(w)),
{
    if g.ended == 0 {
        return Err(RerollError::NotEnded);
    }
    match reroll(entries) {
        Some(w) => Ok(w),
        None => Err(RerollError::NoEntries),
    }
}

/// One line of `glist`: prize, winner count, relative end time and the
/// message id to use with `gend` or `greroll`.
pub open spec fn listing_line(g: Giveaway) -> Seq<char> {
    "🎉 **"@ + g.prize@ + "** — "@ + signed_padded(g.winner_count as int, 0) + " gagnant(s) — fin <t:"@
        + signed_padded(g.end_time as int, 0) + ":R>\n└ Message ID: `"@ + g.message_id@ + "`"@
}

/// The `glist` listing: one paragraph per giveaway, in the order given.
pub open spec fn listing(gs: Seq<Giveaway>) -> Seq<char> {
    join(gs.map_values(|g: Giveaway| listing_line(g)), "\n\n"@)
}

fn listing_line_chars(g: &Giveaway) -> (r: Vec<char>)
    ensures
        r@ == listing_line(*g),
{
    let mut r = chars_of("🎉 **");
    append_chars(&mut r, &chars_of(g.prize.as_str()));
    append_chars(&mut r, &chars_of("** — "));
    append_chars(&mut r, &int_chars(g.winner_count));
    append_chars(&mut r, &chars_of(" gagnant(s) — fin <t:"));
    append_chars(&mut r, &int_chars(g.end_time));
    append_chars(&mut r, &chars_of(":R>\n└ Message ID: `"));
    append_chars(&mut r, &chars_of(g.message_id.as_str()));
    append_chars(&mut r, &chars_of("`"));
    r
}

/// The `glist` listing of the running giveaways.
pub fn giveaway_list(gs: &Vec<Giveaway>) -> (r: String)
    ensures
        r@ == listing(gs@),
{
    let mut parts: Vec<Vec<char>> = Vec::new();
    let mut i: usize = 0;
    while i < gs.len()
        invariant
            i <= gs.len(),
            parts.len() == i,
            forall|j: int| 0 <= j < i ==> #[trigger] parts@[j]@ == listing_line(gs@[j]),
        decreases gs.len() - i,
    {
        parts.push(listing_line_chars(&gs[i]));
        i = i + 1;
    }
    assert(parts@.map_values(|p: Vec<char>| p@) =~= gs@.map_values(|g: Giveaway| listing_line(g)));
    string_of(&join_chars(&parts, &chars_of("\n\n")))
}

/// Whose entry a reaction adds or removes: a `🎉` reaction by a user,
/// and, when it is added, by anyone but the bot itself.
pub open spec fn entry_user_spec(emoji: Option<Seq<char>>, user: Option<u64>, bot: u64, adding: bool) -> Option<u64> {
    match (emoji, user) {
        (Some(e), Some(u)) => if e == giveaway_emoji() && !(adding && u == bot) {
            Some(u)
        } else {
            None
        },
        _ => None,
    }
}

/// The user whose entry a reaction adds (`adding`) or removes, given the
/// reaction's emoji when it is a Unicode one and the reacting user.
pub fn entry_user(emoji: Option<&str>, user: Option<u64>, bot: u64, adding: bool) -> (r: Option<u64>)
    ensures
        r == entry_user_spec(
            match emoji {
                Some(e) => Some(e@),
                None => None,
            },
            user,
            bot,
            adding,
        ),
{
    let e = match emoji {
        Some(e) => e,
        None => return None,
    };
    let u = match user {
        Some(u) => u,
        None => return None,
    };
    let target = chars_of("🎉");
    let got = chars_of(e);
    if !crate::text::chars_eq(&got, &target) {
        return None;
    }
    if adding && u == bot {
        return None;
    }
    Some(u)
}


/// A change to a giveaway's entries: a user enters it or leaves it.
#[derive(Clone, Copy, Debug, PartialEq, Eq)]
pub enum EntryChange {
    Enter { giveaway: i64, user: u64 },
    Leave { giveaway: i64, user: u64 },
}

/// The change that a reaction makes, given the user it counts for (see
/// `entry_user_spec`) and the running giveaway on the reacted message, if
/// any: none when either is missing.
pub open spec fn entry_change_spec(user: Option<u64>, adding: bool, running: Option<i64>) -> Option<EntryChange> {
    match (user, running) {
        (Some(u), Some(g)) => Some(
            if adding {
                EntryChange::Enter { giveaway: g, user: u }
            } else {
                EntryChange::Leave { giveaway: g, user: u }
            },
        ),
        _ => None,
    }
}

/// The change that a reaction makes to the entries: `user` is what
/// `entry_user` gives for it, `running` the id of the running giveaway on
/// the reacted message.
pub fn entry_change(user: Option<u64>, adding: bool, running: Option<i64>) -> (r: Option<EntryChange>)
    ensures
        r == entry_change_spec(user, adding, running),
{
    match (user, running) {
        (Some(u), Some(g)) => Some(
            if adding {
                EntryChange::Enter { giveaway: g, user: u }
            } else {
                EntryChange::Leave { giveaway: g, user: u }
            },
        ),
        _ => None,
    }
}

/// The entries after a change: entering adds the pair (once; the table
/// keys entries by giveaway and user), leaving removes it.
pub open spec fn apply_entry(entries: Set<(i64, u64)>, c: Option<EntryChange>) -> Set<(i64, u64)> {
    match c {
        Some(EntryChange::Enter { giveaway, user }) => entries.insert((giveaway, user)),
        Some(EntryChange::Leave { giveaway, user }) => entries.remove((giveaway, user)),
        None => entries,
    }
}

/// Reacting with the giveaway emoji twice enters once: the second
/// reaction changes nothing.
pub proof fn entering_twice_enters_once(
    entries: Set<(i64, u64)>,
    emoji: Option<Seq<char>>,
    user: Option<u64>,
    bot: u64,
    running: Option<i64>,
)
    ensures
        ({
            let c = entry_change_spec(entry_user_spec(emoji, user, bot, true), true, running);
            apply_entry(apply_entry(entries, c), c) == apply_entry(entries, c)
        }),
{
    let c = entry_change_spec(entry_user_spec(emoji, user, bot, true), true, running);
    assert(apply_entry(apply_entry(entries, c), c) =~= apply_entry(entries, c));
}

/// Adding a reaction and taking it back leaves the entries of a running
/// giveaway as they were, for a user who had not entered it.
pub proof fn reaction_taken_back_restores_entries(
    entries: Set<(i64, u64)>,
    emoji: Option<Seq<char>>,
    user: Option<u64>,
    bot: u64,
    running: Option<i64>,
)
    requires
        forall|g: i64, u: u64| running == Some(g) && user == Some(u) ==> !entries.contains((g, u)),
    ensures
        apply_entry(
            apply_entry(
                entries,
                entry_change_spec(entry_user_spec(emoji, user, bot, true), true, running),
            ),
            entry_change_spec(entry_user_spec(emoji, user, bot, false), false, running),
        ) == entries,
{
    let a = entry_change_spec(entry_user_spec(emoji, user, bot, true), true, running);
    let b = entry_change_spec(entry_user_spec(emoji, user, bot, false), false, running);
    assert(apply_entry(apply_entry(entries, a), b) =~= entries);
}

/// When nobody entered twice, nobody wins twice: a draw that takes each
/// entry at most as often as it appears has no repeated winner.
pub proof fn winners_are_distinct(entries: Seq<String>, winners: Seq<String>)
    requires
        entries.no_duplicates(),
        winners.to_multiset().subset_of(entries.to_multiset()),
    ensures
        winners.no_duplicates(),
{
    broadcast use vstd::multiset::group_multiset_axioms;

    entries.lemma_multiset_has_no_duplicates();
    assert forall|x: String| winners.to_multiset().contains(x) implies winners.to_multiset().count(
        x,
    ) == 1 by {
        assert(winners.to_multiset().count(x) <= entries.to_multiset().count(x));
        assert(entries.to_multiset().contains(x));
    }
    winners.lemma_multiset_has_no_duplicates_conv();
}

/// Every winner entered the giveaway.
pub proof fn winners_entered(entries: Seq<String>, winners: Seq<String>, i: int)
    requires
        winners.to_multiset().subset_of(entries.to_multiset()),
        0 <= i < winners.len(),
    ensures
        entries.contains(winners[i]),
{
    broadcast use vstd::multiset::group_multiset_axioms;
    broadcast use vstd::seq_lib::group_to_multiset_ensures;

    assert(winners.to_multiset().count(winners[i]) > 0);
    assert(entries.to_multiset().count(winners[i]) > 0);
}


/// The bot's own reactions never enter it in a giveaway.
pub proof fn bot_never_enters(emoji: Option<Seq<char>>, bot: u64)
    ensures
        entry_user_spec(emoji, Some(bot), bot, true) is None,
{
}

} // verus!
