//! Commands of the bot's owner: the invitation link, the list of guilds
//! the bot is in, and leaving a guild.
use vstd::prelude::*;
use vstd::utf8::encode_utf8;
use crate::args::ArgToken;
use crate::order::{covers, stable_order, stable_order_by};
use crate::text::{
    append_chars, chars_of, decimal, decimal_chars, parse_u64_chars, parse_u64_spec, string_of,
};

verus! {

/// The permissions the invitation link asks for: Administrator.
pub const INVITE_PERMISSIONS: u64 = 8;

/// The longest the guild list grows, in bytes, before it is cut short.
pub const LIST_BUDGET: usize = 3900;

/// The OAuth2 link that adds the bot with id `bot` to a guild.
pub open spec fn invite_link(bot: u64) -> Seq<char> {
    "https://discord.com/api/oauth2/authorize?client_id="@ + decimal(bot as nat) + "&permissions="@
        + decimal(INVITE_PERMISSIONS as nat) + "&scope=bot%20applications.commands"@
}

/// The OAuth2 invitation link of the bot.
pub fn invite_url(bot: u64) -> (r: String)
    ensures
        r@ == invite_link(bot),
{
    let mut s = chars_of("https://discord.com/api/oauth2/authorize?client_id=");
    append_chars(&mut s, &decimal_chars(bot));
    append_chars(&mut s, &chars_of("&permissions="));
    append_chars(&mut s, &decimal_chars(INVITE_PERMISSIONS));
    append_chars(&mut s, &chars_of("&scope=bot%20applications.commands"));
    string_of(&s)
}

/// Whether the author of a command is the bot's owner, when the owner is
/// known.
pub fn is_bot_owner(owner: Option<u64>, author: u64) -> (r: bool)
    ensures
        r == (owner == Some(author)),
{
    match owner {
        Some(o) => o == author,
        None => false,
    }
}

/// A guild the bot is in: its id, and its name and member count when the
/// cache holds it.
pub struct SeenGuild {
    pub id: u64,
    pub cached: Option<(String, u64)>,
}

/// The name shown for a guild.
pub open spec fn guild_name(g: SeenGuild) -> Seq<char> {
    match g.cached {
        Some((name, _)) => name@,
        None => "(inconnu — pas en cache)"@,
    }
}

/// The member count shown for a guild: 0 when it is not in the cache.
pub open spec fn guild_members(g: SeenGuild) -> u64 {
    match g.cached {
        Some((_, m)) => m,
        None => 0,
    }
}

/// Line `i` (from 0) of the guild list.
pub open spec fn guild_line(i: nat, g: SeenGuild) -> Seq<char> {
    "**"@ + decimal(i + 1) + ".** `"@ + decimal(g.id as nat) + "` — "@ + guild_name(g) + " ("@
        + decimal(guild_members(g) as nat) + " membres)\n"@
}

/// The size in bytes of text in UTF-8, as `str::len` gives it.
pub open spec fn byte_len(s: Seq<char>) -> nat {
    (encode_utf8(s).len() as usize) as nat
}

/// The list from line `i` on, after `acc`: each line is added while the
/// whole stays within the budget; the first line that would not fit is
/// replaced by `…et N de plus.`, N counting it and those after it.
pub open spec fn list_from(lines: Seq<Seq<char>>, i: nat, acc: Seq<char>) -> Seq<char>
    decreases lines.len() - i,
{
    if i >= lines.len() {
        acc
    } else if byte_len(acc) + byte_len(lines[i as int]) > LIST_BUDGET {
        acc + more_note((lines.len() - i) as nat)
    } else {
        list_from(lines, i + 1, acc + lines[i as int])
    }
}

/// The guilds by decreasing member count, ties in the order given.
pub open spec fn by_members(gs: Seq<SeenGuild>, order: Seq<usize>) -> bool {
    stable_order(gs.map_values(|g: SeenGuild| (u64::MAX - guild_members(g)) as u64), order)
}

/// The lines of the guild list, one per guild in the order given.
pub open spec fn listing_lines(gs: Seq<SeenGuild>, order: Seq<usize>) -> Seq<Seq<char>> {
    Seq::new(order.len(), |i: int| guild_line(i as nat, gs[order[i] as int]))
}

/// The guild list of `servers`, and the order of the guilds in it.
pub open spec fn server_listing(gs: Seq<SeenGuild>, order: Seq<usize>) -> Seq<char> {
    list_from(listing_lines(gs, order), 0, Seq::empty())
}

/// The note that ends a list cut short, `n` lines before its end.
pub open spec fn more_note(n: nat) -> Seq<char> {
    "…et "@ + decimal(n) + " de plus."@
}

/// UTF-8 sizes add up over concatenation.
proof fn lemma_encode_utf8_len_add(a: Seq<char>, b: Seq<char>)
    ensures
        encode_utf8(a + b).len() == encode_utf8(a).len() + encode_utf8(b).len(),
    decreases a.len(),
{
    if a.len() > 0 {
        assert((a + b).drop_first() =~= a.drop_first() + b);
        assert((a + b)[0] == a[0]);
        lemma_encode_utf8_len_add(a.drop_first(), b);
    } else {
        assert(a + b =~= b);
    }
}

proof fn lemma_list_from_budget(lines: Seq<Seq<char>>, i: nat)
    requires
        i <= lines.len(),
        encode_utf8(lines.take(i as int).flatten_alt()).len() <= LIST_BUDGET,
        forall|j: int| 0 <= j < lines.len() ==> encode_utf8(#[trigger] lines[j]).len() <= usize::MAX,
    ensures
        exists|k: int|
            #![trigger lines.take(k)]
            i <= k <= lines.len() && encode_utf8(lines.take(k).flatten_alt()).len() <= LIST_BUDGET
                && list_from(lines, i, lines.take(i as int).flatten_alt()) == lines.take(
                k,
            ).flatten_alt() + if k < lines.len() {
                more_note((lines.len() - k) as nat)
            } else {
                Seq::<char>::empty()
            },
    decreases lines.len() - i,
{
    let acc = lines.take(i as int).flatten_alt();
    if i >= lines.len() {
        assert(list_from(lines, i, acc) == acc);
        assert(acc + Seq::<char>::empty() =~= acc);
        assert(lines.take(i as int) == lines.take(i as int));
    } else {
        let line = lines[i as int];
        assert(encode_utf8(line).len() <= usize::MAX);
        assert(byte_len(acc) == encode_utf8(acc).len());
        assert(byte_len(line) == encode_utf8(line).len());
        if byte_len(acc) + byte_len(line) > LIST_BUDGET {
            assert(list_from(lines, i, acc) =~= acc + more_note((lines.len() - i) as nat));
            assert(lines.take(i as int) == lines.take(i as int));
        } else {
            let next = lines.take(i + 1 as int);
            assert(next.drop_last() =~= lines.take(i as int));
            assert(next.last() == line);
            assert(next.flatten_alt() == acc + line);
            lemma_encode_utf8_len_add(acc, line);
            lemma_list_from_budget(lines, (i + 1) as nat);
        }
    }
}

/// The guild list keeps to its budget: it is the first `k` lines in full,
/// whose UTF-8 size is at most the budget, followed, when some lines are
/// left out, by a note that counts them.
pub proof fn guild_list_within_budget(gs: Seq<SeenGuild>, order: Seq<usize>)
    requires
        forall|j: int|
            0 <= j < order.len() ==> encode_utf8(#[trigger] listing_lines(gs, order)[j]).len()
                <= usize::MAX,
    ensures
        ({
            let lines = listing_lines(gs, order);
            exists|k: int|
                #![trigger lines.take(k)]
                0 <= k <= lines.len() && encode_utf8(lines.take(k).flatten_alt()).len()
                    <= LIST_BUDGET && server_listing(gs, order) == lines.take(k).flatten_alt()
                    + if k < lines.len() {
                    more_note((lines.len() - k) as nat)
                } else {
                    Seq::<char>::empty()
                }
        }),
{
    let lines = listing_lines(gs, order);
    assert(lines.take(0).flatten_alt() =~= Seq::<char>::empty());
    assert(encode_utf8(Seq::<char>::empty()).len() == 0);
    lemma_list_from_budget(lines, 0);
}

fn guild_line_chars(i: usize, g: &SeenGuild) -> (r: Vec<char>)
    requires
        i < usize::MAX,
    ensures
        r@ == guild_line(i as nat, *g),
{
    let mut s = chars_of("**");
    append_chars(&mut s, &decimal_chars((i + 1) as u64));
    append_chars(&mut s, &chars_of(".** `"));
    append_chars(&mut s, &decimal_chars(g.id));
    append_chars(&mut s, &chars_of("` — "));
    let members: u64 = match &g.cached {
        Some((name, m)) => {
            append_chars(&mut s, &chars_of(name.as_str()));
            *m
        },
        None => {
            append_chars(&mut s, &chars_of("(inconnu — pas en cache)"));
            0
        },
    };
    append_chars(&mut s, &chars_of(" ("));
    append_chars(&mut s, &decimal_chars(members));
    append_chars(&mut s, &chars_of(" membres)\n"));
    s
}

fn byte_len_of(v: &Vec<char>) -> (r: usize)
    ensures
        r == byte_len(v@),
{
    let s = string_of(v);
    s.as_str().len()
}

/// The guild list of `servers`: the guilds by decreasing member count
/// (ties in the order given), numbered from 1, within the byte budget.
pub fn server_list(gs: &Vec<SeenGuild>) -> (r: (String, Vec<usize>))
    ensures
        by_members(gs@, r.1@),
        covers(gs@.map_values(|g: SeenGuild| (u64::MAX - guild_members(g)) as u64), r.1@),
        r.0@ == server_listing(gs@, r.1@),
{
    let ghost keys_v = gs@.map_values(|g: SeenGuild| (u64::MAX - guild_members(g)) as u64);
    let mut keys: Vec<u64> = Vec::new();
    let mut i: usize = 0;
    while i < gs.len()
        invariant
            i <= gs.len(),
            keys@ == keys_v.take(i as int),
            keys_v == gs@.map_values(|g: SeenGuild| (u64::MAX - guild_members(g)) as u64),
        decreases gs.len() - i,
    {
        let m: u64 = match &gs[i].cached {
            Some((_, m)) => *m,
            None => 0,
        };
        keys.push(u64::MAX - m);
        i = i + 1;
        assert(keys@ =~= keys_v.take(i as int));
    }
    assert(keys_v.take(gs.len() as int) =~= keys_v);
    let order = stable_order_by(&keys);
    let ghost lines = listing_lines(gs@, order@);
    let mut desc: Vec<char> = Vec::new();
    let mut j: usize = 0;
    while j < order.len()
        invariant
            j <= order.len(),
            order.len() == gs.len(),
            stable_order(keys_v, order@),
            covers(keys_v, order@),
            keys_v == gs@.map_values(|g: SeenGuild| (u64::MAX - guild_members(g)) as u64),
            keys_v.len() == gs.len(),
            lines == listing_lines(gs@, order@),
            list_from(lines, 0, Seq::empty()) == list_from(lines, j as nat, desc@),
        decreases order.len() - j,
    {
        assert(order@[j as int] < gs.len());
        let line = guild_line_chars(j, &gs[order[j]]);
        let total = (byte_len_of(&desc) as u128) + (byte_len_of(&line) as u128);
        if total > LIST_BUDGET as u128 {
            append_chars(&mut desc, &chars_of("…et "));
            append_chars(&mut desc, &decimal_chars((order.len() - j) as u64));
            append_chars(&mut desc, &chars_of(" de plus."));
            return (string_of(&desc), order);
        }
        append_chars(&mut desc, &line);
        j = j + 1;
    }
    (string_of(&desc), order)
}

/// Why `leave` leaves nothing.
#[derive(Clone, Copy, Debug, PartialEq, Eq)]
pub enum LeaveError {
    /// No argument.
    Usage,
    /// The argument is not a guild id.
    InvalidId,
}

/// The guild that `leave <guild_id>` leaves.
pub fn plan_leave(toks: &Vec<ArgToken>) -> (r: Result<u64, LeaveError>)
    ensures
        toks.len() == 0 ==> r == Err::<u64, LeaveError>(LeaveError::Usage),
        toks.len() > 0 ==> r == match parse_u64_spec(toks@[0].text@) {
            Some(g) => Ok::<u64, LeaveError>(g),
            None => Err::<u64, LeaveError>(LeaveError::InvalidId),
        },
{
    if toks.len() == 0 {
        return Err(LeaveError::Usage);
    }
    match parse_u64_chars(&chars_of(toks[0].text.as_str())) {
        Some(g) => Ok(g),
        None => Err(LeaveError::InvalidId),
    }
}

/// How a guild the bot left is named in the confirmation: its cached
/// name, else its id in backquotes.
pub fn leave_label(name: Option<&str>, id: u64) -> (r: String)
    ensures
        r@ == match name {
            Some(n) => n@,
            None => "`"@ + decimal(id as nat) + "`"@,
        },
{
    match name {
        Some(n) => string_of(&chars_of(n)),
        None => {
            let mut s = chars_of("`");
            append_chars(&mut s, &decimal_chars(id));
            append_chars(&mut s, &chars_of("`"));
            string_of(&s)
        },
    }
}

} // verus!
