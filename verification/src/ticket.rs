//! Support tickets: opening one from the panel button, who may close it,
//! who may be removed from it, and the ticket configuration command.
use vstd::prelude::*;
use crate::args::{token_texts, ArgToken};
use crate::mention::{
    channel_id_of, parse_channel_mention, parse_role_mention, role_id_of,
    role_mention, role_mention_chars, user_mention, user_mention_chars,
};
use crate::perms::{
    Overwrite, Target, TICKET_BOT_ALLOW, TICKET_MEMBER_ALLOW, TICKET_SUPPORT_ALLOW,
    VIEW_CHANNEL,
};
use crate::text::{
    append_chars, chars_eq, chars_of, decimal, decimal_chars, parse_u64_chars, parse_u64_spec,
    signed_padded, signed_padded_chars, string_of,
};

verus! {

/// The ticket configuration of a guild, as stored.
pub struct TicketConfig {
    pub category_id: String,
    pub support_role_id: Option<String>,
    pub log_channel_id: Option<String>,
    pub ticket_counter: i64,
}

/// The button a member pressed.
#[derive(Clone, Copy, Debug, PartialEq, Eq)]
pub enum TicketButton {
    Open,
    Close,
}

/// The button behind an interaction's custom id: `ticket_open` or
/// `ticket_close`; others are not the bot's.
pub fn button_of(custom_id: &str) -> (r: Option<TicketButton>)
    ensures
        custom_id@ == "ticket_open"@ ==> r == Some(TicketButton::Open),
        custom_id@ == "ticket_close"@ ==> r == Some(TicketButton::Close),
        custom_id@ != "ticket_open"@ && custom_id@ != "ticket_close"@ ==> r is None,
{
    let id = chars_of(custom_id);
    proof {
        reveal_strlit("ticket_open");
        reveal_strlit("ticket_close");
        assert("ticket_open"@.len() != "ticket_close"@.len());
    }
    if chars_eq(&id, &chars_of("ticket_open")) {
        Some(TicketButton::Open)
    } else if chars_eq(&id, &chars_of("ticket_close")) {
        Some(TicketButton::Close)
    } else {
        None
    }
}

/// What pressing the open button leads to.
pub enum OpenDecision {
    /// The guild has no ticket configuration.
    NotConfigured,
    /// The member already has a ticket, in this channel (as stored).
    AlreadyOpen { channel: String },
    /// The stored category is not a number: nothing happens.
    BadCategory,
    /// Create the ticket.
    Create(OpenPlan),
}

/// A ticket to create.
pub struct OpenPlan {
    /// Its number, one past the guild's counter.
    pub number: i64,
    /// `ticket-NNNN`.
    pub channel_name: String,
    /// `Ticket de <name> (#NNNN)`.
    pub topic: String,
    /// The category it goes in.
    pub category: u64,
    /// Everyone hidden; the member, the bot and the support role let in.
    pub overwrites: Vec<Overwrite>,
    /// The first message: the member's mention, then the support role's.
    pub content: String,
    /// `🎫 Ticket #NNNN`, the title of the welcome message.
    pub title: String,
    /// `#NNNN`, how the logs name the ticket.
    pub label: String,
    /// The support role, when one is configured and reads as a number.
    pub support_role: Option<u64>,
    /// The log channel, when one is configured and reads as a number.
    pub log_channel: Option<u64>,
}

/// A stored optional id, read as a number.
pub open spec fn stored_id(s: Option<String>) -> Option<u64> {
    match s {
        Some(t) => parse_u64_spec(t@),
        None => None,
    }
}

/// `NNNN`: a ticket number on at least four digits.
pub open spec fn ticket_number_text(n: int) -> Seq<char> {
    signed_padded(n, 4)
}

/// The overwrites of a new ticket.
pub open spec fn ticket_overwrites(guild: u64, user: u64, bot: u64, support: Option<u64>) -> Seq<Overwrite> {
    let base = seq![
        Overwrite { target: Target::Role(guild), allow: 0, deny: VIEW_CHANNEL },
        Overwrite { target: Target::Member(user), allow: TICKET_MEMBER_ALLOW, deny: 0 },
        Overwrite { target: Target::Member(bot), allow: TICKET_BOT_ALLOW, deny: 0 },
    ];
    match support {
        Some(r) => base.push(Overwrite { target: Target::Role(r), allow: TICKET_SUPPORT_ALLOW, deny: 0 }),
        None => base,
    }
}

/// The first message of a new ticket.
pub open spec fn ticket_content(user: u64, support: Option<u64>) -> Seq<char> {
    match support {
        Some(r) => user_mention(user) + " "@ + role_mention(r),
        None => user_mention(user),
    }
}

/// What pressing the open button does for `user`, given the guild's
/// configuration and the member's open ticket, if any.
pub open spec fn open_spec(
    config: Option<TicketConfig>,
    existing: Option<String>,
    guild: u64,
    user: u64,
    bot: u64,
    user_name: Seq<char>,
) -> OpenOutcome {
    match config {
        None => OpenOutcome::NotConfigured,
        Some(c) => match existing {
            Some(ch) => OpenOutcome::AlreadyOpen(ch@),
            None => match parse_u64_spec(c.category_id@) {
                None => OpenOutcome::BadCategory,
                Some(cat) => {
                    let n = c.ticket_counter + 1;
                    let support = stored_id(c.support_role_id);
                    OpenOutcome::Create {
                        number: n,
                        channel_name: "ticket-"@ + ticket_number_text(n),
                        topic: "Ticket de "@ + user_name + " (#"@ + ticket_number_text(n) + ")"@,
                        category: cat,
                        overwrites: ticket_overwrites(guild, user, bot, support),
                        content: ticket_content(user, support),
                        title: "🎫 Ticket #"@ + ticket_number_text(n),
                        label: "#"@ + ticket_number_text(n),
                        support_role: support,
                        log_channel: stored_id(c.log_channel_id),
                    }
                },
            },
        },
    }
}

/// The model of `OpenDecision`.
pub ghost enum OpenOutcome {
    NotConfigured,
    AlreadyOpen(Seq<char>),
    BadCategory,
    Create {
        number: int,
        channel_name: Seq<char>,
        topic: Seq<char>,
        category: u64,
        overwrites: Seq<Overwrite>,
        content: Seq<char>,
        title: Seq<char>,
        label: Seq<char>,
        support_role: Option<u64>,
        log_channel: Option<u64>,
    },
}

/// The model of a decision.
pub open spec fn open_view(d: OpenDecision) -> OpenOutcome {
    match d {
        OpenDecision::NotConfigured => OpenOutcome::NotConfigured,
        OpenDecision::AlreadyOpen { channel } => OpenOutcome::AlreadyOpen(channel@),
        OpenDecision::BadCategory => OpenOutcome::BadCategory,
        OpenDecision::Create(p) => OpenOutcome::Create {
            number: p.number as int,
            channel_name: p.channel_name@,
            topic: p.topic@,
            category: p.category,
            overwrites: p.overwrites@,
            content: p.content@,
            title: p.title@,
            label: p.label@,
            support_role: p.support_role,
            log_channel: p.log_channel,
        },
    }
}

/// `#NNNN`: how the logs name ticket `n`.
pub fn ticket_label(n: i64) -> (r: String)
    ensures
        r@ == "#"@ + ticket_number_text(n as int),
{
    let mut label = chars_of("#");
    append_chars(&mut label, &signed_padded_chars(n, 4));
    string_of(&label)
}

/// A stored optional id, read as a number.
pub fn parse_stored_id(s: &Option<String>) -> (r: Option<u64>)
    ensures
        r == stored_id(*s),
{
    match s {
        Some(t) => crate::mention::parse_id(t.as_str()),
        None => None,
    }
}

/// Whether a ticket is created: the guild is configured, the member has
/// no open ticket, and the stored category reads as a number.
pub open spec fn creates_ticket(config: Option<TicketConfig>, existing: Option<String>) -> bool {
    &&& config is Some
    &&& existing is None
    &&& parse_u64_spec(config->0.category_id@) is Some
}

/// What pressing the open button does. When a ticket is created, the
/// guild's counter must be below `i64::MAX`, since its number is one past
/// the counter.
pub fn plan_open(
    config: &Option<TicketConfig>,
    existing: &Option<String>,
    guild: u64,
    user: u64,
    bot: u64,
    user_name: &str,
) -> (r: OpenDecision)
    requires
        creates_ticket(*config, *existing) ==> config->0.ticket_counter < i64::MAX,
    ensures
        open_view(r) == open_spec(*config, *existing, guild, user, bot, user_name@),
{
    let c = match config {
        None => return OpenDecision::NotConfigured,
        Some(c) => c,
    };
    match existing {
        Some(ch) => return OpenDecision::AlreadyOpen { channel: ch.clone() },
        None => {},
    }
    let category = match parse_u64_chars(&chars_of(c.category_id.as_str())) {
        None => return OpenDecision::BadCategory,
        Some(cat) => cat,
    };
    let n = c.ticket_counter + 1;
    let support = parse_stored_id(&c.support_role_id);
    let log_channel = parse_stored_id(&c.log_channel_id);
    let padded = signed_padded_chars(n, 4);

    let mut name = chars_of("ticket-");
    append_chars(&mut name, &padded);

    let mut topic = chars_of("Ticket de ");
    append_chars(&mut topic, &chars_of(user_name));
    append_chars(&mut topic, &chars_of(" (#"));
    append_chars(&mut topic, &padded);
    append_chars(&mut topic, &chars_of(")"));

    let mut title = chars_of("🎫 Ticket #");
    append_chars(&mut title, &padded);
    let mut label = chars_of("#");
    append_chars(&mut label, &padded);

    let mut overwrites: Vec<Overwrite> = Vec::new();
    overwrites.push(Overwrite { target: Target::Role(guild), allow: 0, deny: VIEW_CHANNEL });
    overwrites.push(Overwrite { target: Target::Member(user), allow: TICKET_MEMBER_ALLOW, deny: 0 });
    overwrites.push(Overwrite { target: Target::Member(bot), allow: TICKET_BOT_ALLOW, deny: 0 });
    let mut content = user_mention_chars(user);
    match support {
        Some(role) => {
            overwrites.push(
                Overwrite { target: Target::Role(role), allow: TICKET_SUPPORT_ALLOW, deny: 0 },
            );
            append_chars(&mut content, &chars_of(" "));
            append_chars(&mut content, &role_mention_chars(role));
        },
        None => {},
    }
    assert(overwrites@ =~= ticket_overwrites(guild, user, bot, support));
    OpenDecision::Create(
        OpenPlan {
            number: n,
            channel_name: string_of(&name),
            topic: string_of(&topic),
            category,
            overwrites,
            content: string_of(&content),
            title: string_of(&title),
            label: string_of(&label),
            support_role: support,
            log_channel,
        },
    )
}

/// Whether the stored owner of a ticket is this user: the stored text is
/// the user's id in decimal.
pub fn is_owner(owner: &str, user: u64) -> (r: bool)
    ensures
        r == (owner@ == decimal(user as nat)),
{
    chars_eq(&chars_of(owner), &decimal_chars(user))
}

/// Whether `tclose` closes the ticket: its author is the ticket's owner,
/// or may manage channels.
pub fn may_close(owner: &str, author: u64, manages_channels: bool) -> (r: bool)
    ensures
        r == (owner@ == decimal(author as nat) || manages_channels),
{
    is_owner(owner, author) || manages_channels
}

/// Why `tremove` removes nobody.
#[derive(Clone, Copy, Debug, PartialEq, Eq)]
pub enum RemoveError {
    /// No argument.
    Usage,
    /// The argument names no user.
    InvalidUser,
    /// The user is the ticket's owner.
    Owner,
}

/// The member that `tremove` takes out of a ticket whose stored owner is
/// `owner`.
pub fn plan_remove(toks: &Vec<ArgToken>, owner: &str) -> (r: Result<u64, RemoveError>)
    ensures
        toks.len() == 0 ==> r == Err::<u64, RemoveError>(RemoveError::Usage),
        toks.len() > 0 ==> match crate::mention::user_id_of(toks@[0].text@) {
            None => r == Err::<u64, RemoveError>(RemoveError::InvalidUser),
            Some(u) => if owner@ == decimal(u as nat) {
                r == Err::<u64, RemoveError>(RemoveError::Owner)
            } else {
                r == Ok::<u64, RemoveError>(u)
            },
        },
{
    if toks.len() == 0 {
        return Err(RemoveError::Usage);
    }
    match crate::mention::parse_user_id(toks[0].text.as_str()) {
        None => Err(RemoveError::InvalidUser),
        Some(u) => if is_owner(owner, u) {
            Err(RemoveError::Owner)
        } else {
            Ok(u)
        },
    }
}

/// The overwrite that `tadd` gives a member: the ticket member rights.
pub fn member_overwrite(user: u64) -> (r: Overwrite)
    ensures
        r == (Overwrite { target: Target::Member(user), allow: TICKET_MEMBER_ALLOW, deny: 0 }),
{
    Overwrite { target: Target::Member(user), allow: TICKET_MEMBER_ALLOW, deny: 0 }
}

/// Why `setticket` configures nothing.
#[derive(Clone, Copy, Debug, PartialEq, Eq)]
pub enum SetupError {
    /// No argument.
    Usage,
    /// The first argument names no channel.
    InvalidCategory,
}

/// A ticket configuration to store.
pub struct TicketSetup {
    pub category: u64,
    pub support_role: Option<u64>,
    pub log_channel: Option<u64>,
}

/// The support role and log channel named by the arguments after the
/// category: each one that reads as a role sets the role, else each one
/// that reads as a channel sets the channel, and the last one counts.
pub open spec fn setup_extras(texts: Seq<Seq<char>>) -> (Option<u64>, Option<u64>)
    decreases texts.len(),
{
    if texts.len() == 0 {
        (None, None)
    } else {
        let (role, log) = setup_extras(texts.drop_last());
        let t = texts.last();
        match role_id_of(t) {
            Some(r) => (Some(r), log),
            None => match channel_id_of(t) {
                Some(c) => (role, Some(c)),
                None => (role, log),
            },
        }
    }
}

/// The configuration that `setticket #category [@role] [#logs]` stores.
pub fn plan_setup(toks: &Vec<ArgToken>) -> (r: Result<TicketSetup, SetupError>)
    ensures
        toks.len() == 0 ==> r is Err && r->Err_0 == SetupError::Usage,
        toks.len() > 0 ==> match channel_id_of(toks@[0].text@) {
            None => r is Err && r->Err_0 == SetupError::InvalidCategory,
            Some(cat) => r is Ok && r->Ok_0.category == cat && (r->Ok_0.support_role, r->Ok_0.log_channel)
                == setup_extras(token_texts(toks@).drop_first()),
        },
{
    if toks.len() == 0 {
        return Err(SetupError::Usage);
    }
    let category = match parse_channel_mention(toks[0].text.as_str()) {
        None => return Err(SetupError::InvalidCategory),
        Some(c) => c,
    };
    let ghost texts = token_texts(toks@).drop_first();
    let mut role: Option<u64> = None;
    let mut log: Option<u64> = None;
    let mut i: usize = 1;
    assert(texts.take(0) =~= Seq::<Seq<char>>::empty());
    while i < toks.len()
        invariant
            1 <= i <= toks.len(),
            texts == token_texts(toks@).drop_first(),
            (role, log) == setup_extras(texts.take(i - 1)),
        decreases toks.len() - i,
    {
        assert(texts.take(i as int).drop_last() =~= texts.take(i - 1));
        assert(texts.take(i as int).last() == toks@[i as int].text@);
        match parse_role_mention(toks[i].text.as_str()) {
            Some(r) => {
                role = Some(r);
            },
            None => match parse_channel_mention(toks[i].text.as_str()) {
                Some(c) => {
                    log = Some(c);
                },
                None => {},
            },
        }
        i = i + 1;
    }
    assert(texts.take(toks.len() - 1) =~= texts);
    Ok(TicketSetup { category, support_role: role, log_channel: log })
}

/// The channel `ticketpanel` posts in: the one its argument names, else
/// the current one.
pub fn panel_channel(toks: &Vec<ArgToken>, current: u64) -> (r: u64)
    ensures
        r == if toks.len() > 0 {
            match channel_id_of(toks@[0].text@) {
                Some(c) => c,
                None => current,
            }
        } else {
            current
        },
{
    if toks.len() == 0 {
        return current;
    }
    match parse_channel_mention(toks[0].text.as_str()) {
        Some(c) => c,
        None => current,
    }
}


/// A ticket that is created is private: `@everyone` is denied the view
/// and allowed nothing; its creator may view it, write, read back, attach
/// files and embed links; the bot may view it, write, read back and
/// manage the channel and its messages; its number is one past the
/// guild's counter.
pub proof fn created_ticket_is_private(
    config: Option<TicketConfig>,
    existing: Option<String>,
    guild: u64,
    user: u64,
    bot: u64,
    user_name: Seq<char>,
)
    ensures
        open_spec(config, existing, guild, user, bot, user_name) matches OpenOutcome::Create {
            number,
            overwrites,
            ..
        } ==> {
            &&& number == config->0.ticket_counter + 1
            &&& overwrites[0] == Overwrite { target: Target::Role(guild), allow: 0, deny: 0x400 }
            &&& overwrites[1] == Overwrite {
                target: Target::Member(user),
                allow: 0x400u64 | 0x800u64 | 0x1_0000u64 | 0x8000u64 | 0x4000u64,
                deny: 0,
            }
            &&& overwrites[2] == Overwrite {
                target: Target::Member(bot),
                allow: 0x400u64 | 0x800u64 | 0x1_0000u64 | 0x10u64 | 0x2000u64,
                deny: 0,
            }
            &&& overwrites[0].target == Target::Role(guild)
            &&& overwrites[0].allow == 0
            &&& overwrites[0].deny & VIEW_CHANNEL == VIEW_CHANNEL
            &&& overwrites[1].target == Target::Member(user)
            &&& overwrites[1].allow & VIEW_CHANNEL == VIEW_CHANNEL
            &&& overwrites[2].target == Target::Member(bot)
            &&& overwrites[2].allow & VIEW_CHANNEL == VIEW_CHANNEL
        },
{
    assert(0x400u64 & 0x400u64 == 0x400u64) by (bit_vector);
    assert((0x400u64 | 0x800u64 | 0x1_0000u64 | 0x8000u64 | 0x4000u64) & 0x400u64 == 0x400u64)
        by (bit_vector);
    assert((0x400u64 | 0x800u64 | 0x1_0000u64 | 0x10u64 | 0x2000u64) & 0x400u64 == 0x400u64)
        by (bit_vector);
}

/// The support role of a guild, when one is configured and reads as a
/// number, is let into every ticket created there: its overwrite, the
/// fourth, allows viewing the channel, sending messages, reading the
/// history, attaching files, embedding links and managing messages, and
/// denies nothing; the ticket's first message mentions it. Without such a
/// role the ticket has only the three overwrites of `@everyone`, the
/// member and the bot.
pub proof fn support_role_sees_ticket(
    config: Option<TicketConfig>,
    existing: Option<String>,
    guild: u64,
    user: u64,
    bot: u64,
    user_name: Seq<char>,
)
    ensures
        open_spec(config, existing, guild, user, bot, user_name) matches OpenOutcome::Create {
            overwrites,
            content,
            support_role,
            ..
        } ==> match config->0.support_role_id {
            Some(s) => match parse_u64_spec(s@) {
                Some(r) => {
                    &&& support_role == Some(r)
                    &&& overwrites.len() == 4
                    &&& overwrites[3] == Overwrite {
                        target: Target::Role(r),
                        allow: 0x400u64 | 0x800u64 | 0x1_0000u64 | 0x8000u64 | 0x4000u64
                            | 0x2000u64,
                        deny: 0,
                    }
                    &&& overwrites[3].allow & 0x400u64 == 0x400u64
                    &&& content == user_mention(user) + " "@ + role_mention(r)
                },
                None => support_role is None && overwrites.len() == 3,
            },
            None => support_role is None && overwrites.len() == 3,
        },
{
    assert((0x400u64 | 0x800u64 | 0x1_0000u64 | 0x8000u64 | 0x4000u64 | 0x2000u64) & 0x400u64
        == 0x400u64) by (bit_vector);
}

/// Someone who already has a ticket open gets no second one: in a
/// configured guild they are pointed to the ticket they have.
pub proof fn one_ticket_per_member(
    config: Option<TicketConfig>,
    existing: Option<String>,
    guild: u64,
    user: u64,
    bot: u64,
    user_name: Seq<char>,
)
    requires
        existing is Some,
    ensures
        open_spec(config, existing, guild, user, bot, user_name) == match config {
            None => OpenOutcome::NotConfigured,
            Some(_) => OpenOutcome::AlreadyOpen(existing->0@),
        },
{
}

} // verus!
