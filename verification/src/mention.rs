//! Reading Discord identifiers from command arguments: user, channel and
//! role mentions, or bare numeric ids, and writing mentions back.
use vstd::prelude::*;
use crate::text::{
    is_digit, lemma_decimal, lemma_parse_decimal, lemma_trim_unchanged, chars_of, concat, decimal, decimal_chars, has_prefix, parse_u64_chars, parse_u64_spec, slice,
    starts_with, strip_prefix_all, strip_prefix_all_chars, strip_suffix_char_all,
    strip_suffix_char_all_chars, trim, trim_chars,
};

verus! {

pub open spec fn user_prefix() -> Seq<char> {
    seq!['<', '@']
}

pub open spec fn nick_prefix() -> Seq<char> {
    seq!['<', '@', '!']
}

pub open spec fn channel_prefix() -> Seq<char> {
    seq!['<', '#']
}

pub open spec fn role_prefix() -> Seq<char> {
    seq!['<', '@', '&']
}

/// `s` ends with the character `c`.
pub open spec fn ends_with_char(s: Seq<char>, c: char) -> bool {
    s.len() > 0 && s.last() == c
}

/// The text of a user argument that is read as a number: the trimmed
/// argument, and, when it is written `<@...>`, what remains once every
/// leading `<@!`, then every leading `<@`, then every trailing `>` is gone.
pub open spec fn user_id_text(s: Seq<char>) -> Seq<char> {
    let t = trim(s);
    if has_prefix(t, user_prefix()) && ends_with_char(t, '>') {
        strip_suffix_char_all(
            strip_prefix_all(strip_prefix_all(t, nick_prefix()), user_prefix()),
            '>',
        )
    } else {
        t
    }
}

/// The user id that an argument names, if any.
pub open spec fn user_id_of(s: Seq<char>) -> Option<u64> {
    parse_u64_spec(user_id_text(s))
}

/// The text of a channel argument: the trimmed argument, without its
/// `<#` and `>` when it is written `<#...>`.
pub open spec fn channel_id_text(s: Seq<char>) -> Seq<char> {
    let t = trim(s);
    if has_prefix(t, channel_prefix()) && ends_with_char(t, '>') {
        t.subrange(2, t.len() - 1)
    } else {
        t
    }
}

/// The channel id that an argument names, if any.
pub open spec fn channel_id_of(s: Seq<char>) -> Option<u64> {
    parse_u64_spec(channel_id_text(s))
}

/// The text of a role argument: the trimmed argument, without its `<@&`
/// and `>` when it is written `<@&...>`.
pub open spec fn role_id_text(s: Seq<char>) -> Seq<char> {
    let t = trim(s);
    if has_prefix(t, role_prefix()) && ends_with_char(t, '>') {
        t.subrange(3, t.len() - 1)
    } else {
        t
    }
}

/// The role id that an argument names, if any.
pub open spec fn role_id_of(s: Seq<char>) -> Option<u64> {
    parse_u64_spec(role_id_text(s))
}

/// The voice hub argument of the temporary channel setup: trimmed, every
/// leading `<#` and every trailing `>` removed, with no need for both.
pub open spec fn hub_id_of(s: Seq<char>) -> Option<u64> {
    parse_u64_spec(strip_suffix_char_all(strip_prefix_all(trim(s), channel_prefix()), '>'))
}

/// `<@id>`, the mention of a user.
pub open spec fn user_mention(id: u64) -> Seq<char> {
    seq!['<', '@'] + decimal(id as nat) + seq!['>']
}

/// `<#id>`, the mention of a channel.
pub open spec fn channel_mention(id: u64) -> Seq<char> {
    seq!['<', '#'] + decimal(id as nat) + seq!['>']
}

/// `<@&id>`, the mention of a role.
pub open spec fn role_mention(id: u64) -> Seq<char> {
    seq!['<', '@', '&'] + decimal(id as nat) + seq!['>']
}

/// A bare id, as stored: `u64::from_str` of the whole text.
pub fn parse_id(s: &str) -> (r: Option<u64>)
    ensures
        r == parse_u64_spec(s@),
{
    parse_u64_chars(&chars_of(s))
}

fn ends_with_char_exec(s: &Vec<char>, c: char) -> (r: bool)
    ensures
        r == ends_with_char(s@, c),
{
    s.len() > 0 && s[s.len() - 1] == c
}

/// The user id that an argument names: a bare id or a `<@id>` / `<@!id>`
/// mention.
pub fn parse_user_id(s: &str) -> (r: Option<u64>)
    ensures
        r == user_id_of(s@),
{
    let raw = chars_of(s);
    let t = trim_chars(&raw);
    let up = vec!['<', '@'];
    let np = vec!['<', '@', '!'];
    assert(up@ =~= user_prefix());
    assert(np@ =~= nick_prefix());
    if starts_with(&t, &up) && ends_with_char_exec(&t, '>') {
        let a = strip_prefix_all_chars(&t, &np);
        let b = strip_prefix_all_chars(&a, &up);
        let c = strip_suffix_char_all_chars(&b, '>');
        parse_u64_chars(&c)
    } else {
        parse_u64_chars(&t)
    }
}

/// The channel id that an argument names: a bare id or a `<#id>` mention.
pub fn parse_channel_mention(s: &str) -> (r: Option<u64>)
    ensures
        r == channel_id_of(s@),
{
    let raw = chars_of(s);
    let t = trim_chars(&raw);
    let cp = vec!['<', '#'];
    assert(cp@ =~= channel_prefix());
    if starts_with(&t, &cp) && ends_with_char_exec(&t, '>') {
        assert(t@[1] == '#');
        let inner = slice(&t, 2, t.len() - 1);
        parse_u64_chars(&inner)
    } else {
        parse_u64_chars(&t)
    }
}

/// The role id that an argument names: a bare id or a `<@&id>` mention.
pub fn parse_role_mention(s: &str) -> (r: Option<u64>)
    ensures
        r == role_id_of(s@),
{
    let raw = chars_of(s);
    let t = trim_chars(&raw);
    let rp = vec!['<', '@', '&'];
    assert(rp@ =~= role_prefix());
    if starts_with(&t, &rp) && ends_with_char_exec(&t, '>') {
        assert(t@[2] == '&');
        let inner = slice(&t, 3, t.len() - 1);
        parse_u64_chars(&inner)
    } else {
        parse_u64_chars(&t)
    }
}

/// The voice hub channel named by the temporary channel setup command.
pub fn parse_hub_channel(s: &str) -> (r: Option<u64>)
    ensures
        r == hub_id_of(s@),
{
    let raw = chars_of(s);
    let t = trim_chars(&raw);
    let cp = vec!['<', '#'];
    assert(cp@ =~= channel_prefix());
    let a = strip_prefix_all_chars(&t, &cp);
    let b = strip_suffix_char_all_chars(&a, '>');
    parse_u64_chars(&b)
}

fn wrap_id(open: &Vec<char>, id: u64) -> (r: Vec<char>)
    ensures
        r@ == open@ + decimal(id as nat) + seq!['>'],
{
    let digits = decimal_chars(id);
    let mut r = concat(open, &digits);
    r.push('>');
    r
}

/// `<@id>`.
pub fn user_mention_chars(id: u64) -> (r: Vec<char>)
    ensures
        r@ == user_mention(id),
{
    let open = vec!['<', '@'];
    assert(open@ =~= seq!['<', '@']);
    wrap_id(&open, id)
}

/// `<@&id>`.
pub fn role_mention_chars(id: u64) -> (r: Vec<char>)
    ensures
        r@ == role_mention(id),
{
    let open = vec!['<', '@', '&'];
    assert(open@ =~= seq!['<', '@', '&']);
    wrap_id(&open, id)
}


/// Reading the mention of a user gives back that user.
pub proof fn user_mention_round_trip(id: u64)
    ensures
        user_id_of(user_mention(id)) == Some(id),
{
    let d = decimal(id as nat);
    lemma_decimal(id as nat);
    let m = user_mention(id);
    assert(m[0] == '<' && m.last() == '>');
    lemma_trim_unchanged(m);
    assert(m.take(2) =~= user_prefix());
    assert(m[2] == d[0]);
    assert(is_digit(d[0]));
    assert(m.take(3) != nick_prefix()) by {
        assert(m.take(3)[2] == d[0]);
    }
    assert(strip_prefix_all(m, nick_prefix()) == m);
    let rest = m.skip(2);
    assert(rest =~= d + seq!['>']);
    assert(rest.take(2)[0] == d[0]);
    assert(!has_prefix(rest, user_prefix()));
    assert(strip_prefix_all(rest, user_prefix()) == rest);
    assert(user_prefix().len() == 2);
    assert(has_prefix(m, user_prefix()));
    assert(m.skip(user_prefix().len() as int) == rest);
    assert(strip_prefix_all(m, user_prefix()) == rest);
    assert(rest.drop_last() =~= d);
    assert(strip_suffix_char_all(rest, '>') == strip_suffix_char_all(d, '>'));
    assert(is_digit(d.last()));
    assert(strip_suffix_char_all(d, '>') == d);
    lemma_parse_decimal(id as nat, u64::MAX as nat);
}

/// Reading a user id written in decimal gives back that id.
pub proof fn user_id_round_trip(id: u64)
    ensures
        user_id_of(decimal(id as nat)) == Some(id),
{
    let d = decimal(id as nat);
    lemma_decimal(id as nat);
    lemma_trim_unchanged(d);
    assert(is_digit(d[0]));
    if has_prefix(d, user_prefix()) {
        assert(d.take(2)[0] == d[0]);
    }
    lemma_parse_decimal(id as nat, u64::MAX as nat);
}

/// Reading the mention of a channel gives back that channel.
pub proof fn channel_mention_round_trip(id: u64)
    ensures
        channel_id_of(channel_mention(id)) == Some(id),
{
    let d = decimal(id as nat);
    lemma_decimal(id as nat);
    let m = channel_mention(id);
    assert(m[0] == '<' && m.last() == '>');
    lemma_trim_unchanged(m);
    assert(m.take(2) =~= channel_prefix());
    assert(m.subrange(2, m.len() - 1) =~= d);
    lemma_parse_decimal(id as nat, u64::MAX as nat);
}

/// Reading the mention of a role gives back that role.
pub proof fn role_mention_round_trip(id: u64)
    ensures
        role_id_of(role_mention(id)) == Some(id),
{
    let d = decimal(id as nat);
    lemma_decimal(id as nat);
    let m = role_mention(id);
    assert(m[0] == '<' && m.last() == '>');
    lemma_trim_unchanged(m);
    assert(m.take(3) =~= role_prefix());
    assert(m.subrange(3, m.len() - 1) =~= d);
    lemma_parse_decimal(id as nat, u64::MAX as nat);
}

} // verus!
