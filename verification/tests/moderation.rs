use golemian::args::ArgToken;
use golemian::database::Warning;
use golemian::moderation::{
    deletion_for, mute_fits, plan_clear, plan_mute, plan_single_user, plan_targets, plan_warn,
    warnings_list, Deletion, ModerationError,
};

fn toks(s: &str) -> Vec<ArgToken> {
    let mut out = Vec::new();
    let mut start = None;
    for (i, c) in s.char_indices() {
        if c == ' ' {
            if let Some(b) = start.take() {
                out.push(ArgToken { text: s[b..i].to_string(), rest: s[b..].to_string() });
            }
        } else if start.is_none() {
            start = Some(i);
        }
    }
    if let Some(b) = start {
        out.push(ArgToken { text: s[b..].to_string(), rest: s[b..].to_string() });
    }
    out
}

#[test]
fn ban_one_user_with_reason() {
    let t = plan_targets(&toks("<@1> comportement toxique")).ok().unwrap();
    assert_eq!(t.users, vec![1]);
    assert_eq!(t.reason, "comportement toxique");
}

#[test]
fn ban_several_users() {
    let t = plan_targets(&toks("<@1> <@!2> 3 raid")).ok().unwrap();
    assert_eq!(t.users, vec![1, 2, 3]);
    assert_eq!(t.reason, "raid");
}

#[test]
fn ban_without_reason_uses_default() {
    let t = plan_targets(&toks("<@1> <@2>")).ok().unwrap();
    assert_eq!(t.users, vec![1, 2]);
    assert_eq!(t.reason, "Aucune raison fournie");
}

#[test]
fn targets_errors() {
    assert_eq!(plan_targets(&toks("")).err(), Some(ModerationError::Usage));
    assert_eq!(plan_targets(&toks("Jean")).err(), Some(ModerationError::UnknownUser));
}

#[test]
fn mute_users_duration_reason() {
    let p = plan_mute(&toks("<@1> <@2> 2h insultes"), 1000).ok().unwrap();
    assert_eq!(p.users, vec![1, 2]);
    assert_eq!(p.duration_text, "2h");
    assert_eq!(p.until, 1000 + 7200);
    assert_eq!(p.reason, "insultes");
    let p = plan_mute(&toks("<@1> 10m"), 0).ok().unwrap();
    assert_eq!(p.until, 600);
    assert_eq!(p.reason, "Aucune raison fournie");
}

#[test]
fn mute_errors() {
    assert_eq!(plan_mute(&toks(""), 0).err(), Some(ModerationError::Usage));
    assert_eq!(plan_mute(&toks("x 10m"), 0).err(), Some(ModerationError::UnknownUser));
    assert_eq!(plan_mute(&toks("<@1>"), 0).err(), Some(ModerationError::MissingDuration));
    assert_eq!(plan_mute(&toks("<@1> soon"), 0).err(), Some(ModerationError::InvalidDuration));
}

#[test]
fn mute_deadline_limits() {
    assert!(mute_fits(&toks("<@1> 10m"), 1_700_000_000));
    assert!(!mute_fits(&toks("<@1> 99999999999999999d"), 1_700_000_000));
    assert!(mute_fits(&toks("<@1>"), 1_700_000_000));
    assert!(mute_fits(&toks("200000000000d"), 1_700_000_000));
    assert_eq!(
        plan_mute(&toks("200000000000d"), 1_700_000_000).err(),
        Some(ModerationError::UnknownUser)
    );
}

#[test]
fn warn_needs_reason() {
    let t = plan_warn(&toks("<@1> <@2>   flood  ")).ok().unwrap();
    assert_eq!(t.users, vec![1, 2]);
    assert_eq!(t.reason, "flood");
    assert_eq!(plan_warn(&toks("<@1>")).err(), Some(ModerationError::MissingReason));
    assert_eq!(plan_warn(&toks("")).err(), Some(ModerationError::Usage));
    assert_eq!(plan_warn(&toks("nobody here")).err(), Some(ModerationError::UnknownUser));
}

#[test]
fn single_user_commands() {
    assert_eq!(plan_single_user(&toks("<@5> <@6>")), Ok(5));
    assert_eq!(plan_single_user(&toks("")), Err(ModerationError::Usage));
    assert_eq!(plan_single_user(&toks("x")), Err(ModerationError::UnknownUser));
}

#[test]
fn clear_between_one_and_hundred() {
    assert_eq!(plan_clear(&toks("20")), Some(20));
    assert_eq!(plan_clear(&toks("1")), Some(1));
    assert_eq!(plan_clear(&toks("100")), Some(100));
    assert_eq!(plan_clear(&toks("0")), None);
    assert_eq!(plan_clear(&toks("101")), None);
    assert_eq!(plan_clear(&toks("256")), None);
    assert_eq!(plan_clear(&toks("abc")), None);
    assert_eq!(plan_clear(&toks("")), None);
}

#[test]
fn clear_deletion_mode() {
    assert_eq!(deletion_for(0), Deletion::Nothing);
    assert_eq!(deletion_for(1), Deletion::One);
    assert_eq!(deletion_for(7), Deletion::Many);
}

#[test]
fn warnings_listing_numbers_from_one() {
    let w = |reason: &str, m: &str| Warning {
        id: 0,
        guild_id: "g".to_string(),
        user_id: "u".to_string(),
        moderator_id: m.to_string(),
        reason: reason.to_string(),
        created_at: 0,
    };
    let list = warnings_list(&vec![w("spam", "10"), w("flood", "11")]);
    assert_eq!(list, "`#1` — spam — par <@10>\n`#2` — flood — par <@11>");
    assert_eq!(warnings_list(&vec![]), "");
}
