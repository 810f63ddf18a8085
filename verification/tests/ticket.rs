use golemian::args::ArgToken;
use golemian::perms::{Overwrite, Target, TICKET_MEMBER_ALLOW, VIEW_CHANNEL};
use golemian::ticket::{
    button_of, is_owner, may_close, member_overwrite, panel_channel, parse_stored_id, plan_open,
    plan_remove, plan_setup, OpenDecision, RemoveError, SetupError, TicketButton, TicketConfig,
};

fn toks(s: &str) -> Vec<ArgToken> {
    let mut out = Vec::new();
    let mut start = None;
    for (i, c) in s.char_indices() {
        if c == ' ' {
            if let Some(b) = start.take() {
                out.push(ArgToken { text: s[b..i].to_string(), rest: s[b..].to_string() });
            }
        } else if start.is_none() {
            start = Some(i);
        }
    }
    if let Some(b) = start {
        out.push(ArgToken { text: s[b..].to_string(), rest: s[b..].to_string() });
    }
    out
}

fn config(support: Option<&str>, log: Option<&str>, counter: i64) -> Option<TicketConfig> {
    Some(TicketConfig {
        category_id: "500".to_string(),
        support_role_id: support.map(|s| s.to_string()),
        log_channel_id: log.map(|s| s.to_string()),
        ticket_counter: counter,
    })
}

#[test]
fn buttons() {
    assert_eq!(button_of("ticket_open"), Some(TicketButton::Open));
    assert_eq!(button_of("ticket_close"), Some(TicketButton::Close));
    assert_eq!(button_of("other"), None);
}

#[test]
fn open_creates_numbered_private_ticket() {
    match plan_open(&config(Some("77"), Some("88"), 6), &None, 1, 2, 3, "Jean") {
        OpenDecision::Create(p) => {
            assert_eq!(p.number, 7);
            assert_eq!(p.channel_name, "ticket-0007");
            assert_eq!(p.topic, "Ticket de Jean (#0007)");
            assert_eq!(p.title, "🎫 Ticket #0007");
            assert_eq!(p.category, 500);
            assert_eq!(p.content, "<@2> <@&77>");
            assert_eq!(p.support_role, Some(77));
            assert_eq!(p.log_channel, Some(88));
            assert_eq!(p.overwrites.len(), 4);
            assert_eq!(
                p.overwrites[0],
                Overwrite { target: Target::Role(1), allow: 0, deny: VIEW_CHANNEL }
            );
            assert_eq!(p.overwrites[1].target, Target::Member(2));
            assert_eq!(p.overwrites[1].allow, TICKET_MEMBER_ALLOW);
            assert_eq!(p.overwrites[2].target, Target::Member(3));
            assert_eq!(p.overwrites[3].target, Target::Role(77));
            assert!(p.overwrites[1].allow & VIEW_CHANNEL != 0);
        }
        _ => panic!("expected a ticket"),
    }
}

#[test]
fn open_without_support_role() {
    match plan_open(&config(None, Some("x"), 12344), &None, 1, 2, 3, "A") {
        OpenDecision::Create(p) => {
            assert_eq!(p.channel_name, "ticket-12345");
            assert_eq!(p.content, "<@2>");
            assert_eq!(p.overwrites.len(), 3);
            assert_eq!(p.log_channel, None);
        }
        _ => panic!("expected a ticket"),
    }
    match plan_open(&config(Some("role"), None, -10), &None, 1, 2, 3, "A") {
        OpenDecision::Create(p) => {
            assert_eq!(p.channel_name, "ticket--009");
            assert_eq!(p.support_role, None);
        }
        _ => panic!("expected a ticket"),
    }
}

#[test]
fn open_refusals() {
    assert!(matches!(plan_open(&None, &None, 1, 2, 3, "A"), OpenDecision::NotConfigured));
    match plan_open(&config(None, None, 0), &Some("900".to_string()), 1, 2, 3, "A") {
        OpenDecision::AlreadyOpen { channel } => assert_eq!(channel, "900"),
        _ => panic!("expected the open ticket"),
    }
    let bad = Some(TicketConfig {
        category_id: "cat".to_string(),
        support_role_id: None,
        log_channel_id: None,
        ticket_counter: 0,
    });
    assert!(matches!(plan_open(&bad, &None, 1, 2, 3, "A"), OpenDecision::BadCategory));
    match plan_open(&config(None, None, i64::MAX), &Some("901".to_string()), 1, 2, 3, "A") {
        OpenDecision::AlreadyOpen { channel } => assert_eq!(channel, "901"),
        _ => panic!("expected the open ticket"),
    }
    let bad_full = Some(TicketConfig {
        category_id: "cat".to_string(),
        support_role_id: None,
        log_channel_id: None,
        ticket_counter: i64::MAX,
    });
    assert!(matches!(plan_open(&bad_full, &None, 1, 2, 3, "A"), OpenDecision::BadCategory));
}

#[test]
fn closing_rights() {
    assert!(is_owner("42", 42));
    assert!(!is_owner("042", 42));
    assert!(may_close("42", 42, false));
    assert!(may_close("42", 7, true));
    assert!(!may_close("42", 7, false));
}

#[test]
fn removing_members() {
    assert_eq!(plan_remove(&toks("<@5>"), "42"), Ok(5));
    assert_eq!(plan_remove(&toks("<@42>"), "42"), Err(RemoveError::Owner));
    assert_eq!(plan_remove(&toks("bob"), "42"), Err(RemoveError::InvalidUser));
    assert_eq!(plan_remove(&toks(""), "42"), Err(RemoveError::Usage));
    assert_eq!(member_overwrite(5).target, Target::Member(5));
}

#[test]
fn setup_arguments() {
    let s = plan_setup(&toks("<#10> <@&20> <#30>")).ok().unwrap();
    assert_eq!((s.category, s.support_role, s.log_channel), (10, Some(20), Some(30)));
    let s = plan_setup(&toks("<#10> <#30> junk <@&21> <@&22>")).ok().unwrap();
    assert_eq!((s.category, s.support_role, s.log_channel), (10, Some(22), Some(30)));
    let s = plan_setup(&toks("10 11")).ok().unwrap();
    assert_eq!((s.category, s.support_role, s.log_channel), (10, Some(11), None));
    assert_eq!(plan_setup(&toks("")).err(), Some(SetupError::Usage));
    assert_eq!(plan_setup(&toks("tickets")).err(), Some(SetupError::InvalidCategory));
}

#[test]
fn panel_target() {
    assert_eq!(panel_channel(&toks("<#9>"), 1), 9);
    assert_eq!(panel_channel(&toks("ici"), 1), 1);
    assert_eq!(panel_channel(&toks(""), 1), 1);
    assert_eq!(parse_stored_id(&Some("12".to_string())), Some(12));
    assert_eq!(parse_stored_id(&None), None);
}
