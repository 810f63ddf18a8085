use golemian::args::ArgToken;
use golemian::owner::{invite_url, is_bot_owner, leave_label, plan_leave, server_list, LeaveError, SeenGuild};

#[test]
fn invitation_link() {
    assert_eq!(
        invite_url(123),
        "https://discord.com/api/oauth2/authorize?client_id=123&permissions=8&scope=bot%20applications.commands"
    );
}

#[test]
fn owner_check() {
    assert!(is_bot_owner(Some(5), 5));
    assert!(!is_bot_owner(Some(5), 6));
    assert!(!is_bot_owner(None, 5));
}

#[test]
fn servers_by_member_count() {
    let gs = vec![
        SeenGuild { id: 1, cached: Some(("Petit".to_string(), 10)) },
        SeenGuild { id: 2, cached: None },
        SeenGuild { id: 3, cached: Some(("Grand".to_string(), 500)) },
        SeenGuild { id: 4, cached: Some(("Moyen".to_string(), 10)) },
    ];
    let (text, order) = server_list(&gs);
    assert_eq!(order, vec![2, 0, 3, 1]);
    assert_eq!(
        text,
        "**1.** `3` — Grand (500 membres)\n**2.** `1` — Petit (10 membres)\n**3.** `4` — Moyen (10 membres)\n**4.** `2` — (inconnu — pas en cache) (0 membres)\n"
    );
}

#[test]
fn servers_list_is_cut_short() {
    let name = "x".repeat(1000);
    let gs: Vec<SeenGuild> = (0..6).map(|i| SeenGuild { id: i, cached: Some((name.clone(), 1)) }).collect();
    let (text, _) = server_list(&gs);
    let line_len = format!("**1.** `0` — {} (1 membres)\n", name).len();
    assert!(3 * line_len <= 3900 && 4 * line_len > 3900);
    assert!(text.ends_with("…et 3 de plus."));
    assert!(text.starts_with("**1.** `0` — "));
    assert_eq!(text.len(), 3 * line_len + "…et 3 de plus.".len());
}

#[test]
fn leaving_a_guild() {
    let t = |s: &str| vec![ArgToken { text: s.to_string(), rest: s.to_string() }];
    assert_eq!(plan_leave(&t("123")), Ok(123));
    assert_eq!(plan_leave(&t("abc")), Err(LeaveError::InvalidId));
    assert_eq!(plan_leave(&vec![]), Err(LeaveError::Usage));
    assert_eq!(leave_label(Some("Mon serveur"), 9), "Mon serveur");
    assert_eq!(leave_label(None, 9), "`9`");
}
