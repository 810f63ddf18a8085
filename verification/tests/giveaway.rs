use golemian::args::ArgToken;
use golemian::database::Giveaway;
use golemian::giveaway::{
    create_fits, draw_winners, entry_user, giveaway_list, giveaway_location, mention_list,
    plan_create, plan_reroll, reroll, Conclusion, CreateError, RerollError, entry_change,
    EntryChange,
};

fn toks(s: &str) -> Vec<ArgToken> {
    let mut out = Vec::new();
    let mut start = None;
    for (i, c) in s.char_indices() {
        if c == ' ' {
            if let Some(b) = start.take() {
                out.push(ArgToken { text: s[b..i].to_string(), rest: s[b..].to_string() });
            }
        } else if start.is_none() {
            start = Some(i);
        }
    }
    if let Some(b) = start {
        out.push(ArgToken { text: s[b..].to_string(), rest: s[b..].to_string() });
    }
    out
}

fn giveaway(prize: &str, winners: i64, end: i64, message: &str) -> Giveaway {
    Giveaway {
        id: 1,
        guild_id: "10".to_string(),
        channel_id: "20".to_string(),
        message_id: message.to_string(),
        prize: prize.to_string(),
        end_time: end,
        winner_count: winners,
        ended: 0,
        created_by: "30".to_string(),
    }
}

#[test]
fn create_from_readme_example() {
    let p = plan_create(&toks("24h 1 Abonnement Nitro"), 1_000).ok().unwrap();
    assert_eq!(p.winner_count, 1);
    assert_eq!(p.prize, "Abonnement Nitro");
    assert_eq!(p.end_time, 1_000 + 86_400);
    let p = plan_create(&toks("30m 3 Rôle exclusif"), 0).ok().unwrap();
    assert_eq!(p.winner_count, 3);
    assert_eq!(p.prize, "Rôle exclusif");
    assert_eq!(p.end_time, 1_800);
}

#[test]
fn create_errors() {
    assert_eq!(plan_create(&toks(""), 0).err(), Some(CreateError::Usage));
    assert_eq!(plan_create(&toks("demain 1 x"), 0).err(), Some(CreateError::InvalidDuration));
    assert_eq!(plan_create(&toks("1h"), 0).err(), Some(CreateError::InvalidWinnerCount));
    assert_eq!(plan_create(&toks("1h 0 x"), 0).err(), Some(CreateError::InvalidWinnerCount));
    assert_eq!(plan_create(&toks("1h deux x"), 0).err(), Some(CreateError::InvalidWinnerCount));
    assert_eq!(plan_create(&toks("1h 2"), 0).err(), Some(CreateError::MissingPrize));
}

#[test]
fn create_limits() {
    assert!(create_fits(&toks("1h 1 x"), 1_700_000_000));
    assert!(!create_fits(&toks("99999999999999999d 1 x"), 0));
    assert!(!create_fits(&toks("100000000d 1 x"), 1_700_000_000));
    assert!(create_fits(&toks("100000000d 0 x"), 1_700_000_000));
    assert!(create_fits(&toks(""), 0));
}

#[test]
fn draw_takes_distinct_entrants() {
    let entries: Vec<String> = (1..=10).map(|i| i.to_string()).collect();
    for count in [1i64, 3, 10, 50] {
        match draw_winners(&entries, count) {
            Conclusion::Winners { winners, mentions } => {
                assert_eq!(winners.len(), (count as usize).min(entries.len()));
                for w in &winners {
                    assert!(entries.contains(w));
                }
                let mut sorted = winners.clone();
                sorted.sort();
                sorted.dedup();
                assert_eq!(sorted.len(), winners.len());
                assert_eq!(mentions, mention_list(&winners));
            }
            Conclusion::NoEntries => panic!("entries were given"),
        }
    }
}

#[test]
fn draw_without_entries() {
    assert!(matches!(draw_winners(&vec![], 3), Conclusion::NoEntries));
}

#[test]
fn mentions_are_comma_separated() {
    assert_eq!(mention_list(&vec!["1".to_string(), "22".to_string()]), "<@1>, <@22>");
    assert_eq!(mention_list(&vec!["7".to_string()]), "<@7>");
    assert_eq!(mention_list(&vec![]), "");
}

#[test]
fn reroll_picks_an_entrant() {
    let entries = vec!["5".to_string(), "6".to_string()];
    let w = reroll(&entries).unwrap();
    assert!(entries.contains(&w));
    assert_eq!(reroll(&vec![]), None);
}

#[test]
fn location_of_giveaway() {
    assert_eq!(giveaway_location(&giveaway("p", 1, 0, "40")), Some((20, 40)));
    assert_eq!(giveaway_location(&giveaway("p", 1, 0, "x")), None);
}

#[test]
fn list_of_running_giveaways() {
    let list = giveaway_list(&vec![giveaway("Nitro", 2, 1700, "99"), giveaway("Rôle", 1, -5, "98")]);
    assert_eq!(
        list,
        "🎉 **Nitro** — 2 gagnant(s) — fin <t:1700:R>\n└ Message ID: `99`\n\n🎉 **Rôle** — 1 gagnant(s) — fin <t:-5:R>\n└ Message ID: `98`"
    );
}

#[test]
fn reactions_enter_and_leave() {
    assert_eq!(entry_user(Some("🎉"), Some(5), 1, true), Some(5));
    assert_eq!(entry_user(Some("🎉"), Some(1), 1, true), None);
    assert_eq!(entry_user(Some("🎉"), Some(1), 1, false), Some(1));
    assert_eq!(entry_user(Some("👍"), Some(5), 1, true), None);
    assert_eq!(entry_user(None, Some(5), 1, true), None);
    assert_eq!(entry_user(Some("🎉"), None, 1, true), None);
}

#[test]
fn reroll_only_ended_giveaways() {
    let entries = vec!["1".to_string(), "2".to_string()];
    let mut g = giveaway("Nitro", 1, 100, "55");
    assert_eq!(plan_reroll(&g, &entries), Err(RerollError::NotEnded));
    g.ended = 1;
    let w = plan_reroll(&g, &entries).unwrap();
    assert!(entries.contains(&w));
    assert_eq!(plan_reroll(&g, &vec![]), Err(RerollError::NoEntries));
}

#[test]
fn reactions_change_entries() {
    assert_eq!(
        entry_change(Some(5), true, Some(9)),
        Some(EntryChange::Enter { giveaway: 9, user: 5 })
    );
    assert_eq!(
        entry_change(Some(5), false, Some(9)),
        Some(EntryChange::Leave { giveaway: 9, user: 5 })
    );
    assert_eq!(entry_change(Some(5), true, None), None);
    assert_eq!(entry_change(None, true, Some(9)), None);
    assert_eq!(entry_change(entry_user(Some("🎉"), Some(1), 1, true), true, Some(9)), None);
}
