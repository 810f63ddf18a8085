use golemian::args::ArgToken;
use golemian::help::{aliases, category_list_text, commands, find_category, help_reply, title, HelpReply, CATEGORY_COUNT};
use golemian::tempvc::{deletes_left_channel, joins_hub, temp_channel_name};
use golemian::utility::{
    account_created, lock_overwrite, plan_modlog, plan_slowmode, roles_text, target_channel,
    userinfo_target, MAX_SLOWMODE,
};
use golemian::perms::{Target, SEND_MESSAGES};

fn one(s: &str) -> Vec<ArgToken> {
    vec![ArgToken { text: s.to_string(), rest: s.to_string() }]
}

#[test]
fn help_categories_by_alias() {
    assert_eq!(find_category("mod"), Some(0));
    assert_eq!(find_category("  MODÉRATION "), Some(0));
    assert_eq!(find_category("Sondages"), Some(4));
    assert_eq!(find_category("vc"), Some(6));
    assert_eq!(find_category("owner"), Some(7));
    assert_eq!(find_category("nothing"), None);
    assert_eq!(CATEGORY_COUNT, 8);
    assert_eq!(title(3), "🎉 Giveaways");
    assert_eq!(aliases(5), vec!["ticket", "tickets"]);
    assert!(commands(0).starts_with("`!ban @user [@user2 ...] [raison]` — Bannir (mentions multiples)\n`!unban"));
}

#[test]
fn help_replies() {
    assert!(matches!(help_reply(None), HelpReply::Overview));
    assert!(matches!(help_reply(Some("ticket")), HelpReply::Category(5)));
    match help_reply(Some("zzz")) {
        HelpReply::Unknown { list } => {
            assert_eq!(list, category_list_text());
            assert_eq!(
                list,
                "• `moderation`\n• `utility`\n• `server`\n• `giveaway`\n• `poll`\n• `ticket`\n• `tempvc`\n• `bot`"
            );
        }
        _ => panic!("expected an unknown category"),
    }
}

#[test]
fn temporary_voice_channels() {
    assert!(joins_hub(Some(12), Some("12")));
    assert!(!joins_hub(Some(12), Some("13")));
    assert!(!joins_hub(None, Some("12")));
    assert!(!joins_hub(Some(12), None));
    assert_eq!(temp_channel_name(Some("Jean")), "🔊 Jean");
    assert_eq!(temp_channel_name(None), "🔊 Salon");
    let states = vec![Some(1), None, Some(2)];
    assert!(!deletes_left_channel(1, true, Some(&states)));
    assert!(deletes_left_channel(3, true, Some(&states)));
    assert!(!deletes_left_channel(3, false, Some(&states)));
    assert!(deletes_left_channel(3, true, None));
    assert!(!deletes_left_channel(3, false, None));
}

#[test]
fn slowmode_limits() {
    assert_eq!(plan_slowmode(&one("30")), Some(30));
    assert_eq!(plan_slowmode(&one("0")), Some(0));
    assert_eq!(plan_slowmode(&one("21600")), Some(MAX_SLOWMODE));
    assert_eq!(plan_slowmode(&one("21601")), None);
    assert_eq!(plan_slowmode(&one("70000")), None);
    assert_eq!(plan_slowmode(&vec![]), None);
}

#[test]
fn lock_and_targets() {
    assert_eq!(target_channel(&one("<#4>"), 1), 4);
    assert_eq!(target_channel(&one("général"), 1), 1);
    let o = lock_overwrite(9);
    assert_eq!((o.target, o.allow, o.deny), (Target::Role(9), 0, SEND_MESSAGES));
    assert_eq!(plan_modlog(&one("<#8>")), Ok(8));
    assert_eq!(plan_modlog(&one("logs")), Err(false));
    assert_eq!(plan_modlog(&vec![]), Err(true));
}

#[test]
fn userinfo_card() {
    assert_eq!(userinfo_target(&one("<@5>"), 1), 5);
    assert_eq!(userinfo_target(&one("moi"), 1), 1);
    assert_eq!(userinfo_target(&vec![], 1), 1);
    assert_eq!(roles_text(&vec![]), "Aucun");
    assert_eq!(roles_text(&vec![1, 2]), "<@&1>, <@&2>");
    assert_eq!(account_created(175928847299117063), 1462015105);
    assert_eq!(account_created(1), 1420070400);
}
