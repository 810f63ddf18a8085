use golemian::backup::{
    backup_layout, backup_roles, build_overwrites, category_plan, channel_plan, channel_type_str,
    kind_from_name, old_everyone_id, restore_roles, restored_name, save_overwrites,
    saved_slowmode, ChannelKind, ChannelRecord, ChannelSummary, OverwriteRecord,
    OverwriteSubject, RoleMap, RoleRecord, RoleSummary, read_backup, write_backup, BackupData,
    CategoryData, ChannelData, RoleData, category_channel_plans,
};
use golemian::perms::{Overwrite, Target};

fn ow(kind: Option<&str>, id: Option<&str>, allow: Option<u64>, deny: Option<u64>) -> OverwriteRecord {
    OverwriteRecord { kind: kind.map(|s| s.to_string()), id: id.map(|s| s.to_string()), allow, deny }
}

#[test]
fn kind_names() {
    assert_eq!(channel_type_str(ChannelKind::Voice), "Voice");
    assert_eq!(channel_type_str(ChannelKind::Category), "Text");
    assert_eq!(channel_type_str(ChannelKind::Other), "Text");
    assert_eq!(kind_from_name(Some("Stage")), ChannelKind::Stage);
    assert_eq!(kind_from_name(Some("voice")), ChannelKind::Text);
    assert_eq!(kind_from_name(None), ChannelKind::Text);
}

#[test]
fn saving_overwrites_and_slowmode() {
    let saved = save_overwrites(&vec![
        (OverwriteSubject::Role(5), 1, 2),
        (OverwriteSubject::Member(6), 3, 4),
        (OverwriteSubject::Unknown, 0, 0),
    ]);
    assert_eq!((saved[0].kind.as_str(), saved[0].id.as_str(), saved[0].allow, saved[0].deny), ("role", "5", 1, 2));
    assert_eq!((saved[1].kind.as_str(), saved[1].id.as_str()), ("member", "6"));
    assert_eq!((saved[2].kind.as_str(), saved[2].id.as_str()), ("role", "0"));
    assert_eq!(saved_slowmode(None), 0);
    assert_eq!(saved_slowmode(Some(30)), 30);
}

#[test]
fn roles_saved_by_position_without_everyone() {
    let r = |n: &str, p: u16| RoleSummary { name: n.to_string(), position: p };
    let roles = vec![r("Admin", 3), r("@everyone", 0), r("Membre", 1), r("Modo", 1)];
    assert_eq!(backup_roles(&roles), vec![2, 3, 0]);
}

#[test]
fn channel_layout() {
    let c = |id: u64, cat: bool, parent: Option<u64>, pos: u16| ChannelSummary {
        id,
        is_category: cat,
        parent,
        position: pos,
    };
    let chans = vec![
        c(1, true, None, 2),
        c(2, false, Some(1), 1),
        c(3, false, None, 5),
        c(4, true, None, 0),
        c(5, false, Some(1), 0),
        c(6, false, Some(4), 0),
        c(7, false, None, 1),
    ];
    let (cats, orphans) = backup_layout(&chans);
    assert_eq!(cats.len(), 2);
    assert_eq!(cats[0].category, 3);
    assert_eq!(cats[0].channels, vec![5]);
    assert_eq!(cats[1].category, 0);
    assert_eq!(cats[1].channels, vec![4, 1]);
    assert_eq!(orphans, vec![6, 2]);
}

#[test]
fn role_map_read_after_write() {
    let mut m = RoleMap::new();
    assert_eq!(m.get("1"), None);
    m.insert("1".to_string(), 100);
    m.insert("2".to_string(), 200);
    assert_eq!(m.get("1"), Some(100));
    m.insert("1".to_string(), 101);
    assert_eq!(m.get("1"), Some(101));
    assert_eq!(m.get("2"), Some(200));
    m.record("".to_string(), Some(300));
    assert_eq!(m.get(""), None);
    m.record("3".to_string(), None);
    assert_eq!(m.get("3"), None);
    m.record("3".to_string(), Some(300));
    assert_eq!(m.get("3"), Some(300));
}

#[test]
fn overwrites_restored_for_known_roles_only() {
    let mut m = RoleMap::new();
    m.insert("11".to_string(), 111);
    let os = vec![
        ow(Some("role"), Some("999"), Some(1 << 10), Some(1 << 11)),
        ow(Some("role"), Some("11"), Some(u64::MAX), None),
        ow(Some("member"), Some("11"), Some(1), Some(1)),
        ow(Some("role"), Some("12"), Some(1), None),
        ow(None, Some("11"), Some(1), None),
        ow(Some("role"), None, Some(1), None),
    ];
    let r = build_overwrites(&os, &m, "999", 5);
    assert_eq!(
        r,
        vec![
            Overwrite { target: Target::Role(5), allow: 1 << 10, deny: 1 << 11 },
            Overwrite { target: Target::Role(111), allow: 0x0007_7fff_ffff_ffff, deny: 0 },
        ]
    );
    let r = build_overwrites(&os, &m, "", 5);
    assert_eq!(r.len(), 1);
}

#[test]
fn everyone_id_fallbacks() {
    assert_eq!(old_everyone_id(Some("1"), Some("2")), "1");
    assert_eq!(old_everyone_id(None, Some("2")), "2");
    assert_eq!(old_everyone_id(None, None), "");
}

#[test]
fn roles_restored_by_position() {
    let rr = |id: Option<&str>, pos: Option<i64>, color: Option<u64>| RoleRecord {
        id: id.map(|s| s.to_string()),
        name: None,
        color,
        permissions: Some(1 << 60 | 8),
        hoist: Some(true),
        mentionable: None,
        position: pos,
    };
    let (order, plans) = restore_roles(&vec![rr(Some("a"), Some(2), None), rr(None, Some(-1), Some(0x1_0000_00ff)), rr(Some("c"), None, None)]);
    assert_eq!(order, vec![1, 2, 0]);
    assert_eq!(plans[0].old_id, "");
    assert_eq!(plans[0].colour, 0xff);
    assert_eq!(plans[0].name, "role");
    assert_eq!(plans[0].permissions, 8);
    assert!(plans[0].hoist && !plans[0].mentionable);
    assert_eq!(plans[2].old_id, "a");
}

#[test]
fn channels_restored_with_their_settings() {
    let m = RoleMap::new();
    let voice = ChannelRecord {
        name: Some("Salon".to_string()),
        kind: Some("Voice".to_string()),
        topic: Some("ignored".to_string()),
        nsfw: Some(true),
        slowmode: Some(10),
        bitrate: Some(0),
        user_limit: Some(0x1_0000_0005),
        overwrites: vec![],
    };
    let p = channel_plan(&voice, Some(7), &m, "", 1);
    assert_eq!(p.kind, ChannelKind::Voice);
    assert_eq!(p.category, Some(7));
    assert_eq!(p.bitrate, None);
    assert_eq!(p.user_limit, Some(5));
    assert_eq!(p.topic, None);
    assert_eq!(p.rate_limit, None);
    assert!(!p.nsfw);
    let text = ChannelRecord {
        name: None,
        kind: None,
        topic: Some("".to_string()),
        nsfw: Some(true),
        slowmode: Some(65536 + 30),
        bitrate: Some(64000),
        user_limit: None,
        overwrites: vec![],
    };
    let p = channel_plan(&text, None, &m, "", 1);
    assert_eq!(p.name, "channel");
    assert_eq!(p.kind, ChannelKind::Text);
    assert_eq!(p.bitrate, None);
    assert_eq!(p.topic, None);
    assert_eq!(p.rate_limit, Some(30));
    assert!(p.nsfw);
    let (name, ows) = category_plan(None, &vec![], &m, "", 1);
    assert_eq!(name, "category");
    assert!(ows.is_empty());
    assert_eq!(restored_name(None), "backup");
    assert_eq!(restored_name(Some("Golem")), "Golem");
}

fn sample_backup() -> BackupData {
    let text_channel = ChannelData {
        name: "général".to_string(),
        kind: ChannelKind::Text,
        topic: Some("Bienvenue".to_string()),
        nsfw: false,
        rate_limit: Some(5),
        position: 0,
        bitrate: None,
        user_limit: None,
        overwrites: vec![
            (OverwriteSubject::Role(10), 0, 0x800),
            (OverwriteSubject::Member(77), 0x400, 0),
            (OverwriteSubject::Role(20), 0x400, 0),
        ],
    };
    let voice_channel = ChannelData {
        name: "Vocal".to_string(),
        kind: ChannelKind::Voice,
        topic: None,
        nsfw: false,
        rate_limit: None,
        position: 1,
        bitrate: Some(64000),
        user_limit: Some(5),
        overwrites: vec![],
    };
    BackupData {
        guild_name: "Serveur".to_string(),
        guild_id: 10,
        roles: vec![RoleData {
            id: 20,
            name: "Modo".to_string(),
            colour: 0xFF0000,
            permissions: 0x2000,
            hoist: true,
            mentionable: false,
            position: 3,
        }],
        categories: vec![CategoryData {
            name: "Infos".to_string(),
            position: 0,
            overwrites: vec![],
            channels: vec![text_channel],
        }],
        channels: vec![voice_channel],
    }
}

#[test]
fn backup_written_then_read() {
    let bytes = write_backup(&sample_backup());
    let b = read_backup(&bytes).unwrap();
    assert_eq!(b.guild_name.as_deref(), Some("Serveur"));
    assert_eq!(b.guild_id.as_deref(), Some("10"));
    assert_eq!(b.everyone_role_id.as_deref(), Some("10"));
    assert_eq!(b.roles.len(), 1);
    let r = &b.roles[0];
    assert_eq!(r.id.as_deref(), Some("20"));
    assert_eq!(r.name.as_deref(), Some("Modo"));
    assert_eq!(r.color, Some(0xFF0000));
    assert_eq!(r.permissions, Some(0x2000));
    assert_eq!(r.hoist, Some(true));
    assert_eq!(r.mentionable, Some(false));
    assert_eq!(r.position, Some(3));
    assert_eq!(b.categories.len(), 1);
    let c = &b.categories[0];
    assert_eq!(c.name.as_deref(), Some("Infos"));
    assert!(c.overwrites.is_empty());
    assert_eq!(c.channels.len(), 1);
    let t = &c.channels[0];
    assert_eq!(t.name.as_deref(), Some("général"));
    assert_eq!(t.kind.as_deref(), Some("Text"));
    assert_eq!(t.topic.as_deref(), Some("Bienvenue"));
    assert_eq!(t.slowmode, Some(5));
    assert_eq!(t.bitrate, None);
    assert_eq!(t.overwrites.len(), 3);
    assert_eq!(t.overwrites[1].kind.as_deref(), Some("member"));
    assert_eq!(t.overwrites[1].id.as_deref(), Some("77"));
    let v = &b.channels[0];
    assert_eq!(v.kind.as_deref(), Some("Voice"));
    assert_eq!(v.bitrate, Some(64000));
    assert_eq!(v.user_limit, Some(5));
    assert_eq!(v.topic, None);
}

#[test]
fn restored_overwrites_after_round_trip() {
    let bytes = write_backup(&sample_backup());
    let b = read_backup(&bytes).unwrap();
    let mut roles = RoleMap::new();
    roles.insert("20".to_string(), 20);
    let everyone = old_everyone_id(b.everyone_role_id.as_deref(), b.guild_id.as_deref());
    let built = build_overwrites(&b.categories[0].channels[0].overwrites, &roles, &everyone, 10);
    assert_eq!(
        built,
        vec![
            Overwrite { target: Target::Role(10), allow: 0, deny: 0x800 },
            Overwrite { target: Target::Role(20), allow: 0x400, deny: 0 },
        ]
    );
}

#[test]
fn backup_files_that_are_not_json() {
    assert!(read_backup(b"{ pas du json").is_none());
    let b = read_backup(br#"{"roles": 3, "channels": [{"name": 5, "slowmode": -2}]}"#).unwrap();
    assert!(b.roles.is_empty());
    assert!(b.categories.is_empty());
    assert_eq!(b.channels.len(), 1);
    assert_eq!(b.channels[0].name, None);
    assert_eq!(b.channels[0].slowmode, None);
    let n = read_backup(br#"[1, 2]"#).unwrap();
    assert!(n.guild_name.is_none() && n.roles.is_empty());
    let p = read_backup(br#"{"roles": [{"position": -4, "color": 1.5}]}"#).unwrap();
    assert_eq!(p.roles[0].position, Some(-4));
    assert_eq!(p.roles[0].color, None);
}

#[test]
fn failed_category_skips_its_channels() {
    let b = read_backup(&write_backup(&sample_backup())).unwrap();
    let roles = RoleMap::new();
    let cat = &b.categories[0];
    assert!(category_channel_plans(cat, None, &roles, "10", 99).is_empty());
    let plans = category_channel_plans(cat, Some(500), &roles, "10", 99);
    assert_eq!(plans.len(), 1);
    assert_eq!(plans[0].name, "général");
    assert_eq!(plans[0].category, Some(500));
    assert_eq!(plans[0].rate_limit, Some(5));
    assert_eq!(plans[0].overwrites, vec![Overwrite { target: Target::Role(99), allow: 0, deny: 0x800 }]);
}
