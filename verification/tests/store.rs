use slurpslurp::database::{
    bulk_delete_messages, bulk_upsert_channels, bulk_upsert_roles, bulk_upsert_users,
    delete_channel, delete_guild_channels, delete_guild_roles, delete_message, delete_role,
    reference_to_store, sort_ascending, sorted_sql_ids, upsert_guild, upsert_message,
    upsert_user, Store,
};
use slurpslurp::ops::StoreOp;
use slurpslurp::rows::{channel_row, guild_row, message_row, role_row, user_row};
use slurpslurp::message_type::MessageType;
use slurpslurp::model::{Attachment, Channel, Guild, GuildProperties, Message, Role, User};

fn user(id: u64, name: &str) -> User {
    User {
        id,
        username: name.to_string(),
        global_name: None,
        avatar: None,
        bot: None,
        banner: None,
        accent_color: None,
        flags: None,
        premium_type: None,
        public_flags: None,
    }
}

fn message(id: u64, content: &str) -> Message {
    Message {
        id,
        channel_id: 77,
        author: user(1, "ann"),
        content: Some(content.to_string()),
        edited_timestamp: None,
        kind: MessageType::Default,
        flags: 0,
        referenced_message_id: None,
        mentions: None,
        attachments: Vec::new(),
        embeds: Vec::new(),
    }
}

fn attachment(id: u64, name: &str) -> Attachment {
    Attachment {
        id,
        filename: name.to_string(),
        title: None,
        description: None,
        content_type: None,
        size: 10,
        url: format!("https://cdn.example/{}", name),
        proxy_url: format!("https://proxy.example/{}", name),
        height: None,
        width: None,
    }
}

fn role(id: u64, name: &str) -> Role {
    Role {
        id,
        name: Some(name.to_string()),
        color: 0xff00ff,
        hoist: false,
        position: 3,
        permissions: "8".to_string(),
        flags: None,
        icon: None,
        unicode_emoji: None,
        description: None,
    }
}

fn channel(id: u64, name: &str) -> Channel {
    Channel {
        id,
        kind: 0,
        name: Some(name.to_string()),
        topic: None,
        nsfw: Some(false),
        position: Some(2),
        parent_id: None,
        flags: None,
        permission_overwrites: None,
        recipients: None,
    }
}

fn guild(id: u64, name: &str) -> Guild {
    Guild {
        id,
        name: Some(name.to_string()),
        icon: None,
        region: None,
        member_count: Some(12),
        features: None,
        properties: None,
        roles: None,
        channels: None,
        threads: None,
    }
}

#[test]
fn upsert_message_twice_is_upsert_once() {
    let mut once = Store::new();
    let mut twice = Store::new();
    let mut msg = message(100, "hello");
    msg.attachments.push(attachment(5, "a.png"));
    upsert_message(&msg, Some(9), &mut once);
    upsert_message(&msg, Some(9), &mut twice);
    upsert_message(&msg, Some(9), &mut twice);
    let a = once.message(100).unwrap();
    let b = twice.message(100).unwrap();
    assert_eq!(a.id, b.id);
    assert_eq!(a.channel_id, b.channel_id);
    assert_eq!(a.author_id, b.author_id);
    assert_eq!(a.guild_id, b.guild_id);
    assert_eq!(a.content, b.content);
    assert_eq!(a.created_at, b.created_at);
    assert_eq!(a.edited_at, b.edited_at);
    assert_eq!(a.message_type, b.message_type);
    assert_eq!(a.flags, b.flags);
    assert_eq!(a.referenced_message_id, b.referenced_message_id);
    assert_eq!(a.attachments.len(), b.attachments.len());
    assert_eq!(a.deleted_at, b.deleted_at);
    assert!(twice.message(101).is_none());
}

#[test]
fn upsert_message_inserts_the_row_the_message_describes() {
    let mut db = Store::new();
    let mut msg = message(175928847299117063, "first");
    msg.kind = MessageType::Reply;
    msg.flags = 4;
    msg.edited_timestamp = Some(1_700_000_000_000);
    upsert_message(&msg, Some(9), &mut db);
    let row = db.message(175928847299117063).unwrap();
    assert_eq!(row.id, 175928847299117063);
    assert_eq!(row.channel_id, 77);
    assert_eq!(row.author_id, 1);
    assert_eq!(row.guild_id, Some(9));
    assert_eq!(row.content.as_deref(), Some("first"));
    assert_eq!(row.created_at, 1_462_015_105_796);
    assert_eq!(row.edited_at, Some(1_700_000_000_000));
    assert_eq!(row.message_type, 19);
    assert_eq!(row.flags, 4);
    assert_eq!(row.referenced_message_id, None);
    assert_eq!(row.deleted_at, None);
}

#[test]
fn upsert_message_updates_content_but_keeps_identity() {
    let mut db = Store::new();
    upsert_message(&message(100, "first"), Some(9), &mut db);
    let mut edited = message(100, "second");
    edited.channel_id = 78;
    edited.author = user(2, "bob");
    edited.kind = MessageType::Reply;
    edited.edited_timestamp = Some(55);
    edited.flags = 16;
    edited.attachments.push(attachment(5, "a.png"));
    upsert_message(&edited, Some(10), &mut db);
    let row = db.message(100).unwrap();
    assert_eq!(row.content.as_deref(), Some("second"));
    assert_eq!(row.edited_at, Some(55));
    assert_eq!(row.flags, 16);
    assert_eq!(row.attachments.len(), 1);
    assert_eq!(row.attachments[0].id, 5);
    assert_eq!(row.channel_id, 77);
    assert_eq!(row.author_id, 1);
    assert_eq!(row.guild_id, Some(9));
    assert_eq!(row.message_type, 0);
}

#[test]
fn delete_message_sets_the_tombstone_once() {
    let mut db = Store::new();
    upsert_message(&message(100, "x"), None, &mut db);
    assert_eq!(db.message(100).unwrap().deleted_at, None);
    delete_message(&100, &mut db, 1_000);
    assert_eq!(db.message(100).unwrap().deleted_at, Some(1_000));
    delete_message(&100, &mut db, 2_000);
    assert_eq!(db.message(100).unwrap().deleted_at, Some(1_000));
}

#[test]
fn delete_message_of_an_unknown_id_changes_nothing() {
    let mut db = Store::new();
    upsert_message(&message(100, "x"), None, &mut db);
    delete_message(&101, &mut db, 1_000);
    assert!(db.message(101).is_none());
    assert_eq!(db.message(100).unwrap().deleted_at, None);
}

#[test]
fn tombstone_survives_a_later_upsert() {
    let mut db = Store::new();
    upsert_message(&message(100, "x"), None, &mut db);
    delete_message(&100, &mut db, 1_000);
    upsert_message(&message(100, "edited after delete"), None, &mut db);
    let row = db.message(100).unwrap();
    assert_eq!(row.deleted_at, Some(1_000));
    assert_eq!(row.content.as_deref(), Some("edited after delete"));
}

#[test]
fn bulk_delete_tombstones_exactly_the_listed_messages() {
    let mut db = Store::new();
    for id in [1u64, 3, 5, 7, 9] {
        upsert_message(&message(id, "x"), None, &mut db);
    }
    bulk_delete_messages(&[9, 3, 5], &mut db, 500);
    assert_eq!(db.message(3).unwrap().deleted_at, Some(500));
    assert_eq!(db.message(5).unwrap().deleted_at, Some(500));
    assert_eq!(db.message(9).unwrap().deleted_at, Some(500));
    assert_eq!(db.message(1).unwrap().deleted_at, None);
    assert_eq!(db.message(7).unwrap().deleted_at, None);
}

#[test]
fn bulk_delete_of_a_subset_again_is_a_no_op() {
    let mut db = Store::new();
    for id in [3u64, 5, 9] {
        upsert_message(&message(id, "x"), None, &mut db);
    }
    bulk_delete_messages(&[9, 3, 5], &mut db, 500);
    bulk_delete_messages(&[5, 9], &mut db, 900);
    bulk_delete_messages(&[3], &mut db, 901);
    bulk_delete_messages(&[], &mut db, 902);
    assert_eq!(db.message(3).unwrap().deleted_at, Some(500));
    assert_eq!(db.message(5).unwrap().deleted_at, Some(500));
    assert_eq!(db.message(9).unwrap().deleted_at, Some(500));
}

#[test]
fn bulk_delete_skips_ids_that_are_not_stored() {
    let mut db = Store::new();
    upsert_message(&message(3, "x"), None, &mut db);
    bulk_delete_messages(&[9, 3, 5], &mut db, 500);
    assert_eq!(db.message(3).unwrap().deleted_at, Some(500));
    assert!(db.message(5).is_none());
    assert!(db.message(9).is_none());
}

#[test]
fn sorted_sql_ids_sorts_ascending() {
    assert_eq!(sorted_sql_ids(&[9, 3, 5]), vec![3, 5, 9]);
    assert_eq!(sorted_sql_ids(&[5, 5, 1]), vec![1, 5, 5]);
    assert_eq!(sorted_sql_ids(&[]), Vec::<i64>::new());
    assert_eq!(sorted_sql_ids(&[u64::MAX, 0]), vec![-1, 0]);
}

#[test]
fn reference_to_a_missing_message_is_stored_as_null() {
    let mut db = Store::new();
    let mut answer = message(200, "re");
    answer.referenced_message_id = Some(100);
    upsert_message(&answer, None, &mut db);
    assert_eq!(db.message(200).unwrap().referenced_message_id, None);
    assert!(db.message(100).is_none());
}

#[test]
fn reference_to_a_stored_message_is_kept() {
    let mut db = Store::new();
    upsert_message(&message(100, "question"), None, &mut db);
    let mut answer = message(200, "re");
    answer.referenced_message_id = Some(100);
    upsert_message(&answer, None, &mut db);
    assert_eq!(db.message(200).unwrap().referenced_message_id, Some(100));
}

#[test]
fn dropped_reference_is_not_filled_in_later() {
    let mut db = Store::new();
    let mut answer = message(200, "re");
    answer.referenced_message_id = Some(100);
    upsert_message(&answer, None, &mut db);
    upsert_message(&message(100, "question, late"), None, &mut db);
    upsert_message(&answer, None, &mut db);
    assert_eq!(db.message(200).unwrap().referenced_message_id, None);
}

#[test]
fn message_that_answers_itself_has_no_reference() {
    let mut db = Store::new();
    let mut odd = message(200, "self");
    odd.referenced_message_id = Some(200);
    upsert_message(&odd, None, &mut db);
    assert_eq!(db.message(200).unwrap().referenced_message_id, None);
}

#[test]
fn upsert_user_collects_guilds_without_repeats() {
    let mut db = Store::new();
    upsert_user(&user(1, "ann"), &mut db, None);
    assert_eq!(db.user(1).unwrap().guilds, Vec::<i64>::new());
    upsert_user(&user(1, "ann"), &mut db, Some(10));
    upsert_user(&user(1, "ann"), &mut db, Some(20));
    upsert_user(&user(1, "ann"), &mut db, Some(10));
    upsert_user(&user(1, "ann"), &mut db, None);
    assert_eq!(db.user(1).unwrap().guilds, vec![10, 20]);
}

#[test]
fn upsert_user_replaces_the_profile() {
    let mut db = Store::new();
    let mut first = user(1, "ann");
    first.bot = Some(true);
    first.accent_color = Some(0xffff_ffff_0000_0001);
    first.flags = Some(0x8000_0000);
    upsert_user(&first, &mut db, Some(10));
    {
        let row = db.user(1).unwrap();
        assert_eq!(row.username, "ann");
        assert!(row.bot);
        assert_eq!(row.accent_color, Some(1));
        assert_eq!(row.flags, Some(i32::MIN));
        assert_eq!(row.guilds, vec![10]);
    }
    let mut second = user(1, "anna");
    second.global_name = Some("Anna".to_string());
    upsert_user(&second, &mut db, None);
    let row = db.user(1).unwrap();
    assert_eq!(row.username, "anna");
    assert_eq!(row.global_name.as_deref(), Some("Anna"));
    assert!(!row.bot);
    assert_eq!(row.accent_color, None);
    assert_eq!(row.guilds, vec![10]);
}

#[test]
fn bulk_upsert_users_stores_each_without_a_guild() {
    let mut db = Store::new();
    upsert_user(&user(2, "old bob"), &mut db, Some(10));
    bulk_upsert_users(&[user(1, "ann"), user(2, "bob"), user(1, "ann again")], &mut db);
    assert_eq!(db.user(1).unwrap().username, "ann again");
    assert_eq!(db.user(1).unwrap().guilds, Vec::<i64>::new());
    assert_eq!(db.user(2).unwrap().username, "bob");
    assert_eq!(db.user(2).unwrap().guilds, vec![10]);
}

#[test]
fn upsert_guild_with_properties_stores_owner_and_tier() {
    let mut db = Store::new();
    let mut g = guild(10, "shallow name");
    g.properties = Some(GuildProperties {
        name: Some("deep name".to_string()),
        icon: Some("icon".to_string()),
        region: None,
        owner_id: 42,
        features: Some(vec!["COMMUNITY".to_string()]),
        premium_tier: 2,
    });
    upsert_guild(&g, &mut db);
    let row = db.guild(10).unwrap();
    assert_eq!(row.name.as_deref(), Some("deep name"));
    assert_eq!(row.icon.as_deref(), Some("icon"));
    assert_eq!(row.owner_id, 42);
    assert_eq!(row.member_count, Some(12));
    assert_eq!(row.features, Some(vec!["COMMUNITY".to_string()]));
    assert_eq!(row.premium_tier, Some(2));
}

#[test]
fn upsert_guild_without_properties_keeps_the_stored_owner() {
    let mut db = Store::new();
    let mut full = guild(10, "x");
    full.properties = Some(GuildProperties {
        name: Some("deep name".to_string()),
        icon: None,
        region: None,
        owner_id: 42,
        features: None,
        premium_tier: 2,
    });
    upsert_guild(&full, &mut db);
    upsert_guild(&guild(10, "shallow name"), &mut db);
    let row = db.guild(10).unwrap();
    assert_eq!(row.name.as_deref(), Some("shallow name"));
    assert_eq!(row.owner_id, 42);
    assert_eq!(row.premium_tier, None);

    upsert_guild(&guild(11, "new"), &mut db);
    assert_eq!(db.guild(11).unwrap().owner_id, 0);
}

#[test]
fn roles_are_keyed_by_role_and_guild() {
    let mut db = Store::new();
    bulk_upsert_roles(&[role(1, "admin"), role(2, "mod")], 10, &mut db);
    bulk_upsert_roles(&[role(1, "other admin")], 20, &mut db);
    bulk_upsert_roles(&[role(1, "renamed")], 10, &mut db);
    bulk_upsert_roles(&[], 10, &mut db);
    assert_eq!(db.role(1, 10).unwrap().name.as_deref(), Some("renamed"));
    assert_eq!(db.role(2, 10).unwrap().name.as_deref(), Some("mod"));
    assert_eq!(db.role(1, 20).unwrap().name.as_deref(), Some("other admin"));
    assert!(db.role(2, 20).is_none());
    assert_eq!(db.role(1, 10).unwrap().color, 0xff00ff);
    assert_eq!(db.role(1, 10).unwrap().guild_id, 10);
}

#[test]
fn a_snapshot_replaces_the_roles_of_its_guild_only() {
    let mut db = Store::new();
    bulk_upsert_roles(&[role(1, "admin"), role(2, "mod")], 10, &mut db);
    bulk_upsert_roles(&[role(1, "admin elsewhere")], 20, &mut db);
    delete_guild_roles(10, &mut db);
    bulk_upsert_roles(&[role(2, "mod v2"), role(3, "new")], 10, &mut db);
    assert!(db.role(1, 10).is_none());
    assert_eq!(db.role(2, 10).unwrap().name.as_deref(), Some("mod v2"));
    assert_eq!(db.role(3, 10).unwrap().name.as_deref(), Some("new"));
    assert_eq!(db.role(1, 20).unwrap().name.as_deref(), Some("admin elsewhere"));
}

#[test]
fn delete_role_removes_the_role_by_id() {
    let mut db = Store::new();
    bulk_upsert_roles(&[role(1, "admin"), role(2, "mod")], 10, &mut db);
    delete_role(1, &mut db);
    assert!(db.role(1, 10).is_none());
    assert!(db.role(2, 10).is_some());
}

#[test]
fn channels_are_keyed_by_id_and_replaced_per_guild() {
    let mut db = Store::new();
    bulk_upsert_channels(&[channel(1, "general"), channel(2, "random")], Some(10), &mut db);
    bulk_upsert_channels(&[channel(3, "elsewhere")], Some(20), &mut db);
    bulk_upsert_channels(&[channel(4, "private")], None, &mut db);
    assert_eq!(db.channel(1).unwrap().guild_id, Some(10));
    assert_eq!(db.channel(1).unwrap().position, Some(2));
    delete_guild_channels(10, &mut db);
    assert!(db.channel(1).is_none());
    assert!(db.channel(2).is_none());
    assert_eq!(db.channel(3).unwrap().name.as_deref(), Some("elsewhere"));
    assert_eq!(db.channel(4).unwrap().guild_id, None);
    bulk_upsert_channels(&[channel(3, "moved")], Some(10), &mut db);
    assert_eq!(db.channel(3).unwrap().guild_id, Some(10));
    assert_eq!(db.channel(3).unwrap().name.as_deref(), Some("moved"));
    delete_channel(3, &mut db);
    assert!(db.channel(3).is_none());
    assert!(db.channel(4).is_some());
}

#[test]
fn sorting_orders_ascending_and_keeps_every_item() {
    let mut ids = vec![5, -3, 9, 5, 0, i64::MIN, i64::MAX, -3];
    sort_ascending(&mut ids);
    assert_eq!(ids, vec![i64::MIN, -3, -3, 0, 5, 5, 9, i64::MAX]);
    let mut none: Vec<i64> = Vec::new();
    sort_ascending(&mut none);
    assert!(none.is_empty());
    let mut one = vec![7];
    sort_ascending(&mut one);
    assert_eq!(one, vec![7]);
    let mut sorted = vec![1, 2, 3];
    sort_ascending(&mut sorted);
    assert_eq!(sorted, vec![1, 2, 3]);
    let mut reversed = vec![3, 2, 1];
    sort_ascending(&mut reversed);
    assert_eq!(reversed, vec![1, 2, 3]);
}

#[test]
fn a_reference_is_kept_only_for_a_stored_message() {
    assert_eq!(reference_to_store(Some(5), true), Some(5));
    assert_eq!(reference_to_store(Some(5), false), None);
    assert_eq!(reference_to_store(None, true), None);
    assert_eq!(reference_to_store(None, false), None);
}

#[test]
fn operations_are_carried_out_in_order() {
    let mut db = Store::new();
    let mut answer = message(200, "re");
    answer.referenced_message_id = Some(100);
    db.apply_all(
        vec![
            StoreOp::UpsertGuild { row: guild_row(&guild(10, "g")), keep_owner: true },
            StoreOp::UpsertUser { row: user_row(&user(1, "ann")), guild_id: Some(10) },
            StoreOp::UpsertMessage { row: message_row(&message(100, "q"), Some(10)) },
            StoreOp::UpsertMessage { row: message_row(&answer, Some(10)) },
            StoreOp::UpsertRole { row: role_row(&role(1, "admin"), 10) },
            StoreOp::UpsertRole { row: role_row(&role(2, "mod"), 10) },
            StoreOp::UpsertChannel { row: channel_row(&channel(5, "general"), Some(10)) },
            StoreOp::UpsertChannel { row: channel_row(&channel(6, "random"), Some(10)) },
            StoreOp::DeleteMessage { id: 100 },
            StoreOp::BulkDeleteMessages { ids: vec![100, 200, 300] },
            StoreOp::DeleteRole { id: 1 },
            StoreOp::DeleteChannel { id: 5 },
        ],
        7,
    );
    assert!(db.guild(10).is_some());
    assert_eq!(db.user(1).unwrap().guilds, vec![10]);
    assert_eq!(db.message(100).unwrap().deleted_at, Some(7));
    assert_eq!(db.message(200).unwrap().deleted_at, Some(7));
    assert_eq!(db.message(200).unwrap().referenced_message_id, Some(100));
    assert!(db.message(300).is_none());
    assert!(db.role(1, 10).is_none());
    assert!(db.role(2, 10).is_some());
    assert!(db.channel(5).is_none());
    assert!(db.channel(6).is_some());
    db.apply(StoreOp::DeleteGuildRoles { guild_id: 10 }, 8);
    db.apply(StoreOp::DeleteGuildChannels { guild_id: 10 }, 8);
    assert!(db.role(2, 10).is_none());
    assert!(db.channel(6).is_none());
    db.apply_all(Vec::new(), 9);
    assert_eq!(db.message(100).unwrap().deleted_at, Some(7));
}
