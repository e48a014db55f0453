use slurpslurp::config::Config;
use slurpslurp::database::Store;
use slurpslurp::event_processor::guild::{
    process_channel_create, process_channel_delete, process_channel_update,
    process_ready_guilds, process_role_create, process_role_delete, process_role_update,
};
use slurpslurp::event_processor::message::{
    process_message_common, process_message_create, process_message_delete,
    process_message_delete_bulk, process_message_update,
};
use slurpslurp::event_processor::misc::process_ready_supplemental;
use slurpslurp::event_processor::user::{
    process_guild_member_update, process_guild_members_chunk,
};
use slurpslurp::events::{
    ChannelCreateEvent, ChannelDeleteEvent, ChannelUpdateEvent, GuildMemberUpdateEvent,
    GuildMembersChunkEvent, GuildRoleCreateEvent, GuildRoleDeleteEvent, GuildRoleUpdateEvent,
    MessageCreateEvent, MessageDeleteBulkEvent, MessageDeleteEvent, MessageUpdateEvent,
    ReadySupplementalEvent,
};
use slurpslurp::message_type::MessageType;
use slurpslurp::model::{
    Attachment, Channel, Embed, EmbedMedia, Guild, Member, Message, Role, User,
};
use slurpslurp::ops::StoreOp;

fn config(skip_bots: bool, download: bool) -> Config {
    Config {
        skip_bot_messages: skip_bots,
        download_files: download,
        use_db: true,
        db_url: String::new(),
    }
}

fn user(id: u64, name: &str, bot: Option<bool>) -> User {
    User {
        id,
        username: name.to_string(),
        global_name: None,
        avatar: None,
        bot,
        banner: None,
        accent_color: None,
        flags: None,
        premium_type: None,
        public_flags: None,
    }
}

fn attachment(id: u64, name: &str) -> Attachment {
    Attachment {
        id,
        filename: name.to_string(),
        title: None,
        description: None,
        content_type: Some("image/png".to_string()),
        size: 10,
        url: format!("https://cdn.example/{}", name),
        proxy_url: format!("https://proxy.example/{}", name),
        height: None,
        width: None,
    }
}

fn embed() -> Embed {
    Embed {
        image: Some(EmbedMedia { url: "https://x.example/i.png".to_string(), proxy_url: None }),
        thumbnail: None,
        video: None,
    }
}

fn message(id: u64, author: User) -> Message {
    Message {
        id,
        channel_id: 77,
        author,
        content: Some("hello".to_string()),
        edited_timestamp: None,
        kind: MessageType::Default,
        flags: 0,
        referenced_message_id: None,
        mentions: Some(vec![user(2, "bob", None), user(3, "cy", Some(true))]),
        attachments: vec![attachment(5, "a.png")],
        embeds: vec![embed()],
    }
}

fn role(id: u64) -> Role {
    Role {
        id,
        name: Some("r".to_string()),
        color: 1,
        hoist: false,
        position: 0,
        permissions: "0".to_string(),
        flags: None,
        icon: None,
        unicode_emoji: None,
        description: None,
    }
}

fn channel(id: u64) -> Channel {
    Channel {
        id,
        kind: 0,
        name: Some("c".to_string()),
        topic: None,
        nsfw: None,
        position: None,
        parent_id: None,
        flags: None,
        permission_overwrites: None,
        recipients: None,
    }
}

fn guild(id: u64) -> Guild {
    Guild {
        id,
        name: Some("g".to_string()),
        icon: None,
        region: None,
        member_count: None,
        features: None,
        properties: None,
        roles: None,
        channels: None,
        threads: None,
    }
}

fn member(u: Option<User>) -> Member {
    Member { user: u }
}

fn upserted_user(op: &StoreOp) -> (i64, Option<i64>) {
    match op {
        StoreOp::UpsertUser { row, guild_id } => (row.id, *guild_id),
        other => panic!("not a user upsert: {:?}", other),
    }
}

#[test]
fn a_message_stores_author_then_mentions_then_itself() {
    let msg = message(100, user(1, "ann", None));
    let plan = process_message_common(&msg, &msg.author, Some(9), true, &config(false, false));
    assert_eq!(plan.store_ops.len(), 4);
    assert_eq!(upserted_user(&plan.store_ops[0]), (1, Some(9)));
    assert_eq!(upserted_user(&plan.store_ops[1]), (2, Some(9)));
    assert_eq!(upserted_user(&plan.store_ops[2]), (3, Some(9)));
    match &plan.store_ops[3] {
        StoreOp::UpsertMessage { row } => {
            assert_eq!(row.id, 100);
            assert_eq!(row.author_id, 1);
            assert_eq!(row.guild_id, Some(9));
            assert_eq!(row.deleted_at, None);
        }
        other => panic!("not a message upsert: {:?}", other),
    }
    assert!(plan.attachments.is_empty());
    assert!(plan.embeds.is_empty());
    assert_eq!(plan.message_id, 100);
}

#[test]
fn a_bot_message_is_passed_over_when_bots_are_skipped() {
    let msg = message(100, user(1, "robot", Some(true)));
    let plan = process_message_common(&msg, &msg.author, Some(9), true, &config(true, true));
    assert!(plan.store_ops.is_empty());
    assert!(plan.attachments.is_empty());
    assert!(plan.embeds.is_empty());
}

#[test]
fn a_bot_message_is_ingested_when_bots_are_not_skipped() {
    let msg = message(100, user(1, "robot", Some(true)));
    let plan = process_message_common(&msg, &msg.author, None, true, &config(false, true));
    assert_eq!(plan.store_ops.len(), 4);
    assert_eq!(upserted_user(&plan.store_ops[0]), (1, None));
    assert_eq!(plan.attachments.len(), 1);
    assert_eq!(plan.embeds.len(), 1);
}

#[test]
fn an_author_without_a_bot_mark_counts_as_human() {
    let msg = message(100, user(1, "ann", None));
    let plan = process_message_common(&msg, &msg.author, None, true, &config(true, false));
    assert_eq!(plan.store_ops.len(), 4);
    let msg = message(100, user(1, "ann", Some(false)));
    let plan = process_message_common(&msg, &msg.author, None, true, &config(true, false));
    assert_eq!(plan.store_ops.len(), 4);
}

#[test]
fn downloads_do_not_depend_on_persistence() {
    let msg = message(100, user(1, "ann", None));
    let plan = process_message_common(&msg, &msg.author, Some(9), false, &config(false, true));
    assert!(plan.store_ops.is_empty());
    assert_eq!(plan.attachments.len(), 1);
    assert_eq!(plan.attachments[0].id, 5);
    assert_eq!(plan.embeds.len(), 1);
    assert_eq!(plan.message_id, 100);
}

#[test]
fn create_and_update_call_for_the_same() {
    let created = process_message_create(
        &MessageCreateEvent { message: message(100, user(1, "ann", None)), guild_id: Some(9) },
        true,
        &config(false, true),
    );
    let updated = process_message_update(
        &MessageUpdateEvent { message: message(100, user(1, "ann", None)), guild_id: Some(9) },
        true,
        &config(false, true),
    );
    assert_eq!(created.store_ops.len(), 4);
    assert_eq!(updated.store_ops.len(), 4);
    assert_eq!(created.attachments.len(), updated.attachments.len());
    assert_eq!(created.message_id, updated.message_id);
}

#[test]
fn ingesting_twice_leaves_the_store_as_ingesting_once() {
    let cfg = config(false, false);
    let msg = message(100, user(1, "ann", None));
    let mut once = Store::new();
    let mut twice = Store::new();
    once.apply_all(process_message_common(&msg, &msg.author, Some(9), true, &cfg).store_ops, 10);
    twice.apply_all(process_message_common(&msg, &msg.author, Some(9), true, &cfg).store_ops, 10);
    twice.apply_all(process_message_common(&msg, &msg.author, Some(9), true, &cfg).store_ops, 20);
    for id in [1i64, 2, 3] {
        let a = once.user(id).unwrap();
        let b = twice.user(id).unwrap();
        assert_eq!(a.username, b.username);
        assert_eq!(a.bot, b.bot);
        assert_eq!(a.guilds, b.guilds);
        assert_eq!(b.guilds, vec![9]);
    }
    let a = once.message(100).unwrap();
    let b = twice.message(100).unwrap();
    assert_eq!(a.content, b.content);
    assert_eq!(a.deleted_at, b.deleted_at);
    assert_eq!(a.referenced_message_id, b.referenced_message_id);
}

#[test]
fn a_delete_event_marks_the_message() {
    let ops = process_message_delete(&MessageDeleteEvent { id: 100 }, true);
    assert_eq!(ops.len(), 1);
    assert!(matches!(ops[0], StoreOp::DeleteMessage { id: 100 }));
    assert!(process_message_delete(&MessageDeleteEvent { id: 100 }, false).is_empty());
}

#[test]
fn a_bulk_delete_event_lists_its_ids_ascending() {
    let ops = process_message_delete_bulk(&MessageDeleteBulkEvent { ids: vec![9, 3, 5] }, true);
    assert_eq!(ops.len(), 1);
    match &ops[0] {
        StoreOp::BulkDeleteMessages { ids } => assert_eq!(ids, &vec![3, 5, 9]),
        other => panic!("not a bulk delete: {:?}", other),
    }
    assert!(process_message_delete_bulk(&MessageDeleteBulkEvent { ids: vec![] }, true).is_empty());
    assert!(process_message_delete_bulk(&MessageDeleteBulkEvent { ids: vec![1] }, false).is_empty());
}

#[test]
fn a_snapshot_stores_members_users_and_guilds_in_order() {
    let mut first = guild(10);
    first.roles = Some(vec![role(1), role(2)]);
    first.channels = Some(vec![channel(5)]);
    first.threads = Some(vec![channel(6)]);
    let second = guild(20);
    let guilds = vec![first, second];
    let members = Some(vec![
        vec![member(Some(user(1, "ann", None))), member(None)],
        vec![member(Some(user(2, "bob", None)))],
        vec![member(Some(user(3, "nobody's", None)))],
    ]);
    let users = Some(vec![user(4, "dee", None)]);
    let ops = process_ready_guilds(&guilds, &members, &users);
    assert_eq!(ops.len(), 11);
    assert_eq!(upserted_user(&ops[0]), (1, Some(10)));
    assert_eq!(upserted_user(&ops[1]), (2, Some(20)));
    assert_eq!(upserted_user(&ops[2]), (4, None));
    assert!(matches!(&ops[3], StoreOp::UpsertGuild { row, keep_owner: true } if row.id == 10));
    assert!(matches!(ops[4], StoreOp::DeleteGuildRoles { guild_id: 10 }));
    assert!(matches!(&ops[5], StoreOp::UpsertRole { row } if row.id == 1 && row.guild_id == 10));
    assert!(matches!(&ops[6], StoreOp::UpsertRole { row } if row.id == 2 && row.guild_id == 10));
    assert!(matches!(ops[7], StoreOp::DeleteGuildChannels { guild_id: 10 }));
    assert!(
        matches!(&ops[8], StoreOp::UpsertChannel { row } if row.id == 5 && row.guild_id == Some(10))
    );
    assert!(
        matches!(&ops[9], StoreOp::UpsertChannel { row } if row.id == 6 && row.guild_id == Some(10))
    );
    assert!(matches!(&ops[10], StoreOp::UpsertGuild { row, .. } if row.id == 20));
}

#[test]
fn a_snapshot_replaces_reference_data_in_the_store() {
    let mut db = Store::new();
    let mut old = guild(10);
    old.roles = Some(vec![role(1), role(2)]);
    old.channels = Some(vec![channel(5), channel(6)]);
    old.threads = Some(vec![channel(7)]);
    db.apply_all(process_ready_guilds(&vec![old], &None, &None), 0);
    let mut new = guild(10);
    new.roles = Some(vec![role(2), role(3)]);
    new.channels = Some(vec![channel(6)]);
    new.threads = Some(vec![channel(8)]);
    db.apply_all(process_ready_guilds(&vec![new], &None, &None), 0);
    assert!(db.role(1, 10).is_none());
    assert!(db.role(2, 10).is_some());
    assert!(db.role(3, 10).is_some());
    assert!(db.channel(5).is_none());
    assert!(db.channel(6).is_some());
    assert!(db.channel(7).is_none());
    assert!(db.channel(8).is_some());
    assert!(db.guild(10).is_some());
}

#[test]
fn a_snapshot_without_lists_leaves_reference_data_alone() {
    let mut db = Store::new();
    let mut old = guild(10);
    old.roles = Some(vec![role(1)]);
    old.channels = Some(vec![channel(5)]);
    db.apply_all(process_ready_guilds(&vec![old], &None, &None), 0);
    db.apply_all(process_ready_guilds(&vec![guild(10)], &None, &None), 0);
    assert!(db.role(1, 10).is_some());
    assert!(db.channel(5).is_some());
}

#[test]
fn channel_and_role_events_store_one_row_each() {
    let ops = process_channel_create(&ChannelCreateEvent { channel: channel(5) }, true);
    assert!(matches!(&ops[..], [StoreOp::UpsertChannel { row }] if row.id == 5 && row.guild_id.is_none()));
    let ops = process_channel_update(&ChannelUpdateEvent { channel: channel(5) }, true);
    assert!(matches!(&ops[..], [StoreOp::UpsertChannel { row }] if row.id == 5));
    let ops = process_channel_delete(&ChannelDeleteEvent { channel: channel(5) }, true);
    assert!(matches!(&ops[..], [StoreOp::DeleteChannel { id: 5 }]));
    let ops = process_role_create(&GuildRoleCreateEvent { role: role(1), guild_id: 10 }, true);
    assert!(matches!(&ops[..], [StoreOp::UpsertRole { row }] if row.id == 1 && row.guild_id == 10));
    let ops = process_role_update(&GuildRoleUpdateEvent { role: role(1), guild_id: 10 }, true);
    assert!(matches!(&ops[..], [StoreOp::UpsertRole { row }] if row.id == 1));
    let ops = process_role_delete(&GuildRoleDeleteEvent { role_id: 1, guild_id: 10 }, true);
    assert!(matches!(&ops[..], [StoreOp::DeleteRole { id: 1 }]));
    assert!(process_channel_create(&ChannelCreateEvent { channel: channel(5) }, false).is_empty());
    assert!(process_role_delete(&GuildRoleDeleteEvent { role_id: 1, guild_id: 10 }, false).is_empty());
}

#[test]
fn member_events_store_users() {
    let chunk = GuildMembersChunkEvent {
        members: vec![member(Some(user(1, "ann", None))), member(None), member(Some(user(2, "bob", None)))],
    };
    let ops = process_guild_members_chunk(&chunk, true);
    assert_eq!(ops.len(), 2);
    assert_eq!(upserted_user(&ops[0]), (1, None));
    assert_eq!(upserted_user(&ops[1]), (2, None));
    assert!(process_guild_members_chunk(&chunk, false).is_empty());
    let ops = process_guild_member_update(
        &GuildMemberUpdateEvent { user: user(1, "ann", None), guild_id: 10 },
        true,
    );
    assert_eq!(ops.len(), 1);
    assert_eq!(upserted_user(&ops[0]), (1, Some(10)));
}

#[test]
fn a_supplement_stores_members_then_recipients_without_a_guild() {
    let mut private = channel(50);
    private.recipients = Some(vec![user(3, "cy", None), user(4, "dee", None)]);
    let event = ReadySupplementalEvent {
        merged_members: vec![
            vec![member(Some(user(1, "ann", None)))],
            vec![member(None), member(Some(user(2, "bob", None)))],
        ],
        lazy_private_channels: vec![channel(49), private],
    };
    let ops = process_ready_supplemental(&event);
    assert_eq!(ops.len(), 4);
    assert_eq!(upserted_user(&ops[0]), (1, None));
    assert_eq!(upserted_user(&ops[1]), (2, None));
    assert_eq!(upserted_user(&ops[2]), (3, None));
    assert_eq!(upserted_user(&ops[3]), (4, None));
}
