//! The rows of the store's tables, and how the platform's objects become
//! rows. A row holds integers of the columns' types; its view replaces each
//! list by the sequence of its items.

use vstd::prelude::*;
use crate::columns::{
    low_i32, low_i32_opt, spec_low_i32, spec_low_i32_opt, spec_sql_id, spec_sql_id_opt,
    spec_unsigned, sql_id, sql_id_opt, unsigned,
};
use crate::model::{
    copy_attachments, copy_text, copy_texts, Attachment, Channel, Guild, Message, Overwrite,
    Role, User,
};
use crate::snowflake::{created_at_millis, spec_created_at_millis};

verus! {

/// The items of an optional list.
pub open spec fn items_of<T>(list: Option<Vec<T>>) -> Option<Seq<T>> {
    match list {
        Some(v) => Some(v@),
        None => None,
    }
}

/// A row of the message table.
#[derive(Debug)]
pub struct MessageRow {
    pub id: i64,
    pub channel_id: i64,
    pub author_id: i64,
    pub guild_id: Option<i64>,
    pub content: Option<String>,
    /// Milliseconds since the Unix epoch, read off the id.
    pub created_at: i64,
    pub edited_at: Option<i64>,
    pub message_type: i32,
    pub flags: i64,
    /// Before the row is stored: the message it answers. In the store: that
    /// message only if the store held it when the row was inserted.
    pub referenced_message_id: Option<i64>,
    pub attachments: Vec<Attachment>,
    /// When the message was deleted; set once, never cleared.
    pub deleted_at: Option<i64>,
}

/// What a message row holds.
pub struct MessageRecord {
    pub id: i64,
    pub channel_id: i64,
    pub author_id: i64,
    pub guild_id: Option<i64>,
    pub content: Option<String>,
    pub created_at: i64,
    pub edited_at: Option<i64>,
    pub message_type: i32,
    pub flags: i64,
    pub referenced_message_id: Option<i64>,
    pub attachments: Seq<Attachment>,
    pub deleted_at: Option<i64>,
}

impl View for MessageRow {
    type V = MessageRecord;

    open spec fn view(&self) -> MessageRecord {
        MessageRecord {
            id: self.id,
            channel_id: self.channel_id,
            author_id: self.author_id,
            guild_id: self.guild_id,
            content: self.content,
            created_at: self.created_at,
            edited_at: self.edited_at,
            message_type: self.message_type,
            flags: self.flags,
            referenced_message_id: self.referenced_message_id,
            attachments: self.attachments@,
            deleted_at: self.deleted_at,
        }
    }
}

/// A row of the user table.
#[derive(Debug)]
pub struct UserRow {
    pub id: i64,
    pub username: String,
    pub global_name: Option<String>,
    pub avatar: Option<String>,
    pub bot: bool,
    pub banner: Option<String>,
    pub accent_color: Option<i32>,
    pub flags: Option<i32>,
    pub premium_type: Option<i32>,
    pub public_flags: Option<i32>,
    /// The guilds the user was seen in, each once, in the order seen.
    pub guilds: Vec<i64>,
}

/// What a user row holds.
pub struct UserRecord {
    pub id: i64,
    pub username: String,
    pub global_name: Option<String>,
    pub avatar: Option<String>,
    pub bot: bool,
    pub banner: Option<String>,
    pub accent_color: Option<i32>,
    pub flags: Option<i32>,
    pub premium_type: Option<i32>,
    pub public_flags: Option<i32>,
    pub guilds: Seq<i64>,
}

impl View for UserRow {
    type V = UserRecord;

    open spec fn view(&self) -> UserRecord {
        UserRecord {
            id: self.id,
            username: self.username,
            global_name: self.global_name,
            avatar: self.avatar,
            bot: self.bot,
            banner: self.banner,
            accent_color: self.accent_color,
            flags: self.flags,
            premium_type: self.premium_type,
            public_flags: self.public_flags,
            guilds: self.guilds@,
        }
    }
}

/// A row of the guild table.
#[derive(Debug)]
pub struct GuildRow {
    pub id: i64,
    pub name: Option<String>,
    pub icon: Option<String>,
    pub region: Option<String>,
    pub owner_id: i64,
    pub member_count: Option<i32>,
    pub features: Option<Vec<String>>,
    pub premium_tier: Option<i32>,
}

/// What a guild row holds.
pub struct GuildRecord {
    pub id: i64,
    pub name: Option<String>,
    pub icon: Option<String>,
    pub region: Option<String>,
    pub owner_id: i64,
    pub member_count: Option<i32>,
    pub features: Option<Seq<String>>,
    pub premium_tier: Option<i32>,
}

impl View for GuildRow {
    type V = GuildRecord;

    open spec fn view(&self) -> GuildRecord {
        GuildRecord {
            id: self.id,
            name: self.name,
            icon: self.icon,
            region: self.region,
            owner_id: self.owner_id,
            member_count: self.member_count,
            features: items_of(self.features),
            premium_tier: self.premium_tier,
        }
    }
}

/// A row of the role table. A role is found by its id and its guild's.
#[derive(Debug)]
pub struct RoleRow {
    pub id: i64,
    pub guild_id: i64,
    pub name: Option<String>,
    pub color: i32,
    pub hoist: bool,
    pub position: i32,
    pub permissions: String,
    pub flags: Option<i64>,
    pub icon: Option<String>,
    pub unicode_emoji: Option<String>,
    pub description: Option<String>,
}

/// A row of the channel table.
#[derive(Debug)]
pub struct ChannelRow {
    pub id: i64,
    pub guild_id: Option<i64>,
    pub kind: i32,
    pub name: Option<String>,
    pub topic: Option<String>,
    pub nsfw: Option<bool>,
    pub position: Option<i32>,
    pub parent_id: Option<i64>,
    pub flags: Option<i64>,
    pub permission_overwrites: Option<Vec<Overwrite>>,
}

/// What a channel row holds.
pub struct ChannelRecord {
    pub id: i64,
    pub guild_id: Option<i64>,
    pub kind: i32,
    pub name: Option<String>,
    pub topic: Option<String>,
    pub nsfw: Option<bool>,
    pub position: Option<i32>,
    pub parent_id: Option<i64>,
    pub flags: Option<i64>,
    pub permission_overwrites: Option<Seq<Overwrite>>,
}

impl View for ChannelRow {
    type V = ChannelRecord;

    open spec fn view(&self) -> ChannelRecord {
        ChannelRecord {
            id: self.id,
            guild_id: self.guild_id,
            kind: self.kind,
            name: self.name,
            topic: self.topic,
            nsfw: self.nsfw,
            position: self.position,
            parent_id: self.parent_id,
            flags: self.flags,
            permission_overwrites: items_of(self.permission_overwrites),
        }
    }
}

/// The row that `msg` asks to be stored as, seen in guild `guild_id`. Its
/// reference names the answered message, whether the store holds it or not,
/// and it carries no deletion mark.
pub open spec fn spec_message_row(msg: Message, guild_id: Option<u64>) -> MessageRecord {
    MessageRecord {
        id: spec_sql_id(msg.id) as i64,
        channel_id: spec_sql_id(msg.channel_id) as i64,
        author_id: spec_sql_id(msg.author.id) as i64,
        guild_id: spec_sql_id_opt(guild_id),
        content: msg.content,
        created_at: spec_created_at_millis(msg.id) as i64,
        edited_at: msg.edited_timestamp,
        message_type: msg.kind.spec_code() as i32,
        flags: spec_sql_id(msg.flags) as i64,
        referenced_message_id: spec_sql_id_opt(msg.referenced_message_id),
        attachments: msg.attachments@,
        deleted_at: None,
    }
}

/// The row for `msg`, seen in guild `guild_id`.
pub fn message_row(msg: &Message, guild_id: Option<u64>) -> (row: MessageRow)
    ensures
        row@ == spec_message_row(*msg, guild_id),
{
    MessageRow {
        id: sql_id(msg.id),
        channel_id: sql_id(msg.channel_id),
        author_id: sql_id(msg.author.id),
        guild_id: sql_id_opt(guild_id),
        content: copy_text(&msg.content),
        created_at: created_at_millis(msg.id),
        edited_at: msg.edited_timestamp,
        message_type: msg.kind.code(),
        flags: sql_id(msg.flags),
        referenced_message_id: sql_id_opt(msg.referenced_message_id),
        attachments: copy_attachments(&msg.attachments),
        deleted_at: None,
    }
}

/// The row that `user` asks to be stored as. It names no guild: the guild a
/// user was seen in travels beside the row.
pub open spec fn spec_user_row(user: User) -> UserRecord {
    UserRecord {
        id: spec_sql_id(user.id) as i64,
        username: user.username,
        global_name: user.global_name,
        avatar: user.avatar,
        bot: user.spec_is_bot(),
        banner: user.banner,
        accent_color: spec_low_i32_opt(user.accent_color),
        flags: spec_low_i32_opt(user.flags),
        premium_type: spec_low_i32_opt(user.premium_type),
        public_flags: spec_low_i32_opt(user.public_flags),
        guilds: Seq::empty(),
    }
}

/// The row for `user`.
pub fn user_row(user: &User) -> (row: UserRow)
    ensures
        row@ == spec_user_row(*user),
{
    UserRow {
        id: sql_id(user.id),
        username: user.username.clone(),
        global_name: copy_text(&user.global_name),
        avatar: copy_text(&user.avatar),
        bot: user.is_bot(),
        banner: copy_text(&user.banner),
        accent_color: low_i32_opt(user.accent_color),
        flags: low_i32_opt(user.flags),
        premium_type: low_i32_opt(user.premium_type),
        public_flags: low_i32_opt(user.public_flags),
        guilds: Vec::new(),
    }
}

/// The row that `guild` asks to be stored as. A fully loaded guild is
/// described by its properties; any other by what the snapshot itself says,
/// with no owner and no premium tier.
pub open spec fn spec_guild_row(guild: Guild) -> GuildRecord {
    let member_count = match guild.member_count {
        Some(n) => Some(spec_low_i32(n as u64) as i32),
        None => None,
    };
    match guild.properties {
        Some(props) => GuildRecord {
            id: spec_sql_id(guild.id) as i64,
            name: props.name,
            icon: props.icon,
            region: props.region,
            owner_id: spec_sql_id(props.owner_id) as i64,
            member_count,
            features: items_of(props.features),
            premium_tier: Some(props.premium_tier as i32),
        },
        None => GuildRecord {
            id: spec_sql_id(guild.id) as i64,
            name: guild.name,
            icon: guild.icon,
            region: guild.region,
            owner_id: 0,
            member_count,
            features: items_of(guild.features),
            premium_tier: None,
        },
    }
}

/// A copy of an optional list of texts.
fn copy_features(features: &Option<Vec<String>>) -> (copy: Option<Vec<String>>)
    ensures
        items_of(copy) == items_of(*features),
{
    match features {
        Some(list) => Some(copy_texts(list)),
        None => None,
    }
}

/// The row for `guild`.
pub fn guild_row(guild: &Guild) -> (row: GuildRow)
    ensures
        row@ == spec_guild_row(*guild),
{
    let member_count = match guild.member_count {
        Some(n) => Some(low_i32(n as u64)),
        None => None,
    };
    match &guild.properties {
        Some(props) => GuildRow {
            id: sql_id(guild.id),
            name: copy_text(&props.name),
            icon: copy_text(&props.icon),
            region: copy_text(&props.region),
            owner_id: sql_id(props.owner_id),
            member_count,
            features: copy_features(&props.features),
            premium_tier: Some(props.premium_tier as i32),
        },
        None => GuildRow {
            id: sql_id(guild.id),
            name: copy_text(&guild.name),
            icon: copy_text(&guild.icon),
            region: copy_text(&guild.region),
            owner_id: 0,
            member_count,
            features: copy_features(&guild.features),
            premium_tier: None,
        },
    }
}

/// The row that `role` of guild `guild_id` asks to be stored as.
pub open spec fn spec_role_row(role: Role, guild_id: u64) -> RoleRow {
    RoleRow {
        id: spec_sql_id(role.id) as i64,
        guild_id: spec_sql_id(guild_id) as i64,
        name: role.name,
        color: spec_low_i32(role.color as u64) as i32,
        hoist: role.hoist,
        position: role.position,
        permissions: role.permissions,
        flags: spec_sql_id_opt(role.flags),
        icon: role.icon,
        unicode_emoji: role.unicode_emoji,
        description: role.description,
    }
}

/// The row for `role` of guild `guild_id`.
pub fn role_row(role: &Role, guild_id: u64) -> (row: RoleRow)
    ensures
        row == spec_role_row(*role, guild_id),
{
    RoleRow {
        id: sql_id(role.id),
        guild_id: sql_id(guild_id),
        name: copy_text(&role.name),
        color: low_i32(role.color as u64),
        hoist: role.hoist,
        position: role.position,
        permissions: role.permissions.clone(),
        flags: sql_id_opt(role.flags),
        icon: copy_text(&role.icon),
        unicode_emoji: copy_text(&role.unicode_emoji),
        description: copy_text(&role.description),
    }
}

/// The row that `channel` asks to be stored as, under guild `guild_id` where
/// one is given.
pub open spec fn spec_channel_row(channel: Channel, guild_id: Option<u64>) -> ChannelRecord {
    ChannelRecord {
        id: spec_sql_id(channel.id) as i64,
        guild_id: spec_sql_id_opt(guild_id),
        kind: channel.kind as i32,
        name: channel.name,
        topic: channel.topic,
        nsfw: channel.nsfw,
        position: match channel.position {
            Some(p) => Some(spec_low_i32(spec_unsigned(p) as u64) as i32),
            None => None,
        },
        parent_id: spec_sql_id_opt(channel.parent_id),
        flags: spec_sql_id_opt(channel.flags),
        permission_overwrites: items_of(channel.permission_overwrites),
    }
}

/// A copy of an optional list of overwrites.
fn copy_overwrites(list: &Option<Vec<Overwrite>>) -> (copy: Option<Vec<Overwrite>>)
    ensures
        items_of(copy) == items_of(*list),
{
    match list {
        Some(items) => {
            let mut copy: Vec<Overwrite> = Vec::new();
            let mut i: usize = 0;
            while i < items.len()
                invariant
                    i <= items.len(),
                    copy@ == items@.take(i as int),
                decreases items.len() - i,
            {
                copy.push(items[i].clone());
                i += 1;
                assert(items@.take(i as int) == items@.take(i - 1).push(items@[i - 1]));
            }
            assert(items@.take(items.len() as int) == items@);
            Some(copy)
        },
        None => None,
    }
}

/// The row for `channel`, under guild `guild_id` where one is given.
pub fn channel_row(channel: &Channel, guild_id: Option<u64>) -> (row: ChannelRow)
    ensures
        row@ == spec_channel_row(*channel, guild_id),
{
    ChannelRow {
        id: sql_id(channel.id),
        guild_id: sql_id_opt(guild_id),
        kind: channel.kind as i32,
        name: copy_text(&channel.name),
        topic: copy_text(&channel.topic),
        nsfw: channel.nsfw,
        position: match channel.position {
            Some(p) => Some(low_i32(unsigned(p))),
            None => None,
        },
        parent_id: sql_id_opt(channel.parent_id),
        flags: sql_id_opt(channel.flags),
        permission_overwrites: copy_overwrites(&channel.permission_overwrites),
    }
}

} // verus!
