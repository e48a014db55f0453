//! What a realtime session delivers, reduced to what ingestion reads.

use vstd::prelude::*;
use crate::model::{Channel, Guild, Member, Message, Role, User};

verus! {

/// A message was posted.
#[derive(Debug)]
pub struct MessageCreateEvent {
    pub message: Message,
    pub guild_id: Option<u64>,
}

/// A message was edited.
#[derive(Debug)]
pub struct MessageUpdateEvent {
    pub message: Message,
    pub guild_id: Option<u64>,
}

/// A message was deleted.
#[derive(Debug)]
pub struct MessageDeleteEvent {
    pub id: u64,
}

/// Several messages were deleted at once.
#[derive(Debug)]
pub struct MessageDeleteBulkEvent {
    pub ids: Vec<u64>,
}

/// The snapshot that opens a session.
#[derive(Debug)]
pub struct ReadyEvent {
    pub guilds: Vec<Guild>,
    /// The members known of each guild, in the order of `guilds`.
    pub merged_members: Option<Vec<Vec<Member>>>,
    pub users: Option<Vec<User>>,
}

/// What the platform sends after the snapshot: more members, and the
/// private channels that are loaded lazily.
#[derive(Debug)]
pub struct ReadySupplementalEvent {
    pub merged_members: Vec<Vec<Member>>,
    pub lazy_private_channels: Vec<Channel>,
}

/// A channel appeared.
#[derive(Debug)]
pub struct ChannelCreateEvent {
    pub channel: Channel,
}

/// A channel changed.
#[derive(Debug)]
pub struct ChannelUpdateEvent {
    pub channel: Channel,
}

/// A channel was removed.
#[derive(Debug)]
pub struct ChannelDeleteEvent {
    pub channel: Channel,
}

/// A role appeared in a guild.
#[derive(Debug)]
pub struct GuildRoleCreateEvent {
    pub role: Role,
    pub guild_id: u64,
}

/// A role of a guild changed.
#[derive(Debug)]
pub struct GuildRoleUpdateEvent {
    pub role: Role,
    pub guild_id: u64,
}

/// A role of a guild was removed.
#[derive(Debug)]
pub struct GuildRoleDeleteEvent {
    pub role_id: u64,
    pub guild_id: u64,
}

/// Members of a guild, as asked for.
#[derive(Debug)]
pub struct GuildMembersChunkEvent {
    pub members: Vec<Member>,
}

/// A member of a guild changed.
#[derive(Debug)]
pub struct GuildMemberUpdateEvent {
    pub user: User,
    pub guild_id: u64,
}

/// A guild banned a user.
#[derive(Debug)]
pub struct GuildBanAddEvent {
    pub guild_id: u64,
    pub user: User,
}

/// One event of the realtime feed. The feed's vocabulary is open: whatever
/// is not one of the kinds read here arrives as `Other` and is passed over.
#[derive(Debug)]
pub enum Event {
    Ready(ReadyEvent),
    ReadySupplemental(ReadySupplementalEvent),
    MessageCreate(MessageCreateEvent),
    MessageUpdate(MessageUpdateEvent),
    MessageDelete(MessageDeleteEvent),
    MessageDeleteBulk(MessageDeleteBulkEvent),
    ChannelCreate(ChannelCreateEvent),
    ChannelUpdate(ChannelUpdateEvent),
    ChannelDelete(ChannelDeleteEvent),
    GuildRoleCreate(GuildRoleCreateEvent),
    GuildRoleUpdate(GuildRoleUpdateEvent),
    GuildRoleDelete(GuildRoleDeleteEvent),
    GuildMembersChunk(GuildMembersChunkEvent),
    GuildMemberUpdate(GuildMemberUpdateEvent),
    GuildBanAdd(GuildBanAddEvent),
    Other,
}

} // verus!
