//! Guilds, their roles and their channels: the snapshot that opens a
//! session, and the changes that follow it.

use vstd::prelude::*;
use crate::columns::{spec_sql_id, sql_id};
use crate::event_processor::message::{push_user_ops, upsert_user_ops};
use crate::event_processor::user::{member_users, push_member_ops};
use crate::events::{
    ChannelCreateEvent, ChannelDeleteEvent, ChannelUpdateEvent, GuildRoleCreateEvent,
    GuildRoleDeleteEvent, GuildRoleUpdateEvent,
};
use crate::model::{Channel, Guild, Member, Role, User};
use crate::ops::{ops_view, Op, StoreOp};
use crate::rows::{
    channel_row, guild_row, role_row, spec_channel_row, spec_guild_row, spec_role_row,
};

verus! {

/// The operation that stores `role` as a role of guild `guild_id`.
pub open spec fn upsert_role_op(role: Role, guild_id: u64) -> Op {
    Op::UpsertRole { row: spec_role_row(role, guild_id) }
}

/// The operations that store each of `roles` as a role of guild `guild_id`.
pub open spec fn upsert_role_ops(roles: Seq<Role>, guild_id: u64) -> Seq<Op> {
    roles.map_values(|role: Role| upsert_role_op(role, guild_id))
}

/// The operation that stores `channel` under guild `guild_id`.
pub open spec fn upsert_channel_op(channel: Channel, guild_id: Option<u64>) -> Op {
    Op::UpsertChannel { row: spec_channel_row(channel, guild_id) }
}

/// The operations that store each of `channels` under guild `guild_id`.
pub open spec fn upsert_channel_ops(channels: Seq<Channel>, guild_id: Option<u64>) -> Seq<Op> {
    channels.map_values(|channel: Channel| upsert_channel_op(channel, guild_id))
}

/// The operations for the members that a snapshot lists guild by guild:
/// each member's user is stored as seen in the guild at the same place of
/// `guilds`; a list with no guild at its place is passed over.
pub open spec fn snapshot_member_ops(groups: Seq<Vec<Member>>, guilds: Seq<Guild>) -> Seq<Op>
    decreases groups.len(),
{
    if groups.len() == 0 {
        Seq::empty()
    } else {
        let at = groups.len() - 1;
        snapshot_member_ops(groups.drop_last(), guilds) + if at < guilds.len() {
            upsert_user_ops(member_users(groups.last()@), Some(guilds[at].id))
        } else {
            Seq::empty()
        }
    }
}

/// The operations that replace a guild's roles by `roles`: the stored roles
/// of the guild go, then each listed role is stored. No list, no change.
pub open spec fn replace_roles_ops(roles: Option<Vec<Role>>, guild_id: u64) -> Seq<Op> {
    match roles {
        Some(listed) => seq![Op::DeleteGuildRoles { guild_id: spec_sql_id(guild_id) as i64 }]
            + upsert_role_ops(listed@, guild_id),
        None => Seq::empty(),
    }
}

/// The operations that replace a guild's channels by `channels`, in the
/// same way.
pub open spec fn replace_channels_ops(channels: Option<Vec<Channel>>, guild_id: u64) -> Seq<Op> {
    match channels {
        Some(listed) => seq![Op::DeleteGuildChannels { guild_id: spec_sql_id(guild_id) as i64 }]
            + upsert_channel_ops(listed@, Some(guild_id)),
        None => Seq::empty(),
    }
}

/// The operations that add `threads` to a guild's channels. Threads that
/// are stored and not listed stay.
pub open spec fn add_threads_ops(threads: Option<Vec<Channel>>, guild_id: u64) -> Seq<Op> {
    match threads {
        Some(listed) => upsert_channel_ops(listed@, Some(guild_id)),
        None => Seq::empty(),
    }
}

/// The operations for one guild of a snapshot: the guild is stored, its
/// roles and its channels are replaced, its threads are added.
pub open spec fn guild_ops(guild: Guild) -> Seq<Op> {
    seq![Op::UpsertGuild { row: spec_guild_row(guild), keep_owner: guild.properties is None }]
        + replace_roles_ops(guild.roles, guild.id) + replace_channels_ops(guild.channels, guild.id)
        + add_threads_ops(guild.threads, guild.id)
}

/// The operations for the guilds of a snapshot, guild after guild.
pub open spec fn guilds_ops(guilds: Seq<Guild>) -> Seq<Op>
    decreases guilds.len(),
{
    if guilds.len() == 0 {
        Seq::empty()
    } else {
        guilds_ops(guilds.drop_last()) + guild_ops(guilds.last())
    }
}

/// The operations for a whole snapshot: the members listed guild by guild,
/// then the users listed without a guild, then the guilds.
pub open spec fn ready_ops(
    guilds: Seq<Guild>,
    ready_members: Option<Vec<Vec<Member>>>,
    ready_users: Option<Vec<User>>,
) -> Seq<Op> {
    (match ready_members {
        Some(groups) => snapshot_member_ops(groups@, guilds),
        None => Seq::empty(),
    }) + (match ready_users {
        Some(users) => upsert_user_ops(users@, None),
        None => Seq::empty(),
    }) + guilds_ops(guilds)
}

/// Appends to `ops` the operations that store each of `roles` as a role of
/// guild `guild_id`.
pub fn push_role_ops(ops: &mut Vec<StoreOp>, roles: &Vec<Role>, guild_id: u64)
    ensures
        ops_view(final(ops)@) == ops_view(old(ops)@) + upsert_role_ops(roles@, guild_id),
{
    let ghost base = ops_view(ops@);
    let mut i: usize = 0;
    assert(ops_view(ops@) == base + upsert_role_ops(roles@.take(0), guild_id));
    while i < roles.len()
        invariant
            i <= roles.len(),
            ops_view(ops@) == base + upsert_role_ops(roles@.take(i as int), guild_id),
        decreases roles.len() - i,
    {
        let ghost before = ops@;
        ops.push(StoreOp::UpsertRole { row: role_row(&roles[i], guild_id) });
        i += 1;
        assert(ops_view(ops@) == ops_view(before).push(upsert_role_op(roles@[i - 1], guild_id)));
        assert(upsert_role_ops(roles@.take(i as int), guild_id) == upsert_role_ops(
            roles@.take(i - 1),
            guild_id,
        ).push(upsert_role_op(roles@[i - 1], guild_id)));
    }
    assert(roles@.take(roles.len() as int) == roles@);
}

/// Appends to `ops` the operations that store each of `channels` under
/// guild `guild_id`.
pub fn push_channel_ops(ops: &mut Vec<StoreOp>, channels: &Vec<Channel>, guild_id: Option<u64>)
    ensures
        ops_view(final(ops)@) == ops_view(old(ops)@) + upsert_channel_ops(channels@, guild_id),
{
    let ghost base = ops_view(ops@);
    let mut i: usize = 0;
    assert(ops_view(ops@) == base + upsert_channel_ops(channels@.take(0), guild_id));
    while i < channels.len()
        invariant
            i <= channels.len(),
            ops_view(ops@) == base + upsert_channel_ops(channels@.take(i as int), guild_id),
        decreases channels.len() - i,
    {
        let ghost before = ops@;
        ops.push(StoreOp::UpsertChannel { row: channel_row(&channels[i], guild_id) });
        i += 1;
        assert(ops_view(ops@) == ops_view(before).push(
            upsert_channel_op(channels@[i - 1], guild_id),
        ));
        assert(upsert_channel_ops(channels@.take(i as int), guild_id) == upsert_channel_ops(
            channels@.take(i - 1),
            guild_id,
        ).push(upsert_channel_op(channels@[i - 1], guild_id)));
    }
    assert(channels@.take(channels.len() as int) == channels@);
}

/// Appends to `ops` the operations for one guild of a snapshot.
pub fn push_guild_ops(ops: &mut Vec<StoreOp>, guild: &Guild)
    ensures
        ops_view(final(ops)@) == ops_view(old(ops)@) + guild_ops(*guild),
{
    let ghost base = ops_view(ops@);
    let ghost start = ops@;
    ops.push(StoreOp::UpsertGuild { row: guild_row(guild), keep_owner: guild.properties.is_none() });
    assert(ops_view(ops@) == ops_view(start).push(
        Op::UpsertGuild { row: spec_guild_row(*guild), keep_owner: guild.properties is None },
    ));
    let ghost stored = ops_view(ops@);
    match &guild.roles {
        Some(roles) => {
            let ghost before = ops@;
            ops.push(StoreOp::DeleteGuildRoles { guild_id: sql_id(guild.id) });
            assert(ops_view(ops@) == ops_view(before).push(
                Op::DeleteGuildRoles { guild_id: spec_sql_id(guild.id) as i64 },
            ));
            push_role_ops(ops, roles, guild.id);
        },
        None => {},
    }
    assert(ops_view(ops@) == stored + replace_roles_ops(guild.roles, guild.id));
    let ghost with_roles = ops_view(ops@);
    match &guild.channels {
        Some(channels) => {
            let ghost before = ops@;
            ops.push(StoreOp::DeleteGuildChannels { guild_id: sql_id(guild.id) });
            assert(ops_view(ops@) == ops_view(before).push(
                Op::DeleteGuildChannels { guild_id: spec_sql_id(guild.id) as i64 },
            ));
            push_channel_ops(ops, channels, Some(guild.id));
        },
        None => {},
    }
    assert(ops_view(ops@) == with_roles + replace_channels_ops(guild.channels, guild.id));
    let ghost with_channels = ops_view(ops@);
    match &guild.threads {
        Some(threads) => {
            push_channel_ops(ops, threads, Some(guild.id));
        },
        None => {},
    }
    assert(ops_view(ops@) == with_channels + add_threads_ops(guild.threads, guild.id));
    assert(ops_view(ops@) == base + guild_ops(*guild));
}

/// Decides what a session's snapshot calls for.
///
/// First the users: each member listed for a guild is stored as seen in
/// that guild, then each user listed without a guild is stored. Then the
/// guilds, one after the other: the guild is stored; where the snapshot
/// lists its roles, the stored roles of the guild are removed and the
/// listed ones stored, and the same for its channels; its threads are
/// stored on top of those that are there.
pub fn process_ready_guilds(
    guilds: &Vec<Guild>,
    ready_members: &Option<Vec<Vec<Member>>>,
    ready_users: &Option<Vec<User>>,
) -> (ops: Vec<StoreOp>)
    ensures
        ops_view(ops@) == ready_ops(guilds@, *ready_members, *ready_users),
{
    let mut ops: Vec<StoreOp> = Vec::new();
    assert(ops_view(ops@) == Seq::<Op>::empty());
    match ready_members {
        Some(groups) => {
            let mut g: usize = 0;
            assert(ops_view(ops@) == snapshot_member_ops(groups@.take(0), guilds@));
            while g < groups.len()
                invariant
                    g <= groups.len(),
                    ops_view(ops@) == snapshot_member_ops(groups@.take(g as int), guilds@),
                decreases groups.len() - g,
            {
                assert(groups@.take(g + 1).drop_last() == groups@.take(g as int));
                if g < guilds.len() {
                    push_member_ops(&mut ops, &groups[g], Some(guilds[g].id));
                }
                g += 1;
            }
            assert(groups@.take(groups.len() as int) == groups@);
        },
        None => {},
    }
    let ghost from_members = ops_view(ops@);
    match ready_users {
        Some(users) => {
            push_user_ops(&mut ops, users, None);
        },
        None => {},
    }
    let ghost from_users = ops_view(ops@);
    let mut i: usize = 0;
    assert(ops_view(ops@) == from_users + guilds_ops(guilds@.take(0)));
    while i < guilds.len()
        invariant
            i <= guilds.len(),
            ops_view(ops@) == from_users + guilds_ops(guilds@.take(i as int)),
        decreases guilds.len() - i,
    {
        assert(guilds@.take(i + 1).drop_last() == guilds@.take(i as int));
        push_guild_ops(&mut ops, &guilds[i]);
        i += 1;
    }
    assert(guilds@.take(guilds.len() as int) == guilds@);
    ops
}

/// Decides what a new channel calls for: the channel is stored, under no
/// guild.
pub fn process_channel_create(channel_create: &ChannelCreateEvent, persist: bool) -> (ops: Vec<
    StoreOp,
>)
    ensures
        ops_view(ops@) == if persist {
            seq![upsert_channel_op(channel_create.channel, None)]
        } else {
            Seq::<Op>::empty()
        },
{
    let mut ops: Vec<StoreOp> = Vec::new();
    if persist {
        ops.push(StoreOp::UpsertChannel { row: channel_row(&channel_create.channel, None) });
    }
    assert(ops_view(ops@) =~= if persist {
        seq![upsert_channel_op(channel_create.channel, None)]
    } else {
        Seq::<Op>::empty()
    });
    ops
}

/// Decides what a changed channel calls for: the channel is stored again,
/// under no guild.
pub fn process_channel_update(channel_update: &ChannelUpdateEvent, persist: bool) -> (ops: Vec<
    StoreOp,
>)
    ensures
        ops_view(ops@) == if persist {
            seq![upsert_channel_op(channel_update.channel, None)]
        } else {
            Seq::<Op>::empty()
        },
{
    let mut ops: Vec<StoreOp> = Vec::new();
    if persist {
        ops.push(StoreOp::UpsertChannel { row: channel_row(&channel_update.channel, None) });
    }
    assert(ops_view(ops@) =~= if persist {
        seq![upsert_channel_op(channel_update.channel, None)]
    } else {
        Seq::<Op>::empty()
    });
    ops
}

/// Decides what a removed channel calls for: its row is removed.
pub fn process_channel_delete(channel_delete: &ChannelDeleteEvent, persist: bool) -> (ops: Vec<
    StoreOp,
>)
    ensures
        ops_view(ops@) == if persist {
            seq![Op::DeleteChannel { id: spec_sql_id(channel_delete.channel.id) as i64 }]
        } else {
            Seq::<Op>::empty()
        },
{
    let mut ops: Vec<StoreOp> = Vec::new();
    if persist {
        ops.push(StoreOp::DeleteChannel { id: sql_id(channel_delete.channel.id) });
    }
    assert(ops_view(ops@) =~= if persist {
        seq![Op::DeleteChannel { id: spec_sql_id(channel_delete.channel.id) as i64 }]
    } else {
        Seq::<Op>::empty()
    });
    ops
}

/// Decides what a new role calls for: the role is stored in its guild.
pub fn process_role_create(role_create: &GuildRoleCreateEvent, persist: bool) -> (ops: Vec<
    StoreOp,
>)
    ensures
        ops_view(ops@) == if persist {
            seq![upsert_role_op(role_create.role, role_create.guild_id)]
        } else {
            Seq::<Op>::empty()
        },
{
    let mut ops: Vec<StoreOp> = Vec::new();
    if persist {
        ops.push(StoreOp::UpsertRole { row: role_row(&role_create.role, role_create.guild_id) });
    }
    assert(ops_view(ops@) =~= if persist {
        seq![upsert_role_op(role_create.role, role_create.guild_id)]
    } else {
        Seq::<Op>::empty()
    });
    ops
}

/// Decides what a changed role calls for: the role is stored again.
pub fn process_role_update(role_update: &GuildRoleUpdateEvent, persist: bool) -> (ops: Vec<
    StoreOp,
>)
    ensures
        ops_view(ops@) == if persist {
            seq![upsert_role_op(role_update.role, role_update.guild_id)]
        } else {
            Seq::<Op>::empty()
        },
{
    let mut ops: Vec<StoreOp> = Vec::new();
    if persist {
        ops.push(StoreOp::UpsertRole { row: role_row(&role_update.role, role_update.guild_id) });
    }
    assert(ops_view(ops@) =~= if persist {
        seq![upsert_role_op(role_update.role, role_update.guild_id)]
    } else {
        Seq::<Op>::empty()
    });
    ops
}

/// Decides what a removed role calls for: the rows of that role id are
/// removed.
pub fn process_role_delete(role_delete: &GuildRoleDeleteEvent, persist: bool) -> (ops: Vec<
    StoreOp,
>)
    ensures
        ops_view(ops@) == if persist {
            seq![Op::DeleteRole { id: spec_sql_id(role_delete.role_id) as i64 }]
        } else {
            Seq::<Op>::empty()
        },
{
    let mut ops: Vec<StoreOp> = Vec::new();
    if persist {
        ops.push(StoreOp::DeleteRole { id: sql_id(role_delete.role_id) });
    }
    assert(ops_view(ops@) =~= if persist {
        seq![Op::DeleteRole { id: spec_sql_id(role_delete.role_id) as i64 }]
    } else {
        Seq::<Op>::empty()
    });
    ops
}

} // verus!
