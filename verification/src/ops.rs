//! Store operations as values. Ingestion decides which operations an event
//! calls for; whoever holds the tables carries them out, one after another.

use vstd::prelude::*;
use crate::database::{
    messages_consistent, with_channel, with_guild, with_message, with_role, with_tombstones,
    with_user, without_channels, without_roles, ChannelSelector, RoleSelector, Store,
};
use crate::rows::{
    ChannelRecord, ChannelRow, GuildRecord, GuildRow, MessageRecord, MessageRow, RoleRow,
    UserRecord, UserRow,
};

verus! {

/// One operation on the store.
#[derive(Debug)]
#[allow(inconsistent_fields)]
pub enum StoreOp {
    /// Store a user, seen in `guild_id` where one is given.
    UpsertUser { row: UserRow, guild_id: Option<i64> },
    /// Store a message.
    UpsertMessage { row: MessageRow },
    /// Mark one message as deleted.
    DeleteMessage { id: i64 },
    /// Mark many messages as deleted, in the order listed.
    BulkDeleteMessages { ids: Vec<i64> },
    /// Store a guild; with `keep_owner`, a stored guild keeps its owner.
    UpsertGuild { row: GuildRow, keep_owner: bool },
    /// Remove every role of a guild.
    DeleteGuildRoles { guild_id: i64 },
    /// Store a role.
    UpsertRole { row: RoleRow },
    /// Remove a role by its id.
    DeleteRole { id: i64 },
    /// Remove every channel of a guild.
    DeleteGuildChannels { guild_id: i64 },
    /// Store a channel.
    UpsertChannel { row: ChannelRow },
    /// Remove a channel by its id.
    DeleteChannel { id: i64 },
}

/// What an operation says, lists seen as sequences.
#[allow(inconsistent_fields)]
pub enum Op {
    UpsertUser { row: UserRecord, guild_id: Option<i64> },
    UpsertMessage { row: MessageRecord },
    DeleteMessage { id: i64 },
    BulkDeleteMessages { ids: Seq<i64> },
    UpsertGuild { row: GuildRecord, keep_owner: bool },
    DeleteGuildRoles { guild_id: i64 },
    UpsertRole { row: RoleRow },
    DeleteRole { id: i64 },
    DeleteGuildChannels { guild_id: i64 },
    UpsertChannel { row: ChannelRecord },
    DeleteChannel { id: i64 },
}

impl View for StoreOp {
    type V = Op;

    open spec fn view(&self) -> Op {
        match *self {
            StoreOp::UpsertUser { row, guild_id } => Op::UpsertUser { row: row@, guild_id },
            StoreOp::UpsertMessage { row } => Op::UpsertMessage { row: row@ },
            StoreOp::DeleteMessage { id } => Op::DeleteMessage { id },
            StoreOp::BulkDeleteMessages { ids } => Op::BulkDeleteMessages { ids: ids@ },
            StoreOp::UpsertGuild { row, keep_owner } => Op::UpsertGuild { row: row@, keep_owner },
            StoreOp::DeleteGuildRoles { guild_id } => Op::DeleteGuildRoles { guild_id },
            StoreOp::UpsertRole { row } => Op::UpsertRole { row },
            StoreOp::DeleteRole { id } => Op::DeleteRole { id },
            StoreOp::DeleteGuildChannels { guild_id } => Op::DeleteGuildChannels { guild_id },
            StoreOp::UpsertChannel { row } => Op::UpsertChannel { row: row@ },
            StoreOp::DeleteChannel { id } => Op::DeleteChannel { id },
        }
    }
}

/// What a list of operations says, in order.
pub open spec fn ops_view(ops: Seq<StoreOp>) -> Seq<Op> {
    ops.map_values(|op: StoreOp| op@)
}

/// The five tables of a store.
pub struct Tables {
    pub messages: Map<i64, MessageRecord>,
    pub users: Map<i64, UserRecord>,
    pub guilds: Map<i64, GuildRecord>,
    pub roles: Map<(i64, i64), RoleRow>,
    pub channels: Map<i64, ChannelRecord>,
}

impl View for Store {
    type V = Tables;

    open spec fn view(&self) -> Tables {
        Tables {
            messages: self.messages(),
            users: self.users(),
            guilds: self.guilds(),
            roles: self.roles(),
            channels: self.channels(),
        }
    }
}

/// The tables after `op` was carried out at the time `now`.
pub open spec fn applied(tables: Tables, op: Op, now: i64) -> Tables {
    match op {
        Op::UpsertUser { row, guild_id } => Tables {
            users: with_user(tables.users, row, guild_id),
            ..tables
        },
        Op::UpsertMessage { row } => Tables { messages: with_message(tables.messages, row), ..tables },
        Op::DeleteMessage { id } => Tables {
            messages: with_tombstones(tables.messages, set![id], now),
            ..tables
        },
        Op::BulkDeleteMessages { ids } => Tables {
            messages: with_tombstones(tables.messages, ids.to_set(), now),
            ..tables
        },
        Op::UpsertGuild { row, keep_owner } => Tables {
            guilds: with_guild(tables.guilds, row, keep_owner),
            ..tables
        },
        Op::DeleteGuildRoles { guild_id } => Tables {
            roles: without_roles(tables.roles, RoleSelector::Guild(guild_id)),
            ..tables
        },
        Op::UpsertRole { row } => Tables { roles: with_role(tables.roles, row), ..tables },
        Op::DeleteRole { id } => Tables {
            roles: without_roles(tables.roles, RoleSelector::Id(id)),
            ..tables
        },
        Op::DeleteGuildChannels { guild_id } => Tables {
            channels: without_channels(tables.channels, ChannelSelector::Guild(guild_id)),
            ..tables
        },
        Op::UpsertChannel { row } => Tables {
            channels: with_channel(tables.channels, row),
            ..tables
        },
        Op::DeleteChannel { id } => Tables {
            channels: without_channels(tables.channels, ChannelSelector::Id(id)),
            ..tables
        },
    }
}

/// The tables after each of `ops` was carried out, first to last, all at
/// the time `now`.
pub open spec fn applied_all(tables: Tables, ops: Seq<Op>, now: i64) -> Tables
    decreases ops.len(),
{
    if ops.len() == 0 {
        tables
    } else {
        applied(applied_all(tables, ops.drop_last(), now), ops.last(), now)
    }
}

impl Store {
    /// Carries out `op` at the time `now`.
    pub fn apply(&mut self, op: StoreOp, now: i64)
        requires
            old(self).wf(),
        ensures
            final(self).wf(),
            final(self)@ == applied(old(self)@, op@, now),
    {
        match op {
            StoreOp::UpsertUser { row, guild_id } => self.put_user(row, guild_id),
            StoreOp::UpsertMessage { row } => self.put_message(row),
            StoreOp::DeleteMessage { id } => self.tombstone_message(id, now),
            StoreOp::BulkDeleteMessages { ids } => self.tombstone_messages(&ids, now),
            StoreOp::UpsertGuild { row, keep_owner } => self.put_guild(row, keep_owner),
            StoreOp::DeleteGuildRoles { guild_id } => self.drop_roles(
                RoleSelector::Guild(guild_id),
            ),
            StoreOp::UpsertRole { row } => self.put_role(row),
            StoreOp::DeleteRole { id } => self.drop_roles(RoleSelector::Id(id)),
            StoreOp::DeleteGuildChannels { guild_id } => self.drop_channels(
                ChannelSelector::Guild(guild_id),
            ),
            StoreOp::UpsertChannel { row } => self.put_channel(row),
            StoreOp::DeleteChannel { id } => self.drop_channels(ChannelSelector::Id(id)),
        }
    }

    /// Carries out each of `ops`, first to last, all at the time `now`.
    pub fn apply_all(&mut self, ops: Vec<StoreOp>, now: i64)
        requires
            old(self).wf(),
        ensures
            final(self).wf(),
            final(self)@ == applied_all(old(self)@, ops_view(ops@), now),
    {
        let ghost all = ops@;
        for op in iter: ops.into_iter()
            invariant
                iter.seq() == all,
                self.wf(),
                self@ == applied_all(old(self)@, ops_view(all.take(iter.index())), now),
        {
            let ghost done = iter.index();
            self.apply(op, now);
            proof {
                assert(ops_view(all.take(done + 1)).drop_last() == ops_view(all.take(done)));
            }
        }
        assert(all.take(all.len() as int) == all);
    }
}

/// Carrying out two lists of operations one after the other is carrying
/// out the one list made of both.
pub proof fn lemma_applied_all_concat(tables: Tables, first: Seq<Op>, second: Seq<Op>, now: i64)
    ensures
        applied_all(tables, first + second, now) == applied_all(
            applied_all(tables, first, now),
            second,
            now,
        ),
    decreases second.len(),
{
    if second.len() == 0 {
        assert(first + second == first);
    } else {
        lemma_applied_all_concat(tables, first, second.drop_last(), now);
        assert((first + second).drop_last() == first + second.drop_last());
    }
}

/// No operation takes a message out of the store or lifts a deletion mark:
/// a stored message stays stored, and one that is marked as deleted keeps
/// its mark, and the time in it, through every operation.
pub proof fn lemma_op_keeps_tombstones(tables: Tables, op: Op, now: i64, id: i64)
    requires
        tables.messages.contains_key(id),
    ensures
        applied(tables, op, now).messages.contains_key(id),
        tables.messages[id].deleted_at is Some ==> applied(tables, op, now).messages[id].deleted_at
            == tables.messages[id].deleted_at,
{
}

/// The same through any list of operations.
pub proof fn lemma_ops_keep_tombstones(tables: Tables, ops: Seq<Op>, now: i64, id: i64)
    requires
        tables.messages.contains_key(id),
    ensures
        applied_all(tables, ops, now).messages.contains_key(id),
        tables.messages[id].deleted_at is Some ==> applied_all(
            tables,
            ops,
            now,
        ).messages[id].deleted_at == tables.messages[id].deleted_at,
    decreases ops.len(),
{
    if ops.len() > 0 {
        lemma_ops_keep_tombstones(tables, ops.drop_last(), now, id);
        lemma_op_keeps_tombstones(applied_all(tables, ops.drop_last(), now), ops.last(), now, id);
    }
}

/// No operation takes a guild off a user: a stored user stays stored, and
/// the guilds the user was seen in stay, in place, through every operation.
pub proof fn lemma_op_keeps_membership(tables: Tables, op: Op, now: i64, id: i64)
    requires
        tables.users.contains_key(id),
    ensures
        applied(tables, op, now).users.contains_key(id),
        tables.users[id].guilds.is_prefix_of(applied(tables, op, now).users[id].guilds),
{
}

/// The same through any list of operations.
pub proof fn lemma_ops_keep_membership(tables: Tables, ops: Seq<Op>, now: i64, id: i64)
    requires
        tables.users.contains_key(id),
    ensures
        applied_all(tables, ops, now).users.contains_key(id),
        tables.users[id].guilds.is_prefix_of(applied_all(tables, ops, now).users[id].guilds),
    decreases ops.len(),
{
    if ops.len() > 0 {
        let earlier = applied_all(tables, ops.drop_last(), now);
        lemma_ops_keep_membership(tables, ops.drop_last(), now, id);
        lemma_op_keeps_membership(earlier, ops.last(), now, id);
    }
}

/// No list of operations makes a reference dangle: if every reference in
/// the message table names a stored message, so does every reference
/// afterwards.
pub proof fn lemma_ops_keep_references(tables: Tables, ops: Seq<Op>, now: i64)
    requires
        messages_consistent(tables.messages),
    ensures
        messages_consistent(applied_all(tables, ops, now).messages),
    decreases ops.len(),
{
    if ops.len() > 0 {
        lemma_ops_keep_references(tables, ops.drop_last(), now);
    }
}

} // verus!

