//! Members of guilds.

use vstd::prelude::*;
use crate::columns::sql_id_opt;
use crate::event_processor::message::{upsert_user_op, upsert_user_ops};
use crate::events::{GuildMemberUpdateEvent, GuildMembersChunkEvent};
use crate::model::{Member, User};
use crate::ops::{ops_view, Op, StoreOp};
use crate::rows::user_row;

verus! {

/// The users of those of `members` that carry one, in order.
pub open spec fn member_users(members: Seq<Member>) -> Seq<User>
    decreases members.len(),
{
    if members.len() == 0 {
        Seq::empty()
    } else {
        let before = member_users(members.drop_last());
        match members.last().user {
            Some(user) => before.push(user),
            None => before,
        }
    }
}

/// Appends to `ops` the operations that store the user of each of
/// `members` that carries one, seen in `guild_id`.
pub fn push_member_ops(ops: &mut Vec<StoreOp>, members: &Vec<Member>, guild_id: Option<u64>)
    ensures
        ops_view(final(ops)@) == ops_view(old(ops)@) + upsert_user_ops(
            member_users(members@),
            guild_id,
        ),
{
    let ghost base = ops_view(ops@);
    let mut i: usize = 0;
    assert(ops_view(ops@) == base + upsert_user_ops(member_users(members@.take(0)), guild_id));
    while i < members.len()
        invariant
            i <= members.len(),
            ops_view(ops@) == base + upsert_user_ops(
                member_users(members@.take(i as int)),
                guild_id,
            ),
        decreases members.len() - i,
    {
        let ghost before = ops@;
        let ghost users_before = member_users(members@.take(i as int));
        assert(members@.take(i + 1).drop_last() == members@.take(i as int));
        match &members[i].user {
            Some(user) => {
                ops.push(
                    StoreOp::UpsertUser { row: user_row(user), guild_id: sql_id_opt(guild_id) },
                );
                assert(ops_view(ops@) == ops_view(before).push(upsert_user_op(*user, guild_id)));
                assert(upsert_user_ops(users_before.push(*user), guild_id) == upsert_user_ops(
                    users_before,
                    guild_id,
                ).push(upsert_user_op(*user, guild_id)));
            },
            None => {},
        }
        i += 1;
    }
    assert(members@.take(members.len() as int) == members@);
}

/// Decides what a chunk of members calls for: each member's user is
/// stored, under no guild.
pub fn process_guild_members_chunk(
    members_chunk: &GuildMembersChunkEvent,
    persist: bool,
) -> (ops: Vec<StoreOp>)
    ensures
        ops_view(ops@) == if persist {
            upsert_user_ops(member_users(members_chunk.members@), None)
        } else {
            Seq::<Op>::empty()
        },
{
    let mut ops: Vec<StoreOp> = Vec::new();
    assert(ops_view(ops@) == Seq::<Op>::empty());
    if persist {
        push_member_ops(&mut ops, &members_chunk.members, None);
        assert(ops_view(ops@) == upsert_user_ops(member_users(members_chunk.members@), None));
    }
    ops
}

/// Decides what a changed member calls for: the user is stored, seen in the
/// member's guild.
pub fn process_guild_member_update(event: &GuildMemberUpdateEvent, persist: bool) -> (ops: Vec<
    StoreOp,
>)
    ensures
        ops_view(ops@) == if persist {
            seq![upsert_user_op(event.user, Some(event.guild_id))]
        } else {
            Seq::<Op>::empty()
        },
{
    let mut ops: Vec<StoreOp> = Vec::new();
    if persist {
        ops.push(
            StoreOp::UpsertUser {
                row: user_row(&event.user),
                guild_id: sql_id_opt(Some(event.guild_id)),
            },
        );
    }
    assert(ops_view(ops@) =~= if persist {
        seq![upsert_user_op(event.user, Some(event.guild_id))]
    } else {
        Seq::<Op>::empty()
    });
    ops
}

} // verus!
