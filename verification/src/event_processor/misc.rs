//! What follows a session's snapshot.

use vstd::prelude::*;
use crate::event_processor::message::{push_user_ops, upsert_user_ops};
use crate::event_processor::user::{member_users, push_member_ops};
use crate::events::ReadySupplementalEvent;
use crate::model::{Channel, Member, User};
use crate::ops::{ops_view, StoreOp};

verus! {

/// The users of all members of all `groups`, group after group.
pub open spec fn grouped_member_users(groups: Seq<Vec<Member>>) -> Seq<User>
    decreases groups.len(),
{
    if groups.len() == 0 {
        Seq::empty()
    } else {
        grouped_member_users(groups.drop_last()) + member_users(groups.last()@)
    }
}

/// The recipients of all `channels`, channel after channel.
pub open spec fn recipients_of(channels: Seq<Channel>) -> Seq<User>
    decreases channels.len(),
{
    if channels.len() == 0 {
        Seq::empty()
    } else {
        recipients_of(channels.drop_last()) + match channels.last().recipients {
            Some(users) => users@,
            None => Seq::empty(),
        }
    }
}

/// The users that a supplement names: those of its members first, then the
/// recipients of its private channels.
pub open spec fn supplemental_users(event: ReadySupplementalEvent) -> Seq<User> {
    grouped_member_users(event.merged_members@) + recipients_of(event.lazy_private_channels@)
}

/// The operations of storing two lists of users one after the other are
/// those of storing the one list made of both.
pub proof fn lemma_user_ops_concat(first: Seq<User>, second: Seq<User>, guild_id: Option<u64>)
    ensures
        upsert_user_ops(first + second, guild_id) == upsert_user_ops(first, guild_id)
            + upsert_user_ops(second, guild_id),
{
    assert(upsert_user_ops(first + second, guild_id) =~= upsert_user_ops(first, guild_id)
        + upsert_user_ops(second, guild_id));
}

/// Decides what a supplement calls for: every user it names is stored,
/// under no guild.
pub fn process_ready_supplemental(ready_supplemental: &ReadySupplementalEvent) -> (ops: Vec<
    StoreOp,
>)
    ensures
        ops_view(ops@) == upsert_user_ops(supplemental_users(*ready_supplemental), None),
{
    let mut ops: Vec<StoreOp> = Vec::new();
    let groups = &ready_supplemental.merged_members;
    let mut i: usize = 0;
    assert(ops_view(ops@) == upsert_user_ops(grouped_member_users(groups@.take(0)), None));
    while i < groups.len()
        invariant
            i <= groups.len(),
            ops_view(ops@) == upsert_user_ops(
                grouped_member_users(groups@.take(i as int)),
                None,
            ),
        decreases groups.len() - i,
    {
        push_member_ops(&mut ops, &groups[i], None);
        proof {
            assert(groups@.take(i + 1).drop_last() == groups@.take(i as int));
            lemma_user_ops_concat(
                grouped_member_users(groups@.take(i as int)),
                member_users(groups@[i as int]@),
                None,
            );
        }
        i += 1;
    }
    assert(groups@.take(groups.len() as int) == groups@);
    let ghost from_members = grouped_member_users(groups@);
    let channels = &ready_supplemental.lazy_private_channels;
    let mut j: usize = 0;
    proof {
        lemma_user_ops_concat(from_members, recipients_of(channels@.take(0)), None);
        assert(from_members + recipients_of(channels@.take(0)) == from_members);
    }
    while j < channels.len()
        invariant
            j <= channels.len(),
            ops_view(ops@) == upsert_user_ops(
                from_members + recipients_of(channels@.take(j as int)),
                None,
            ),
        decreases channels.len() - j,
    {
        let ghost so_far = from_members + recipients_of(channels@.take(j as int));
        assert(channels@.take(j + 1).drop_last() == channels@.take(j as int));
        match &channels[j].recipients {
            Some(users) => {
                push_user_ops(&mut ops, users, None);
                proof {
                    lemma_user_ops_concat(so_far, users@, None);
                    assert(from_members + recipients_of(channels@.take(j + 1)) == so_far
                        + users@);
                }
            },
            None => {
                assert(from_members + recipients_of(channels@.take(j + 1)) == so_far);
            },
        }
        j += 1;
    }
    assert(channels@.take(channels.len() as int) == channels@);
    ops
}

} // verus!
