//! Messages: posted, edited, deleted.

use vstd::prelude::*;
use crate::columns::{spec_sql_id, spec_sql_id_opt, sql_id, sql_id_opt};
use crate::config::Config;
use crate::database::{sorted_ids, sorted_sql_ids, sql_ids};
use crate::events::{
    MessageCreateEvent, MessageDeleteBulkEvent, MessageDeleteEvent, MessageUpdateEvent,
};
use crate::model::{copy_attachments, copy_embeds, Attachment, Embed, Message, User};
use crate::ops::{ops_view, Op, StoreOp};
use crate::rows::{message_row, spec_message_row, spec_user_row, user_row};

verus! {

/// What one message calls for.
#[derive(Debug)]
pub struct IngestPlan {
    /// The store operations, in the order to carry them out.
    pub store_ops: Vec<StoreOp>,
    /// The attachments to download.
    pub attachments: Vec<Attachment>,
    /// The embeds whose media to download.
    pub embeds: Vec<Embed>,
    /// The message that the downloads belong to.
    pub message_id: u64,
}

/// What a plan says, lists seen as sequences.
pub struct Plan {
    pub store_ops: Seq<Op>,
    pub attachments: Seq<Attachment>,
    pub embeds: Seq<Embed>,
    pub message_id: u64,
}

impl View for IngestPlan {
    type V = Plan;

    open spec fn view(&self) -> Plan {
        Plan {
            store_ops: ops_view(self.store_ops@),
            attachments: self.attachments@,
            embeds: self.embeds@,
            message_id: self.message_id,
        }
    }
}

/// Whether a message by `author` is passed over altogether.
pub open spec fn passed_over(config: Config, author: User) -> bool {
    config.skip_bot_messages && author.spec_is_bot()
}

/// The operation that stores `user`, seen in `guild_id`.
pub open spec fn upsert_user_op(user: User, guild_id: Option<u64>) -> Op {
    Op::UpsertUser { row: spec_user_row(user), guild_id: spec_sql_id_opt(guild_id) }
}

/// The operations that store each of `users`, seen in `guild_id`, in order.
pub open spec fn upsert_user_ops(users: Seq<User>, guild_id: Option<u64>) -> Seq<Op> {
    users.map_values(|user: User| upsert_user_op(user, guild_id))
}

/// The users that `msg` mentions.
pub open spec fn mentioned(msg: Message) -> Seq<User> {
    match msg.mentions {
        Some(users) => users@,
        None => Seq::empty(),
    }
}

/// The store operations for a message by `author`, seen in `guild_id`:
/// none where the message is passed over or nothing is persisted; else the
/// author, then each mentioned user, then the message itself.
pub open spec fn message_ops(
    msg: Message,
    author: User,
    guild_id: Option<u64>,
    persist: bool,
    config: Config,
) -> Seq<Op> {
    if passed_over(config, author) || !persist {
        Seq::empty()
    } else {
        seq![upsert_user_op(author, guild_id)] + upsert_user_ops(mentioned(msg), guild_id)
            + seq![Op::UpsertMessage { row: spec_message_row(msg, guild_id) }]
    }
}

/// Whether media of a message by `author` is downloaded.
pub open spec fn downloads_wanted(config: Config, author: User) -> bool {
    !passed_over(config, author) && config.download_files
}

/// What a message by `author`, seen in `guild_id`, calls for: its store
/// operations, and its attachments and embeds where downloads are wanted.
pub open spec fn plan_of(
    msg: Message,
    author: User,
    guild_id: Option<u64>,
    persist: bool,
    config: Config,
) -> Plan {
    Plan {
        store_ops: message_ops(msg, author, guild_id, persist, config),
        attachments: if downloads_wanted(config, author) {
            msg.attachments@
        } else {
            Seq::empty()
        },
        embeds: if downloads_wanted(config, author) {
            msg.embeds@
        } else {
            Seq::empty()
        },
        message_id: msg.id,
    }
}

/// Appends to `ops` the operations that store each of `users`, seen in
/// `guild_id`.
pub fn push_user_ops(ops: &mut Vec<StoreOp>, users: &Vec<User>, guild_id: Option<u64>)
    ensures
        ops_view(final(ops)@) == ops_view(old(ops)@) + upsert_user_ops(users@, guild_id),
{
    let ghost base = ops_view(ops@);
    let mut i: usize = 0;
    assert(ops_view(ops@) == base + upsert_user_ops(users@.take(0), guild_id));
    while i < users.len()
        invariant
            i <= users.len(),
            ops_view(ops@) == base + upsert_user_ops(users@.take(i as int), guild_id),
        decreases users.len() - i,
    {
        let ghost before = ops@;
        ops.push(StoreOp::UpsertUser { row: user_row(&users[i]), guild_id: sql_id_opt(guild_id) });
        i += 1;
        assert(ops_view(ops@) == ops_view(before).push(
            upsert_user_op(users@[i - 1], guild_id),
        ));
        assert(upsert_user_ops(users@.take(i as int), guild_id) == upsert_user_ops(
            users@.take(i - 1),
            guild_id,
        ).push(upsert_user_op(users@[i - 1], guild_id)));
    }
    assert(users@.take(users.len() as int) == users@);
}

/// Decides what a message by `author`, seen in `guild_id`, calls for.
///
/// A message by a bot is passed over where the configuration says so:
/// nothing is stored and nothing downloaded. Otherwise, where `persist` is
/// set, the author, the mentioned users and the message are stored, in that
/// order; and where downloads are switched on, the message's attachments and
/// embeds are handed out for download, whether or not anything is stored.
pub fn process_message_common(
    msg: &Message,
    author: &User,
    guild_id: Option<u64>,
    persist: bool,
    config: &Config,
) -> (plan: IngestPlan)
    ensures
        plan@ == plan_of(*msg, *author, guild_id, persist, *config),
{
    let mut plan = IngestPlan {
        store_ops: Vec::new(),
        attachments: Vec::new(),
        embeds: Vec::new(),
        message_id: msg.id,
    };
    assert(ops_view(plan.store_ops@) == Seq::<Op>::empty());
    if config.skip_bot_messages && author.is_bot() {
        return plan;
    }
    if persist {
        let mut ops: Vec<StoreOp> = Vec::new();
        ops.push(StoreOp::UpsertUser { row: user_row(author), guild_id: sql_id_opt(guild_id) });
        assert(ops_view(ops@) == seq![upsert_user_op(*author, guild_id)]);
        match &msg.mentions {
            Some(users) => {
                push_user_ops(&mut ops, users, guild_id);
            },
            None => {
                assert(upsert_user_ops(mentioned(*msg), guild_id) == Seq::<Op>::empty());
                assert(ops_view(ops@) == ops_view(ops@) + Seq::<Op>::empty());
            },
        }
        let ghost before = ops@;
        ops.push(StoreOp::UpsertMessage { row: message_row(msg, guild_id) });
        assert(ops_view(ops@) == ops_view(before) + seq![
            Op::UpsertMessage { row: spec_message_row(*msg, guild_id) },
        ]);
        plan.store_ops = ops;
    }
    if config.download_files {
        plan.attachments = copy_attachments(&msg.attachments);
        plan.embeds = copy_embeds(&msg.embeds);
    }
    plan
}

/// Decides what a posted message calls for.
pub fn process_message_create(
    msg_create: &MessageCreateEvent,
    persist: bool,
    config: &Config,
) -> (plan: IngestPlan)
    ensures
        plan@ == plan_of(
            msg_create.message,
            msg_create.message.author,
            msg_create.guild_id,
            persist,
            *config,
        ),
{
    process_message_common(
        &msg_create.message,
        &msg_create.message.author,
        msg_create.guild_id,
        persist,
        config,
    )
}

/// Decides what an edited message calls for: the same as a posted one,
/// since storing a message again brings it up to date.
pub fn process_message_update(
    msg_update: &MessageUpdateEvent,
    persist: bool,
    config: &Config,
) -> (plan: IngestPlan)
    ensures
        plan@ == plan_of(
            msg_update.message,
            msg_update.message.author,
            msg_update.guild_id,
            persist,
            *config,
        ),
{
    process_message_common(
        &msg_update.message,
        &msg_update.message.author,
        msg_update.guild_id,
        persist,
        config,
    )
}

/// Decides what a deletion calls for: the message is marked as deleted.
pub fn process_message_delete(msg_delete: &MessageDeleteEvent, persist: bool) -> (ops: Vec<
    StoreOp,
>)
    ensures
        ops_view(ops@) == if persist {
            seq![Op::DeleteMessage { id: spec_sql_id(msg_delete.id) as i64 }]
        } else {
            Seq::<Op>::empty()
        },
{
    let mut ops: Vec<StoreOp> = Vec::new();
    if persist {
        ops.push(StoreOp::DeleteMessage { id: sql_id(msg_delete.id) });
    }
    assert(ops_view(ops@) =~= if persist {
        seq![Op::DeleteMessage { id: spec_sql_id(msg_delete.id) as i64 }]
    } else {
        Seq::<Op>::empty()
    });
    ops
}

/// The operations for a deletion of the messages `ids`: one operation that
/// marks them all, its ids ascending whatever order they were listed in;
/// none where no message is listed or nothing is persisted.
pub open spec fn bulk_delete_ops(ids: Seq<u64>, persist: bool) -> Seq<Op> {
    if persist && ids.len() > 0 {
        seq![Op::BulkDeleteMessages { ids: sorted_ids(sql_ids(ids)) }]
    } else {
        Seq::empty()
    }
}

/// Decides what a deletion of many messages calls for.
pub fn process_message_delete_bulk(
    msg_delete_bulk: &MessageDeleteBulkEvent,
    persist: bool,
) -> (ops: Vec<StoreOp>)
    ensures
        ops_view(ops@) == bulk_delete_ops(msg_delete_bulk.ids@, persist),
{
    let mut ops: Vec<StoreOp> = Vec::new();
    if persist && msg_delete_bulk.ids.len() > 0 {
        let ids = sorted_sql_ids(msg_delete_bulk.ids.as_slice());
        ops.push(StoreOp::BulkDeleteMessages { ids });
    }
    assert(ops_view(ops@) =~= bulk_delete_ops(msg_delete_bulk.ids@, persist));
    ops
}

} // verus!
