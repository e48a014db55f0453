//! What holds of ingestion as a whole: carrying out what a message calls
//! for a second time changes nothing, and carrying out a guild's snapshot
//! replaces what the store knows of the guild.

use vstd::prelude::*;
use crate::columns::{spec_sql_id, spec_sql_id_opt};
use crate::config::Config;
use crate::database::{
    channel_rows, joined, role_rows, with_channels, with_guild, with_message, with_roles,
    with_user, without_channels, without_roles, ChannelSelector, RoleSelector,
};
use crate::event_processor::guild::{
    add_threads_ops, guild_ops, guilds_ops, ready_ops, replace_channels_ops, replace_roles_ops,
    snapshot_member_ops, upsert_channel_op, upsert_channel_ops, upsert_role_op, upsert_role_ops,
};
use crate::event_processor::user::member_users;
use crate::event_processor::message::{
    mentioned, message_ops, passed_over, upsert_user_op, upsert_user_ops,
};
use crate::model::{Channel, Guild, Member, Message, Role, User};
use crate::ops::{applied, applied_all, lemma_applied_all_concat, Op, Tables};
use crate::rows::{
    spec_guild_row, spec_message_row, spec_user_row, ChannelRecord, RoleRow, UserRecord,
};
use crate::store_laws::lemma_upsert_message_idempotent;

verus! {

/// The user table after each of `users` was stored, first to last, all
/// seen in `guild`.
pub open spec fn with_seen_users(
    table: Map<i64, UserRecord>,
    users: Seq<User>,
    guild: Option<i64>,
) -> Map<i64, UserRecord>
    decreases users.len(),
{
    if users.len() == 0 {
        table
    } else {
        with_user(with_seen_users(table, users.drop_last(), guild), spec_user_row(users.last()), guild)
    }
}

/// The row of the last of `users` that is stored under `id`, if any is.
pub open spec fn last_row_of(users: Seq<User>, id: i64) -> Option<UserRecord>
    decreases users.len(),
{
    if users.len() == 0 {
        None
    } else if spec_user_row(users.last()).id == id {
        Some(spec_user_row(users.last()))
    } else {
        last_row_of(users.drop_last(), id)
    }
}

/// The guilds that the table lists for the user `id`; none where it has no
/// such user.
pub open spec fn guilds_before(table: Map<i64, UserRecord>, id: i64) -> Seq<i64> {
    if table.contains_key(id) {
        table[id].guilds
    } else {
        Seq::empty()
    }
}

/// Seeing a user in a guild twice is seeing the user there once.
pub proof fn lemma_joined_twice(guilds: Seq<i64>, guild: Option<i64>)
    ensures
        joined(joined(guilds, guild), guild) == joined(guilds, guild),
{
    match guild {
        Some(g) => {
            if !guilds.contains(g) {
                assert(guilds.push(g)[guilds.len() as int] == g);
            }
        },
        None => {},
    }
}

/// After storing a list of users seen in one guild, an id holds the row of
/// the last listed user of that id, with the guilds the table listed before
/// and the guild of the sighting; an id that no listed user has holds what
/// it held.
pub proof fn lemma_with_seen_users_lookup(
    table: Map<i64, UserRecord>,
    users: Seq<User>,
    guild: Option<i64>,
    id: i64,
)
    ensures
        match last_row_of(users, id) {
            Some(row) => with_seen_users(table, users, guild).contains_key(id) && with_seen_users(
                table,
                users,
                guild,
            )[id] == (UserRecord { guilds: joined(guilds_before(table, id), guild), ..row }),
            None => with_seen_users(table, users, guild).contains_key(id) == table.contains_key(id)
                && (table.contains_key(id) ==> with_seen_users(table, users, guild)[id]
                == table[id]),
        },
    decreases users.len(),
{
    if users.len() > 0 {
        lemma_with_seen_users_lookup(table, users.drop_last(), guild, id);
        lemma_joined_twice(guilds_before(table, id), guild);
    }
}

/// Storing a list of users a second time, seen in the same guild, changes
/// nothing.
pub proof fn lemma_with_seen_users_idempotent(
    table: Map<i64, UserRecord>,
    users: Seq<User>,
    guild: Option<i64>,
)
    ensures
        with_seen_users(with_seen_users(table, users, guild), users, guild) == with_seen_users(
            table,
            users,
            guild,
        ),
{
    let once = with_seen_users(table, users, guild);
    let twice = with_seen_users(once, users, guild);
    assert forall|id: i64| #[trigger]
        twice.dom().contains(id) == once.dom().contains(id) && (once.dom().contains(id)
            ==> twice[id] == once[id]) by {
        lemma_with_seen_users_lookup(table, users, guild, id);
        lemma_with_seen_users_lookup(once, users, guild, id);
        lemma_joined_twice(guilds_before(table, id), guild);
    }
    assert(twice =~= once);
}

/// Carrying out the operations that store a list of users changes the user
/// table as storing them one by one does, and no other table.
pub proof fn lemma_user_ops_applied(
    tables: Tables,
    users: Seq<User>,
    guild_id: Option<u64>,
    now: i64,
)
    ensures
        applied_all(tables, upsert_user_ops(users, guild_id), now) == (Tables {
            users: with_seen_users(tables.users, users, spec_sql_id_opt(guild_id)),
            ..tables
        }),
    decreases users.len(),
{
    if users.len() > 0 {
        lemma_user_ops_applied(tables, users.drop_last(), guild_id, now);
        assert(upsert_user_ops(users, guild_id).drop_last() == upsert_user_ops(
            users.drop_last(),
            guild_id,
        ));
        assert(upsert_user_ops(users, guild_id).last() == upsert_user_op(users.last(), guild_id));
    }
}

/// The tables after what a message calls for was carried out: its author
/// and the users it mentions are stored, then itself.
pub proof fn lemma_message_ops_applied(
    tables: Tables,
    msg: Message,
    author: User,
    guild_id: Option<u64>,
    config: Config,
    now: i64,
)
    requires
        !passed_over(config, author),
    ensures
        applied_all(tables, message_ops(msg, author, guild_id, true, config), now) == (Tables {
            users: with_seen_users(
                tables.users,
                seq![author] + mentioned(msg),
                spec_sql_id_opt(guild_id),
            ),
            messages: with_message(tables.messages, spec_message_row(msg, guild_id)),
            ..tables
        }),
{
    let people = seq![author] + mentioned(msg);
    let user_part = upsert_user_ops(people, guild_id);
    let message_part = seq![Op::UpsertMessage { row: spec_message_row(msg, guild_id) }];
    assert(message_ops(msg, author, guild_id, true, config) == user_part + message_part) by {
        assert(user_part =~= seq![upsert_user_op(author, guild_id)] + upsert_user_ops(
            mentioned(msg),
            guild_id,
        ));
    }
    lemma_applied_all_concat(tables, user_part, message_part, now);
    lemma_user_ops_applied(tables, people, guild_id, now);
    let after_users = applied_all(tables, user_part, now);
    assert(message_part.drop_last() == Seq::<Op>::empty());
    assert(applied_all(after_users, message_part.drop_last(), now) == after_users);
    assert(applied_all(after_users, message_part, now) == applied(
        after_users,
        message_part.last(),
        now,
    ));
}

/// Ingesting a message twice leaves every table as ingesting it once does:
/// whatever the feed delivers again is applied without effect.
pub proof fn lemma_ingest_idempotent(
    tables: Tables,
    msg: Message,
    author: User,
    guild_id: Option<u64>,
    persist: bool,
    config: Config,
    first: i64,
    later: i64,
)
    ensures
        ({
            let ops = message_ops(msg, author, guild_id, persist, config);
            applied_all(applied_all(tables, ops, first), ops, later) == applied_all(
                tables,
                ops,
                first,
            )
        }),
{
    if !passed_over(config, author) && persist {
        let once = applied_all(tables, message_ops(msg, author, guild_id, true, config), first);
        lemma_message_ops_applied(tables, msg, author, guild_id, config, first);
        lemma_message_ops_applied(once, msg, author, guild_id, config, later);
        lemma_with_seen_users_idempotent(
            tables.users,
            seq![author] + mentioned(msg),
            spec_sql_id_opt(guild_id),
        );
        lemma_upsert_message_idempotent(tables.messages, spec_message_row(msg, guild_id));
    }
}

/// Carrying out the operations that store a list of roles changes the role
/// table as storing them one by one does, and no other table.
pub proof fn lemma_role_ops_applied(tables: Tables, roles: Seq<Role>, guild_id: u64, now: i64)
    ensures
        applied_all(tables, upsert_role_ops(roles, guild_id), now) == (Tables {
            roles: with_roles(tables.roles, role_rows(roles, guild_id)),
            ..tables
        }),
    decreases roles.len(),
{
    if roles.len() > 0 {
        lemma_role_ops_applied(tables, roles.drop_last(), guild_id, now);
        assert(upsert_role_ops(roles, guild_id).drop_last() == upsert_role_ops(
            roles.drop_last(),
            guild_id,
        ));
        assert(upsert_role_ops(roles, guild_id).last() == upsert_role_op(roles.last(), guild_id));
        assert(role_rows(roles, guild_id).drop_last() == role_rows(roles.drop_last(), guild_id));
    }
}

/// Carrying out the operations that store a list of channels changes the
/// channel table as storing them one by one does, and no other table.
pub proof fn lemma_channel_ops_applied(
    tables: Tables,
    channels: Seq<Channel>,
    guild_id: Option<u64>,
    now: i64,
)
    ensures
        applied_all(tables, upsert_channel_ops(channels, guild_id), now) == (Tables {
            channels: with_channels(tables.channels, channel_rows(channels, guild_id)),
            ..tables
        }),
    decreases channels.len(),
{
    if channels.len() > 0 {
        lemma_channel_ops_applied(tables, channels.drop_last(), guild_id, now);
        assert(upsert_channel_ops(channels, guild_id).drop_last() == upsert_channel_ops(
            channels.drop_last(),
            guild_id,
        ));
        assert(upsert_channel_ops(channels, guild_id).last() == upsert_channel_op(
            channels.last(),
            guild_id,
        ));
        assert(channel_rows(channels, guild_id).drop_last() == channel_rows(
            channels.drop_last(),
            guild_id,
        ));
    }
}

/// The role table after a guild's snapshot: where the snapshot lists
/// roles, the guild's stored roles make way for the listed ones; where it
/// lists none, the table is as it was.
pub open spec fn roles_after_snapshot(
    roles: Map<(i64, i64), RoleRow>,
    guild: Guild,
) -> Map<(i64, i64), RoleRow> {
    match guild.roles {
        Some(listed) => with_roles(
            without_roles(roles, RoleSelector::Guild(spec_sql_id(guild.id) as i64)),
            role_rows(listed@, guild.id),
        ),
        None => roles,
    }
}

/// The channel table after a guild's snapshot: where the snapshot lists
/// channels, the guild's stored channels make way for the listed ones; the
/// listed threads are stored on top, whatever else is there.
pub open spec fn channels_after_snapshot(
    channels: Map<i64, ChannelRecord>,
    guild: Guild,
) -> Map<i64, ChannelRecord> {
    let replaced = match guild.channels {
        Some(listed) => with_channels(
            without_channels(channels, ChannelSelector::Guild(spec_sql_id(guild.id) as i64)),
            channel_rows(listed@, Some(guild.id)),
        ),
        None => channels,
    };
    match guild.threads {
        Some(listed) => with_channels(replaced, channel_rows(listed@, Some(guild.id))),
        None => replaced,
    }
}

/// Carrying out a list of one operation is carrying out that operation.
pub proof fn lemma_applied_single(tables: Tables, op: Op, now: i64)
    ensures
        applied_all(tables, seq![op], now) == applied(tables, op, now),
{
    assert(seq![op].drop_last() == Seq::<Op>::empty());
    assert(applied_all(tables, seq![op].drop_last(), now) == tables);
}

/// The tables after what a guild's snapshot calls for was carried out: the
/// guild is stored, its roles and channels are replaced, its threads added;
/// users and messages are as they were.
pub proof fn lemma_guild_ops_applied(tables: Tables, guild: Guild, now: i64)
    ensures
        applied_all(tables, guild_ops(guild), now) == (Tables {
            guilds: with_guild(tables.guilds, spec_guild_row(guild), guild.properties is None),
            roles: roles_after_snapshot(tables.roles, guild),
            channels: channels_after_snapshot(tables.channels, guild),
            ..tables
        }),
{
    let gid = spec_sql_id(guild.id) as i64;
    let store_guild = seq![
        Op::UpsertGuild { row: spec_guild_row(guild), keep_owner: guild.properties is None },
    ];
    let roles_part = replace_roles_ops(guild.roles, guild.id);
    let channels_part = replace_channels_ops(guild.channels, guild.id);
    let threads_part = add_threads_ops(guild.threads, guild.id);

    lemma_applied_single(tables, store_guild[0], now);
    let t1 = applied_all(tables, store_guild, now);

    lemma_applied_all_concat(tables, store_guild, roles_part, now);
    let t2 = applied_all(t1, roles_part, now);
    match guild.roles {
        Some(listed) => {
            let clear = seq![Op::DeleteGuildRoles { guild_id: gid }];
            lemma_applied_single(t1, clear[0], now);
            lemma_applied_all_concat(t1, clear, upsert_role_ops(listed@, guild.id), now);
            lemma_role_ops_applied(applied_all(t1, clear, now), listed@, guild.id, now);
        },
        None => {},
    }
    assert(t2 == (Tables { roles: roles_after_snapshot(tables.roles, guild), ..t1 }));

    lemma_applied_all_concat(tables, store_guild + roles_part, channels_part, now);
    let t3 = applied_all(t2, channels_part, now);
    match guild.channels {
        Some(listed) => {
            let clear = seq![Op::DeleteGuildChannels { guild_id: gid }];
            lemma_applied_single(t2, clear[0], now);
            lemma_applied_all_concat(
                t2,
                clear,
                upsert_channel_ops(listed@, Some(guild.id)),
                now,
            );
            lemma_channel_ops_applied(applied_all(t2, clear, now), listed@, Some(guild.id), now);
        },
        None => {},
    }

    lemma_applied_all_concat(tables, store_guild + roles_part + channels_part, threads_part, now);
    match guild.threads {
        Some(listed) => {
            lemma_channel_ops_applied(t3, listed@, Some(guild.id), now);
        },
        None => {},
    }
}

/// The tables after one guild of a snapshot was taken in.
pub open spec fn after_guild(tables: Tables, guild: Guild) -> Tables {
    Tables {
        guilds: with_guild(tables.guilds, spec_guild_row(guild), guild.properties is None),
        roles: roles_after_snapshot(tables.roles, guild),
        channels: channels_after_snapshot(tables.channels, guild),
        ..tables
    }
}

/// The tables after the guilds of a snapshot were taken in, guild after
/// guild.
pub open spec fn after_guilds(tables: Tables, guilds: Seq<Guild>) -> Tables
    decreases guilds.len(),
{
    if guilds.len() == 0 {
        tables
    } else {
        after_guild(after_guilds(tables, guilds.drop_last()), guilds.last())
    }
}

/// The user table after the members that a snapshot lists guild by guild
/// were stored: each list's users as seen in the guild at the list's place,
/// lists without a guild at their place passed over.
pub open spec fn users_after_groups(
    users: Map<i64, UserRecord>,
    groups: Seq<Vec<Member>>,
    guilds: Seq<Guild>,
) -> Map<i64, UserRecord>
    decreases groups.len(),
{
    if groups.len() == 0 {
        users
    } else {
        let before = users_after_groups(users, groups.drop_last(), guilds);
        let at = groups.len() - 1;
        if at < guilds.len() {
            with_seen_users(before, member_users(groups.last()@), Some(spec_sql_id(guilds[at].id) as i64))
        } else {
            before
        }
    }
}

/// The user table after a snapshot: the members listed guild by guild are
/// stored, then the users listed without a guild.
pub open spec fn users_after_snapshot(
    users: Map<i64, UserRecord>,
    guilds: Seq<Guild>,
    ready_members: Option<Vec<Vec<Member>>>,
    ready_users: Option<Vec<User>>,
) -> Map<i64, UserRecord> {
    let with_members = match ready_members {
        Some(groups) => users_after_groups(users, groups@, guilds),
        None => users,
    };
    match ready_users {
        Some(listed) => with_seen_users(with_members, listed@, None),
        None => with_members,
    }
}

/// Carrying out what the guilds of a snapshot call for takes the guilds in
/// one after the other.
pub proof fn lemma_guilds_ops_applied(tables: Tables, guilds: Seq<Guild>, now: i64)
    ensures
        applied_all(tables, guilds_ops(guilds), now) == after_guilds(tables, guilds),
    decreases guilds.len(),
{
    if guilds.len() > 0 {
        lemma_guilds_ops_applied(tables, guilds.drop_last(), now);
        lemma_applied_all_concat(
            tables,
            guilds_ops(guilds.drop_last()),
            guild_ops(guilds.last()),
            now,
        );
        lemma_guild_ops_applied(after_guilds(tables, guilds.drop_last()), guilds.last(), now);
    }
}

/// Carrying out what the members of a snapshot call for changes the user
/// table as storing them list by list does, and no other table.
pub proof fn lemma_member_ops_applied(
    tables: Tables,
    groups: Seq<Vec<Member>>,
    guilds: Seq<Guild>,
    now: i64,
)
    ensures
        applied_all(tables, snapshot_member_ops(groups, guilds), now) == (Tables {
            users: users_after_groups(tables.users, groups, guilds),
            ..tables
        }),
    decreases groups.len(),
{
    if groups.len() > 0 {
        let earlier = groups.drop_last();
        let at = groups.len() - 1;
        lemma_member_ops_applied(tables, earlier, guilds, now);
        let before = applied_all(tables, snapshot_member_ops(earlier, guilds), now);
        if at < guilds.len() {
            let more = upsert_user_ops(member_users(groups.last()@), Some(guilds[at].id));
            lemma_applied_all_concat(tables, snapshot_member_ops(earlier, guilds), more, now);
            lemma_user_ops_applied(
                before,
                member_users(groups.last()@),
                Some(guilds[at].id),
                now,
            );
        } else {
            assert(snapshot_member_ops(groups, guilds) == snapshot_member_ops(earlier, guilds)
                + Seq::<Op>::empty());
            assert(snapshot_member_ops(earlier, guilds) + Seq::<Op>::empty()
                == snapshot_member_ops(earlier, guilds));
        }
    }
}

/// The tables after what a session's snapshot calls for was carried out:
/// its members and users are stored, and each of its guilds is taken in,
/// its roles and channels replaced. Messages are as they were.
pub proof fn lemma_ready_ops_applied(
    tables: Tables,
    guilds: Seq<Guild>,
    ready_members: Option<Vec<Vec<Member>>>,
    ready_users: Option<Vec<User>>,
    now: i64,
)
    ensures
        applied_all(tables, ready_ops(guilds, ready_members, ready_users), now) == after_guilds(
            Tables {
                users: users_after_snapshot(tables.users, guilds, ready_members, ready_users),
                ..tables
            },
            guilds,
        ),
        applied_all(tables, ready_ops(guilds, ready_members, ready_users), now).messages
            == tables.messages,
{
    let member_part = match ready_members {
        Some(groups) => snapshot_member_ops(groups@, guilds),
        None => Seq::<Op>::empty(),
    };
    let user_part = match ready_users {
        Some(users) => upsert_user_ops(users@, None),
        None => Seq::<Op>::empty(),
    };
    lemma_applied_all_concat(tables, member_part + user_part, guilds_ops(guilds), now);
    lemma_applied_all_concat(tables, member_part, user_part, now);
    match ready_members {
        Some(groups) => {
            lemma_member_ops_applied(tables, groups@, guilds, now);
        },
        None => {},
    }
    let with_members = applied_all(tables, member_part, now);
    match ready_users {
        Some(users) => {
            lemma_user_ops_applied(with_members, users@, None, now);
        },
        None => {},
    }
    let with_users = applied_all(with_members, user_part, now);
    lemma_guilds_ops_applied(with_users, guilds, now);
    lemma_after_guilds_keeps_messages(with_users, guilds);
}

/// Taking guilds in changes neither users nor messages.
pub proof fn lemma_after_guilds_keeps_messages(tables: Tables, guilds: Seq<Guild>)
    ensures
        after_guilds(tables, guilds).messages == tables.messages,
        after_guilds(tables, guilds).users == tables.users,
    decreases guilds.len(),
{
    if guilds.len() > 0 {
        lemma_after_guilds_keeps_messages(tables, guilds.drop_last());
    }
}

} // verus!
