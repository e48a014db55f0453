//! What holds of the store's operations whatever the tables hold: repeating
//! an operation changes nothing, a deletion mark stays, a reference never
//! dangles, a user's guilds only grow, a snapshot replaces a guild's rows.

use vstd::prelude::*;
use crate::database::{
    joined, messages_consistent, users_consistent, with_channel, with_channels, with_guild,
    with_message, with_role, with_roles, with_tombstones, with_user, without_channels,
    without_roles, ChannelSelector, RoleSelector,
};
use crate::rows::{ChannelRecord, GuildRecord, MessageRecord, RoleRow, UserRecord};

verus! {

/// Storing the same message twice leaves the table as storing it once does.
pub proof fn lemma_upsert_message_idempotent(messages: Map<i64, MessageRecord>, row: MessageRecord)
    ensures
        with_message(with_message(messages, row), row) == with_message(messages, row),
{
    assert(with_message(with_message(messages, row), row) =~= with_message(messages, row));
}

/// Storing a message touches the record under its id and no other.
pub proof fn lemma_upsert_message_is_local(
    messages: Map<i64, MessageRecord>,
    row: MessageRecord,
    other: i64,
)
    requires
        other != row.id,
    ensures
        with_message(messages, row).contains_key(other) == messages.contains_key(other),
        messages.contains_key(other) ==> with_message(messages, row)[other] == messages[other],
{
}

/// A message that is stored again shows the new content, edit time, flags
/// and attachments; where it sits, who wrote it, when it was created, its
/// kind, its reference and its deletion mark stay as first stored.
pub proof fn lemma_upsert_message_updates(messages: Map<i64, MessageRecord>, row: MessageRecord)
    requires
        messages.contains_key(row.id),
    ensures
        ({
            let before = messages[row.id];
            let after = with_message(messages, row)[row.id];
            &&& after.content == row.content
            &&& after.edited_at == row.edited_at
            &&& after.flags == row.flags
            &&& after.attachments == row.attachments
            &&& after.id == before.id
            &&& after.channel_id == before.channel_id
            &&& after.author_id == before.author_id
            &&& after.guild_id == before.guild_id
            &&& after.created_at == before.created_at
            &&& after.message_type == before.message_type
            &&& after.referenced_message_id == before.referenced_message_id
            &&& after.deleted_at == before.deleted_at
        }),
{
}

/// Deleting a message that carries a deletion mark changes nothing: the
/// mark, and the time in it, stay.
pub proof fn lemma_tombstone_is_final(
    messages: Map<i64, MessageRecord>,
    id: i64,
    first: i64,
    later: i64,
)
    ensures
        with_tombstones(with_tombstones(messages, set![id], first), set![id], later)
            == with_tombstones(messages, set![id], first),
        messages.contains_key(id) && messages[id].deleted_at is Some ==> with_tombstones(
            messages,
            set![id],
            later,
        ) == messages,
{
    assert(with_tombstones(with_tombstones(messages, set![id], first), set![id], later)
        =~= with_tombstones(messages, set![id], first));
    if messages.contains_key(id) && messages[id].deleted_at is Some {
        assert(with_tombstones(messages, set![id], later) =~= messages);
    }
}

/// A deletion of many messages marks exactly the stored, unmarked messages
/// among them, all with the same time, and changes no other record or field.
pub proof fn lemma_tombstones_are_exact(
    messages: Map<i64, MessageRecord>,
    ids: Set<i64>,
    now: i64,
    id: i64,
)
    requires
        messages.contains_key(id),
    ensures
        with_tombstones(messages, ids, now).dom() == messages.dom(),
        ids.contains(id) && messages[id].deleted_at is None ==> with_tombstones(
            messages,
            ids,
            now,
        )[id] == (MessageRecord { deleted_at: Some(now), ..messages[id] }),
        !ids.contains(id) || messages[id].deleted_at is Some ==> with_tombstones(
            messages,
            ids,
            now,
        )[id] == messages[id],
{
    assert(with_tombstones(messages, ids, now).dom() =~= messages.dom());
}

/// After a deletion of many messages, deleting any of them again, at any
/// time, changes nothing.
pub proof fn lemma_tombstones_absorb_subsets(
    messages: Map<i64, MessageRecord>,
    ids: Set<i64>,
    again: Set<i64>,
    first: i64,
    later: i64,
)
    requires
        again.subset_of(ids),
    ensures
        with_tombstones(with_tombstones(messages, ids, first), again, later) == with_tombstones(
            messages,
            ids,
            first,
        ),
{
    assert(with_tombstones(with_tombstones(messages, ids, first), again, later)
        =~= with_tombstones(messages, ids, first));
}

/// Deleting messages one list after another, at one time, is deleting the
/// messages of both lists at once: the order of the ids does not matter.
pub proof fn lemma_tombstones_compose(
    messages: Map<i64, MessageRecord>,
    first: Set<i64>,
    second: Set<i64>,
    now: i64,
)
    ensures
        with_tombstones(with_tombstones(messages, first, now), second, now) == with_tombstones(
            messages,
            first.union(second),
            now,
        ),
{
    assert(with_tombstones(with_tombstones(messages, first, now), second, now)
        =~= with_tombstones(messages, first.union(second), now));
}

/// A deletion mark survives every later store of the message.
pub proof fn lemma_upsert_keeps_tombstone(messages: Map<i64, MessageRecord>, row: MessageRecord)
    requires
        messages.contains_key(row.id),
        messages[row.id].deleted_at is Some,
    ensures
        with_message(messages, row)[row.id].deleted_at == messages[row.id].deleted_at,
{
}

/// A message that answers one the table does not hold is stored without a
/// reference; one that answers a stored message is stored with it.
pub proof fn lemma_reference_null_on_miss(messages: Map<i64, MessageRecord>, row: MessageRecord)
    requires
        !messages.contains_key(row.id),
    ensures
        with_message(messages, row)[row.id].referenced_message_id == match row.referenced_message_id {
            Some(answered) => if messages.contains_key(answered) {
                Some(answered)
            } else {
                None::<i64>
            },
            None => None,
        },
{
}

/// No store of a message makes a reference dangle: if every reference in the
/// table names a stored message, so does every reference afterwards.
pub proof fn lemma_reference_never_dangles(messages: Map<i64, MessageRecord>, row: MessageRecord)
    requires
        messages_consistent(messages),
    ensures
        messages_consistent(with_message(messages, row)),
{
}

/// A reference that was dropped is not filled in later: once the answered
/// message arrives, the answer stays as it was stored.
pub proof fn lemma_reference_not_backfilled(
    messages: Map<i64, MessageRecord>,
    answer: MessageRecord,
    answered: MessageRecord,
)
    requires
        answer.id != answered.id,
    ensures
        with_message(with_message(messages, answer), answered)[answer.id] == with_message(
            messages,
            answer,
        )[answer.id],
        with_message(with_message(with_message(messages, answer), answered), answer)[answer.id].referenced_message_id
            == with_message(messages, answer)[answer.id].referenced_message_id,
{
}

/// Storing the same user twice, seen in the same guild, leaves the table as
/// storing it once does.
pub proof fn lemma_upsert_user_idempotent(
    users: Map<i64, UserRecord>,
    row: UserRecord,
    guild: Option<i64>,
)
    ensures
        with_user(with_user(users, row, guild), row, guild) == with_user(users, row, guild),
{
    let once = with_user(users, row, guild);
    let before = if users.contains_key(row.id) {
        users[row.id].guilds
    } else {
        Seq::<i64>::empty()
    };
    match guild {
        Some(g) => {
            if !before.contains(g) {
                assert(before.push(g)[before.len() as int] == g);
            }
        },
        None => {},
    }
    assert(joined(once[row.id].guilds, guild) =~= once[row.id].guilds);
    assert(with_user(once, row, guild) =~= once);
}

/// A user's guilds only grow: every guild the user was seen in stays, in
/// place, and the guild of the new sighting is among them afterwards.
pub proof fn lemma_membership_only_grows(
    users: Map<i64, UserRecord>,
    row: UserRecord,
    guild: Option<i64>,
)
    requires
        users.contains_key(row.id),
    ensures
        users[row.id].guilds.is_prefix_of(with_user(users, row, guild)[row.id].guilds),
        guild matches Some(g) ==> with_user(users, row, guild)[row.id].guilds.contains(g),
{
    let before = users[row.id].guilds;
    match guild {
        Some(g) => {
            if !before.contains(g) {
                assert(before.push(g)[before.len() as int] == g);
            }
        },
        None => {},
    }
}

/// Storing a user keeps the table consistent: no guild is listed twice.
pub proof fn lemma_upsert_user_consistent(
    users: Map<i64, UserRecord>,
    row: UserRecord,
    guild: Option<i64>,
)
    requires
        users_consistent(users),
    ensures
        users_consistent(with_user(users, row, guild)),
{
    let before = if users.contains_key(row.id) {
        users[row.id].guilds
    } else {
        Seq::<i64>::empty()
    };
    match guild {
        Some(g) => {
            if !before.contains(g) {
                vstd::seq_lib::lemma_no_dup_in_concat(before, seq![g]);
                assert(before.push(g) =~= before + seq![g]);
            }
        },
        None => {},
    }
}

/// Storing the same guild twice leaves the table as storing it once does.
pub proof fn lemma_upsert_guild_idempotent(
    guilds: Map<i64, GuildRecord>,
    row: GuildRecord,
    keep_owner: bool,
)
    ensures
        with_guild(with_guild(guilds, row, keep_owner), row, keep_owner) == with_guild(
            guilds,
            row,
            keep_owner,
        ),
{
    assert(with_guild(with_guild(guilds, row, keep_owner), row, keep_owner) =~= with_guild(
        guilds,
        row,
        keep_owner,
    ));
}

/// Storing the same role or the same channel twice leaves the table as
/// storing it once does.
pub proof fn lemma_upsert_reference_data_idempotent(
    roles: Map<(i64, i64), RoleRow>,
    role: RoleRow,
    channels: Map<i64, ChannelRecord>,
    channel: ChannelRecord,
)
    ensures
        with_role(with_role(roles, role), role) == with_role(roles, role),
        with_channel(with_channel(channels, channel), channel) == with_channel(channels, channel),
{
    assert(with_role(with_role(roles, role), role) =~= with_role(roles, role));
    assert(with_channel(with_channel(channels, channel), channel) =~= with_channel(
        channels,
        channel,
    ));
}

/// The last of `rows` that has the key `key`, if any has.
pub open spec fn last_with_key(rows: Seq<RoleRow>, key: (i64, i64)) -> Option<RoleRow>
    decreases rows.len(),
{
    if rows.len() == 0 {
        None
    } else if (rows.last().id, rows.last().guild_id) == key {
        Some(rows.last())
    } else {
        last_with_key(rows.drop_last(), key)
    }
}

/// After storing a list of roles, a key holds the last listed role of that
/// key, or what it held before where none is listed.
pub proof fn lemma_with_roles_lookup(
    roles: Map<(i64, i64), RoleRow>,
    rows: Seq<RoleRow>,
    key: (i64, i64),
)
    ensures
        match last_with_key(rows, key) {
            Some(row) => with_roles(roles, rows).contains_key(key) && with_roles(roles, rows)[key]
                == row,
            None => with_roles(roles, rows).contains_key(key) == roles.contains_key(key) && (
            roles.contains_key(key) ==> with_roles(roles, rows)[key] == roles[key]),
        },
    decreases rows.len(),
{
    if rows.len() > 0 {
        lemma_with_roles_lookup(roles, rows.drop_last(), key);
    }
}

/// A snapshot replaces a guild's roles: after the guild's roles were removed
/// and the snapshot's stored, the guild has exactly the snapshot's roles,
/// each as last listed, and every other guild has the roles it had.
pub proof fn lemma_snapshot_replaces_roles(
    roles: Map<(i64, i64), RoleRow>,
    guild: i64,
    snapshot: Seq<RoleRow>,
    key: (i64, i64),
)
    requires
        forall|key: (i64, i64)| #[trigger]
            roles.contains_key(key) ==> (roles[key].id, roles[key].guild_id) == key,
        forall|i: int| 0 <= i < snapshot.len() ==> (#[trigger] snapshot[i]).guild_id == guild,
    ensures
        ({
            let after = with_roles(without_roles(roles, RoleSelector::Guild(guild)), snapshot);
            if key.1 == guild {
                match last_with_key(snapshot, key) {
                    Some(row) => after.contains_key(key) && after[key] == row,
                    None => !after.contains_key(key),
                }
            } else {
                after.contains_key(key) == roles.contains_key(key) && (roles.contains_key(key)
                    ==> after[key] == roles[key])
            }
        }),
{
    let cleared = without_roles(roles, RoleSelector::Guild(guild));
    lemma_with_roles_lookup(cleared, snapshot, key);
    if key.1 != guild {
        lemma_last_with_key_is_listed(snapshot, key);
    }
}

/// The role that `last_with_key` finds is one of the rows and has the key.
pub proof fn lemma_last_with_key_is_listed(rows: Seq<RoleRow>, key: (i64, i64))
    ensures
        last_with_key(rows, key) matches Some(row) ==> rows.contains(row) && (row.id, row.guild_id)
            == key,
    decreases rows.len(),
{
    if rows.len() > 0 {
        if (rows.last().id, rows.last().guild_id) == key {
            assert(rows[rows.len() - 1] == rows.last());
        } else {
            lemma_last_with_key_is_listed(rows.drop_last(), key);
            match last_with_key(rows.drop_last(), key) {
                Some(row) => {
                    let rest = rows.drop_last();
                    let at = choose|i: int| 0 <= i < rest.len() && rest[i] == row;
                    assert(rows[at] == row);
                },
                None => {},
            }
        }
    }
}

/// The last of `rows` that has the id `id`, if any has.
pub open spec fn last_with_id(rows: Seq<ChannelRecord>, id: i64) -> Option<ChannelRecord>
    decreases rows.len(),
{
    if rows.len() == 0 {
        None
    } else if rows.last().id == id {
        Some(rows.last())
    } else {
        last_with_id(rows.drop_last(), id)
    }
}

/// After storing a list of channels, an id holds the last listed channel of
/// that id, or what it held before where none is listed: storing channels
/// only adds to the table and brings it up to date.
pub proof fn lemma_with_channels_lookup(
    channels: Map<i64, ChannelRecord>,
    rows: Seq<ChannelRecord>,
    id: i64,
)
    ensures
        match last_with_id(rows, id) {
            Some(row) => with_channels(channels, rows).contains_key(id) && with_channels(
                channels,
                rows,
            )[id] == row,
            None => with_channels(channels, rows).contains_key(id) == channels.contains_key(id)
                && (channels.contains_key(id) ==> with_channels(channels, rows)[id]
                == channels[id]),
        },
    decreases rows.len(),
{
    if rows.len() > 0 {
        lemma_with_channels_lookup(channels, rows.drop_last(), id);
    }
}

/// A snapshot replaces a guild's channels: after the guild's channels were
/// removed and the snapshot's stored, an id that the snapshot lists holds
/// the channel as last listed; any other id holds what it held if that was
/// a channel of another guild or of none, and nothing if it was a channel of
/// this guild.
pub proof fn lemma_snapshot_replaces_channels(
    channels: Map<i64, ChannelRecord>,
    guild: i64,
    snapshot: Seq<ChannelRecord>,
    id: i64,
)
    ensures
        ({
            let after = with_channels(
                without_channels(channels, ChannelSelector::Guild(guild)),
                snapshot,
            );
            match last_with_id(snapshot, id) {
                Some(row) => after.contains_key(id) && after[id] == row,
                None => if channels.contains_key(id) && channels[id].guild_id != Some(guild) {
                    after.contains_key(id) && after[id] == channels[id]
                } else {
                    !after.contains_key(id)
                },
            }
        }),
{
    lemma_with_channels_lookup(
        without_channels(channels, ChannelSelector::Guild(guild)),
        snapshot,
        id,
    );
}

} // verus!
