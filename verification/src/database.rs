//! The store: five keyed tables and the operations that ingestion applies
//! to them. Every operation is keyed by id and may be repeated with the same
//! payload without changing the outcome.

use std::collections::HashMap;
use vstd::prelude::*;
use crate::columns::{spec_sql_id, sql_id};
use crate::model::{Channel, Guild, Message, Role, User};
use crate::rows::{
    channel_row, guild_row, message_row, role_row, spec_channel_row, spec_guild_row,
    spec_message_row, spec_role_row, spec_user_row, user_row, ChannelRecord, ChannelRow,
    GuildRecord, GuildRow, MessageRecord, MessageRow, RoleRow, UserRecord, UserRow,
};
use crate::table::{distinct_keys, lemma_table_filter, lemma_table_push, lemma_table_rows, table_of};

verus! {

/// The answered message as a stored row may name it: the candidate if the
/// table holds a row for it, nothing otherwise.
pub open spec fn resolve_reference(
    messages: Map<i64, MessageRecord>,
    candidate: Option<i64>,
) -> Option<i64> {
    match candidate {
        Some(id) => if messages.contains_key(id) {
            Some(id)
        } else {
            None
        },
        None => None,
    }
}

/// The record that the table holds under `row.id` once `row` was stored.
/// A new record takes everything from `row` but the reference, which is
/// resolved against the table, and carries no deletion mark. A record that
/// was there takes content, edit time, flags and attachments from `row` and
/// keeps the rest, its reference and its deletion mark included.
pub open spec fn stored_message(
    messages: Map<i64, MessageRecord>,
    row: MessageRecord,
) -> MessageRecord {
    if messages.contains_key(row.id) {
        MessageRecord {
            content: row.content,
            edited_at: row.edited_at,
            flags: row.flags,
            attachments: row.attachments,
            ..messages[row.id]
        }
    } else {
        MessageRecord {
            referenced_message_id: resolve_reference(messages, row.referenced_message_id),
            deleted_at: None,
            ..row
        }
    }
}

/// The message table after `row` was stored.
pub open spec fn with_message(
    messages: Map<i64, MessageRecord>,
    row: MessageRecord,
) -> Map<i64, MessageRecord> {
    messages.insert(row.id, stored_message(messages, row))
}

/// `record` marked as deleted at `now`, unless it carries a mark already.
pub open spec fn tombstoned(record: MessageRecord, now: i64) -> MessageRecord {
    if record.deleted_at is None {
        MessageRecord { deleted_at: Some(now), ..record }
    } else {
        record
    }
}

/// The message table after every message whose id is in `ids` was marked as
/// deleted at `now`. Ids without a record change nothing.
pub open spec fn with_tombstones(
    messages: Map<i64, MessageRecord>,
    ids: Set<i64>,
    now: i64,
) -> Map<i64, MessageRecord> {
    Map::new(
        |id: i64| messages.contains_key(id),
        |id: i64|
            if ids.contains(id) {
                tombstoned(messages[id], now)
            } else {
                messages[id]
            },
    )
}

/// Every record sits under its own id, and a record names an answered
/// message only if the table holds that message.
pub open spec fn messages_consistent(messages: Map<i64, MessageRecord>) -> bool {
    forall|id: i64| #[trigger]
        messages.contains_key(id) ==> {
            &&& messages[id].id == id
            &&& (messages[id].referenced_message_id matches Some(answered)
                ==> messages.contains_key(answered))
        }
}

/// The guilds a user was seen in, after being seen in `guild`.
pub open spec fn joined(guilds: Seq<i64>, guild: Option<i64>) -> Seq<i64> {
    match guild {
        Some(g) => if guilds.contains(g) {
            guilds
        } else {
            guilds.push(g)
        },
        None => guilds,
    }
}

/// The record that the table holds under `row.id` once `row` was stored for
/// a user seen in `guild`: everything from `row`, and the guilds the user
/// was seen in before together with `guild`.
pub open spec fn stored_user(
    users: Map<i64, UserRecord>,
    row: UserRecord,
    guild: Option<i64>,
) -> UserRecord {
    let before = if users.contains_key(row.id) {
        users[row.id].guilds
    } else {
        Seq::empty()
    };
    UserRecord { guilds: joined(before, guild), ..row }
}

/// The user table after `row` was stored for a user seen in `guild`.
pub open spec fn with_user(
    users: Map<i64, UserRecord>,
    row: UserRecord,
    guild: Option<i64>,
) -> Map<i64, UserRecord> {
    users.insert(row.id, stored_user(users, row, guild))
}

/// Every record sits under its own id and lists no guild twice.
pub open spec fn users_consistent(users: Map<i64, UserRecord>) -> bool {
    forall|id: i64| #[trigger]
        users.contains_key(id) ==> users[id].id == id && users[id].guilds.no_duplicates()
}

/// The record that the table holds under `row.id` once `row` was stored.
/// With `keep_owner`, a guild that was there keeps its owner.
pub open spec fn stored_guild(
    guilds: Map<i64, GuildRecord>,
    row: GuildRecord,
    keep_owner: bool,
) -> GuildRecord {
    if keep_owner && guilds.contains_key(row.id) {
        GuildRecord { owner_id: guilds[row.id].owner_id, ..row }
    } else {
        row
    }
}

/// The guild table after `row` was stored.
pub open spec fn with_guild(
    guilds: Map<i64, GuildRecord>,
    row: GuildRecord,
    keep_owner: bool,
) -> Map<i64, GuildRecord> {
    guilds.insert(row.id, stored_guild(guilds, row, keep_owner))
}

/// Every record sits under its own id.
pub open spec fn guilds_consistent(guilds: Map<i64, GuildRecord>) -> bool {
    forall|id: i64| #[trigger] guilds.contains_key(id) ==> guilds[id].id == id
}

/// The key of a role row: the role's id and its guild's.
pub open spec fn role_key() -> spec_fn(RoleRow) -> (i64, i64) {
    |row: RoleRow| (row.id, row.guild_id)
}

/// The key of a channel row: the channel's id.
pub open spec fn channel_key() -> spec_fn(ChannelRecord) -> i64 {
    |row: ChannelRecord| row.id
}

/// The view of a channel row.
pub open spec fn channel_view() -> spec_fn(ChannelRow) -> ChannelRecord {
    |row: ChannelRow| row@
}

/// Which rows of the role table an operation is about.
#[derive(Clone, Copy, Debug)]
pub enum RoleSelector {
    /// The one role with this id in this guild.
    Key(i64, i64),
    /// Every role of this guild.
    Guild(i64),
    /// Every role with this id.
    Id(i64),
}

impl RoleSelector {
    /// Whether the operation is about `row`.
    pub open spec fn selects(self, row: RoleRow) -> bool {
        match self {
            RoleSelector::Key(id, guild) => row.id == id && row.guild_id == guild,
            RoleSelector::Guild(guild) => row.guild_id == guild,
            RoleSelector::Id(id) => row.id == id,
        }
    }

    /// The rows that the operation leaves alone.
    pub open spec fn spares(self) -> spec_fn(RoleRow) -> bool {
        |row: RoleRow| !self.selects(row)
    }

    fn picks(&self, row: &RoleRow) -> (picked: bool)
        ensures
            picked == self.selects(*row),
    {
        match self {
            RoleSelector::Key(id, guild) => row.id == *id && row.guild_id == *guild,
            RoleSelector::Guild(guild) => row.guild_id == *guild,
            RoleSelector::Id(id) => row.id == *id,
        }
    }
}

/// Which rows of the channel table an operation is about.
#[derive(Clone, Copy, Debug)]
pub enum ChannelSelector {
    /// The channel with this id.
    Id(i64),
    /// Every channel stored under this guild.
    Guild(i64),
}

impl ChannelSelector {
    /// Whether the operation is about `row`.
    pub open spec fn selects(self, row: ChannelRecord) -> bool {
        match self {
            ChannelSelector::Id(id) => row.id == id,
            ChannelSelector::Guild(guild) => row.guild_id == Some(guild),
        }
    }

    /// The rows that the operation leaves alone.
    pub open spec fn spares(self) -> spec_fn(ChannelRecord) -> bool {
        |row: ChannelRecord| !self.selects(row)
    }

    fn picks(&self, row: &ChannelRow) -> (picked: bool)
        ensures
            picked == self.selects(row@),
    {
        match self {
            ChannelSelector::Id(id) => row.id == *id,
            ChannelSelector::Guild(guild) => match row.guild_id {
                Some(g) => g == *guild,
                None => false,
            },
        }
    }
}

/// The role table without the rows that `selector` is about.
pub open spec fn without_roles(
    roles: Map<(i64, i64), RoleRow>,
    selector: RoleSelector,
) -> Map<(i64, i64), RoleRow> {
    Map::new(
        |key: (i64, i64)| roles.contains_key(key) && !selector.selects(roles[key]),
        |key: (i64, i64)| roles[key],
    )
}

/// The role table after `row` was stored: `row` stands under its key,
/// whatever stood there.
pub open spec fn with_role(roles: Map<(i64, i64), RoleRow>, row: RoleRow) -> Map<
    (i64, i64),
    RoleRow,
> {
    roles.insert((row.id, row.guild_id), row)
}

/// The role table after each of `rows` was stored, first to last.
pub open spec fn with_roles(roles: Map<(i64, i64), RoleRow>, rows: Seq<RoleRow>) -> Map<
    (i64, i64),
    RoleRow,
>
    decreases rows.len(),
{
    if rows.len() == 0 {
        roles
    } else {
        with_role(with_roles(roles, rows.drop_last()), rows.last())
    }
}

/// Every row sits under its own key.
pub open spec fn roles_consistent(roles: Map<(i64, i64), RoleRow>) -> bool {
    forall|key: (i64, i64)| #[trigger]
        roles.contains_key(key) ==> (roles[key].id, roles[key].guild_id) == key
}

/// The channel table without the rows that `selector` is about.
pub open spec fn without_channels(
    channels: Map<i64, ChannelRecord>,
    selector: ChannelSelector,
) -> Map<i64, ChannelRecord> {
    Map::new(
        |id: i64| channels.contains_key(id) && !selector.selects(channels[id]),
        |id: i64| channels[id],
    )
}

/// The channel table after `row` was stored: `row` stands under its id,
/// whatever stood there.
pub open spec fn with_channel(
    channels: Map<i64, ChannelRecord>,
    row: ChannelRecord,
) -> Map<i64, ChannelRecord> {
    channels.insert(row.id, row)
}

/// The channel table after each of `rows` was stored, first to last.
pub open spec fn with_channels(
    channels: Map<i64, ChannelRecord>,
    rows: Seq<ChannelRecord>,
) -> Map<i64, ChannelRecord>
    decreases rows.len(),
{
    if rows.len() == 0 {
        channels
    } else {
        with_channel(with_channels(channels, rows.drop_last()), rows.last())
    }
}

/// Every row sits under its own id.
pub open spec fn channels_consistent(channels: Map<i64, ChannelRecord>) -> bool {
    forall|id: i64| #[trigger] channels.contains_key(id) ==> channels[id].id == id
}

/// The reference that a new row is stored with: the candidate if the
/// answered message is stored, nothing otherwise.
pub fn reference_to_store(candidate: Option<i64>, answered_is_stored: bool) -> (kept: Option<i64>)
    ensures
        kept == if answered_is_stored {
            candidate
        } else {
            None
        },
{
    if answered_is_stored {
        candidate
    } else {
        None
    }
}

/// The tables. Rows are reached through the operations only, which keep each
/// table consistent.
pub struct Store {
    messages: HashMap<i64, MessageRow>,
    users: HashMap<i64, UserRow>,
    guilds: HashMap<i64, GuildRow>,
    roles: Vec<RoleRow>,
    channels: Vec<ChannelRow>,
}

/// Whether `items` holds `wanted`.
fn holds_id(items: &Vec<i64>, wanted: i64) -> (found: bool)
    ensures
        found == items@.contains(wanted),
{
    let mut i: usize = 0;
    while i < items.len()
        invariant
            i <= items.len(),
            forall|j: int| 0 <= j < i ==> items@[j] != wanted,
        decreases items.len() - i,
    {
        if items[i] == wanted {
            return true;
        }
        i += 1;
    }
    false
}

impl Store {
    /// The message table: each stored message under its id.
    pub closed spec fn messages(&self) -> Map<i64, MessageRecord> {
        self.messages@.map_values(|row: MessageRow| row@)
    }

    /// The user table: each stored user under its id.
    pub closed spec fn users(&self) -> Map<i64, UserRecord> {
        self.users@.map_values(|row: UserRow| row@)
    }

    /// The guild table: each stored guild under its id.
    pub closed spec fn guilds(&self) -> Map<i64, GuildRecord> {
        self.guilds@.map_values(|row: GuildRow| row@)
    }

    /// The role table: each stored role under its id and its guild's.
    pub closed spec fn roles(&self) -> Map<(i64, i64), RoleRow> {
        table_of(self.roles@, role_key())
    }

    /// The channel table: each stored channel under its id.
    pub closed spec fn channels(&self) -> Map<i64, ChannelRecord> {
        table_of(self.channels@.map_values(channel_view()), channel_key())
    }

    /// No table holds two rows for one key.
    pub closed spec fn keys_apart(&self) -> bool {
        &&& distinct_keys(self.roles@, role_key())
        &&& distinct_keys(self.channels@.map_values(channel_view()), channel_key())
    }

    /// The tables are consistent, each by its own rule.
    pub open spec fn wf(&self) -> bool {
        &&& self.keys_apart()
        &&& messages_consistent(self.messages())
        &&& users_consistent(self.users())
        &&& guilds_consistent(self.guilds())
        &&& roles_consistent(self.roles())
        &&& channels_consistent(self.channels())
    }

    /// Whether `other` holds the same rows outside the role table.
    pub open spec fn same_but_roles(&self, other: &Store) -> bool {
        &&& self.messages() == other.messages()
        &&& self.users() == other.users()
        &&& self.guilds() == other.guilds()
        &&& self.channels() == other.channels()
    }

    /// Whether `other` holds the same rows outside the channel table.
    pub open spec fn same_but_channels(&self, other: &Store) -> bool {
        &&& self.messages() == other.messages()
        &&& self.users() == other.users()
        &&& self.guilds() == other.guilds()
        &&& self.roles() == other.roles()
    }

    /// Whether `other` holds the same rows outside the message table.
    pub open spec fn same_but_messages(&self, other: &Store) -> bool {
        &&& self.users() == other.users()
        &&& self.guilds() == other.guilds()
        &&& self.roles() == other.roles()
        &&& self.channels() == other.channels()
    }

    /// Whether `other` holds the same rows outside the user table.
    pub open spec fn same_but_users(&self, other: &Store) -> bool {
        &&& self.messages() == other.messages()
        &&& self.guilds() == other.guilds()
        &&& self.roles() == other.roles()
        &&& self.channels() == other.channels()
    }

    /// Whether `other` holds the same rows outside the guild table.
    pub open spec fn same_but_guilds(&self, other: &Store) -> bool {
        &&& self.messages() == other.messages()
        &&& self.users() == other.users()
        &&& self.roles() == other.roles()
        &&& self.channels() == other.channels()
    }

    /// A store with no rows.
    pub fn new() -> (store: Store)
        ensures
            store.wf(),
            store.messages() == Map::<i64, MessageRecord>::empty(),
            store.users() == Map::<i64, UserRecord>::empty(),
            store.guilds() == Map::<i64, GuildRecord>::empty(),
            store.roles() == Map::<(i64, i64), RoleRow>::empty(),
            store.channels() == Map::<i64, ChannelRecord>::empty(),
    {
        let store = Store {
            messages: HashMap::new(),
            users: HashMap::new(),
            guilds: HashMap::new(),
            roles: Vec::new(),
            channels: Vec::new(),
        };
        assert(store.messages() =~= Map::<i64, MessageRecord>::empty());
        assert(store.users() =~= Map::<i64, UserRecord>::empty());
        assert(store.guilds() =~= Map::<i64, GuildRecord>::empty());
        assert(store.channels@.map_values(channel_view()) =~= Seq::<ChannelRecord>::empty());
        store
    }

    /// The stored message `id`, if there is one.
    pub fn message(&self, id: i64) -> (found: Option<&MessageRow>)
        ensures
            match found {
                Some(row) => self.messages().contains_key(id) && row@ == self.messages()[id],
                None => !self.messages().contains_key(id),
            },
    {
        broadcast use vstd::std_specs::hash::group_hash_axioms;

        self.messages.get(&id)
    }

    /// The stored user `id`, if there is one.
    pub fn user(&self, id: i64) -> (found: Option<&UserRow>)
        ensures
            match found {
                Some(row) => self.users().contains_key(id) && row@ == self.users()[id],
                None => !self.users().contains_key(id),
            },
    {
        broadcast use vstd::std_specs::hash::group_hash_axioms;

        self.users.get(&id)
    }

    /// The stored guild `id`, if there is one.
    pub fn guild(&self, id: i64) -> (found: Option<&GuildRow>)
        ensures
            match found {
                Some(row) => self.guilds().contains_key(id) && row@ == self.guilds()[id],
                None => !self.guilds().contains_key(id),
            },
    {
        broadcast use vstd::std_specs::hash::group_hash_axioms;

        self.guilds.get(&id)
    }

    /// The stored role `id` of guild `guild`, if there is one.
    pub fn role(&self, id: i64, guild: i64) -> (found: Option<&RoleRow>)
        requires
            self.wf(),
        ensures
            match found {
                Some(row) => self.roles().contains_key((id, guild)) && *row == self.roles()[(
                    id,
                    guild,
                )],
                None => !self.roles().contains_key((id, guild)),
            },
    {
        let mut i: usize = 0;
        while i < self.roles.len()
            invariant
                self.wf(),
                i <= self.roles.len(),
                forall|j: int|
                    0 <= j < i ==> (#[trigger] self.roles@[j]).id != id || self.roles@[j].guild_id
                        != guild,
            decreases self.roles.len() - i,
        {
            if self.roles[i].id == id && self.roles[i].guild_id == guild {
                proof {
                    lemma_table_rows(self.roles@, role_key());
                    assert(role_key()(self.roles@[i as int]) == (id, guild));
                }
                return Some(&self.roles[i]);
            }
            i += 1;
        }
        proof {
            lemma_table_rows(self.roles@, role_key());
            if self.roles().contains_key((id, guild)) {
                let row = self.roles()[(id, guild)];
                let at = choose|j: int| 0 <= j < self.roles@.len() && self.roles@[j] == row;
                assert(self.roles@[at].id == id);
            }
        }
        None
    }

    /// The stored channel `id`, if there is one.
    pub fn channel(&self, id: i64) -> (found: Option<&ChannelRow>)
        requires
            self.wf(),
        ensures
            match found {
                Some(row) => self.channels().contains_key(id) && row@ == self.channels()[id],
                None => !self.channels().contains_key(id),
            },
    {
        let ghost rows = self.channels@.map_values(channel_view());
        let mut i: usize = 0;
        while i < self.channels.len()
            invariant
                self.wf(),
                i <= self.channels.len(),
                rows == self.channels@.map_values(channel_view()),
                forall|j: int| 0 <= j < i ==> (#[trigger] rows[j]).id != id,
            decreases self.channels.len() - i,
        {
            assert(rows[i as int] == self.channels@[i as int]@);
            if self.channels[i].id == id {
                proof {
                    lemma_table_rows(rows, channel_key());
                    assert(channel_key()(rows[i as int]) == id);
                }
                return Some(&self.channels[i]);
            }
            i += 1;
        }
        proof {
            lemma_table_rows(rows, channel_key());
            if self.channels().contains_key(id) {
                let row = self.channels()[id];
                let at = choose|j: int| 0 <= j < rows.len() && rows[j] == row;
                assert(rows[at].id == id);
            }
        }
        None
    }


    /// Stores `row`: inserts it where the table has no message of that id,
    /// else brings content, edit time, flags and attachments up to date.
    pub fn put_message(&mut self, row: MessageRow)
        requires
            old(self).wf(),
        ensures
            final(self).wf(),
            final(self).messages() == with_message(old(self).messages(), row@),
            final(self).same_but_messages(old(self)),
    {
        broadcast use vstd::std_specs::hash::group_hash_axioms;

        let id = row.id;
        let ghost before = self.messages();
        match self.messages.remove(&id) {
            Some(found) => {
                let merged = MessageRow {
                    id: found.id,
                    channel_id: found.channel_id,
                    author_id: found.author_id,
                    guild_id: found.guild_id,
                    content: row.content,
                    created_at: found.created_at,
                    edited_at: row.edited_at,
                    message_type: found.message_type,
                    flags: row.flags,
                    referenced_message_id: found.referenced_message_id,
                    attachments: row.attachments,
                    deleted_at: found.deleted_at,
                };
                self.messages.insert(id, merged);
            },
            None => {
                let answered_is_stored = match row.referenced_message_id {
                    Some(answered) => self.messages.contains_key(&answered),
                    None => false,
                };
                let resolved = reference_to_store(row.referenced_message_id, answered_is_stored);
                let fresh = MessageRow {
                    id: row.id,
                    channel_id: row.channel_id,
                    author_id: row.author_id,
                    guild_id: row.guild_id,
                    content: row.content,
                    created_at: row.created_at,
                    edited_at: row.edited_at,
                    message_type: row.message_type,
                    flags: row.flags,
                    referenced_message_id: resolved,
                    attachments: row.attachments,
                    deleted_at: None,
                };
                self.messages.insert(id, fresh);
            },
        }
        assert(self.messages() =~= with_message(before, row@));
    }

    /// Marks the message `id` as deleted at `now`. A message that is not
    /// stored, or that carries a mark already, is left as it is.
    pub fn tombstone_message(&mut self, id: i64, now: i64)
        requires
            old(self).wf(),
        ensures
            final(self).wf(),
            final(self).messages() == with_tombstones(old(self).messages(), set![id], now),
            final(self).same_but_messages(old(self)),
    {
        broadcast use vstd::std_specs::hash::group_hash_axioms;

        let ghost before = self.messages();
        match self.messages.remove(&id) {
            Some(found) => {
                let marked = MessageRow {
                    id: found.id,
                    channel_id: found.channel_id,
                    author_id: found.author_id,
                    guild_id: found.guild_id,
                    content: found.content,
                    created_at: found.created_at,
                    edited_at: found.edited_at,
                    message_type: found.message_type,
                    flags: found.flags,
                    referenced_message_id: found.referenced_message_id,
                    attachments: found.attachments,
                    deleted_at: match found.deleted_at {
                        Some(at) => Some(at),
                        None => Some(now),
                    },
                };
                self.messages.insert(id, marked);
            },
            None => {},
        }
        assert(self.messages() =~= with_tombstones(before, set![id], now));
    }

    /// Marks every message whose id is in `ids` as deleted at `now`. What
    /// comes out depends on which ids are listed, not on their order or on
    /// how often one is listed.
    pub fn tombstone_messages(&mut self, ids: &Vec<i64>, now: i64)
        requires
            old(self).wf(),
        ensures
            final(self).wf(),
            final(self).messages() == with_tombstones(old(self).messages(), ids@.to_set(), now),
            final(self).same_but_messages(old(self)),
    {
        let ghost before = self.messages();
        assert(ids@.take(0).to_set() =~= Set::<i64>::empty());
        assert(self.messages() =~= with_tombstones(before, ids@.take(0).to_set(), now));
        let mut i: usize = 0;
        while i < ids.len()
            invariant
                i <= ids.len(),
                self.wf(),
                self.messages() == with_tombstones(before, ids@.take(i as int).to_set(), now),
                self.same_but_messages(old(self)),
            decreases ids.len() - i,
        {
            let ghost done = ids@.take(i as int).to_set();
            self.tombstone_message(ids[i], now);
            proof {
                assert(ids@.take(i + 1) == ids@.take(i as int).push(ids@[i as int]));
                ids@.take(i as int).lemma_push_to_set_commute(ids@[i as int]);
                assert(self.messages() =~= with_tombstones(
                    before,
                    done.insert(ids@[i as int]),
                    now,
                ));
            }
            i += 1;
        }
        assert(ids@.take(ids.len() as int) == ids@);
    }

    /// Stores `row` for a user seen in `guild`: inserts it where the table
    /// has no user of that id, else replaces it; either way the guilds the
    /// user was seen in before are kept, and `guild` joins them.
    pub fn put_user(&mut self, row: UserRow, guild: Option<i64>)
        requires
            old(self).wf(),
        ensures
            final(self).wf(),
            final(self).users() == with_user(old(self).users(), row@, guild),
            final(self).same_but_users(old(self)),
    {
        broadcast use vstd::std_specs::hash::group_hash_axioms;

        let id = row.id;
        let ghost before = self.users();
        let mut guilds: Vec<i64> = match self.users.remove(&id) {
            Some(found) => found.guilds,
            None => Vec::new(),
        };
        let ghost seen_before = guilds@;
        match guild {
            Some(g) => {
                if !holds_id(&guilds, g) {
                    guilds.push(g);
                    proof {
                        vstd::seq_lib::lemma_no_dup_in_concat(seen_before, seq![g]);
                        assert(seen_before.push(g) =~= seen_before + seq![g]);
                    }
                }
            },
            None => {},
        }
        let stored = UserRow {
            id: row.id,
            username: row.username,
            global_name: row.global_name,
            avatar: row.avatar,
            bot: row.bot,
            banner: row.banner,
            accent_color: row.accent_color,
            flags: row.flags,
            premium_type: row.premium_type,
            public_flags: row.public_flags,
            guilds,
        };
        self.users.insert(id, stored);
        assert(self.users() =~= with_user(before, row@, guild));
    }

    /// Stores `row`: inserts it where the table has no guild of that id,
    /// else replaces it. With `keep_owner`, a guild that was there keeps its
    /// owner.
    pub fn put_guild(&mut self, row: GuildRow, keep_owner: bool)
        requires
            old(self).wf(),
        ensures
            final(self).wf(),
            final(self).guilds() == with_guild(old(self).guilds(), row@, keep_owner),
            final(self).same_but_guilds(old(self)),
    {
        broadcast use vstd::std_specs::hash::group_hash_axioms;

        let id = row.id;
        let ghost before = self.guilds();
        let owner_id = match self.guilds.remove(&id) {
            Some(found) => if keep_owner {
                found.owner_id
            } else {
                row.owner_id
            },
            None => row.owner_id,
        };
        let stored = GuildRow {
            id: row.id,
            name: row.name,
            icon: row.icon,
            region: row.region,
            owner_id,
            member_count: row.member_count,
            features: row.features,
            premium_tier: row.premium_tier,
        };
        self.guilds.insert(id, stored);
        assert(self.guilds() =~= with_guild(before, row@, keep_owner));
    }

    /// Takes the rows that `selector` is about out of the role table.
    pub fn drop_roles(&mut self, selector: RoleSelector)
        requires
            old(self).wf(),
        ensures
            final(self).wf(),
            final(self).roles() == without_roles(old(self).roles(), selector),
            final(self).same_but_roles(old(self)),
    {
        let ghost before = self.roles@;
        let ghost mut seen: int = 0;
        let mut i: usize = 0;
        while i < self.roles.len()
            invariant
                0 <= seen <= before.len(),
                i == before.take(seen).filter(selector.spares()).len(),
                self.roles@ == before.take(seen).filter(selector.spares()) + before.skip(seen),
                self.messages == old(self).messages,
                self.users == old(self).users,
                self.guilds == old(self).guilds,
                self.channels == old(self).channels,
            decreases before.len() - seen,
        {
            let ghost kept = before.take(seen).filter(selector.spares());
            assert(self.roles@[i as int] == before[seen]);
            assert(before.take(seen + 1) == before.take(seen).push(before[seen]));
            proof {
                before.take(seen).lemma_filter_push(before[seen], selector.spares());
            }
            if selector.picks(&self.roles[i]) {
                self.roles.remove(i);
                assert(self.roles@ == kept + before.skip(seen + 1));
            } else {
                i += 1;
                assert(self.roles@ == kept.push(before[seen]) + before.skip(seen + 1));
            }
            proof {
                seen = seen + 1;
            }
        }
        proof {
            assert(before.take(seen) == before);
            assert(self.roles@ == before.filter(selector.spares()));
            lemma_table_filter(before, role_key(), selector.spares());
            assert(self.roles() =~= without_roles(old(self).roles(), selector));
        }
    }

    /// Stores `row` in the role table, in place of the role of that id in
    /// that guild if the table holds one.
    pub fn put_role(&mut self, row: RoleRow)
        requires
            old(self).wf(),
        ensures
            final(self).wf(),
            final(self).roles() == with_role(old(self).roles(), row),
            final(self).same_but_roles(old(self)),
    {
        self.drop_roles(RoleSelector::Key(row.id, row.guild_id));
        proof {
            lemma_table_push(self.roles@, role_key(), row);
        }
        self.roles.push(row);
        assert(self.roles() =~= with_role(old(self).roles(), row));
    }

    /// Takes the rows that `selector` is about out of the channel table.
    pub fn drop_channels(&mut self, selector: ChannelSelector)
        requires
            old(self).wf(),
        ensures
            final(self).wf(),
            final(self).channels() == without_channels(old(self).channels(), selector),
            final(self).same_but_channels(old(self)),
    {
        let ghost before = self.channels@.map_values(channel_view());
        let ghost mut seen: int = 0;
        let mut i: usize = 0;
        while i < self.channels.len()
            invariant
                0 <= seen <= before.len(),
                i == before.take(seen).filter(selector.spares()).len(),
                self.channels@.map_values(channel_view()) == before.take(seen).filter(
                    selector.spares(),
                ) + before.skip(seen),
                self.messages == old(self).messages,
                self.users == old(self).users,
                self.guilds == old(self).guilds,
                self.roles == old(self).roles,
            decreases before.len() - seen,
        {
            let ghost kept = before.take(seen).filter(selector.spares());
            let ghost rows = self.channels@;
            assert(rows.map_values(channel_view()).len() == rows.len());
            assert(rows.map_values(channel_view())[i as int] == before[seen]);
            assert(before.take(seen + 1) == before.take(seen).push(before[seen]));
            proof {
                before.take(seen).lemma_filter_push(before[seen], selector.spares());
            }
            if selector.picks(&self.channels[i]) {
                self.channels.remove(i);
                assert(self.channels@.map_values(channel_view()) == rows.map_values(
                    channel_view(),
                ).remove(i as int));
                assert(self.channels@.map_values(channel_view()) == kept + before.skip(seen + 1));
            } else {
                i += 1;
                assert(self.channels@.map_values(channel_view()) == kept.push(before[seen])
                    + before.skip(seen + 1));
            }
            proof {
                seen = seen + 1;
            }
        }
        proof {
            assert(before.take(seen) == before);
            assert(self.channels@.map_values(channel_view()) == before.filter(selector.spares()));
            lemma_table_filter(before, channel_key(), selector.spares());
            assert(self.channels() =~= without_channels(old(self).channels(), selector));
        }
    }

    /// Stores `row` in the channel table, in place of the channel of that id
    /// if the table holds one.
    pub fn put_channel(&mut self, row: ChannelRow)
        requires
            old(self).wf(),
        ensures
            final(self).wf(),
            final(self).channels() == with_channel(old(self).channels(), row@),
            final(self).same_but_channels(old(self)),
    {
        self.drop_channels(ChannelSelector::Id(row.id));
        proof {
            lemma_table_push(self.channels@.map_values(channel_view()), channel_key(), row@);
            assert(self.channels@.push(row).map_values(channel_view())
                == self.channels@.map_values(channel_view()).push(row@));
        }
        self.channels.push(row);
        assert(self.channels() =~= with_channel(old(self).channels(), row@));
    }
}

/// The numbers that the id columns hold for `ids`, in the same order.
pub open spec fn sql_ids(ids: Seq<u64>) -> Seq<i64> {
    ids.map_values(|id: u64| spec_sql_id(id) as i64)
}

/// No item is smaller than one before it.
pub open spec fn ascending(ids: Seq<i64>) -> bool {
    forall|i: int, j: int| 0 <= i <= j < ids.len() ==> ids[i] <= ids[j]
}

/// The order of stored ids.
pub open spec fn at_most() -> spec_fn(i64, i64) -> bool {
    |a: i64, b: i64| a <= b
}

/// The items of `ids`, ascending.
pub open spec fn sorted_ids(ids: Seq<i64>) -> Seq<i64> {
    ids.sort_by(at_most())
}

/// `sorted_ids` is ascending and holds what `ids` holds, each item as often.
pub proof fn lemma_sorted_ids(ids: Seq<i64>)
    ensures
        ascending(sorted_ids(ids)),
        sorted_ids(ids).to_multiset() == ids.to_multiset(),
        sorted_ids(ids).to_set() == ids.to_set(),
        sorted_ids(ids).len() == ids.len(),
{
    broadcast use vstd::seq_lib::group_to_multiset_ensures;

    assert(vstd::relations::total_ordering(at_most()));
    ids.lemma_sort_by_ensures(at_most());
    let sorted = sorted_ids(ids);
    assert forall|i: int, j: int| 0 <= i <= j < sorted.len() implies sorted[i] <= sorted[j] by {
        if i < j {
            assert(at_most()(sorted[i], sorted[j]));
        }
    }
    assert forall|id: i64| sorted.contains(id) <==> ids.contains(id) by {
        assert(sorted.to_multiset().count(id) == ids.to_multiset().count(id));
    }
    assert(sorted.to_set() =~= ids.to_set());
    assert(sorted.len() == sorted.to_multiset().len());
    assert(ids.len() == ids.to_multiset().len());
}

/// Sorts `ids` in place, ascending, by insertion: each item in turn moves
/// down past every greater item before it.
pub fn sort_ascending(ids: &mut Vec<i64>)
    ensures
        ascending(final(ids)@),
        final(ids)@.to_multiset() == old(ids)@.to_multiset(),
{
    broadcast use vstd::seq_lib::group_to_multiset_ensures;

    let mut i: usize = 0;
    while i < ids.len()
        invariant
            i <= ids.len(),
            ids@.len() == old(ids)@.len(),
            ids@.to_multiset() == old(ids)@.to_multiset(),
            forall|a: int, b: int| 0 <= a <= b < i ==> ids@[a] <= ids@[b],
        decreases ids.len() - i,
    {
        let mut j: usize = i;
        while j > 0 && ids[j - 1] > ids[j]
            invariant
                j <= i < ids.len(),
                ids@.len() == old(ids)@.len(),
                ids@.to_multiset() == old(ids)@.to_multiset(),
                forall|a: int, b: int| 0 <= a <= b <= i && a != j && b != j ==> ids@[a] <= ids@[b],
                forall|b: int| j < b <= i ==> ids@[j as int] <= ids@[b],
            decreases j,
        {
            let ghost before = ids@;
            let low = ids[j];
            let high = ids[j - 1];
            ids.set(j - 1, low);
            ids.set(j, high);
            assert(ids@.to_multiset() == before.to_multiset()) by {
                broadcast use vstd::multiset::group_multiset_axioms;

                let middle = before.update(j - 1, low);
                assert(ids@ == middle.update(j as int, high));
                vstd::seq_lib::to_multiset_update(before, j - 1, low);
                vstd::seq_lib::to_multiset_update(middle, j as int, high);
                assert(before[j as int] == low && before[j - 1] == high);
                assert(before.contains(low) && before.contains(high));
                vstd::seq_lib::to_multiset_contains(before, low);
                vstd::seq_lib::to_multiset_contains(before, high);
                assert(ids@.to_multiset() =~= before.to_multiset());
            }
            j -= 1;
        }
        i += 1;
    }
}

/// The stored forms of `msg_ids`, ascending: the order in which a deletion
/// of many messages touches their rows, whatever order the ids came in.
pub fn sorted_sql_ids(msg_ids: &[u64]) -> (ids: Vec<i64>)
    ensures
        ids@ == sorted_ids(sql_ids(msg_ids@)),
{
    let mut ids: Vec<i64> = Vec::new();
    let mut i: usize = 0;
    while i < msg_ids.len()
        invariant
            i <= msg_ids.len(),
            ids@ == sql_ids(msg_ids@.take(i as int)),
        decreases msg_ids.len() - i,
    {
        ids.push(sql_id(msg_ids[i]));
        i += 1;
        assert(ids@ =~= sql_ids(msg_ids@.take(i as int)));
    }
    assert(msg_ids@.take(msg_ids.len() as int) == msg_ids@);
    let ghost unsorted = ids@;
    sort_ascending(&mut ids);
    proof {
        assert(vstd::relations::total_ordering(at_most()));
        unsorted.lemma_sort_by_ensures(at_most());
        assert(vstd::relations::sorted_by(ids@, at_most())) by {
            assert forall|i: int, j: int| 0 <= i < j < ids@.len() implies #[trigger] at_most()(
                ids@[i],
                ids@[j],
            ) by {}
        }
        vstd::seq_lib::lemma_sorted_unique(ids@, sorted_ids(unsorted), at_most());
    }
    ids
}

/// Stores `msg`, seen in guild `guild_id`: a new message is inserted, with
/// its reference kept only if the store holds the answered message; a known
/// one has content, edit time, flags and attachments brought up to date.
pub fn upsert_message(msg: &Message, guild_id: Option<u64>, db: &mut Store)
    requires
        old(db).wf(),
    ensures
        final(db).wf(),
        final(db).messages() == with_message(
            old(db).messages(),
            spec_message_row(*msg, guild_id),
        ),
        final(db).same_but_messages(old(db)),
{
    db.put_message(message_row(msg, guild_id));
}

/// Marks the message `msg_id` as deleted at `now`, unless it is marked
/// already or not stored.
pub fn delete_message(msg_id: &u64, db: &mut Store, now: i64)
    requires
        old(db).wf(),
    ensures
        final(db).wf(),
        final(db).messages() == with_tombstones(
            old(db).messages(),
            set![spec_sql_id(*msg_id) as i64],
            now,
        ),
        final(db).same_but_messages(old(db)),
{
    db.tombstone_message(sql_id(*msg_id), now);
}

/// Marks the messages `msg_ids` as deleted at `now`, in ascending order of
/// their ids. A message that is marked already keeps its mark.
pub fn bulk_delete_messages(msg_ids: &[u64], db: &mut Store, now: i64)
    requires
        old(db).wf(),
    ensures
        final(db).wf(),
        final(db).messages() == with_tombstones(
            old(db).messages(),
            sql_ids(msg_ids@).to_set(),
            now,
        ),
        final(db).same_but_messages(old(db)),
{
    if msg_ids.len() == 0 {
        assert(sql_ids(msg_ids@).to_set() =~= Set::<i64>::empty());
        assert(db.messages() =~= with_tombstones(db.messages(), Set::<i64>::empty(), now));
        return ;
    }
    let ids = sorted_sql_ids(msg_ids);
    proof {
        lemma_sorted_ids(sql_ids(msg_ids@));
    }
    db.tombstone_messages(&ids, now);
}

/// Stores `user`, seen in guild `guild_id` where one is given: the row is
/// inserted or replaced, and the guild joins those the user was seen in.
pub fn upsert_user(user: &User, db: &mut Store, guild_id: Option<u64>)
    requires
        old(db).wf(),
    ensures
        final(db).wf(),
        final(db).users() == with_user(
            old(db).users(),
            spec_user_row(*user),
            crate::columns::spec_sql_id_opt(guild_id),
        ),
        final(db).same_but_users(old(db)),
{
    db.put_user(user_row(user), crate::columns::sql_id_opt(guild_id));
}

/// The user table after each of `users` was stored, first to last, none of
/// them seen in a guild.
pub open spec fn with_users(users: Map<i64, UserRecord>, added: Seq<User>) -> Map<i64, UserRecord>
    decreases added.len(),
{
    if added.len() == 0 {
        users
    } else {
        with_user(with_users(users, added.drop_last()), spec_user_row(added.last()), None)
    }
}

/// Stores each of `users`, first to last, none of them seen in a guild.
pub fn bulk_upsert_users(users: &[User], db: &mut Store)
    requires
        old(db).wf(),
    ensures
        final(db).wf(),
        final(db).users() == with_users(old(db).users(), users@),
        final(db).same_but_users(old(db)),
{
    let mut i: usize = 0;
    while i < users.len()
        invariant
            i <= users.len(),
            db.wf(),
            db.users() == with_users(old(db).users(), users@.take(i as int)),
            db.same_but_users(old(db)),
        decreases users.len() - i,
    {
        db.put_user(user_row(&users[i]), None);
        i += 1;
        assert(users@.take(i as int).drop_last() == users@.take(i - 1));
    }
    assert(users@.take(users.len() as int) == users@);
}

/// Stores `guild`. A guild that is not fully loaded is stored as the
/// snapshot describes it, and keeps the owner it was stored with before.
pub fn upsert_guild(guild: &Guild, db: &mut Store)
    requires
        old(db).wf(),
    ensures
        final(db).wf(),
        final(db).guilds() == with_guild(
            old(db).guilds(),
            spec_guild_row(*guild),
            guild.properties is None,
        ),
        final(db).same_but_guilds(old(db)),
{
    let keep_owner = guild.properties.is_none();
    db.put_guild(guild_row(guild), keep_owner);
}

/// The rows for `roles` of guild `guild_id`, in the same order.
pub open spec fn role_rows(roles: Seq<Role>, guild_id: u64) -> Seq<RoleRow> {
    roles.map_values(|role: Role| spec_role_row(role, guild_id))
}

/// Stores each of `roles` as a role of guild `guild_id`, first to last.
pub fn bulk_upsert_roles(roles: &[Role], guild_id: u64, db: &mut Store)
    requires
        old(db).wf(),
    ensures
        final(db).wf(),
        final(db).roles() == with_roles(old(db).roles(), role_rows(roles@, guild_id)),
        final(db).same_but_roles(old(db)),
{
    let mut i: usize = 0;
    while i < roles.len()
        invariant
            i <= roles.len(),
            db.wf(),
            db.roles() == with_roles(old(db).roles(), role_rows(roles@.take(i as int), guild_id)),
            db.same_but_roles(old(db)),
        decreases roles.len() - i,
    {
        db.put_role(role_row(&roles[i], guild_id));
        i += 1;
        assert(role_rows(roles@.take(i as int), guild_id).drop_last() == role_rows(
            roles@.take(i - 1),
            guild_id,
        ));
    }
    assert(roles@.take(roles.len() as int) == roles@);
}

/// The rows for `channels` under guild `guild_id`, in the same order.
pub open spec fn channel_rows(channels: Seq<Channel>, guild_id: Option<u64>) -> Seq<
    ChannelRecord,
> {
    channels.map_values(|channel: Channel| spec_channel_row(channel, guild_id))
}

/// Stores each of `channels` under guild `guild_id`, first to last.
pub fn bulk_upsert_channels(channels: &[Channel], guild_id: Option<u64>, db: &mut Store)
    requires
        old(db).wf(),
    ensures
        final(db).wf(),
        final(db).channels() == with_channels(
            old(db).channels(),
            channel_rows(channels@, guild_id),
        ),
        final(db).same_but_channels(old(db)),
{
    let mut i: usize = 0;
    while i < channels.len()
        invariant
            i <= channels.len(),
            db.wf(),
            db.channels() == with_channels(
                old(db).channels(),
                channel_rows(channels@.take(i as int), guild_id),
            ),
            db.same_but_channels(old(db)),
        decreases channels.len() - i,
    {
        db.put_channel(channel_row(&channels[i], guild_id));
        i += 1;
        assert(channel_rows(channels@.take(i as int), guild_id).drop_last() == channel_rows(
            channels@.take(i - 1),
            guild_id,
        ));
    }
    assert(channels@.take(channels.len() as int) == channels@);
}

/// Removes every channel stored under guild `guild_id`.
pub fn delete_guild_channels(guild_id: u64, db: &mut Store)
    requires
        old(db).wf(),
    ensures
        final(db).wf(),
        final(db).channels() == without_channels(
            old(db).channels(),
            ChannelSelector::Guild(spec_sql_id(guild_id) as i64),
        ),
        final(db).same_but_channels(old(db)),
{
    db.drop_channels(ChannelSelector::Guild(sql_id(guild_id)));
}

/// Removes every role of guild `guild_id`.
pub fn delete_guild_roles(guild_id: u64, db: &mut Store)
    requires
        old(db).wf(),
    ensures
        final(db).wf(),
        final(db).roles() == without_roles(
            old(db).roles(),
            RoleSelector::Guild(spec_sql_id(guild_id) as i64),
        ),
        final(db).same_but_roles(old(db)),
{
    db.drop_roles(RoleSelector::Guild(sql_id(guild_id)));
}

/// Removes the channel `channel_id`.
pub fn delete_channel(channel_id: u64, db: &mut Store)
    requires
        old(db).wf(),
    ensures
        final(db).wf(),
        final(db).channels() == without_channels(
            old(db).channels(),
            ChannelSelector::Id(spec_sql_id(channel_id) as i64),
        ),
        final(db).same_but_channels(old(db)),
{
    db.drop_channels(ChannelSelector::Id(sql_id(channel_id)));
}

/// Removes the role `role_id`, in whichever guild it is stored.
pub fn delete_role(role_id: u64, db: &mut Store)
    requires
        old(db).wf(),
    ensures
        final(db).wf(),
        final(db).roles() == without_roles(
            old(db).roles(),
            RoleSelector::Id(spec_sql_id(role_id) as i64),
        ),
        final(db).same_but_roles(old(db)),
{
    db.drop_roles(RoleSelector::Id(sql_id(role_id)));
}

} // verus!
