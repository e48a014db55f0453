//! The supervisor of one account's realtime session, as a state machine:
//! given where the session stands and what just happened, where it stands
//! next and what is to be done.

use vstd::prelude::*;
use crate::config::Config;
use crate::event_processor::guild::{
    process_channel_create, process_channel_delete, process_channel_update,
    process_ready_guilds, process_role_create, process_role_delete, process_role_update,
    ready_ops, upsert_channel_op, upsert_role_op,
};
use crate::event_processor::message::{
    bulk_delete_ops, downloads_wanted, message_ops, process_message_create,
    process_message_delete, process_message_delete_bulk, process_message_update,
    upsert_user_op, upsert_user_ops,
};
use crate::event_processor::misc::{process_ready_supplemental, supplemental_users};
use crate::event_processor::user::{
    member_users, process_guild_member_update, process_guild_members_chunk,
};
use crate::events::{Event, GuildBanAddEvent};
use crate::columns::spec_sql_id;
use crate::model::{Attachment, Embed, Guild};
use crate::ops::{ops_view, Op, StoreOp};
use crate::text::{
    chars_of, contains_text, decimal, occurs_in, push_chars, push_decimal, push_str_chars,
    string_of,
};

verus! {

/// How long a session waits before it connects again, in seconds.
pub const RECONNECT_BACKOFF_SECS: u64 = 5;

/// How long a session waits between two requests for recent members, in
/// seconds.
pub const MEMBER_REFRESH_SECS: u64 = 600;

/// Where a session stands.
#[derive(Clone, Copy, Debug, PartialEq, Eq, Structural)]
pub enum SessionState {
    /// Not connected, and not about to be: before the start, or after a
    /// failure that ends the session.
    Disconnected,
    /// A connection attempt is under way.
    Connecting,
    /// Connected; the snapshot with the guilds to subscribe to is awaited.
    SubscribingGuilds,
    /// Connected and subscribed; events are consumed.
    EventLoop,
    /// The connection was lost; the session waits before it connects again.
    Reconnecting,
}

/// One account's session.
#[derive(Debug)]
pub struct Session {
    pub account_index: usize,
    pub token: String,
    pub state: SessionState,
    /// The guilds subscribed to, in the order of the latest snapshot.
    pub guild_ids: Vec<u64>,
    /// The place in `guild_ids` of the guild whose recent members are asked
    /// for next.
    pub refresh_cursor: usize,
    /// When recent members were last asked for, or the session connected:
    /// a reading of a clock that counts seconds and never goes back.
    pub last_refresh: u64,
    /// Whether a connection attempt of this session ever succeeded.
    pub connected_before: bool,
}

/// What just happened to a session.
#[derive(Debug)]
pub enum SessionInput {
    /// The session is asked to start.
    Start,
    /// The connection attempt succeeded.
    Connected,
    /// The connection attempt failed.
    ConnectFailed,
    /// The feed delivered an event.
    Event(Event),
    /// The feed reported an error, in these words.
    EventError { text: String },
    /// The subscription request failed.
    SubscribeFailed,
    /// The wait before connecting again is over.
    BackoffElapsed,
}

/// The file written when a guild bans a user.
#[derive(Debug)]
pub struct BanRecord {
    pub file_name: String,
    pub content: String,
}

/// What is to be done after one step of a session. The parts are carried
/// out in the order of the fields; a part that fails is logged and does not
/// keep the others from being carried out.
#[derive(Debug)]
pub struct SessionStep {
    /// Open a connection with the session's token.
    pub connect: bool,
    /// Carry out these store operations, first to last.
    pub store_ops: Vec<StoreOp>,
    /// Download these attachments, in the background.
    pub attachments: Vec<Attachment>,
    /// Download the media of these embeds, in the background.
    pub embeds: Vec<Embed>,
    /// The message that the downloads belong to.
    pub message_id: u64,
    /// Subscribe to these guilds in one request.
    pub subscribe: Option<Vec<u64>>,
    /// Ask for the recent members of this guild.
    pub request_members: Option<u64>,
    /// Write this file, over the one of the same name.
    pub ban_record: Option<BanRecord>,
    /// Wait this many seconds, then report `BackoffElapsed`.
    pub backoff_secs: Option<u64>,
    /// The session has ended with an error, which goes to the caller.
    pub failed: bool,
}

/// Whether a session in `state` consumes events.
pub open spec fn listening(state: SessionState) -> bool {
    state is SubscribingGuilds || state is EventLoop
}

/// Whether an error in these words means that the connection is lost.
pub open spec fn connection_lost(text: Seq<char>) -> bool {
    occurs_in(text, "client error (Connect)"@)
}

/// Whether `input` is an error that means the connection is lost.
pub open spec fn fatal_error(input: SessionInput) -> bool {
    match input {
        SessionInput::EventError { text } => connection_lost(text@),
        _ => false,
    }
}

/// Whether `input` is an error that leaves the connection up.
pub open spec fn passing_error(input: SessionInput) -> bool {
    match input {
        SessionInput::EventError { text } => !connection_lost(text@),
        _ => false,
    }
}

/// The ids of `guilds`, in order.
pub open spec fn guild_ids_of(guilds: Seq<Guild>) -> Seq<u64> {
    guilds.map_values(|guild: Guild| guild.id)
}

/// The name of the file written when `guild_id` bans a user.
pub open spec fn ban_file_name(guild_id: u64) -> Seq<char> {
    "banned_user_"@ + decimal(guild_id as nat) + ".txt"@
}

/// What the file says that is written when `guild_id` bans the user
/// `user_id`, known as `username`.
pub open spec fn ban_file_content(guild_id: u64, user_id: u64, username: Seq<char>) -> Seq<char> {
    "Guild ID: "@ + decimal(guild_id as nat) + "\nUser ID: "@ + decimal(user_id as nat)
        + "\nUsername: "@ + username
}

/// The store operations that `event` calls for.
pub open spec fn event_ops(event: Event, config: Config) -> Seq<Op> {
    let persist = config.use_db;
    match event {
        Event::Ready(e) => if persist {
            ready_ops(e.guilds@, e.merged_members, e.users)
        } else {
            Seq::empty()
        },
        Event::ReadySupplemental(e) => if persist {
            upsert_user_ops(supplemental_users(e), None)
        } else {
            Seq::empty()
        },
        Event::MessageCreate(e) => message_ops(
            e.message,
            e.message.author,
            e.guild_id,
            persist,
            config,
        ),
        Event::MessageUpdate(e) => message_ops(
            e.message,
            e.message.author,
            e.guild_id,
            persist,
            config,
        ),
        Event::MessageDelete(e) => if persist {
            seq![Op::DeleteMessage { id: spec_sql_id(e.id) as i64 }]
        } else {
            Seq::empty()
        },
        Event::MessageDeleteBulk(e) => bulk_delete_ops(e.ids@, persist),
        Event::ChannelCreate(e) => if persist {
            seq![upsert_channel_op(e.channel, None)]
        } else {
            Seq::empty()
        },
        Event::ChannelUpdate(e) => if persist {
            seq![upsert_channel_op(e.channel, None)]
        } else {
            Seq::empty()
        },
        Event::ChannelDelete(e) => if persist {
            seq![Op::DeleteChannel { id: spec_sql_id(e.channel.id) as i64 }]
        } else {
            Seq::empty()
        },
        Event::GuildRoleCreate(e) => if persist {
            seq![upsert_role_op(e.role, e.guild_id)]
        } else {
            Seq::empty()
        },
        Event::GuildRoleUpdate(e) => if persist {
            seq![upsert_role_op(e.role, e.guild_id)]
        } else {
            Seq::empty()
        },
        Event::GuildRoleDelete(e) => if persist {
            seq![Op::DeleteRole { id: spec_sql_id(e.role_id) as i64 }]
        } else {
            Seq::empty()
        },
        Event::GuildMembersChunk(e) => if persist {
            upsert_user_ops(member_users(e.members@), None)
        } else {
            Seq::empty()
        },
        Event::GuildMemberUpdate(e) => if persist {
            seq![upsert_user_op(e.user, Some(e.guild_id))]
        } else {
            Seq::empty()
        },
        Event::GuildBanAdd(_) => Seq::empty(),
        Event::Other => Seq::empty(),
    }
}

/// The attachments that `event` hands out for download.
pub open spec fn event_attachments(event: Event, config: Config) -> Seq<Attachment> {
    match event {
        Event::MessageCreate(e) => if downloads_wanted(config, e.message.author) {
            e.message.attachments@
        } else {
            Seq::empty()
        },
        Event::MessageUpdate(e) => if downloads_wanted(config, e.message.author) {
            e.message.attachments@
        } else {
            Seq::empty()
        },
        _ => Seq::empty(),
    }
}

/// The embeds that `event` hands out for download.
pub open spec fn event_embeds(event: Event, config: Config) -> Seq<Embed> {
    match event {
        Event::MessageCreate(e) => if downloads_wanted(config, e.message.author) {
            e.message.embeds@
        } else {
            Seq::empty()
        },
        Event::MessageUpdate(e) => if downloads_wanted(config, e.message.author) {
            e.message.embeds@
        } else {
            Seq::empty()
        },
        _ => Seq::empty(),
    }
}

/// The message that the downloads of `event` belong to; 0 for an event
/// that is not about a message.
pub open spec fn event_message_id(event: Event) -> u64 {
    match event {
        Event::MessageCreate(e) => e.message.id,
        Event::MessageUpdate(e) => e.message.id,
        _ => 0,
    }
}

/// The name and the content of the file that `event` has written.
pub open spec fn event_ban_record(event: Event) -> Option<(Seq<char>, Seq<char>)> {
    match event {
        Event::GuildBanAdd(e) => Some(
            (ban_file_name(e.guild_id), ban_file_content(e.guild_id, e.user.id, e.user.username@)),
        ),
        _ => None,
    }
}

impl BanRecord {
    /// The name and the content of the file.
    pub open spec fn view(&self) -> (Seq<char>, Seq<char>) {
        (self.file_name@, self.content@)
    }
}

/// The name and the content of an optional file.
pub open spec fn ban_view(record: Option<BanRecord>) -> Option<(Seq<char>, Seq<char>)> {
    match record {
        Some(r) => Some(r@),
        None => None,
    }
}

/// The items of an optional list of ids.
pub open spec fn ids_view(ids: Option<Vec<u64>>) -> Option<Seq<u64>> {
    match ids {
        Some(v) => Some(v@),
        None => None,
    }
}

/// What a session holds, its list of guilds seen as a sequence, without
/// what names the account.
pub struct SessionView {
    pub state: SessionState,
    pub guild_ids: Seq<u64>,
    pub refresh_cursor: usize,
    pub last_refresh: u64,
    pub connected_before: bool,
}

impl View for Session {
    type V = SessionView;

    open spec fn view(&self) -> SessionView {
        SessionView {
            state: self.state,
            guild_ids: self.guild_ids@,
            refresh_cursor: self.refresh_cursor,
            last_refresh: self.last_refresh,
            connected_before: self.connected_before,
        }
    }
}

impl SessionView {
    /// The event that the session consumes in this step, if any: the one
    /// delivered, where the session consumes events.
    pub open spec fn consumed(self, input: SessionInput) -> Option<Event> {
        match input {
            SessionInput::Event(event) => if listening(self.state) {
                Some(event)
            } else {
                None
            },
            _ => None,
        }
    }

    /// The snapshot's guilds, where this step consumes a snapshot.
    pub open spec fn snapshot(self, input: SessionInput) -> Option<Seq<u64>> {
        match self.consumed(input) {
            Some(Event::Ready(e)) => Some(guild_ids_of(e.guilds@)),
            _ => None,
        }
    }

    /// Whether the connection attempt of this step succeeded.
    pub open spec fn connects(self, input: SessionInput) -> bool {
        self.state is Connecting && input is Connected
    }

    /// Whether this step finds the connection lost.
    pub open spec fn loses_connection(self, input: SessionInput) -> bool {
        ||| (self.state is Connecting && input is ConnectFailed && self.connected_before)
        ||| (listening(self.state) && fatal_error(input))
    }

    /// Whether this step ends the session with an error: the first
    /// connection attempt failed, or a subscription did.
    pub open spec fn fails(self, input: SessionInput) -> bool {
        ||| (self.state is Connecting && input is ConnectFailed && !self.connected_before)
        ||| (listening(self.state) && input is SubscribeFailed)
    }

    /// Whether this step opens a connection.
    pub open spec fn opens(self, input: SessionInput) -> bool {
        ||| (self.state is Disconnected && input is Start)
        ||| (self.state is Reconnecting && input is BackoffElapsed)
    }

    /// Where the session stands after this step. What is not listed here
    /// leaves the session where it stands.
    pub open spec fn next_state(self, input: SessionInput) -> SessionState {
        if self.opens(input) {
            SessionState::Connecting
        } else if self.connects(input) {
            SessionState::SubscribingGuilds
        } else if self.loses_connection(input) {
            SessionState::Reconnecting
        } else if self.fails(input) {
            SessionState::Disconnected
        } else if self.snapshot(input) is Some {
            SessionState::EventLoop
        } else {
            self.state
        }
    }

    /// The guilds subscribed to after this step: none after connecting,
    /// the snapshot's after a snapshot.
    pub open spec fn next_guild_ids(self, input: SessionInput) -> Seq<u64> {
        if self.connects(input) {
            Seq::empty()
        } else {
            match self.snapshot(input) {
                Some(ids) => ids,
                None => self.guild_ids,
            }
        }
    }

    /// The cursor before this step asks for members: 0 after connecting,
    /// and 0 where a snapshot lists fewer guilds than the cursor says.
    pub open spec fn settled_cursor(self, input: SessionInput) -> usize {
        if self.connects(input) {
            0
        } else {
            match self.snapshot(input) {
                Some(ids) => if ids.len() < self.refresh_cursor {
                    0
                } else {
                    self.refresh_cursor
                },
                None => self.refresh_cursor,
            }
        }
    }

    /// Whether this step comes by the request for recent members: the
    /// session has consumed an event or passed over an error, events are
    /// persisted, and the interval since the last request is over.
    pub open spec fn refresh_due(self, input: SessionInput, now: u64, config: Config) -> bool {
        &&& listening(self.state)
        &&& config.use_db
        &&& (input is Event || passing_error(input))
        &&& now >= self.last_refresh
        &&& now - self.last_refresh >= MEMBER_REFRESH_SECS
    }

    /// The guild whose recent members this step asks for: the one under the
    /// cursor, where the cursor is on a guild.
    pub open spec fn requested_guild(self, input: SessionInput, now: u64, config: Config) -> Option<
        u64,
    > {
        let ids = self.next_guild_ids(input);
        let cursor = self.settled_cursor(input);
        if self.refresh_due(input, now, config) && cursor < ids.len() {
            Some(ids[cursor as int])
        } else {
            None
        }
    }

    /// The cursor after this step: one further where members were due to be
    /// asked for, back at 0 past the last guild.
    pub open spec fn next_cursor(self, input: SessionInput, now: u64, config: Config) -> usize {
        let ids = self.next_guild_ids(input);
        let cursor = self.settled_cursor(input);
        if self.refresh_due(input, now, config) {
            if cursor + 1 >= ids.len() {
                0
            } else {
                (cursor + 1) as usize
            }
        } else {
            cursor
        }
    }

    /// The time of the last request after this step.
    pub open spec fn next_last_refresh(self, input: SessionInput, now: u64, config: Config) -> u64 {
        if self.connects(input) || self.refresh_due(input, now, config) {
            now
        } else {
            self.last_refresh
        }
    }

    /// The session after this step, taken at the time `now`.
    pub open spec fn after(self, input: SessionInput, now: u64, config: Config) -> SessionView {
        SessionView {
            state: self.next_state(input),
            guild_ids: self.next_guild_ids(input),
            refresh_cursor: self.next_cursor(input, now, config),
            last_refresh: self.next_last_refresh(input, now, config),
            connected_before: self.connected_before || self.connects(input),
        }
    }
}

impl Session {
    /// A session that has not started.
    pub fn new(account_index: usize, token: String) -> (session: Session)
        ensures
            session.account_index == account_index,
            session.token == token,
            session.state is Disconnected,
            session.guild_ids@.len() == 0,
            session.refresh_cursor == 0,
            session.last_refresh == 0,
            !session.connected_before,
    {
        Session {
            account_index,
            token,
            state: SessionState::Disconnected,
            guild_ids: Vec::new(),
            refresh_cursor: 0,
            last_refresh: 0,
            connected_before: false,
        }
    }
}

impl SessionStep {
    /// Nothing to do.
    pub fn idle() -> (step: SessionStep)
        ensures
            !step.connect,
            step.store_ops@.len() == 0,
            step.attachments@.len() == 0,
            step.embeds@.len() == 0,
            step.message_id == 0,
            step.subscribe is None,
            step.request_members is None,
            step.ban_record is None,
            step.backoff_secs is None,
            !step.failed,
    {
        SessionStep {
            connect: false,
            store_ops: Vec::new(),
            attachments: Vec::new(),
            embeds: Vec::new(),
            message_id: 0,
            subscribe: None,
            request_members: None,
            ban_record: None,
            backoff_secs: None,
            failed: false,
        }
    }
}

/// Whether an error in these words means that the connection is lost.
pub fn is_connection_error(text: &str) -> (lost: bool)
    ensures
        lost == connection_lost(text@),
{
    let hay = chars_of(text);
    let needle = chars_of("client error (Connect)");
    contains_text(&hay, &needle)
}

/// The file to write when a guild bans a user.
pub fn ban_record(event: &GuildBanAddEvent) -> (record: BanRecord)
    ensures
        record.file_name@ == ban_file_name(event.guild_id),
        record.content@ == ban_file_content(event.guild_id, event.user.id, event.user.username@),
{
    let mut name: Vec<char> = Vec::new();
    push_str_chars(&mut name, "banned_user_");
    push_decimal(&mut name, event.guild_id);
    push_str_chars(&mut name, ".txt");
    assert(name@ == ban_file_name(event.guild_id));
    let mut content: Vec<char> = Vec::new();
    push_str_chars(&mut content, "Guild ID: ");
    push_decimal(&mut content, event.guild_id);
    push_str_chars(&mut content, "\nUser ID: ");
    push_decimal(&mut content, event.user.id);
    push_str_chars(&mut content, "\nUsername: ");
    let username = chars_of(event.user.username.as_str());
    push_chars(&mut content, &username);
    assert(content@ == ban_file_content(event.guild_id, event.user.id, event.user.username@));
    BanRecord { file_name: string_of(&name), content: string_of(&content) }
}

/// The ids of `guilds`, in order.
pub fn collect_guild_ids(guilds: &Vec<Guild>) -> (ids: Vec<u64>)
    ensures
        ids@ == guild_ids_of(guilds@),
{
    let mut ids: Vec<u64> = Vec::new();
    let mut i: usize = 0;
    while i < guilds.len()
        invariant
            i <= guilds.len(),
            ids@ == guild_ids_of(guilds@.take(i as int)),
        decreases guilds.len() - i,
    {
        ids.push(guilds[i].id);
        i += 1;
        assert(ids@ =~= guild_ids_of(guilds@.take(i as int)));
    }
    assert(guilds@.take(guilds.len() as int) == guilds@);
    ids
}

/// Decides what one event calls for, whatever the session: the store
/// operations, the downloads and the file to write. An event of a kind that
/// is not read calls for nothing.
pub fn dispatch_event(event: &Event, config: &Config) -> (step: SessionStep)
    ensures
        ops_view(step.store_ops@) == event_ops(*event, *config),
        step.attachments@ == event_attachments(*event, *config),
        step.embeds@ == event_embeds(*event, *config),
        step.message_id == event_message_id(*event),
        ban_view(step.ban_record) == event_ban_record(*event),
        !step.connect,
        step.subscribe is None,
        step.request_members is None,
        step.backoff_secs is None,
        !step.failed,
{
    let persist = config.use_db;
    let mut step = SessionStep::idle();
    assert(ops_view(step.store_ops@) == Seq::<Op>::empty());
    match event {
        Event::Ready(e) => {
            if persist {
                step.store_ops = process_ready_guilds(&e.guilds, &e.merged_members, &e.users);
            }
        },
        Event::ReadySupplemental(e) => {
            if persist {
                step.store_ops = process_ready_supplemental(e);
            }
        },
        Event::MessageCreate(e) => {
            let plan = process_message_create(e, persist, config);
            step.store_ops = plan.store_ops;
            step.attachments = plan.attachments;
            step.embeds = plan.embeds;
            step.message_id = plan.message_id;
        },
        Event::MessageUpdate(e) => {
            let plan = process_message_update(e, persist, config);
            step.store_ops = plan.store_ops;
            step.attachments = plan.attachments;
            step.embeds = plan.embeds;
            step.message_id = plan.message_id;
        },
        Event::MessageDelete(e) => {
            step.store_ops = process_message_delete(e, persist);
        },
        Event::MessageDeleteBulk(e) => {
            step.store_ops = process_message_delete_bulk(e, persist);
        },
        Event::ChannelCreate(e) => {
            step.store_ops = process_channel_create(e, persist);
        },
        Event::ChannelUpdate(e) => {
            step.store_ops = process_channel_update(e, persist);
        },
        Event::ChannelDelete(e) => {
            step.store_ops = process_channel_delete(e, persist);
        },
        Event::GuildRoleCreate(e) => {
            step.store_ops = process_role_create(e, persist);
        },
        Event::GuildRoleUpdate(e) => {
            step.store_ops = process_role_update(e, persist);
        },
        Event::GuildRoleDelete(e) => {
            step.store_ops = process_role_delete(e, persist);
        },
        Event::GuildMembersChunk(e) => {
            step.store_ops = process_guild_members_chunk(e, persist);
        },
        Event::GuildMemberUpdate(e) => {
            step.store_ops = process_guild_member_update(e, persist);
        },
        Event::GuildBanAdd(e) => {
            step.ban_record = Some(ban_record(e));
        },
        Event::Other => {},
    }
    step
}

/// One step of a session: takes what just happened, moves the session on
/// and says what is to be done.
///
/// A session that is asked to start, or whose wait is over, connects. A
/// connection attempt that succeeds leaves the session waiting for its
/// snapshot, with no guilds and the cursor at 0; one that fails ends the
/// session if none succeeded before, and else makes it wait and connect
/// again, as a lost connection does, any number of times. While connected,
/// every event is carried out as `dispatch_event` says; a snapshot also has
/// the session subscribe to all its guilds at once. After each event, and
/// after each error that does not lose the connection, the recent members of
/// the next guild are asked for if the interval is over. Whatever else
/// happens is passed over: the session stays where it stands and nothing is
/// to be done.
pub fn handle_account(
    session: &mut Session,
    input: SessionInput,
    now: u64,
    config: &Config,
) -> (step: SessionStep)
    ensures
        final(session)@ == old(session)@.after(input, now, *config),
        final(session).account_index == old(session).account_index,
        final(session).token == old(session).token,
        step.connect == old(session)@.opens(input),
        step.failed == old(session)@.fails(input),
        step.backoff_secs == if old(session)@.loses_connection(input) {
            Some(RECONNECT_BACKOFF_SECS)
        } else {
            None
        },
        ids_view(step.subscribe) == old(session)@.snapshot(input),
        step.request_members == old(session)@.requested_guild(input, now, *config),
        match old(session)@.consumed(input) {
            Some(event) => {
                &&& ops_view(step.store_ops@) == event_ops(event, *config)
                &&& step.attachments@ == event_attachments(event, *config)
                &&& step.embeds@ == event_embeds(event, *config)
                &&& step.message_id == event_message_id(event)
                &&& ban_view(step.ban_record) == event_ban_record(event)
            },
            None => {
                &&& step.store_ops@.len() == 0
                &&& step.attachments@.len() == 0
                &&& step.embeds@.len() == 0
                &&& step.message_id == 0
                &&& step.ban_record is None
            },
        },
{
    let mut step = SessionStep::idle();
    let is_listening = match session.state {
        SessionState::SubscribingGuilds => true,
        SessionState::EventLoop => true,
        _ => false,
    };
    let mut refresh_may_run = false;
    match input {
        SessionInput::Start => {
            if let SessionState::Disconnected = session.state {
                session.state = SessionState::Connecting;
                step.connect = true;
            }
        },
        SessionInput::BackoffElapsed => {
            if let SessionState::Reconnecting = session.state {
                session.state = SessionState::Connecting;
                step.connect = true;
            }
        },
        SessionInput::Connected => {
            if let SessionState::Connecting = session.state {
                session.state = SessionState::SubscribingGuilds;
                session.guild_ids = Vec::new();
                session.refresh_cursor = 0;
                session.last_refresh = now;
                session.connected_before = true;
            }
        },
        SessionInput::ConnectFailed => {
            if let SessionState::Connecting = session.state {
                if session.connected_before {
                    session.state = SessionState::Reconnecting;
                    step.backoff_secs = Some(RECONNECT_BACKOFF_SECS);
                } else {
                    session.state = SessionState::Disconnected;
                    step.failed = true;
                }
            }
        },
        SessionInput::SubscribeFailed => {
            if is_listening {
                session.state = SessionState::Disconnected;
                step.failed = true;
            }
        },
        SessionInput::EventError { text } => {
            if is_listening {
                if is_connection_error(text.as_str()) {
                    session.state = SessionState::Reconnecting;
                    step.backoff_secs = Some(RECONNECT_BACKOFF_SECS);
                } else {
                    refresh_may_run = true;
                }
            }
        },
        SessionInput::Event(event) => {
            if is_listening {
                step = dispatch_event(&event, config);
                if let Event::Ready(ready) = &event {
                    let ids = collect_guild_ids(&ready.guilds);
                    if ids.len() < session.refresh_cursor {
                        session.refresh_cursor = 0;
                    }
                    session.guild_ids = collect_guild_ids(&ready.guilds);
                    step.subscribe = Some(ids);
                    session.state = SessionState::EventLoop;
                }
                refresh_may_run = true;
            }
        },
    }
    if refresh_may_run && config.use_db && now >= session.last_refresh && now
        - session.last_refresh >= MEMBER_REFRESH_SECS {
        let cursor = session.refresh_cursor;
        if cursor < session.guild_ids.len() {
            step.request_members = Some(session.guild_ids[cursor]);
        }
        if cursor >= session.guild_ids.len() || cursor + 1 >= session.guild_ids.len() {
            session.refresh_cursor = 0;
        } else {
            session.refresh_cursor = cursor + 1;
        }
        session.last_refresh = now;
    }
    step
}

/// An event of a kind that is not read changes nothing and calls for
/// nothing: the session stays where it stands, no store operation, no
/// download, no file.
pub proof fn lemma_unknown_event_is_passed_over(session: SessionView, config: Config)
    ensures
        session.next_state(SessionInput::Event(Event::Other)) == session.state,
        session.next_guild_ids(SessionInput::Event(Event::Other)) == session.guild_ids,
        !session.fails(SessionInput::Event(Event::Other)),
        !session.loses_connection(SessionInput::Event(Event::Other)),
        event_ops(Event::Other, config).len() == 0,
        event_attachments(Event::Other, config).len() == 0,
        event_embeds(Event::Other, config).len() == 0,
        event_ban_record(Event::Other) is None,
{
}

/// A session that was connected once never gives up on its connection: a
/// lost connection and a failed attempt to connect again both make it wait,
/// and the end of the wait makes it connect. Only a failed subscription
/// ends such a session.
pub proof fn lemma_reconnect_never_gives_up(session: SessionView, input: SessionInput)
    requires
        session.connected_before,
        !(input is SubscribeFailed),
    ensures
        !session.fails(input),
        session.loses_connection(input) ==> session.next_state(input) is Reconnecting,
        session.state is Reconnecting && input is BackoffElapsed ==> session.next_state(input)
            is Connecting,
        session.next_state(input) is Disconnected ==> session.state is Disconnected,
{
}

/// No event ends a session or costs it its connection, whatever the event
/// holds: a session that consumes events goes on consuming them.
pub proof fn lemma_events_keep_the_session(session: SessionView, event: Event)
    requires
        listening(session.state),
    ensures
        listening(session.next_state(SessionInput::Event(event))),
{
}

/// The requests for recent members go round the guilds: where one is due
/// and the cursor is on a guild, that guild is asked about, and the cursor
/// moves to the next guild, or to the first after the last. Afterwards the
/// cursor is on a guild whenever there is one.
pub proof fn lemma_refresh_goes_round(
    session: SessionView,
    input: SessionInput,
    now: u64,
    config: Config,
)
    requires
        session.refresh_due(input, now, config),
        session.next_guild_ids(input).len() <= usize::MAX,
    ensures
        ({
            let ids = session.next_guild_ids(input);
            let cursor = session.settled_cursor(input);
            &&& cursor < ids.len() ==> session.requested_guild(input, now, config) == Some(
                ids[cursor as int],
            )
            &&& cursor < ids.len() ==> session.next_cursor(input, now, config) == (cursor + 1) % (
            ids.len() as int)
            &&& cursor >= ids.len() ==> session.requested_guild(input, now, config) is None
                && session.next_cursor(input, now, config) == 0
            &&& ids.len() > 0 ==> session.next_cursor(input, now, config) < ids.len()
            &&& session.next_last_refresh(input, now, config) == now
        }),
{
    let ids = session.next_guild_ids(input);
    let cursor = session.settled_cursor(input);
    if cursor < ids.len() {
        let n = ids.len() as int;
        if cursor + 1 < n {
            vstd::arithmetic::div_mod::lemma_small_mod((cursor + 1) as nat, n as nat);
        } else {
            vstd::arithmetic::div_mod::lemma_mod_self_0(n);
        }
    }
}

/// Between two requests for recent members at least the interval passes.
pub proof fn lemma_refresh_waits(
    session: SessionView,
    input: SessionInput,
    now: u64,
    config: Config,
)
    requires
        now < session.last_refresh + MEMBER_REFRESH_SECS,
    ensures
        session.requested_guild(input, now, config) is None,
{
}

/// What happens to a session, with the time at which it does.
pub struct Happening {
    pub input: SessionInput,
    pub now: u64,
}

/// The session after each of `run` happened, one after the other.
pub open spec fn after_run(session: SessionView, run: Seq<Happening>, config: Config) -> SessionView
    decreases run.len(),
{
    if run.len() == 0 {
        session
    } else {
        after_run(session, run.drop_last(), config).after(run.last().input, run.last().now, config)
    }
}

/// A session that was connected once stays alive whatever happens, as long
/// as no subscription fails: lost connections, failed attempts to connect
/// again and errors of any kind, in any number and order, never end it.
pub proof fn lemma_session_survives(session: SessionView, run: Seq<Happening>, config: Config)
    requires
        session.connected_before,
        !(session.state is Disconnected),
        forall|i: int| 0 <= i < run.len() ==> !((#[trigger] run[i]).input is SubscribeFailed),
    ensures
        after_run(session, run, config).connected_before,
        !(after_run(session, run, config).state is Disconnected),
    decreases run.len(),
{
    if run.len() > 0 {
        let earlier = run.drop_last();
        assert forall|i: int| 0 <= i < earlier.len() implies !((
        #[trigger] earlier[i]).input is SubscribeFailed) by {
            assert(earlier[i] == run[i]);
        }
        lemma_session_survives(session, earlier, config);
        assert(!(run[run.len() - 1].input is SubscribeFailed));
    }
}

} // verus!
