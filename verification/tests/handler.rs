use slurpslurp::config::Config;
use slurpslurp::events::{
    Event, GuildBanAddEvent, MessageCreateEvent, MessageDeleteEvent, ReadyEvent,
};
use slurpslurp::handler::{
    ban_record, dispatch_event, handle_account, is_connection_error, Session, SessionInput,
    SessionState, MEMBER_REFRESH_SECS, RECONNECT_BACKOFF_SECS,
};
use slurpslurp::message_type::MessageType;
use slurpslurp::model::{Guild, Message, User};
use slurpslurp::ops::StoreOp;

fn config(use_db: bool) -> Config {
    Config { skip_bot_messages: false, download_files: true, use_db, db_url: String::new() }
}

fn user(id: u64, name: &str) -> User {
    User {
        id,
        username: name.to_string(),
        global_name: None,
        avatar: None,
        bot: None,
        banner: None,
        accent_color: None,
        flags: None,
        premium_type: None,
        public_flags: None,
    }
}

fn guild(id: u64) -> Guild {
    Guild {
        id,
        name: None,
        icon: None,
        region: None,
        member_count: None,
        features: None,
        properties: None,
        roles: None,
        channels: None,
        threads: None,
    }
}

fn ready(ids: &[u64]) -> Event {
    Event::Ready(ReadyEvent {
        guilds: ids.iter().map(|id| guild(*id)).collect(),
        merged_members: None,
        users: None,
    })
}

fn message_event(id: u64) -> Event {
    Event::MessageCreate(MessageCreateEvent {
        message: Message {
            id,
            channel_id: 1,
            author: user(1, "ann"),
            content: None,
            edited_timestamp: None,
            kind: MessageType::Default,
            flags: 0,
            referenced_message_id: None,
            mentions: None,
            attachments: Vec::new(),
            embeds: Vec::new(),
        },
        guild_id: Some(9),
    })
}

fn connected_session(now: u64) -> Session {
    let mut session = Session::new(0, "token".to_string());
    handle_account(&mut session, SessionInput::Start, now, &config(true));
    handle_account(&mut session, SessionInput::Connected, now, &config(true));
    session
}

#[test]
fn a_session_starts_by_connecting() {
    let mut session = Session::new(4, "token".to_string());
    assert_eq!(session.state, SessionState::Disconnected);
    assert_eq!(session.account_index, 4);
    let step = handle_account(&mut session, SessionInput::Start, 0, &config(true));
    assert!(step.connect);
    assert!(!step.failed);
    assert_eq!(session.state, SessionState::Connecting);
    let step = handle_account(&mut session, SessionInput::Connected, 50, &config(true));
    assert!(!step.connect);
    assert!(step.subscribe.is_none());
    assert_eq!(session.state, SessionState::SubscribingGuilds);
    assert_eq!(session.last_refresh, 50);
    assert!(session.connected_before);
}

#[test]
fn a_failed_first_connection_ends_the_session() {
    let mut session = Session::new(0, "token".to_string());
    handle_account(&mut session, SessionInput::Start, 0, &config(true));
    let step = handle_account(&mut session, SessionInput::ConnectFailed, 0, &config(true));
    assert!(step.failed);
    assert!(step.backoff_secs.is_none());
    assert_eq!(session.state, SessionState::Disconnected);
}

#[test]
fn the_snapshot_subscribes_to_all_guilds_at_once() {
    let mut session = connected_session(0);
    let step = handle_account(&mut session, SessionInput::Event(ready(&[10, 20, 30])), 1, &config(true));
    assert_eq!(step.subscribe, Some(vec![10, 20, 30]));
    assert_eq!(session.guild_ids, vec![10, 20, 30]);
    assert_eq!(session.state, SessionState::EventLoop);
    assert_eq!(step.store_ops.len(), 3);
    assert!(step.request_members.is_none());
}

#[test]
fn without_a_store_the_snapshot_still_subscribes() {
    let mut session = Session::new(0, "token".to_string());
    handle_account(&mut session, SessionInput::Start, 0, &config(false));
    handle_account(&mut session, SessionInput::Connected, 0, &config(false));
    let step = handle_account(&mut session, SessionInput::Event(ready(&[10])), 5_000, &config(false));
    assert_eq!(step.subscribe, Some(vec![10]));
    assert!(step.store_ops.is_empty());
    assert!(step.request_members.is_none());
}

#[test]
fn a_lost_connection_waits_five_seconds_and_connects_again_forever() {
    let mut session = connected_session(0);
    handle_account(&mut session, SessionInput::Event(ready(&[10])), 1, &config(true));
    for round in 0..4u64 {
        let step = handle_account(
            &mut session,
            SessionInput::EventError { text: "gateway: client error (Connect): refused".to_string() },
            10 + round,
            &config(true),
        );
        assert_eq!(step.backoff_secs, Some(5));
        assert_eq!(step.backoff_secs, Some(RECONNECT_BACKOFF_SECS));
        assert!(!step.failed);
        assert_eq!(session.state, SessionState::Reconnecting);
        let step = handle_account(&mut session, SessionInput::BackoffElapsed, 15 + round, &config(true));
        assert!(step.connect);
        assert_eq!(session.state, SessionState::Connecting);
        let step = handle_account(&mut session, SessionInput::ConnectFailed, 16 + round, &config(true));
        assert_eq!(step.backoff_secs, Some(5));
        assert!(!step.failed);
        assert_eq!(session.state, SessionState::Reconnecting);
        handle_account(&mut session, SessionInput::BackoffElapsed, 21 + round, &config(true));
        handle_account(&mut session, SessionInput::Connected, 22 + round, &config(true));
        assert_eq!(session.state, SessionState::SubscribingGuilds);
        assert!(session.guild_ids.is_empty());
        handle_account(&mut session, SessionInput::Event(ready(&[10])), 23 + round, &config(true));
        assert_eq!(session.state, SessionState::EventLoop);
    }
}

#[test]
fn another_error_is_passed_over() {
    let mut session = connected_session(0);
    handle_account(&mut session, SessionInput::Event(ready(&[10])), 1, &config(true));
    let step = handle_account(
        &mut session,
        SessionInput::EventError { text: "could not decode payload".to_string() },
        2,
        &config(true),
    );
    assert!(step.backoff_secs.is_none());
    assert!(!step.failed);
    assert!(!step.connect);
    assert_eq!(session.state, SessionState::EventLoop);
}

#[test]
fn a_failed_subscription_ends_the_session() {
    let mut session = connected_session(0);
    handle_account(&mut session, SessionInput::Event(ready(&[10])), 1, &config(true));
    let step = handle_account(&mut session, SessionInput::SubscribeFailed, 2, &config(true));
    assert!(step.failed);
    assert_eq!(session.state, SessionState::Disconnected);
}

#[test]
fn an_unknown_event_is_a_no_op() {
    let mut session = connected_session(0);
    handle_account(&mut session, SessionInput::Event(ready(&[10])), 1, &config(true));
    let step = handle_account(&mut session, SessionInput::Event(Event::Other), 2, &config(true));
    assert!(step.store_ops.is_empty());
    assert!(step.attachments.is_empty());
    assert!(step.embeds.is_empty());
    assert!(step.subscribe.is_none());
    assert!(step.ban_record.is_none());
    assert!(!step.failed);
    assert!(step.backoff_secs.is_none());
    assert_eq!(session.state, SessionState::EventLoop);
    assert_eq!(session.guild_ids, vec![10]);
}

#[test]
fn events_before_connecting_are_passed_over() {
    let mut session = Session::new(0, "token".to_string());
    let step = handle_account(&mut session, SessionInput::Event(message_event(5)), 0, &config(true));
    assert!(step.store_ops.is_empty());
    assert_eq!(session.state, SessionState::Disconnected);
    let step = handle_account(&mut session, SessionInput::BackoffElapsed, 0, &config(true));
    assert!(!step.connect);
    assert_eq!(session.state, SessionState::Disconnected);
}

#[test]
fn member_requests_go_round_the_guilds_every_ten_minutes() {
    assert_eq!(MEMBER_REFRESH_SECS, 600);
    let mut session = connected_session(1_000);
    handle_account(&mut session, SessionInput::Event(ready(&[10, 20, 30])), 1_001, &config(true));
    let step = handle_account(&mut session, SessionInput::Event(message_event(1)), 1_599, &config(true));
    assert_eq!(step.request_members, None);
    let mut asked = Vec::new();
    let mut now = 1_600;
    for _ in 0..7 {
        let step = handle_account(&mut session, SessionInput::Event(Event::Other), now, &config(true));
        asked.push(step.request_members.unwrap());
        let step = handle_account(&mut session, SessionInput::Event(Event::Other), now + 599, &config(true));
        assert_eq!(step.request_members, None);
        now += 600;
    }
    assert_eq!(asked, vec![10, 20, 30, 10, 20, 30, 10]);
}

#[test]
fn member_requests_need_a_store() {
    let mut session = Session::new(0, "token".to_string());
    handle_account(&mut session, SessionInput::Start, 0, &config(false));
    handle_account(&mut session, SessionInput::Connected, 0, &config(false));
    handle_account(&mut session, SessionInput::Event(ready(&[10])), 1, &config(false));
    let step = handle_account(&mut session, SessionInput::Event(Event::Other), 10_000, &config(false));
    assert_eq!(step.request_members, None);
}

#[test]
fn the_cursor_goes_back_when_the_guilds_shrink_below_it() {
    let mut session = connected_session(0);
    handle_account(&mut session, SessionInput::Event(ready(&[10, 20, 30])), 1, &config(true));
    handle_account(&mut session, SessionInput::Event(Event::Other), 600, &config(true));
    handle_account(&mut session, SessionInput::Event(Event::Other), 1_200, &config(true));
    assert_eq!(session.refresh_cursor, 2);
    handle_account(&mut session, SessionInput::Event(ready(&[10])), 1_201, &config(true));
    assert_eq!(session.refresh_cursor, 0);
    let step = handle_account(&mut session, SessionInput::Event(Event::Other), 1_800, &config(true));
    assert_eq!(step.request_members, Some(10));
    assert_eq!(session.refresh_cursor, 0);
}

#[test]
fn a_cursor_at_the_end_asks_nothing_and_wraps() {
    let mut session = connected_session(0);
    handle_account(&mut session, SessionInput::Event(ready(&[10, 20])), 1, &config(true));
    session.refresh_cursor = 2;
    let step = handle_account(&mut session, SessionInput::Event(Event::Other), 700, &config(true));
    assert_eq!(step.request_members, None);
    assert_eq!(session.refresh_cursor, 0);
    assert_eq!(session.last_refresh, 700);
}

#[test]
fn events_are_dispatched_to_ingestion() {
    let step = dispatch_event(&message_event(100), &config(true));
    assert_eq!(step.store_ops.len(), 2);
    assert!(matches!(&step.store_ops[0], StoreOp::UpsertUser { row, guild_id: Some(9) } if row.id == 1));
    assert!(matches!(&step.store_ops[1], StoreOp::UpsertMessage { row } if row.id == 100));
    assert_eq!(step.message_id, 100);
    let step = dispatch_event(&Event::MessageDelete(MessageDeleteEvent { id: 100 }), &config(true));
    assert!(matches!(&step.store_ops[..], [StoreOp::DeleteMessage { id: 100 }]));
    let step = dispatch_event(&message_event(100), &config(false));
    assert!(step.store_ops.is_empty());
}

#[test]
fn a_ban_writes_a_file_named_by_the_guild() {
    let event = GuildBanAddEvent { guild_id: 1234567890, user: user(42, "mallory") };
    let record = ban_record(&event);
    assert_eq!(record.file_name, "banned_user_1234567890.txt");
    assert_eq!(record.content, "Guild ID: 1234567890\nUser ID: 42\nUsername: mallory");
    let step = dispatch_event(&Event::GuildBanAdd(event), &config(true));
    assert!(step.store_ops.is_empty());
    assert_eq!(step.ban_record.unwrap().file_name, "banned_user_1234567890.txt");
    let zero = ban_record(&GuildBanAddEvent { guild_id: 0, user: user(u64::MAX, "") });
    assert_eq!(zero.file_name, "banned_user_0.txt");
    assert_eq!(zero.content, "Guild ID: 0\nUser ID: 18446744073709551615\nUsername: ");
}

#[test]
fn connection_errors_are_told_by_their_words() {
    assert!(is_connection_error("client error (Connect)"));
    assert!(is_connection_error("error sending request: client error (Connect): dns"));
    assert!(!is_connection_error("client error (connect)"));
    assert!(!is_connection_error("client error (Connec"));
    assert!(!is_connection_error(""));
}
