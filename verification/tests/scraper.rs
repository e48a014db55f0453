use slurpslurp::config::Config;
use slurpslurp::message_type::MessageType;
use slurpslurp::model::{Message, User};
use slurpslurp::ops::StoreOp;
use slurpslurp::scraper::{
    PageResult, ScrapeError, ScrapeQuery, ScrapeRequest, ScrapeState, ScrapeType, Scraper,
    CHANNEL_PAGE_SIZE, RETRY_SLEEP_SECS,
};

fn config(skip_bots: bool) -> Config {
    Config { skip_bot_messages: skip_bots, download_files: false, use_db: true, db_url: String::new() }
}

fn message(id: u64, bot: bool) -> Message {
    Message {
        id,
        channel_id: 1,
        author: User {
            id: 1000 + id,
            username: "u".to_string(),
            global_name: None,
            avatar: None,
            bot: Some(bot),
            banner: None,
            accent_color: None,
            flags: None,
            premium_type: None,
            public_flags: None,
        },
        content: None,
        edited_timestamp: None,
        kind: MessageType::Default,
        flags: 0,
        referenced_message_id: None,
        mentions: None,
        attachments: Vec::new(),
        embeds: Vec::new(),
    }
}

/// The page that a history holding the ids 1..=size gives for `before`.
fn history_page(size: u64, before: Option<u64>) -> Vec<Message> {
    let top = match before {
        Some(b) => b - 1,
        None => size,
    };
    let mut page = Vec::new();
    let mut id = top;
    while id >= 1 && page.len() < 100 {
        page.push(message(id, false));
        id -= 1;
    }
    page
}

#[test]
fn a_channel_scrape_ends_on_the_first_empty_page() {
    let mut scraper = Scraper::starting_at(1, 55, ScrapeType::Channel, true, 0);
    let mut request = scraper.start().unwrap();
    let mut sizes = Vec::new();
    let mut cursors = Vec::new();
    let mut passes = 0;
    let mut fetches = 0;
    loop {
        let before = match request.query {
            ScrapeQuery::Channel { before, limit } => {
                assert_eq!(limit, 100);
                before
            }
            other => panic!("not a channel query: {:?}", other),
        };
        let page = history_page(237, before);
        sizes.push(page.len());
        fetches += 1;
        let step = scraper.on_page(PageResult::Channel { messages: page }, &config(false));
        if !step.plans.is_empty() {
            passes += 1;
            cursors.push(scraper.state.last_message_id.unwrap());
        }
        assert!(step.sleep_secs.is_none());
        match step.next {
            Some(next) => request = next,
            None => break,
        }
    }
    assert_eq!(sizes, vec![100, 100, 37, 0]);
    assert_eq!(passes, 3);
    assert_eq!(fetches, 4);
    assert_eq!(cursors, vec![138, 38, 1]);
    assert!(cursors[0] > cursors[1] && cursors[1] > cursors[2]);
    assert!(!scraper.running);
}

#[test]
fn sessions_take_strict_turns() {
    let mut scraper = Scraper::starting_at(3, 55, ScrapeType::Channel, true, 0);
    let mut request = scraper.start().unwrap();
    let mut turns = vec![request.bot_index];
    for step in 0..6u64 {
        let page = if step % 2 == 0 {
            PageResult::Failed
        } else {
            PageResult::Channel { messages: vec![message(1_000 - step, false)] }
        };
        request = scraper.on_page(page, &config(false)).next.unwrap();
        turns.push(request.bot_index);
    }
    assert_eq!(turns, vec![0, 1, 2, 0, 1, 2, 0]);
}

#[test]
fn a_single_session_takes_every_turn() {
    let mut scraper = Scraper::starting_at(1, 55, ScrapeType::Channel, true, 0);
    let mut request = scraper.start().unwrap();
    for _ in 0..3 {
        assert_eq!(request.bot_index, 0);
        request = scraper.on_page(PageResult::Failed, &config(false)).next.unwrap();
    }
}

#[test]
fn a_scrape_without_sessions_does_not_start() {
    let mut scraper = Scraper::starting_at(0, 55, ScrapeType::Channel, true, 0);
    assert_eq!(scraper.start(), Err(ScrapeError::NoBots));
    assert!(!scraper.running);
    assert_eq!(ScrapeError::NoBots.message(), "No valid bots connected for scraping");
    let step = scraper.on_page(PageResult::Channel { messages: vec![message(1, false)] }, &config(false));
    assert!(step.plans.is_empty());
    assert!(step.next.is_none());
}

#[test]
fn a_failed_fetch_keeps_the_cursor_and_is_retried() {
    let mut scraper = Scraper::starting_at(2, 55, ScrapeType::Channel, true, 0);
    scraper.start().unwrap();
    scraper.on_page(PageResult::Channel { messages: vec![message(50, false), message(40, false)] }, &config(false));
    assert_eq!(scraper.state.last_message_id, Some(40));
    for _ in 0..5 {
        let step = scraper.on_page(PageResult::Failed, &config(false));
        assert_eq!(step.sleep_secs, Some(1));
        assert_eq!(step.sleep_secs, Some(RETRY_SLEEP_SECS));
        assert!(step.plans.is_empty());
        assert!(scraper.running);
        assert_eq!(scraper.state.last_message_id, Some(40));
        match step.next.unwrap().query {
            ScrapeQuery::Channel { before, limit } => {
                assert_eq!(before, Some(40));
                assert_eq!(limit, CHANNEL_PAGE_SIZE);
            }
            other => panic!("not a channel query: {:?}", other),
        }
    }
}

#[test]
fn a_page_of_the_other_kind_counts_as_failed() {
    let mut scraper = Scraper::starting_at(2, 55, ScrapeType::Channel, true, 0);
    scraper.start().unwrap();
    let step = scraper.on_page(PageResult::Guild { total_results: 5, messages: vec![] }, &config(false));
    assert_eq!(step.sleep_secs, Some(1));
    assert!(step.progress_total.is_none());
    assert!(scraper.running);
}

#[test]
fn the_first_channel_request_has_no_bound() {
    let mut scraper = Scraper::starting_at(2, 55, ScrapeType::Channel, true, 0);
    assert_eq!(
        scraper.start(),
        Ok(ScrapeRequest { bot_index: 0, query: ScrapeQuery::Channel { before: None, limit: 100 } })
    );
}

#[test]
fn channel_messages_are_stored_without_a_guild() {
    let mut scraper = Scraper::starting_at(1, 55, ScrapeType::Channel, true, 0);
    scraper.start().unwrap();
    let step = scraper.on_page(PageResult::Channel { messages: vec![message(9, false)] }, &config(false));
    assert_eq!(step.plans.len(), 1);
    assert!(matches!(&step.plans[0].store_ops[0], StoreOp::UpsertUser { guild_id: None, .. }));
    assert!(matches!(&step.plans[0].store_ops[1], StoreOp::UpsertMessage { row } if row.id == 9 && row.guild_id.is_none()));
}

#[test]
fn a_guild_scrape_starts_from_now_and_walks_down() {
    let now = 1_700_000_000_000i64;
    let mut scraper = Scraper::starting_at(2, 77, ScrapeType::Guild, true, now);
    let first = scraper.start().unwrap();
    assert_eq!(
        first.query,
        ScrapeQuery::Guild { max_id: (now as u64) << 22, include_nsfw: true }
    );
    let step = scraper.on_page(
        PageResult::Guild {
            total_results: 1234,
            messages: vec![vec![message(900, false)], vec![message(700, false), message(800, false)]],
        },
        &config(false),
    );
    assert_eq!(step.progress_total, Some(1234));
    assert_eq!(step.progress, Some(3));
    assert_eq!(step.plans.len(), 3);
    assert_eq!(step.plans[0].message_id, 900);
    assert_eq!(step.plans[1].message_id, 700);
    assert_eq!(step.plans[2].message_id, 800);
    assert!(matches!(&step.plans[0].store_ops[0], StoreOp::UpsertUser { guild_id: Some(77), .. }));
    assert_eq!(scraper.state.last_id, 700);
    assert_eq!(
        step.next,
        Some(ScrapeRequest { bot_index: 1, query: ScrapeQuery::Guild { max_id: 700, include_nsfw: true } })
    );
    let step = scraper.on_page(
        PageResult::Guild { total_results: 9999, messages: vec![vec![message(600, false)]] },
        &config(false),
    );
    assert_eq!(step.progress_total, None);
    assert_eq!(step.progress, Some(4));
    let step = scraper.on_page(PageResult::Guild { total_results: 9999, messages: vec![vec![], vec![]] }, &config(false));
    assert!(step.next.is_none());
    assert!(step.progress.is_none());
    assert!(!scraper.running);
    assert_eq!(scraper.state.last_id, 600);
    assert_eq!(scraper.state.progress, 4);
}

#[test]
fn guild_progress_counts_bot_messages_that_are_not_stored() {
    let mut scraper = Scraper::starting_at(1, 77, ScrapeType::Guild, true, 0);
    scraper.start().unwrap();
    let step = scraper.on_page(
        PageResult::Guild {
            total_results: 10,
            messages: vec![vec![message(30, true), message(20, false), message(10, true)]],
        },
        &config(true),
    );
    assert_eq!(step.progress, Some(3));
    assert_eq!(step.plans.len(), 1);
    assert_eq!(step.plans[0].message_id, 20);
    assert_eq!(scraper.state.last_id, 10);
    assert!(scraper.running);
}

#[test]
fn a_guild_page_of_bots_only_does_not_end_the_scrape() {
    let mut scraper = Scraper::starting_at(1, 77, ScrapeType::Guild, true, 0);
    scraper.start().unwrap();
    let step = scraper.on_page(
        PageResult::Guild { total_results: 10, messages: vec![vec![message(30, true)]] },
        &config(true),
    );
    assert!(step.plans.is_empty());
    assert!(step.next.is_some());
    assert!(scraper.running);
}

#[test]
fn an_empty_first_guild_page_still_reports_the_total() {
    let mut scraper = Scraper::starting_at(1, 77, ScrapeType::Guild, true, 0);
    scraper.start().unwrap();
    let step = scraper.on_page(PageResult::Guild { total_results: 0, messages: vec![] }, &config(false));
    assert_eq!(step.progress_total, Some(0));
    assert!(step.next.is_none());
}

#[test]
fn a_failed_guild_fetch_is_retried_and_never_ends_the_scrape() {
    let mut scraper = Scraper::starting_at(2, 77, ScrapeType::Guild, true, 5);
    scraper.start().unwrap();
    let before = scraper.state.last_id;
    let step = scraper.on_page(PageResult::Failed, &config(false));
    assert!(step.next.is_some());
    assert_eq!(step.sleep_secs, Some(1));
    assert!(step.progress_total.is_none());
    assert_eq!(scraper.state.last_id, before);
    assert!(!scraper.state.progress_bar_initialized);
}

#[test]
fn a_fresh_state_has_seen_nothing() {
    let state = ScrapeState::starting_at(3);
    assert_eq!(state.last_message_id, None);
    assert!(!state.progress_bar_initialized);
    assert_eq!(state.progress, 0);
    assert_eq!(state.last_id, 3 << 22);
    let state = ScrapeState::new();
    assert_eq!(state.last_message_id, None);
    assert_eq!(state.progress, 0);
    assert!(state.last_id > (1_600_000_000_000u64 << 22));
    let scraper = Scraper::new(2, 7, ScrapeType::Guild, false);
    assert_eq!(scraper.bot_count, 2);
    assert_eq!(scraper.id, 7);
    assert!(!scraper.persist);
    assert!(!scraper.running);
}
