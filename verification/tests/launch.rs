use slurpslurp::cli::{Cli, Mode, TargetType};
use slurpslurp::config::{Config, ConfigError, ConfigSlot};
use slurpslurp::handler::SessionState;
use slurpslurp::launch::{
    is_credential, parse_tokens, start_scrape, start_scrape_at, start_sniff, LaunchError,
};
use slurpslurp::scraper::{ScrapeQuery, ScrapeType};

fn config(url: &str) -> Config {
    Config { skip_bot_messages: true, download_files: false, use_db: true, db_url: url.to_string() }
}

#[test]
fn tokens_are_read_one_to_a_line() {
    assert_eq!(parse_tokens("abc\ndef\n"), vec!["abc", "def"]);
    assert_eq!(parse_tokens("abc\ndef"), vec!["abc", "def"]);
    assert_eq!(parse_tokens("abc"), vec!["abc"]);
}

#[test]
fn blank_lines_and_comments_are_ignored() {
    let content = "# my accounts\n\n  tok.one  \n\t\n#tok.two\n  # indented comment\ntok#three\r\n\r\n";
    assert_eq!(parse_tokens(content), vec!["tok.one", "tok#three"]);
    assert_eq!(parse_tokens(""), Vec::<String>::new());
    assert_eq!(parse_tokens("\n\n\n"), Vec::<String>::new());
    assert_eq!(parse_tokens("#only\n   "), Vec::<String>::new());
}

#[test]
fn sniffing_needs_a_token() {
    assert_eq!(start_sniff("# nothing here\n\n").err(), Some(LaunchError::NoTokens));
    assert_eq!(LaunchError::NoTokens.message(), "No valid tokens");
    assert_eq!(LaunchError::NoBots.message(), "No valid bots");
}

#[test]
fn sniffing_makes_a_session_for_each_token() {
    let sessions = start_sniff("one\n# skip\ntwo\nthree").unwrap();
    assert_eq!(sessions.len(), 3);
    for (i, session) in sessions.iter().enumerate() {
        assert_eq!(session.account_index, i);
        assert_eq!(session.state, SessionState::Disconnected);
        assert!(session.guild_ids.is_empty());
    }
    assert_eq!(sessions[0].token, "one");
    assert_eq!(sessions[1].token, "two");
    assert_eq!(sessions[2].token, "three");
}

#[test]
fn scraping_needs_tokens_and_connected_sessions() {
    assert_eq!(
        start_scrape_at(ScrapeType::Channel, 5, 0, 0, true, 0).err(),
        Some(LaunchError::NoTokens)
    );
    assert_eq!(
        start_scrape_at(ScrapeType::Channel, 5, 0, 3, true, 0).err(),
        Some(LaunchError::NoTokens)
    );
    assert_eq!(
        start_scrape_at(ScrapeType::Channel, 5, 2, 0, true, 0).err(),
        Some(LaunchError::NoBots)
    );
}

#[test]
fn a_scrape_starts_with_the_first_session() {
    let launch = start_scrape_at(ScrapeType::Channel, 5, 2, 2, true, 0).unwrap();
    assert_eq!(launch.first.bot_index, 0);
    assert_eq!(launch.first.query, ScrapeQuery::Channel { before: None, limit: 100 });
    assert!(!launch.slow);
    assert!(launch.scraper.running);
    assert_eq!(launch.scraper.id, 5);
    assert_eq!(launch.scraper.bot_count, 2);
    let launch = start_scrape_at(ScrapeType::Guild, 5, 4, 1, false, 1_000).unwrap();
    assert_eq!(launch.first.query, ScrapeQuery::Guild { max_id: 1_000 << 22, include_nsfw: true });
    assert!(!launch.scraper.persist);
}

#[test]
fn a_guild_scrape_with_few_tokens_is_slow() {
    assert!(start_scrape_at(ScrapeType::Guild, 5, 1, 1, true, 0).unwrap().slow);
    assert!(start_scrape_at(ScrapeType::Guild, 5, 2, 2, true, 0).unwrap().slow);
    assert!(!start_scrape_at(ScrapeType::Guild, 5, 3, 3, true, 0).unwrap().slow);
    assert!(!start_scrape_at(ScrapeType::Channel, 5, 1, 1, true, 0).unwrap().slow);
}

#[test]
fn the_target_type_names_the_kind_of_scrape() {
    assert_eq!(ScrapeType::of(TargetType::Channel), ScrapeType::Channel);
    assert_eq!(ScrapeType::of(TargetType::Guild), ScrapeType::Guild);
}

#[test]
fn the_mode_defaults_to_sniff() {
    assert!(matches!(Cli { mode: None, help: false }.into_mode(), Mode::Sniff));
    let cli = Cli {
        mode: Some(Mode::Scrape { target_type: TargetType::Guild, id: 9, tokens: vec!["t".to_string()] }),
        help: false,
    };
    assert!(matches!(cli.into_mode(), Mode::Scrape { target_type: TargetType::Guild, id: 9, .. }));
}

#[test]
fn the_configuration_is_set_once() {
    let mut slot = ConfigSlot::new();
    assert!(!slot.is_initialized());
    assert_eq!(Config::init(&mut slot, config("postgres://one")), Ok(()));
    assert!(slot.is_initialized());
    assert_eq!(Config::get(&slot).db_url, "postgres://one");
    assert!(Config::get(&slot).skip_bot_messages);
    assert_eq!(
        Config::init(&mut slot, config("postgres://two")),
        Err(ConfigError::AlreadyInitialized)
    );
    assert_eq!(Config::get(&slot).db_url, "postgres://one");
    assert_eq!(ConfigError::AlreadyInitialized.message(), "Configuration already initialized");
}

#[test]
fn a_credential_is_a_line_that_is_neither_empty_nor_a_comment() {
    assert!(is_credential("abc"));
    assert!(is_credential("a#b"));
    assert!(!is_credential(""));
    assert!(!is_credential("#abc"));
    assert!(!is_credential("#"));
}

#[test]
fn a_scrape_started_now_searches_from_now() {
    assert_eq!(start_scrape(ScrapeType::Guild, 5, 0, 0, true).err(), Some(LaunchError::NoTokens));
    assert_eq!(start_scrape(ScrapeType::Guild, 5, 1, 0, true).err(), Some(LaunchError::NoBots));
    let launch = start_scrape(ScrapeType::Guild, 5, 3, 2, true).unwrap();
    assert!(launch.scraper.running);
    assert!(!launch.slow);
    assert_eq!(launch.first.bot_index, 0);
    match launch.first.query {
        ScrapeQuery::Guild { max_id, include_nsfw } => {
            assert!(include_nsfw);
            assert_eq!(max_id, launch.scraper.state.last_id);
            assert_eq!(max_id & ((1 << 22) - 1), 0);
            assert!(max_id > (1_600_000_000_000u64 << 22));
        }
        other => panic!("not a guild query: {:?}", other),
    }
}
