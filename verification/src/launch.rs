//! How a run begins: which credentials it has, and whether it can start.

use vstd::prelude::*;
use crate::cli::TargetType;
use crate::handler::Session;
use crate::scraper::{current_millis, ScrapeRequest, ScrapeType, Scraper};
use crate::snowflake::spec_upper_bound_id;
use crate::text::{chars_of, string_of, trim, trimmed};

verus! {

/// Why a run did not start.
#[derive(Clone, Copy, Debug, PartialEq, Eq, Structural)]
pub enum LaunchError {
    /// No credential was given.
    NoTokens,
    /// No session could be connected.
    NoBots,
}

impl LaunchError {
    /// The error in words.
    pub fn message(&self) -> (text: String)
        ensures
            text@ == match *self {
                LaunchError::NoTokens => "No valid tokens"@,
                LaunchError::NoBots => "No valid bots"@,
            },
    {
        match self {
            LaunchError::NoTokens => "No valid tokens".to_owned(),
            LaunchError::NoBots => "No valid bots".to_owned(),
        }
    }
}

/// With fewer credentials than this, a guild is scraped slowly.
pub const FEW_TOKENS: usize = 3;

/// The parts of `content` between its line feeds, in order. There is one
/// part more than there are line feeds.
pub open spec fn lines_of(content: Seq<char>) -> Seq<Seq<char>>
    decreases content.len(),
{
    if content.len() == 0 {
        seq![Seq::empty()]
    } else {
        let before = lines_of(content.drop_last());
        if content.last() == '\n' {
            before.push(Seq::empty())
        } else {
            before.drop_last().push(before.last().push(content.last()))
        }
    }
}

/// Whether a line, its ends trimmed, is a credential: it is not empty and
/// does not begin with `#`.
pub open spec fn is_token() -> spec_fn(Seq<char>) -> bool {
    |line: Seq<char>| line.len() > 0 && line[0] != '#'
}

/// The credentials that a list holds, one to a line: each line without the
/// white space at its ends, empty lines and lines that begin with `#` left
/// out.
pub open spec fn tokens_of(content: Seq<char>) -> Seq<Seq<char>> {
    lines_of(content).map_values(|line: Seq<char>| trimmed(line)).filter(is_token())
}

/// What a list of texts says.
pub open spec fn texts_view(texts: Seq<String>) -> Seq<Seq<char>> {
    texts.map_values(|text: String| text@)
}

/// There is always a last line.
pub proof fn lemma_lines_of_nonempty(content: Seq<char>)
    ensures
        lines_of(content).len() > 0,
    decreases content.len(),
{
    if content.len() > 0 {
        lemma_lines_of_nonempty(content.drop_last());
    }
}

/// Whether `line`, a line without the white space at its ends, is a
/// credential.
pub fn is_credential(line: &str) -> (yes: bool)
    ensures
        yes == is_token()(line@),
{
    let chars = chars_of(line);
    chars.len() > 0 && chars[0] != '#'
}

/// Appends the line `line` to `tokens` if, trimmed, it is a credential.
fn push_token(tokens: &mut Vec<String>, line: &Vec<char>)
    ensures
        texts_view(final(tokens)@) == if is_token()(trimmed(line@)) {
            texts_view(old(tokens)@).push(trimmed(line@))
        } else {
            texts_view(old(tokens)@)
        },
{
    let inner = trim(string_of(line).as_str());
    if is_credential(inner.as_str()) {
        let ghost before = tokens@;
        tokens.push(inner);
        assert(texts_view(tokens@) == texts_view(before).push(trimmed(line@)));
    }
}

/// The credentials that a list holds, one to a line.
pub fn parse_tokens(content: &str) -> (tokens: Vec<String>)
    ensures
        texts_view(tokens@) == tokens_of(content@),
{
    let chars = chars_of(content);
    let mut tokens: Vec<String> = Vec::new();
    let mut line: Vec<char> = Vec::new();
    let mut i: usize = 0;
    let ghost clean = |line: Seq<char>| trimmed(line);
    proof {
        reveal(Seq::filter);
        assert(lines_of(chars@.take(0)) == seq![Seq::<char>::empty()]);
        assert(lines_of(chars@.take(0)).drop_last().map_values(clean).filter(is_token())
            == Seq::<Seq<char>>::empty());
        assert(texts_view(tokens@) == Seq::<Seq<char>>::empty());
    }
    while i < chars.len()
        invariant
            i <= chars.len(),
            clean == |line: Seq<char>| trimmed(line),
            lines_of(chars@.take(i as int)).len() > 0,
            line@ == lines_of(chars@.take(i as int)).last(),
            texts_view(tokens@) == lines_of(chars@.take(i as int)).drop_last().map_values(
                clean,
            ).filter(is_token()),
        decreases chars.len() - i,
    {
        let ghost before = lines_of(chars@.take(i as int));
        assert(chars@.take(i + 1).drop_last() == chars@.take(i as int));
        if chars[i] == '\n' {
            proof {
                let closed = before.drop_last().map_values(clean);
                closed.lemma_filter_push(trimmed(line@), is_token());
                assert(before.push(Seq::<char>::empty()).drop_last() == before);
                assert(before == before.drop_last().push(line@));
                assert(before.map_values(clean) == closed.push(trimmed(line@)));
            }
            push_token(&mut tokens, &line);
            line = Vec::new();
        } else {
            line.push(chars[i]);
            assert(before.drop_last().push(before.last().push(chars@[i as int])).drop_last()
                == before.drop_last());
        }
        i += 1;
    }
    assert(chars@.take(chars.len() as int) == chars@);
    proof {
        let all = lines_of(chars@);
        let closed = all.drop_last().map_values(clean);
        closed.lemma_filter_push(trimmed(line@), is_token());
        assert(all == all.drop_last().push(line@));
        assert(all.map_values(clean) == closed.push(trimmed(line@)));
    }
    push_token(&mut tokens, &line);
    tokens
}

impl ScrapeType {
    /// The kind of scrape that the command line asks for.
    pub fn of(target: TargetType) -> (kind: ScrapeType)
        ensures
            kind == match target {
                TargetType::Channel => ScrapeType::Channel,
                TargetType::Guild => ScrapeType::Guild,
            },
    {
        match target {
            TargetType::Channel => ScrapeType::Channel,
            TargetType::Guild => ScrapeType::Guild,
        }
    }
}

/// A scrape that has started.
#[derive(Debug)]
pub struct ScrapeLaunch {
    pub scraper: Scraper,
    /// The first request to send.
    pub first: ScrapeRequest,
    /// Whether to warn that the scrape will be slow: a guild is scraped
    /// with few credentials.
    pub slow: bool,
}

/// Whether `launch` is what starting a scrape at the moment `now_millis`
/// comes to: an error without a credential or without a connected session,
/// and else a running scrape that has seen nothing, its first request with
/// the first session, its search bound at the id that stands for the moment.
pub open spec fn launched_at(
    launch: Result<ScrapeLaunch, LaunchError>,
    target_type: ScrapeType,
    id: u64,
    token_count: usize,
    bot_count: usize,
    persist: bool,
    now_millis: i64,
) -> bool {
    if token_count == 0 {
        launch == Err::<ScrapeLaunch, LaunchError>(LaunchError::NoTokens)
    } else if bot_count == 0 {
        launch == Err::<ScrapeLaunch, LaunchError>(LaunchError::NoBots)
    } else {
        match launch {
            Ok(started) => {
                &&& started.scraper.bot_count == bot_count
                &&& started.scraper.id == id
                &&& started.scraper.scrape_type == target_type
                &&& started.scraper.persist == persist
                &&& started.scraper.bot_index == 0
                &&& started.scraper.running
                &&& started.scraper.state.last_message_id is None
                &&& !started.scraper.state.progress_bar_initialized
                &&& started.scraper.state.progress == 0
                &&& started.scraper.state.last_id == spec_upper_bound_id(now_millis)
                &&& started.first == started.scraper.request()
                &&& started.slow == (target_type is Guild && token_count < FEW_TOKENS)
            },
            Err(_) => false,
        }
    }
}

/// Starts a scrape of `id`, for which `token_count` credentials were given
/// and `bot_count` sessions are connected, at the moment `now_millis`.
/// Without a credential, or without a connected session, nothing starts.
pub fn start_scrape_at(
    target_type: ScrapeType,
    id: u64,
    token_count: usize,
    bot_count: usize,
    persist: bool,
    now_millis: i64,
) -> (launch: Result<ScrapeLaunch, LaunchError>)
    ensures
        launched_at(launch, target_type, id, token_count, bot_count, persist, now_millis),
{
    if token_count == 0 {
        return Err(LaunchError::NoTokens);
    }
    let mut scraper = Scraper::starting_at(bot_count, id, target_type, persist, now_millis);
    match scraper.start() {
        Ok(first) => {
            let slow = match target_type {
                ScrapeType::Guild => token_count < FEW_TOKENS,
                ScrapeType::Channel => false,
            };
            Ok(ScrapeLaunch { scraper, first, slow })
        },
        Err(_) => Err(LaunchError::NoBots),
    }
}

/// Starts a scrape of `id` now: as `start_scrape_at` does at the moment
/// that the clock shows.
pub fn start_scrape(
    target_type: ScrapeType,
    id: u64,
    token_count: usize,
    bot_count: usize,
    persist: bool,
) -> (launch: Result<ScrapeLaunch, LaunchError>)
    ensures
        exists|now_millis: i64|
            launched_at(launch, target_type, id, token_count, bot_count, persist, now_millis),
{
    let now_millis = current_millis();
    let launch = start_scrape_at(target_type, id, token_count, bot_count, persist, now_millis);
    assert(launched_at(launch, target_type, id, token_count, bot_count, persist, now_millis));
    launch
}

/// The sessions of a run that follows the realtime feed: one for each
/// credential of the list, numbered in order, none of them started.
/// Without a credential the run does not start.
pub fn start_sniff(tokens_content: &str) -> (sessions: Result<Vec<Session>, LaunchError>)
    ensures
        tokens_of(tokens_content@).len() == 0 ==> sessions == Err::<Vec<Session>, LaunchError>(
            LaunchError::NoTokens,
        ),
        tokens_of(tokens_content@).len() > 0 ==> (sessions matches Ok(list) && {
            &&& list@.len() == tokens_of(tokens_content@).len()
            &&& forall|i: int|
                0 <= i < list@.len() ==> {
                    &&& (#[trigger] list@[i]).account_index == i
                    &&& list@[i].token@ == tokens_of(tokens_content@)[i]
                    &&& list@[i].state is Disconnected
                    &&& list@[i].guild_ids@.len() == 0
                    &&& list@[i].refresh_cursor == 0
                    &&& !list@[i].connected_before
                }
        }),
{
    let tokens = parse_tokens(tokens_content);
    if tokens.len() == 0 {
        return Err(LaunchError::NoTokens);
    }
    let mut sessions: Vec<Session> = Vec::new();
    let mut i: usize = 0;
    while i < tokens.len()
        invariant
            i <= tokens.len(),
            sessions@.len() == i,
            forall|j: int|
                0 <= j < i ==> {
                    &&& (#[trigger] sessions@[j]).account_index == j
                    &&& sessions@[j].token@ == tokens@[j]@
                    &&& sessions@[j].state is Disconnected
                    &&& sessions@[j].guild_ids@.len() == 0
                    &&& sessions@[j].refresh_cursor == 0
                    &&& !sessions@[j].connected_before
                },
        decreases tokens.len() - i,
    {
        sessions.push(Session::new(i, tokens[i].clone()));
        i += 1;
    }
    assert forall|j: int| 0 <= j < sessions@.len() implies sessions@[j].token@ == tokens_of(
        tokens_content@,
    )[j] by {
        assert(texts_view(tokens@)[j] == tokens@[j]@);
    }
    Ok(sessions)
}

} // verus!
