//! The backfill of one channel or guild: page after page of history, each
//! asked of the next session in turn, until a page comes back empty.

use vstd::prelude::*;
use crate::config::Config;
use crate::event_processor::message::{
    passed_over, plan_of, process_message_common, IngestPlan, Plan,
};
use crate::model::Message;
use crate::snowflake::{spec_upper_bound_id, upper_bound_id};

verus! {

/// How many messages a page of a channel's history holds at most.
pub const CHANNEL_PAGE_SIZE: u8 = 100;

/// How long to wait after a page that could not be fetched, in seconds.
pub const RETRY_SLEEP_SECS: u64 = 1;

/// What a scrape reads the history of.
#[derive(Clone, Copy, Debug, PartialEq, Eq, Structural)]
pub enum ScrapeType {
    Channel,
    Guild,
}

/// Where a scrape stands in the history.
#[derive(Clone, Copy, Debug)]
pub struct ScrapeState {
    /// Channel mode: the lowest id seen, none before the first page.
    pub last_message_id: Option<u64>,
    /// Guild mode: whether a page was fetched yet, and so the total known.
    pub progress_bar_initialized: bool,
    /// Guild mode: how many messages were fetched so far.
    pub progress: usize,
    /// Guild mode: the bound below which the next page is searched.
    pub last_id: u64,
}

/// What to ask a session for.
#[derive(Clone, Copy, Debug, PartialEq, Eq, Structural)]
pub enum ScrapeQuery {
    /// The messages of the channel before `before`, newest first, at most
    /// `limit` of them.
    Channel { before: Option<u64>, limit: u8 },
    /// The messages of the guild with an id of at most `max_id`.
    Guild { max_id: u64, include_nsfw: bool },
}

/// One request: which session to ask, and what for.
#[derive(Clone, Copy, Debug, PartialEq, Eq, Structural)]
pub struct ScrapeRequest {
    pub bot_index: usize,
    pub query: ScrapeQuery,
}

/// What came back for a request.
#[derive(Debug)]
#[allow(inconsistent_fields)]
pub enum PageResult {
    /// The request failed.
    Failed,
    /// A page of a channel's history.
    Channel { messages: Vec<Message> },
    /// A page of a guild search: how many messages the search matches in
    /// all, and the messages of this page, in groups.
    Guild { total_results: u16, messages: Vec<Vec<Message>> },
}

/// What is to be done after a page.
#[derive(Debug)]
pub struct ScrapeStep {
    /// What each message of the page calls for, in page order; messages
    /// that are passed over are left out.
    pub plans: Vec<IngestPlan>,
    /// Set up the progress display for this many messages.
    pub progress_total: Option<usize>,
    /// Show this many messages as done.
    pub progress: Option<usize>,
    /// Wait this many seconds before the next request.
    pub sleep_secs: Option<u64>,
    /// The next request; none when the scrape is over.
    pub next: Option<ScrapeRequest>,
}

/// Why a scrape did not start.
#[derive(Clone, Copy, Debug, PartialEq, Eq, Structural)]
pub enum ScrapeError {
    /// No session is connected.
    NoBots,
}

impl ScrapeError {
    /// The error in words.
    pub fn message(&self) -> (text: String)
        ensures
            text@ == "No valid bots connected for scraping"@,
    {
        "No valid bots connected for scraping".to_owned()
    }
}

/// A scrape of one target with a number of connected sessions.
#[derive(Debug)]
pub struct Scraper {
    /// How many sessions are connected.
    pub bot_count: usize,
    /// The channel or guild whose history is read.
    pub id: u64,
    pub scrape_type: ScrapeType,
    /// Whether what is read is stored.
    pub persist: bool,
    /// The session that the outstanding request was sent to.
    pub bot_index: usize,
    pub state: ScrapeState,
    /// Whether a request is outstanding.
    pub running: bool,
}

/// The session after `bot_index` in turn, the first one after the last.
pub open spec fn next_bot(bot_index: usize, bot_count: usize) -> usize {
    if bot_index + 1 >= bot_count {
        0
    } else {
        (bot_index + 1) as usize
    }
}

/// The session that takes the `step`-th request of a scrape, counted from
/// 0, where `bot_count` sessions take turns.
pub open spec fn bot_at(step: nat, bot_count: usize) -> usize
    decreases step,
{
    if step == 0 {
        0
    } else {
        next_bot(bot_at((step - 1) as nat, bot_count), bot_count)
    }
}

/// The lowest id among `messages`; the highest id there is where there is
/// no message.
pub open spec fn lowest_id(messages: Seq<Message>) -> u64
    decreases messages.len(),
{
    if messages.len() == 0 {
        u64::MAX
    } else {
        let before = lowest_id(messages.drop_last());
        if messages.last().id < before {
            messages.last().id
        } else {
            before
        }
    }
}

/// The messages of all `groups`, group after group.
pub open spec fn flattened(groups: Seq<Vec<Message>>) -> Seq<Message>
    decreases groups.len(),
{
    if groups.len() == 0 {
        Seq::empty()
    } else {
        flattened(groups.drop_last()) + groups.last()@
    }
}

/// The messages of a page that are not passed over.
pub open spec fn taken(config: Config) -> spec_fn(Message) -> bool {
    |msg: Message| !passed_over(config, msg.author)
}

/// What the messages of a page call for, in page order, seen in
/// `guild_id`; messages that are passed over are left out.
pub open spec fn page_plans(
    messages: Seq<Message>,
    guild_id: Option<u64>,
    persist: bool,
    config: Config,
) -> Seq<Plan> {
    messages.filter(taken(config)).map_values(
        |msg: Message| plan_of(msg, msg.author, guild_id, persist, config),
    )
}

/// What a list of plans says.
pub open spec fn plans_view(plans: Seq<IngestPlan>) -> Seq<Plan> {
    plans.map_values(|plan: IngestPlan| plan@)
}

/// The sum of two counts, or the greatest count that fits where the sum
/// does not.
pub open spec fn capped_sum(a: nat, b: nat) -> usize {
    if a + b > usize::MAX {
        usize::MAX
    } else {
        (a + b) as usize
    }
}

impl ScrapeState {
    /// The state before the first page, for a scrape that starts at the
    /// moment `now_millis`: nothing seen, nothing counted, and the search
    /// bound at the id that stands for that moment.
    pub fn starting_at(now_millis: i64) -> (state: ScrapeState)
        ensures
            state.last_message_id is None,
            !state.progress_bar_initialized,
            state.progress == 0,
            state.last_id == spec_upper_bound_id(now_millis),
    {
        ScrapeState {
            last_message_id: None,
            progress_bar_initialized: false,
            progress: 0,
            last_id: upper_bound_id(now_millis),
        }
    }

    /// The state before the first page, for a scrape that starts now.
    pub fn new() -> (state: ScrapeState)
        ensures
            state.last_message_id is None,
            !state.progress_bar_initialized,
            state.progress == 0,
            exists|now_millis: i64| state.last_id == spec_upper_bound_id(now_millis),
    {
        ScrapeState::starting_at(current_millis())
    }
}

/// The moment of the call, in milliseconds since the Unix epoch, as
/// `chrono::Utc::now` reads it off the system clock. Nothing is claimed of
/// the number. With the clock set before 1970 the call stops the program.
#[verifier::external_body]
pub(crate) fn current_millis() -> (millis: i64) {
    chrono::Utc::now().timestamp_millis()
}

/// The lowest id among `messages`, folded into `so_far`.
fn fold_lowest_id(messages: &Vec<Message>, so_far: u64) -> (lowest: u64)
    ensures
        lowest == if lowest_id(messages@) < so_far {
            lowest_id(messages@)
        } else {
            so_far
        },
{
    let mut lowest = so_far;
    let mut i: usize = 0;
    while i < messages.len()
        invariant
            i <= messages.len(),
            lowest == if lowest_id(messages@.take(i as int)) < so_far {
                lowest_id(messages@.take(i as int))
            } else {
                so_far
            },
        decreases messages.len() - i,
    {
        assert(messages@.take(i + 1).drop_last() == messages@.take(i as int));
        if messages[i].id < lowest {
            lowest = messages[i].id;
        }
        i += 1;
    }
    assert(messages@.take(messages.len() as int) == messages@);
    lowest
}

/// The lowest id of two lists taken together is the lower of their lowest
/// ids.
pub proof fn lemma_lowest_id_concat(first: Seq<Message>, second: Seq<Message>)
    ensures
        lowest_id(first + second) == if lowest_id(second) < lowest_id(first) {
            lowest_id(second)
        } else {
            lowest_id(first)
        },
    decreases second.len(),
{
    if second.len() == 0 {
        assert(first + second == first);
    } else {
        lemma_lowest_id_concat(first, second.drop_last());
        assert((first + second).drop_last() == first + second.drop_last());
    }
}

/// The lowest id of a list that holds a message is the id of one of its
/// messages, and no message of the list has a lower one.
pub proof fn lemma_lowest_id_is_least(messages: Seq<Message>)
    requires
        messages.len() > 0,
    ensures
        exists|i: int| 0 <= i < messages.len() && (#[trigger] messages[i]).id == lowest_id(messages),
        forall|i: int| 0 <= i < messages.len() ==> lowest_id(messages) <= (#[trigger] messages[i]).id,
    decreases messages.len(),
{
    let rest = messages.drop_last();
    if rest.len() == 0 {
        assert(messages[0].id == lowest_id(messages));
    } else {
        lemma_lowest_id_is_least(rest);
        let at = choose|i: int| 0 <= i < rest.len() && (#[trigger] rest[i]).id == lowest_id(rest);
        if messages.last().id < lowest_id(rest) {
            assert(messages[messages.len() - 1].id == lowest_id(messages));
        } else {
            assert(messages[at].id == lowest_id(messages));
        }
        assert forall|i: int| 0 <= i < messages.len() implies lowest_id(messages) <= (
        #[trigger] messages[i]).id by {
            if i < rest.len() {
                assert(rest[i].id == messages[i].id);
            }
        }
    }
}

/// Where every message of a page is older than the bound it was asked
/// under, the bound for the next page is lower than that bound: the resume
/// position strictly decreases from page to page.
pub proof fn lemma_cursor_decreases(messages: Seq<Message>, bound: u64)
    requires
        messages.len() > 0,
        forall|i: int| 0 <= i < messages.len() ==> (#[trigger] messages[i]).id < bound,
    ensures
        lowest_id(messages) < bound,
{
    lemma_lowest_id_is_least(messages);
}

/// The session that takes a request is the number of that request modulo
/// the number of sessions: the sessions take strict turns.
pub proof fn lemma_rotation(step: nat, bot_count: usize)
    requires
        bot_count > 0,
    ensures
        bot_at(step, bot_count) == step % (bot_count as nat),
    decreases step,
{
    let n = bot_count as int;
    if step == 0 {
        vstd::arithmetic::div_mod::lemma_small_mod(0, n as nat);
    } else {
        lemma_rotation((step - 1) as nat, bot_count);
        let before = (step - 1) as int;
        let q = before / n;
        let r = before % n;
        vstd::arithmetic::div_mod::lemma_fundamental_div_mod(before, n);
        vstd::arithmetic::div_mod::lemma_mod_bound(before, n);
        vstd::arithmetic::mul::lemma_mul_is_commutative(n, q);
        if r + 1 < n {
            vstd::arithmetic::div_mod::lemma_fundamental_div_mod_converse(before + 1, n, q, r + 1);
        } else {
            vstd::arithmetic::mul::lemma_mul_is_distributive_add_other_way(n, q, 1);
            vstd::arithmetic::div_mod::lemma_fundamental_div_mod_converse(before + 1, n, q + 1, 0);
        }
    }
}

/// Appends to `plans` what the messages of a page call for.
fn push_page_plans(
    plans: &mut Vec<IngestPlan>,
    messages: &Vec<Message>,
    guild_id: Option<u64>,
    persist: bool,
    config: &Config,
)
    ensures
        plans_view(final(plans)@) == plans_view(old(plans)@) + page_plans(
            messages@,
            guild_id,
            persist,
            *config,
        ),
{
    let ghost base = plans_view(plans@);
    let mut i: usize = 0;
    proof {
        reveal(Seq::filter);
        assert(page_plans(messages@.take(0), guild_id, persist, *config) == Seq::<Plan>::empty());
        assert(plans_view(plans@) == base + Seq::<Plan>::empty());
    }
    while i < messages.len()
        invariant
            i <= messages.len(),
            plans_view(plans@) == base + page_plans(
                messages@.take(i as int),
                guild_id,
                persist,
                *config,
            ),
        decreases messages.len() - i,
    {
        let msg = &messages[i];
        let ghost before = plans@;
        let ghost head = messages@.take(i as int);
        proof {
            assert(messages@.take(i + 1) == head.push(*msg));
            head.lemma_filter_push(*msg, taken(*config));
        }
        if !(config.skip_bot_messages && msg.author.is_bot()) {
            let plan = process_message_common(msg, &msg.author, guild_id, persist, config);
            plans.push(plan);
            assert(plans_view(plans@) == plans_view(before).push(
                plan_of(*msg, msg.author, guild_id, persist, *config),
            ));
            assert(page_plans(head.push(*msg), guild_id, persist, *config) == page_plans(
                head,
                guild_id,
                persist,
                *config,
            ).push(plan_of(*msg, msg.author, guild_id, persist, *config)));
        }
        i += 1;
    }
    assert(messages@.take(messages.len() as int) == messages@);
}

/// What the messages of two lists call for, one list after the other, is
/// what the messages of the one list made of both call for.
pub proof fn lemma_page_plans_concat(
    first: Seq<Message>,
    second: Seq<Message>,
    guild_id: Option<u64>,
    persist: bool,
    config: Config,
)
    ensures
        page_plans(first + second, guild_id, persist, config) == page_plans(
            first,
            guild_id,
            persist,
            config,
        ) + page_plans(second, guild_id, persist, config),
{
    Seq::filter_distributes_over_add(first, second, taken(config));
    assert(page_plans(first + second, guild_id, persist, config) =~= page_plans(
        first,
        guild_id,
        persist,
        config,
    ) + page_plans(second, guild_id, persist, config));
}

impl Scraper {
    /// The request that is outstanding while the scrape runs: to the
    /// session whose turn it is, for the page below the resume position.
    pub open spec fn request(self) -> ScrapeRequest {
        ScrapeRequest {
            bot_index: if self.bot_index >= self.bot_count {
                0
            } else {
                self.bot_index
            },
            query: match self.scrape_type {
                ScrapeType::Channel => ScrapeQuery::Channel {
                    before: self.state.last_message_id,
                    limit: CHANNEL_PAGE_SIZE,
                },
                ScrapeType::Guild => ScrapeQuery::Guild {
                    max_id: self.state.last_id,
                    include_nsfw: true,
                },
            },
        }
    }

    /// The messages of `page`, where `page` is a page of the kind that this
    /// scrape asks for; nothing for a failed request or a page of the other
    /// kind, which counts as failed.
    pub open spec fn fetched(self, page: PageResult) -> Option<Seq<Message>> {
        match (self.scrape_type, page) {
            (ScrapeType::Channel, PageResult::Channel { messages }) => Some(messages@),
            (ScrapeType::Guild, PageResult::Guild { messages, .. }) => Some(flattened(messages@)),
            _ => None,
        }
    }

    /// The guild that the messages of this scrape are stored as seen in:
    /// the target of a guild scrape; none for a channel scrape, which does
    /// not know the channel's guild.
    pub open spec fn scope(self) -> Option<u64> {
        match self.scrape_type {
            ScrapeType::Channel => None,
            ScrapeType::Guild => Some(self.id),
        }
    }

    /// Where the scrape stands after `page`. A failed request changes
    /// nothing. A page moves the resume position to its lowest id, unless
    /// it is empty; a page of a guild also marks the total as known and
    /// counts its messages, those passed over included.
    pub open spec fn state_after(self, page: PageResult) -> ScrapeState {
        match self.fetched(page) {
            None => self.state,
            Some(messages) => match self.scrape_type {
                ScrapeType::Channel => if messages.len() == 0 {
                    self.state
                } else {
                    ScrapeState { last_message_id: Some(lowest_id(messages)), ..self.state }
                },
                ScrapeType::Guild => if messages.len() == 0 {
                    ScrapeState { progress_bar_initialized: true, ..self.state }
                } else {
                    ScrapeState {
                        progress_bar_initialized: true,
                        progress: capped_sum(self.state.progress as nat, messages.len()),
                        last_id: lowest_id(messages),
                        ..self.state
                    }
                },
            },
        }
    }

    /// Whether `page` ends the scrape: it was fetched and holds no message.
    pub open spec fn ended_by(self, page: PageResult) -> bool {
        self.fetched(page) matches Some(messages) && messages.len() == 0
    }

    /// The scrape after `page` came back for its outstanding request. A
    /// scrape that is not running stays as it is. A running one takes the
    /// page in, stops if the page ends it, and otherwise turns to the next
    /// session.
    pub open spec fn after_page(self, page: PageResult) -> Scraper {
        if !self.running {
            self
        } else {
            Scraper {
                state: self.state_after(page),
                running: !self.ended_by(page),
                bot_index: if self.ended_by(page) {
                    self.request().bot_index
                } else {
                    next_bot(self.request().bot_index, self.bot_count)
                },
                ..self
            }
        }
    }

    /// The scrape after each of `pages` came back, one after the other.
    pub open spec fn after_pages(self, pages: Seq<PageResult>) -> Scraper
        decreases pages.len(),
    {
        if pages.len() == 0 {
            self
        } else {
            self.after_pages(pages.drop_last()).after_page(pages.last())
        }
    }

    /// A scrape of `id` with `bot_count` connected sessions, not started,
    /// whose guild search starts at the moment `now_millis`.
    pub fn starting_at(
        bot_count: usize,
        id: u64,
        scrape_type: ScrapeType,
        persist: bool,
        now_millis: i64,
    ) -> (scraper: Scraper)
        ensures
            scraper.bot_count == bot_count,
            scraper.id == id,
            scraper.scrape_type == scrape_type,
            scraper.persist == persist,
            scraper.bot_index == 0,
            !scraper.running,
            scraper.state.last_message_id is None,
            !scraper.state.progress_bar_initialized,
            scraper.state.progress == 0,
            scraper.state.last_id == spec_upper_bound_id(now_millis),
    {
        Scraper {
            bot_count,
            id,
            scrape_type,
            persist,
            bot_index: 0,
            state: ScrapeState::starting_at(now_millis),
            running: false,
        }
    }

    /// A scrape of `id` with `bot_count` connected sessions, not started,
    /// whose guild search starts now.
    pub fn new(bot_count: usize, id: u64, scrape_type: ScrapeType, persist: bool) -> (scraper:
        Scraper)
        ensures
            scraper.bot_count == bot_count,
            scraper.id == id,
            scraper.scrape_type == scrape_type,
            scraper.persist == persist,
            scraper.bot_index == 0,
            !scraper.running,
            scraper.state.last_message_id is None,
            !scraper.state.progress_bar_initialized,
            scraper.state.progress == 0,
            exists|now_millis: i64| scraper.state.last_id == spec_upper_bound_id(now_millis),
    {
        Scraper {
            bot_count,
            id,
            scrape_type,
            persist,
            bot_index: 0,
            state: ScrapeState::new(),
            running: false,
        }
    }

    /// The request that is outstanding.
    pub fn current_request(&self) -> (request: ScrapeRequest)
        ensures
            request == self.request(),
    {
        let bot_index = if self.bot_index >= self.bot_count {
            0
        } else {
            self.bot_index
        };
        let query = match self.scrape_type {
            ScrapeType::Channel => ScrapeQuery::Channel {
                before: self.state.last_message_id,
                limit: CHANNEL_PAGE_SIZE,
            },
            ScrapeType::Guild => ScrapeQuery::Guild {
                max_id: self.state.last_id,
                include_nsfw: true,
            },
        };
        ScrapeRequest { bot_index, query }
    }

    /// Starts the scrape: the first request goes to the first session.
    /// Without a connected session the scrape does not start.
    pub fn start(&mut self) -> (first: Result<ScrapeRequest, ScrapeError>)
        ensures
            old(self).bot_count == 0 ==> first == Err::<ScrapeRequest, ScrapeError>(
                ScrapeError::NoBots,
            ) && *final(self) == *old(self),
            old(self).bot_count > 0 ==> *final(self) == (Scraper {
                bot_index: 0,
                running: true,
                ..*old(self)
            }) && first == Ok::<ScrapeRequest, ScrapeError>(final(self).request()),
    {
        if self.bot_count == 0 {
            return Err(ScrapeError::NoBots);
        }
        self.bot_index = 0;
        self.running = true;
        Ok(self.current_request())
    }

    /// Takes what came back for the outstanding request and says what is
    /// to be done.
    ///
    /// A failed request leaves the resume position where it is; the same
    /// page is asked of the next session after a short wait, any number of
    /// times. A page without messages ends the scrape, and nothing else
    /// does. Any other page has each of its messages that is not passed
    /// over stored and downloaded from as ingestion says, moves the resume
    /// position to the lowest id of the page, and the next page is asked of
    /// the next session. For a guild, the first page sets up the progress
    /// display with the search's total, and every page with messages adds
    /// the number of its messages to the progress, those passed over
    /// included.
    ///
    /// A scrape that is not running has nothing to be done.
    pub fn on_page(&mut self, page: PageResult, config: &Config) -> (step: ScrapeStep)
        ensures
            *final(self) == old(self).after_page(page),
            !old(self).running ==> {
                &&& step.plans@.len() == 0
                &&& step.progress_total is None
                &&& step.progress is None
                &&& step.sleep_secs is None
                &&& step.next is None
            },
            old(self).running ==> {
                &&& step.next == if old(self).ended_by(page) {
                    None
                } else {
                    Some(final(self).request())
                }
                &&& step.sleep_secs == if old(self).fetched(page) is None {
                    Some(RETRY_SLEEP_SECS)
                } else {
                    None
                }
                &&& plans_view(step.plans@) == match old(self).fetched(page) {
                    Some(messages) => page_plans(
                        messages,
                        old(self).scope(),
                        old(self).persist,
                        *config,
                    ),
                    None => Seq::<Plan>::empty(),
                }
                &&& step.progress_total == match page {
                    PageResult::Guild { total_results, .. } => if old(self).scrape_type is Guild
                        && !old(self).state.progress_bar_initialized {
                        Some(total_results as usize)
                    } else {
                        None
                    },
                    _ => None,
                }
                &&& step.progress == if old(self).scrape_type is Guild && old(self).fetched(
                    page,
                ) is Some && !old(self).ended_by(page) {
                    Some(final(self).state.progress)
                } else {
                    None
                }
            },
    {
        let mut step = ScrapeStep {
            plans: Vec::new(),
            progress_total: None,
            progress: None,
            sleep_secs: None,
            next: None,
        };
        assert(plans_view(step.plans@) == Seq::<Plan>::empty());
        if !self.running {
            return step;
        }
        let asked = self.current_request().bot_index;
        let mut ended = false;
        match (self.scrape_type, &page) {
            (ScrapeType::Channel, PageResult::Channel { messages }) => {
                if messages.len() == 0 {
                    ended = true;
                    proof {
                        reveal(Seq::filter);
                    }
                } else {
                    push_page_plans(&mut step.plans, messages, None, self.persist, config);
                    self.state.last_message_id = Some(fold_lowest_id(messages, u64::MAX));
                }
            },
            (ScrapeType::Guild, PageResult::Guild { total_results, messages }) => {
                if !self.state.progress_bar_initialized {
                    step.progress_total = Some(*total_results as usize);
                    self.state.progress_bar_initialized = true;
                }
                let mut plans: Vec<IngestPlan> = Vec::new();
                let mut count: usize = 0;
                let mut lowest: u64 = u64::MAX;
                let mut g: usize = 0;
                proof {
                    reveal(Seq::filter);
                    assert(page_plans(
                        flattened(messages@.take(0)),
                        Some(self.id),
                        self.persist,
                        *config,
                    ) == Seq::<Plan>::empty());
                }
                while g < messages.len()
                    invariant
                        g <= messages.len(),
                        count == capped_sum(0, flattened(messages@.take(g as int)).len()),
                        lowest == lowest_id(flattened(messages@.take(g as int))),
                        plans_view(plans@) == page_plans(
                            flattened(messages@.take(g as int)),
                            Some(self.id),
                            self.persist,
                            *config,
                        ),
                    decreases messages.len() - g,
                {
                    let group = &messages[g];
                    proof {
                        assert(messages@.take(g + 1).drop_last() == messages@.take(g as int));
                        lemma_lowest_id_concat(flattened(messages@.take(g as int)), group@);
                        lemma_page_plans_concat(
                            flattened(messages@.take(g as int)),
                            group@,
                            Some(self.id),
                            self.persist,
                            *config,
                        );
                    }
                    push_page_plans(&mut plans, group, Some(self.id), self.persist, config);
                    lowest = fold_lowest_id(group, lowest);
                    count = if group.len() > usize::MAX - count {
                        usize::MAX
                    } else {
                        count + group.len()
                    };
                    g += 1;
                }
                assert(messages@.take(messages.len() as int) == messages@);
                step.plans = plans;
                if count == 0 {
                    ended = true;
                } else {
                    self.state.last_id = lowest;
                    self.state.progress = if count > usize::MAX - self.state.progress {
                        usize::MAX
                    } else {
                        self.state.progress + count
                    };
                    step.progress = Some(self.state.progress);
                }
            },
            _ => {
                step.sleep_secs = Some(RETRY_SLEEP_SECS);
            },
        }
        if ended {
            self.running = false;
            self.bot_index = asked;
        } else {
            self.bot_index = if asked >= self.bot_count || asked + 1 >= self.bot_count {
                0
            } else {
                asked + 1
            };
            step.next = Some(self.current_request());
        }
        step
    }
}

/// However a run goes, what it scrapes, with how many sessions and whether
/// it stores what it reads stay as they were.
pub proof fn lemma_run_keeps_its_target(scraper: Scraper, pages: Seq<PageResult>)
    ensures
        scraper.after_pages(pages).bot_count == scraper.bot_count,
        scraper.after_pages(pages).id == scraper.id,
        scraper.after_pages(pages).scrape_type == scraper.scrape_type,
        scraper.after_pages(pages).persist == scraper.persist,
    decreases pages.len(),
{
    if pages.len() > 0 {
        lemma_run_keeps_its_target(scraper, pages.drop_last());
    }
}

/// A run ends at its first empty page and at nothing else: after any
/// number of pages it is still running exactly if none of them was fetched
/// and empty. Failed requests, however many, do not end it.
pub proof fn lemma_run_ends_at_first_empty_page(scraper: Scraper, pages: Seq<PageResult>)
    requires
        scraper.running,
    ensures
        scraper.after_pages(pages).running <==> forall|i: int|
            0 <= i < pages.len() ==> !scraper.ended_by(#[trigger] pages[i]),
    decreases pages.len(),
{
    if pages.len() > 0 {
        let before = pages.drop_last();
        lemma_run_ends_at_first_empty_page(scraper, before);
        lemma_run_keeps_its_target(scraper, before);
        let earlier = scraper.after_pages(before);
        assert(earlier.ended_by(pages.last()) == scraper.ended_by(pages.last()));
        if forall|i: int| 0 <= i < pages.len() ==> !scraper.ended_by(#[trigger] pages[i]) {
            assert forall|i: int| 0 <= i < before.len() implies !scraper.ended_by(
                #[trigger] before[i],
            ) by {
                assert(before[i] == pages[i]);
            }
            assert(!scraper.ended_by(pages[pages.len() - 1]));
        }
        if scraper.after_pages(pages).running {
            assert forall|i: int| 0 <= i < pages.len() implies !scraper.ended_by(
                #[trigger] pages[i],
            ) by {
                if i < before.len() {
                    assert(before[i] == pages[i]);
                }
            }
        }
    }
}

/// The sessions take strict turns for as long as a run lasts: after a start
/// and any number of pages that do not end the run, failed ones included,
/// the outstanding request is with the session whose number is the number
/// of pages so far modulo the number of sessions.
pub proof fn lemma_run_rotates(scraper: Scraper, pages: Seq<PageResult>)
    requires
        scraper.running,
        scraper.bot_count > 0,
        scraper.bot_index == 0,
        forall|i: int| 0 <= i < pages.len() ==> !scraper.ended_by(#[trigger] pages[i]),
    ensures
        scraper.after_pages(pages).running,
        scraper.after_pages(pages).request().bot_index == pages.len() % (scraper.bot_count as nat),
        scraper.after_pages(pages).request().bot_index == bot_at(pages.len(), scraper.bot_count),
    decreases pages.len(),
{
    lemma_rotation(pages.len(), scraper.bot_count);
    lemma_run_ends_at_first_empty_page(scraper, pages);
    if pages.len() > 0 {
        let before = pages.drop_last();
        assert forall|i: int| 0 <= i < before.len() implies !scraper.ended_by(
            #[trigger] before[i],
        ) by {
            assert(before[i] == pages[i]);
        }
        lemma_run_rotates(scraper, before);
        lemma_run_keeps_its_target(scraper, before);
        let earlier = scraper.after_pages(before);
        assert(!scraper.ended_by(pages[pages.len() - 1]));
        assert(earlier.ended_by(pages.last()) == scraper.ended_by(pages.last()));
        vstd::arithmetic::div_mod::lemma_mod_bound(before.len() as int, scraper.bot_count as int);
    } else {
        vstd::arithmetic::div_mod::lemma_small_mod(0, scraper.bot_count as nat);
    }
}

/// A failed request never moves the resume position and never ends the
/// run: it is not taken for the end of the history.
pub proof fn lemma_failure_changes_no_position(scraper: Scraper, page: PageResult)
    requires
        scraper.running,
        scraper.fetched(page) is None,
    ensures
        scraper.after_page(page).state == scraper.state,
        scraper.after_page(page).running,
        scraper.after_page(page).request().query == scraper.request().query,
{
}

/// The resume position of a channel scrape strictly decreases from page to
/// page, where each page holds only messages older than the position it was
/// asked under.
pub proof fn lemma_channel_position_decreases(scraper: Scraper, messages: Vec<Message>, bound: u64)
    requires
        scraper.running,
        scraper.scrape_type is Channel,
        scraper.state.last_message_id == Some(bound),
        messages@.len() > 0,
        forall|i: int| 0 <= i < messages@.len() ==> (#[trigger] messages@[i]).id < bound,
    ensures
        scraper.after_page(PageResult::Channel { messages }).running,
        scraper.after_page(PageResult::Channel { messages }).state.last_message_id matches Some(
            next,
        ) && next < bound,
{
    lemma_cursor_decreases(messages@, bound);
}

/// The same for the search bound of a guild scrape.
pub proof fn lemma_guild_position_decreases(
    scraper: Scraper,
    total_results: u16,
    messages: Vec<Vec<Message>>,
)
    requires
        scraper.running,
        scraper.scrape_type is Guild,
        flattened(messages@).len() > 0,
        forall|i: int|
            0 <= i < flattened(messages@).len() ==> (#[trigger] flattened(messages@)[i]).id
                < scraper.state.last_id,
    ensures
        scraper.after_page(PageResult::Guild { total_results, messages }).running,
        scraper.after_page(PageResult::Guild { total_results, messages }).state.last_id
            < scraper.state.last_id,
{
    lemma_cursor_decreases(flattened(messages@), scraper.state.last_id);
}

} // verus!
