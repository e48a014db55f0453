//! What a run is asked to do.

use vstd::prelude::*;

verus! {

/// What a scrape reads the history of.
#[derive(Clone, Copy, Debug, PartialEq, Eq, Structural)]
pub enum TargetType {
    Channel,
    Guild,
}

/// The two ways to run.
#[derive(Debug)]
pub enum Mode {
    /// Follow the realtime feed of every configured account.
    Sniff,
    /// Read the history of one channel or guild with the given credentials.
    Scrape { target_type: TargetType, id: u64, tokens: Vec<String> },
}

/// The command line, parsed.
#[derive(Debug)]
pub struct Cli {
    /// Absent means `Sniff`.
    pub mode: Option<Mode>,
    pub help: bool,
}

impl Cli {
    /// The mode to run in: the one given, or `Sniff` where none is.
    pub fn into_mode(self) -> (mode: Mode)
        ensures
            mode == match self.mode {
                Some(given) => given,
                None => Mode::Sniff,
            },
    {
        match self.mode {
            Some(given) => given,
            None => Mode::Sniff,
        }
    }
}

} // verus!
