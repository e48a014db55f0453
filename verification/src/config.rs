//! The feature flags of a run, and the slot that holds them once they are
//! known.

use vstd::prelude::*;

verus! {

/// The feature flags of a run.
#[derive(Debug)]
pub struct Config {
    /// Messages written by bots are neither stored nor downloaded from.
    pub skip_bot_messages: bool,
    /// Attachments and embedded media are saved to disk.
    pub download_files: bool,
    /// Events are written to the store.
    pub use_db: bool,
    /// Where the store is reached.
    pub db_url: String,
}

impl Clone for Config {
    fn clone(&self) -> (copy: Self)
        ensures
            copy == *self,
    {
        Config {
            skip_bot_messages: self.skip_bot_messages,
            download_files: self.download_files,
            use_db: self.use_db,
            db_url: self.db_url.clone(),
        }
    }
}

/// Why a configuration was not taken.
#[derive(Clone, Copy, Debug, PartialEq, Eq, Structural)]
pub enum ConfigError {
    /// The slot holds a configuration already.
    AlreadyInitialized,
}

impl ConfigError {
    /// The error in words.
    pub fn message(&self) -> (text: String)
        ensures
            text@ == "Configuration already initialized"@,
    {
        "Configuration already initialized".to_owned()
    }
}

/// A place for the one configuration of a run: empty at first, filled once,
/// never changed afterwards.
#[derive(Debug)]
pub struct ConfigSlot {
    value: Option<Config>,
}

impl ConfigSlot {
    /// What the slot holds.
    pub closed spec fn value(&self) -> Option<Config> {
        self.value
    }

    /// An empty slot.
    pub fn new() -> (slot: ConfigSlot)
        ensures
            slot.value() is None,
    {
        ConfigSlot { value: None }
    }

    /// Whether the slot was filled.
    pub fn is_initialized(&self) -> (filled: bool)
        ensures
            filled == self.value() is Some,
    {
        self.value.is_some()
    }
}

impl Config {
    /// Fills `slot` with `config`. A slot that was filled keeps what it
    /// holds, and the call fails.
    pub fn init(slot: &mut ConfigSlot, config: Config) -> (outcome: Result<(), ConfigError>)
        ensures
            old(slot).value() is None ==> outcome is Ok && final(slot).value() == Some(config),
            old(slot).value() is Some ==> outcome == Err::<(), ConfigError>(
                ConfigError::AlreadyInitialized,
            ) && final(slot).value() == old(slot).value(),
    {
        if slot.value.is_some() {
            return Err(ConfigError::AlreadyInitialized);
        }
        slot.value = Some(config);
        Ok(())
    }

    /// The configuration that `slot` was filled with.
    pub fn get(slot: &ConfigSlot) -> (config: &Config)
        requires
            slot.value() is Some,
        ensures
            Some(*config) == slot.value(),
    {
        slot.value.as_ref().unwrap()
    }
}

} // verus!
