//! The configuration the chat front end hands to the library: connection
//! values it only carries through, and the values the counting core
//! consumes.

use vstd::prelude::*;

verus! {

/// The bot's configuration.  The connection fields are consumed by the
/// surrounding program; the core reads the bucket width and the two
/// chances.
#[derive(Debug, Clone, PartialEq)]
pub struct Config {
    pub homeserver_url: String,
    pub mxid: String,
    pub avatar: String,
    pub password: String,
    pub store_path: String,
    pub session_path: String,
    pub dadded_regex: String,
    /// Database connection string.
    pub db: Option<String>,
    /// Epoch length in minutes.
    pub epoch_length: i64,
    /// For one-in-`chance` reactions.
    pub dadded_chance: Option<i64>,
    /// Say the affection line one in `chance` during a reaction.
    pub love_me_chance: Option<i64>,
}

impl Config {
    /// The configured bucket width as milliseconds.
    pub fn get_epoch_length(&self) -> (r: i64)
        requires
            -0x8_0000_0000 <= self.epoch_length <= 0x8_0000_0000,
        ensures
            r == self.epoch_length * 60000,
            -0x10_0000_0000_0000 <= r <= 0x10_0000_0000_0000,
    {
        self.epoch_length * 60000
    }
}

} // verus!
