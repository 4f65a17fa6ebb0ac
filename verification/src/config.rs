//! The settings of the program.

use vstd::prelude::*;

use crate::text::contains;
use crate::text::holds_text;
use crate::text::stands_at;
use crate::text::text_is_held_where_it_stands;

verus! {

/// A server name that is no longer in use.
pub const LEGACY_HOST: &'static str = "valorant-streamsniper.com";

/// The address of the server that took its place.
pub const CANONICAL_URL: &'static str = "https://valstats.site";

#[derive(Debug)]
pub struct Config {
    pub server_base_url: String,
    pub poll_interval: u64,
    pub collect_interval: u64,
    pub enable_data_sending: bool,
    pub ratelimit_timeout: u64,
    pub ratelimit_offset: u64,
    pub pregame_poll_interval_ms: u64,
    pub auto_update: bool,
}

impl Clone for Config {
    fn clone(&self) -> (r: Self)
        ensures
            r == *self,
    {
        Config { server_base_url: self.server_base_url.clone(), ..*self }
    }
}

impl Config {
    /// Whether the settings name the server that is no longer in use.
    pub open spec fn is_legacy(self) -> bool {
        holds_text(self.server_base_url@, LEGACY_HOST@)
    }

    /// Replaces the address of a server that is no longer in use. Says whether
    /// it did, so that the settings can be written back.
    pub fn migrate(&mut self) -> (changed: bool)
        ensures
            changed == old(self).is_legacy(),
            !changed ==> *final(self) == *old(self),
            changed ==> final(self).server_base_url@ == CANONICAL_URL@,
            *final(self) == (Config {
                server_base_url: final(self).server_base_url,
                ..*old(self)
            }),
    {
        if contains(self.server_base_url.as_str(), LEGACY_HOST) {
            self.server_base_url = CANONICAL_URL.to_owned();
            true
        } else {
            false
        }
    }
}

/// A migrated configuration is not migrated again.
pub proof fn migration_settles(config: Config)
    requires
        config.server_base_url@ == CANONICAL_URL@,
    ensures
        !config.is_legacy(),
{
    reveal_strlit("https://valstats.site");
    reveal_strlit("valorant-streamsniper.com");
}

pub fn default_poll_interval() -> (secs: u64)
    ensures
        secs == 3,
{
    3
}

pub fn default_collect_interval() -> (secs: u64)
    ensures
        secs == 60,
{
    60
}

pub fn default_true() -> (b: bool)
    ensures
        b,
{
    true
}

pub fn default_ratelimit_timeout() -> (secs: u64)
    ensures
        secs == 60,
{
    60
}

pub fn default_ratelimit_offset() -> (secs: u64)
    ensures
        secs == 60,
{
    60
}

pub fn default_pregame_poll_interval_ms() -> (millis: u64)
    ensures
        millis == 250,
{
    250
}

/// An address that has the old server's name anywhere in it is replaced; what is
/// written in its place is not the old server.
pub proof fn old_server_is_replaced(config: Config, before: Seq<char>, after: Seq<char>)
    ensures
        config.server_base_url@ == before + "valorant-streamsniper.com"@ + after
            ==> config.is_legacy(),
        config.is_legacy() ==> exists|at: int|
            0 <= at <= config.server_base_url@.len() - "valorant-streamsniper.com"@.len()
                && #[trigger] config.server_base_url@.subrange(
                at,
                at + "valorant-streamsniper.com"@.len(),
            ) == "valorant-streamsniper.com"@,
        CANONICAL_URL@ == "https://valstats.site"@,
{
    text_is_held_where_it_stands(before, "valorant-streamsniper.com"@, after);
    if config.is_legacy() {
        let url = config.server_base_url@;
        let needle = "valorant-streamsniper.com"@;
        let at = choose|at: int| stands_at(url, needle, at);
        assert(url.subrange(at, at + needle.len()) == needle);
    }
}

} // verus!
