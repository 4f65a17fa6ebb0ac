//! What the watchers tell the services.

use vstd::prelude::*;

use crate::lockfile::Lockfile;

verus! {

#[derive(Debug)]
pub enum Event {
    Startup,
    RsoLogin(Lockfile),
    RsoLogout,
    ValorantOpened(Lockfile),
    ValorantClosed,
    PregameStarted,
    PregameEnded,
    MatchStarted,
    MatchEnded,
    Shutdown,
}

impl Clone for Event {
    fn clone(&self) -> (r: Self)
        ensures
            r == *self,
    {
        match self {
            Event::Startup => Event::Startup,
            Event::RsoLogin(lockfile) => Event::RsoLogin(lockfile.clone()),
            Event::RsoLogout => Event::RsoLogout,
            Event::ValorantOpened(lockfile) => Event::ValorantOpened(lockfile.clone()),
            Event::ValorantClosed => Event::ValorantClosed,
            Event::PregameStarted => Event::PregameStarted,
            Event::PregameEnded => Event::PregameEnded,
            Event::MatchStarted => Event::MatchStarted,
            Event::MatchEnded => Event::MatchEnded,
            Event::Shutdown => Event::Shutdown,
        }
    }
}

} // verus!
