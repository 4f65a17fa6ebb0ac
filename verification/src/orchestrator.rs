//! When a session with the player's services runs, and what is collected in it.

use vstd::prelude::*;

use crate::events::Event;
use crate::fetch::ApiResponse;
use crate::http::is_success;
use crate::http::Method;
use crate::json::Json;
use crate::json::JsonTree;
use crate::lockfile::Lockfile;
use crate::session::Api;
use crate::text::concat;

verus! {

/// What is heard on the bus.
pub enum Heard {
    Event(Event),
    /// Some events were missed.
    Lagged,
    /// There will be no more.
    Closed,
}

/// What is to be done once a running session, if need be, was stopped.
pub enum Next {
    /// Nothing.
    Wait,
    /// Start a session.
    Start(Lockfile),
    /// Forget the token of the player who logged out.
    ClearGameToken,
    /// Stop for good.
    Finish,
}

/// What is to be done when something is heard.
pub struct OrchestratorStep {
    /// Stop the session that runs.
    pub stop: bool,
    pub next: Next,
}

/// Knows whether a session runs.
#[derive(Debug, Clone, Copy, PartialEq, Eq, Structural)]
pub struct Orchestrator {
    pub session_runs: bool,
}

impl Orchestrator {
    pub fn new() -> (r: Self)
        ensures
            !r.session_runs,
    {
        Orchestrator { session_runs: false }
    }

    /// What follows something that is heard.
    pub open spec fn step(self, heard: Heard) -> (Orchestrator, OrchestratorStep) {
        match heard {
            Heard::Event(Event::RsoLogin(lockfile)) => (
                Orchestrator { session_runs: true },
                OrchestratorStep { stop: self.session_runs, next: Next::Start(lockfile) },
            ),
            Heard::Event(Event::RsoLogout) => (
                Orchestrator { session_runs: false },
                OrchestratorStep { stop: self.session_runs, next: Next::ClearGameToken },
            ),
            Heard::Event(Event::Shutdown) => (
                Orchestrator { session_runs: false },
                OrchestratorStep { stop: self.session_runs, next: Next::Finish },
            ),
            Heard::Closed => (self, OrchestratorStep { stop: false, next: Next::Finish }),
            _ => (self, OrchestratorStep { stop: false, next: Next::Wait }),
        }
    }

    /// What follows something that is heard.
    pub fn on_heard(&mut self, heard: Heard) -> (step: OrchestratorStep)
        ensures
            (*final(self), step) == old(self).step(heard),
    {
        let stop = self.session_runs;
        match heard {
            Heard::Event(Event::RsoLogin(lockfile)) => {
                self.session_runs = true;
                OrchestratorStep { stop, next: Next::Start(lockfile) }
            },
            Heard::Event(Event::RsoLogout) => {
                self.session_runs = false;
                OrchestratorStep { stop, next: Next::ClearGameToken }
            },
            Heard::Event(Event::Shutdown) => {
                self.session_runs = false;
                OrchestratorStep { stop, next: Next::Finish }
            },
            Heard::Closed => OrchestratorStep { stop: false, next: Next::Finish },
            _ => OrchestratorStep { stop: false, next: Next::Wait },
        }
    }

    /// How many sessions run, and the orchestrator, after a number of things
    /// were heard, if each step is carried out.
    pub open spec fn running(self, heard: Seq<Heard>) -> (Orchestrator, int)
        decreases heard.len(),
    {
        if heard.len() == 0 {
            (
                self,
                if self.session_runs {
                    1
                } else {
                    0
                },
            )
        } else {
            let (before, count) = self.running(heard.drop_last());
            let (after, step) = before.step(heard.last());
            let stopped = if step.stop {
                count - 1
            } else {
                count
            };
            (
                after,
                if step.next is Start {
                    stopped + 1
                } else {
                    stopped
                },
            )
        }
    }
}

/// There is never more than one session: one runs after a login, none after a
/// logout or the end.
pub proof fn one_session_at_most(orchestrator: Orchestrator, heard: Seq<Heard>)
    ensures
        ({
            let (after, count) = orchestrator.running(heard);
            &&& 0 <= count <= 1
            &&& after.session_runs <==> count == 1
        }),
        heard.len() > 0 ==> match heard.last() {
            Heard::Event(Event::RsoLogin(_)) => orchestrator.running(heard).1 == 1,
            Heard::Event(Event::RsoLogout) => orchestrator.running(heard).1 == 0,
            Heard::Event(Event::Shutdown) => orchestrator.running(heard).1 == 0,
            _ => orchestrator.running(heard).1 == orchestrator.running(heard.drop_last()).1,
        },
    decreases heard.len(),
{
    if heard.len() > 0 {
        one_session_at_most(orchestrator, heard.drop_last());
    }
}

/// Something to fetch from a service, and where to forward it to.
pub struct Target {
    pub method: Method,
    pub api: Api,
    pub path: String,
    pub server_path: &'static str,
    pub body: Option<Json>,
}

pub struct TargetView {
    pub method: Method,
    pub api: Api,
    pub path: Seq<char>,
    pub server_path: Seq<char>,
    pub body: Option<JsonTree>,
}

impl View for Target {
    type V = TargetView;

    open spec fn view(&self) -> TargetView {
        TargetView {
            method: self.method,
            api: self.api,
            path: self.path@,
            server_path: self.server_path@,
            body: match self.body {
                Some(body) => Some(body@),
                None => None,
            },
        }
    }
}

impl Target {
    /// Whether the body can be sent.
    pub open spec fn wf(self) -> bool {
        self.body matches Some(body) ==> body.wf()
    }

    pub fn get(api: Api, path: String, server_path: &'static str) -> (r: Self)
        ensures
            r == (Target { method: Method::Get, api, path, server_path, body: None }),
    {
        Target { method: Method::Get, api, path, server_path, body: None }
    }

    pub fn post(api: Api, path: String, server_path: &'static str, body: Json) -> (r: Self)
        ensures
            r == (Target { method: Method::Post, api, path, server_path, body: Some(body) }),
    {
        Target { method: Method::Post, api, path, server_path, body: Some(body) }
    }
}

/// A target that is fetched without a body.
pub open spec fn plain_target(path: Seq<char>, server_path: Seq<char>) -> TargetView {
    TargetView { method: Method::Get, api: Api::Pd, path, server_path, body: None }
}

/// What is collected about a player.
pub open spec fn targets_of(puuid: Seq<char>) -> Seq<TargetView> {
    seq![
        plain_target("/account-xp/v1/players/"@ + puuid, "/v1/account/xp"@),
        plain_target("/restrictions/v3/penalties"@, "/v1/account/penalties"@),
        plain_target("/store/v1/wallet/"@ + puuid, "/v1/account/balances"@),
        plain_target("/store/v1/entitlements/"@ + puuid, "/v1/account/owned-items"@),
        TargetView {
            method: Method::Post,
            api: Api::Pd,
            path: "/store/v3/storefront/"@ + puuid,
            server_path: "/v1/account/storefront"@,
            body: Some(JsonTree::Object(Map::empty())),
        },
    ]
}

/// What is collected about a player, in order.
pub fn collection_targets(puuid: &str) -> (r: Vec<Target>)
    ensures
        r@.map_values(|target: Target| target@) == targets_of(puuid@),
        forall|i: int| 0 <= i < r@.len() ==> (#[trigger] r@[i]).wf(),
{
    let xp = concat("/account-xp/v1/players/", puuid);
    let penalties = "/restrictions/v3/penalties".to_owned();
    let wallet = concat("/store/v1/wallet/", puuid);
    let entitlements = concat("/store/v1/entitlements/", puuid);
    let storefront = concat("/store/v3/storefront/", puuid);
    let mut r: Vec<Target> = Vec::new();
    r.push(Target::get(Api::Pd, xp, "/v1/account/xp"));
    r.push(Target::get(Api::Pd, penalties, "/v1/account/penalties"));
    r.push(Target::get(Api::Pd, wallet, "/v1/account/balances"));
    r.push(Target::get(Api::Pd, entitlements, "/v1/account/owned-items"));
    r.push(Target::post(Api::Pd, storefront, "/v1/account/storefront", Json::object()));
    assert(r@.map_values(|target: Target| target@) =~= targets_of(puuid@));
    r
}

/// What is forwarded of a response to a target, `None` where there was none: its
/// body, where the request was carried out.
pub fn forwarded_body(response: Option<ApiResponse>) -> (r: Option<String>)
    ensures
        r == match response {
            Some(response) => if 200 <= response.status < 300 {
                Some(response.body)
            } else {
                None
            },
            None => None,
        },
{
    match response {
        Some(response) => if is_success(response.status) {
            Some(response.body)
        } else {
            None
        },
        None => None,
    }
}

/// A login starts a session with its lockfile, a logout forgets the game token,
/// and the end ends all, each after the session that runs was stopped. Nothing
/// else that is heard stops or starts anything; once nothing more will be heard,
/// that is the end too.
pub proof fn what_is_heard_decides(
    orchestrator: Orchestrator,
    lockfile: Lockfile,
    event: Event,
)
    ensures
        orchestrator.step(Heard::Event(Event::RsoLogin(lockfile))) == (
            Orchestrator { session_runs: true },
            OrchestratorStep { stop: orchestrator.session_runs, next: Next::Start(lockfile) },
        ),
        orchestrator.step(Heard::Event(Event::RsoLogout)) == (
            Orchestrator { session_runs: false },
            OrchestratorStep { stop: orchestrator.session_runs, next: Next::ClearGameToken },
        ),
        orchestrator.step(Heard::Event(Event::Shutdown)) == (
            Orchestrator { session_runs: false },
            OrchestratorStep { stop: orchestrator.session_runs, next: Next::Finish },
        ),
        orchestrator.step(Heard::Closed) == (
            orchestrator,
            OrchestratorStep { stop: false, next: Next::Finish },
        ),
        orchestrator.step(Heard::Lagged) == (
            orchestrator,
            OrchestratorStep { stop: false, next: Next::Wait },
        ),
        event !is RsoLogin && event !is RsoLogout && event !is Shutdown ==> orchestrator.step(
            Heard::Event(event),
        ) == (orchestrator, OrchestratorStep { stop: false, next: Next::Wait }),
{
}

/// Five things are collected about a player, each from its address and for its
/// place at the server; all but the last are asked for without a body.
pub proof fn five_things_are_collected(puuid: Seq<char>)
    ensures
        ({
            let targets = targets_of(puuid);
            &&& targets.len() == 5
            &&& targets[0].path == "/account-xp/v1/players/"@ + puuid
            &&& targets[0].server_path == "/v1/account/xp"@
            &&& targets[1].path == "/restrictions/v3/penalties"@
            &&& targets[1].server_path == "/v1/account/penalties"@
            &&& targets[2].path == "/store/v1/wallet/"@ + puuid
            &&& targets[2].server_path == "/v1/account/balances"@
            &&& targets[3].path == "/store/v1/entitlements/"@ + puuid
            &&& targets[3].server_path == "/v1/account/owned-items"@
            &&& targets[4].path == "/store/v3/storefront/"@ + puuid
            &&& targets[4].server_path == "/v1/account/storefront"@
            &&& targets[4].method == Method::Post
            &&& targets[4].body == Some(JsonTree::Object(Map::empty()))
            &&& forall|i: int| 0 <= i < 5 ==> (#[trigger] targets[i]).api == Api::Pd
            &&& forall|i: int|
                0 <= i < 4 ==> (#[trigger] targets[i]).method == Method::Get && targets[i].body
                    is None
        }),
{
}

} // verus!
