//! How a request of a session is made and carried through.

use vstd::prelude::*;
use vstd::utf8::encode_utf8;

use crate::clock::Elapsed;
use crate::encoding::base64_encoded;
use crate::error::Error;
use crate::http::bearer;
use crate::http::json_content;
use crate::http::HttpRequest;
use crate::http::Method;
use crate::json;
use crate::json::json_text;
use crate::json::parsed_json;
use crate::json::tree_member_text;
use crate::json::Json;
use crate::json::JsonTree;
use crate::session::expiry_of;
use crate::session::token_expiry;
use crate::session::Api;
use crate::session::EntitlementsResponse;
use crate::session::Expiry;
use crate::session::Session;
use crate::session::State;
use crate::session::CLIENT_PLATFORM;
use crate::session::RATELIMIT_COOLDOWN_NANOS;
use crate::session::USER_AGENT;
use crate::text::concat;
use crate::text::same;

verus! {

impl Session {
    /// The headers that authenticate a request to a service.
    pub open spec fn auth_headers(self, api: Api) -> Seq<(Seq<char>, Seq<char>)> {
        if api.remote() {
            seq![
                bearer(self.state.access_token@),
                ("X-Riot-Entitlements-JWT"@, self.state.entitlements_token@),
                ("X-Riot-ClientPlatform"@, CLIENT_PLATFORM@),
                ("X-Riot-ClientVersion"@, self.state.client_version@),
                ("User-Agent"@, USER_AGENT@),
            ]
        } else {
            seq![("Authorization"@, self.lockfile@.basic_credentials())]
        }
    }

    /// The request to a service.
    pub fn send(&self, method: Method, api: Api, path: &str, body: Option<Json>) -> (r: HttpRequest)
        requires
            body matches Some(payload) ==> payload.wf(),
        ensures
            match body {
                Some(payload) => r.is_made_of(
                    method,
                    self.url_of(api) + path@,
                    self.auth_headers(api).push(json_content()),
                    Some(json_text(payload@)),
                ),
                None => r.is_made_of(
                    method,
                    self.url_of(api) + path@,
                    self.auth_headers(api),
                    None,
                ),
            },
    {
        let url = concat(self.base_url(api), path);
        let request = HttpRequest::new(method, url);
        let request = if api.is_riot() {
            request.bearer_auth(self.state.access_token.as_str()).header(
                "X-Riot-Entitlements-JWT",
                self.state.entitlements_token.as_str(),
            ).header("X-Riot-ClientPlatform", CLIENT_PLATFORM).header(
                "X-Riot-ClientVersion",
                self.state.client_version.as_str(),
            ).header("User-Agent", USER_AGENT)
        } else {
            let credentials = self.lockfile.auth_header();
            request.header("Authorization", credentials.as_str())
        };
        assert(request.header_texts() =~= self.auth_headers(api));
        match body {
            Some(payload) => request.json(payload),
            None => request,
        }
    }

    /// The time that the services are still left alone, in nanoseconds.
    pub open spec fn cooldown_left(self, now: u128) -> int {
        match self.state.cooldown_until {
            Some(until) => if until > now {
                until - now
            } else {
                0
            },
            None => 0,
        }
    }

    /// The time that the services are still to be left alone, if any.
    pub fn wait_for_cooldown(&self, now: u128) -> (nanos: Option<u128>)
        ensures
            match nanos {
                Some(left) => left == self.cooldown_left(now) && left > 0,
                None => self.cooldown_left(now) == 0,
            },
            nanos is Some <==> self.state.cooldown_until is Some && self.state.cooldown_until->0
                > now,
            nanos is Some ==> now + nanos->0 == self.state.cooldown_until->0,
    {
        match self.state.cooldown_until {
            Some(until) => if until > now {
                Some(until - now)
            } else {
                None
            },
            None => None,
        }
    }

    /// Leaves the services alone from `now` on.
    pub fn set_cooldown(&mut self, now: u128)
        requires
            now + RATELIMIT_COOLDOWN_NANOS <= u128::MAX,
        ensures
            *final(self) == (Session {
                state: State {
                    cooldown_until: Some((now + RATELIMIT_COOLDOWN_NANOS) as u128),
                    ..old(self).state
                },
                ..*old(self)
            }),
            final(self).cooldown_left(now) == RATELIMIT_COOLDOWN_NANOS,
    {
        self.state.cooldown_until = Some(now + RATELIMIT_COOLDOWN_NANOS);
    }

    /// Whether a session is what another one becomes by an answer that renews
    /// what authenticates the player.
    pub open spec fn renewed(
        self,
        before: Session,
        data: EntitlementsResponse,
        clock: Option<Elapsed>,
    ) -> bool {
        self == (Session {
            state: State {
                access_token: data.access_token->0,
                entitlements_token: data.token->0,
                expires_at: Some(expiry_of(data.access_token->0@, clock)),
                puuid: match data.subject {
                    Some(subject) => subject,
                    None => before.state.puuid,
                },
                ..before.state
            },
            ..before
        })
    }

    /// Takes in an answer that renews what authenticates the player.
    pub fn try_refresh_entitlements(
        &mut self,
        data: EntitlementsResponse,
        clock: Option<Elapsed>,
    ) -> (r: Result<(), Error>)
        ensures
            match r {
                Ok(()) => {
                    &&& refusal(data) is None
                    &&& final(self).renewed(*old(self), data, clock)
                },
                Err(Error::Auth(text)) => refusal(data) == Some(text@) && *final(self) == *old(
                    self,
                ),
                Err(_) => false,
            },
    {
        if let Some(message) = &data.message {
            return Err(
                Error::Auth(concat("entitlements refresh rejected: ", message.as_str())),
            );
        }
        let access_token = match data.access_token {
            Some(access_token) => access_token,
            None => {
                return Err(Error::Auth("refresh missing accessToken".to_owned()));
            },
        };
        let entitlements_token = match data.token {
            Some(token) => token,
            None => {
                return Err(Error::Auth("refresh missing token".to_owned()));
            },
        };
        let expires_at = crate::session::expiry(access_token.as_str(), clock);
        self.state.access_token = access_token;
        self.state.entitlements_token = entitlements_token;
        self.state.expires_at = Some(expires_at);
        if let Some(subject) = data.subject {
            self.state.puuid = subject;
        }
        Ok(())
    }
}

/// Why an answer renews nothing, if it does not.
pub open spec fn refusal(data: EntitlementsResponse) -> Option<Seq<char>> {
    if data.message is Some {
        Some("entitlements refresh rejected: "@ + data.message->0@)
    } else if data.access_token is None {
        Some("refresh missing accessToken"@)
    } else if data.token is None {
        Some("refresh missing token"@)
    } else {
        None
    }
}

/// Whether the local service's status lets its answer be read. `shown` is the
/// status with its name.
pub fn check_entitlements_status(status: u16, shown: &str) -> (r: Result<(), Error>)
    ensures
        match r {
            Ok(()) => status == 200,
            Err(Error::Auth(text)) => status != 200 && text@ == "entitlements endpoint returned "@
                + shown@,
            Err(_) => false,
        },
{
    if status == 200 {
        Ok(())
    } else {
        Err(Error::Auth(concat("entitlements endpoint returned ", shown)))
    }
}

/// How often renewal is tried.
pub const MAX_RETRIES: u32 = 10;

/// The number of the try that is under way.
pub struct Attempts {
    pub attempt: u32,
}

/// The seconds to wait after a try that failed.
pub open spec fn wait_after(attempt: nat) -> nat {
    2 * attempt
}

/// What follows a try.
pub enum AttemptOutcome {
    Done,
    /// Another try, after a wait.
    Again { wait_secs: u64 },
    /// No other try.
    Exhausted(Error),
}

impl Attempts {
    pub open spec fn wf(self) -> bool {
        1 <= self.attempt <= MAX_RETRIES
    }

    pub fn new() -> (r: Self)
        ensures
            r.wf(),
            r.attempt == 1,
    {
        Attempts { attempt: 1 }
    }

    /// What follows the try that is under way. Each wait is two seconds longer
    /// than the one before it.
    pub fn refresh_entitlements(&mut self, succeeded: bool) -> (r: AttemptOutcome)
        requires
            old(self).wf(),
        ensures
            final(self).wf(),
            match r {
                AttemptOutcome::Done => succeeded && *final(self) == *old(self),
                AttemptOutcome::Again { wait_secs } => {
                    &&& !succeeded
                    &&& old(self).attempt < MAX_RETRIES
                    &&& wait_secs == wait_after(old(self).attempt as nat)
                    &&& wait_secs == 2 * old(self).attempt
                    &&& final(self).attempt == old(self).attempt + 1
                },
                AttemptOutcome::Exhausted(Error::Auth(text)) => {
                    &&& !succeeded
                    &&& old(self).attempt == MAX_RETRIES
                    &&& text@ == "entitlements refresh exhausted all retries"@
                    &&& *final(self) == *old(self)
                },
                AttemptOutcome::Exhausted(_) => false,
            },
    {
        if succeeded {
            AttemptOutcome::Done
        } else if self.attempt < MAX_RETRIES {
            let wait_secs = 2 * self.attempt as u64;
            self.attempt = self.attempt + 1;
            AttemptOutcome::Again { wait_secs }
        } else {
            AttemptOutcome::Exhausted(
                Error::Auth("entitlements refresh exhausted all retries".to_owned()),
            )
        }
    }
}

/// The seconds waited after the first `tries` tries, all of which failed.
pub open spec fn waited_secs(tries: nat) -> nat
    decreases tries,
{
    if tries == 0 {
        0
    } else {
        waited_secs((tries - 1) as nat) + wait_after(tries)
    }
}

/// The waits of a renewal grow evenly, so that those after `tries` tries add up
/// to a product: a minute and a half by the last one.
pub proof fn waits_add_up(tries: nat)
    ensures
        waited_secs(tries) == tries * (tries + 1),
        tries == MAX_RETRIES - 1 ==> waited_secs(tries) == 90,
    decreases tries,
{
    if tries > 0 {
        let fewer = (tries - 1) as nat;
        waits_add_up(fewer);
        assert(fewer * (fewer + 1) + 2 * tries == tries * (tries + 1)) by (nonlinear_arith)
            requires
                fewer == tries - 1,
        ;
    }
    assert(9 * (9 + 1) == 90) by (nonlinear_arith);
}

/// Whether a refusal's body says that the claims of a token were rejected.
pub open spec fn claims_rejected(body: JsonTree) -> bool {
    tree_member_text(body, "errorCode"@) == Some("BAD_CLAIMS"@)
}

/// Whether a response asks for the player to be authenticated anew. `body` is
/// the value that its text spells, if any.
pub open spec fn asks_for_refresh(remote: bool, status: u16, body: Option<JsonTree>) -> bool {
    remote && (status == 401 || (status == 400 && body is Some && claims_rejected(body->0)))
}

/// Whether a refusal's body says that the claims of a token were rejected.
pub fn is_claims_rejected(body: &Json) -> (r: bool)
    requires
        body.wf(),
    ensures
        r == claims_rejected(body@),
{
    match body.member_text("errorCode") {
        Some(code) => same(code, "BAD_CLAIMS"),
        None => false,
    }
}

/// Whether a response asks for the player to be authenticated anew.
pub fn needs_refresh(remote: bool, status: u16, text: &str) -> (r: bool)
    ensures
        r == asks_for_refresh(remote, status, parsed_json(text@)),
{
    if remote && status == 400 {
        match json::parse(text) {
            Some(body) => is_claims_rejected(&body),
            None => false,
        }
    } else {
        remote && status == 401
    }
}

/// How far a request has come.
#[derive(Debug, Clone, Copy, PartialEq, Eq, Structural)]
pub enum Stage {
    /// Sent, or about to be.
    First,
    /// Sent again after the service asked to be left alone.
    AfterCooldown,
    /// Sent again after the player was authenticated anew.
    AfterRefresh,
}

/// A request on its way.
#[derive(Debug, Clone, Copy, PartialEq, Eq, Structural)]
pub struct FetchFlow {
    pub remote: bool,
    pub stage: Stage,
}

/// What happens to a request.
pub enum FetchEvent {
    /// A response's head arrived.
    Responded { status: u16 },
    /// A response's body arrived.
    Read { status: u16, text: String },
    /// The player was to be authenticated anew.
    Refreshed { succeeded: bool },
}

/// A response that is handed out.
#[derive(Debug)]
pub struct ApiResponse {
    pub status: u16,
    pub body: String,
}

/// What is to be done with a request.
pub enum FetchAction {
    /// Send it, once the services need no longer be left alone where `wait`
    /// says so.
    Send { wait: bool },
    /// Leave the services alone for a while, and send it then.
    CoolDown,
    /// Read the response's body.
    Read,
    /// Authenticate the player anew.
    Refresh,
    /// Hand the response out.
    Deliver(ApiResponse),
    /// Hand out that the player could not be authenticated.
    Fail,
}

/// What follows an event, given the value that a body's text spells.
pub open spec fn fetch_step(
    flow: FetchFlow,
    event: FetchEvent,
    body: Option<JsonTree>,
) -> (FetchFlow, FetchAction) {
    match event {
        FetchEvent::Responded { status } => if flow.remote && flow.stage == Stage::First && status
            == 429 {
            (FetchFlow { stage: Stage::AfterCooldown, ..flow }, FetchAction::CoolDown)
        } else {
            (flow, FetchAction::Read)
        },
        FetchEvent::Read { status, text } => if flow.stage != Stage::AfterRefresh
            && asks_for_refresh(flow.remote, status, body) {
            (FetchFlow { stage: Stage::AfterRefresh, ..flow }, FetchAction::Refresh)
        } else {
            (flow, FetchAction::Deliver(ApiResponse { status, body: text }))
        },
        FetchEvent::Refreshed { succeeded } => (
            flow,
            if succeeded {
                FetchAction::Send { wait: false }
            } else {
                FetchAction::Fail
            },
        ),
    }
}

/// The value that an event's text spells, if any.
pub open spec fn event_body(event: FetchEvent) -> Option<JsonTree> {
    match event {
        FetchEvent::Read { text, .. } => parsed_json(text@),
        _ => None,
    }
}

impl FetchFlow {
    /// A request to a service, and how it is sent first.
    pub fn start(api: Api) -> (r: (FetchFlow, FetchAction))
        ensures
            r.0 == (FetchFlow { remote: api.remote(), stage: Stage::First }),
            r.1 == (FetchAction::Send { wait: api.remote() }),
    {
        let remote = api.is_riot();
        (FetchFlow { remote, stage: Stage::First }, FetchAction::Send { wait: remote })
    }

    /// What follows an event.
    pub fn fetch(&mut self, event: FetchEvent) -> (action: FetchAction)
        ensures
            (*final(self), action) == fetch_step(*old(self), event, event_body(event)),
    {
        match event {
            FetchEvent::Responded { status } => {
                if self.remote && self.stage == Stage::First && status == 429 {
                    self.stage = Stage::AfterCooldown;
                    FetchAction::CoolDown
                } else {
                    FetchAction::Read
                }
            },
            FetchEvent::Read { status, text } => {
                if self.stage != Stage::AfterRefresh && needs_refresh(
                    self.remote,
                    status,
                    text.as_str(),
                ) {
                    self.stage = Stage::AfterRefresh;
                    FetchAction::Refresh
                } else {
                    FetchAction::Deliver(ApiResponse { status, body: text })
                }
            },
            FetchEvent::Refreshed { succeeded } => {
                if succeeded {
                    FetchAction::Send { wait: false }
                } else {
                    FetchAction::Fail
                }
            },
        }
    }
}

/// Whether an event is what comes of an action.
pub open spec fn fetch_answers(action: FetchAction, event: FetchEvent) -> bool {
    match action {
        FetchAction::Send { .. } => event is Responded,
        FetchAction::CoolDown => event is Responded,
        FetchAction::Read => event is Read,
        FetchAction::Refresh => event is Refreshed,
        FetchAction::Deliver(_) => false,
        FetchAction::Fail => false,
    }
}

/// Whether an action sends the request.
pub open spec fn sends(action: FetchAction) -> bool {
    action is Send || action is CoolDown
}

/// How many steps can still follow an action of a request.
pub open spec fn fetch_steps_left(flow: FetchFlow, action: FetchAction) -> nat {
    let to_refresh: nat = if flow.remote && flow.stage != Stage::AfterRefresh {
        3
    } else {
        0
    };
    let to_cool_down: nat = if flow.remote && flow.stage == Stage::First {
        1
    } else {
        0
    };
    match action {
        FetchAction::Send { .. } => 2 + to_refresh + to_cool_down,
        FetchAction::CoolDown => 2 + to_refresh,
        FetchAction::Read => 1 + to_refresh,
        FetchAction::Refresh => 3,
        FetchAction::Deliver(_) => 0,
        FetchAction::Fail => 0,
    }
}

/// How often a request can still be sent after an action.
pub open spec fn sends_left(flow: FetchFlow, action: FetchAction) -> nat {
    if action is Deliver || action is Fail || !flow.remote {
        0
    } else if flow.stage == Stage::AfterRefresh {
        if action is Refresh {
            1
        } else {
            0
        }
    } else if flow.stage == Stage::AfterCooldown || action is Read {
        1
    } else {
        2
    }
}

/// The flow after a list of events.
pub open spec fn fetch_flow(flow: FetchFlow, events: Seq<FetchEvent>) -> FetchFlow
    decreases events.len(),
{
    if events.len() == 0 {
        flow
    } else {
        let before = fetch_flow(flow, events.drop_last());
        fetch_step(before, events.last(), event_body(events.last())).0
    }
}

/// The action after a list of events; before any, the request is sent.
pub open spec fn fetch_done(flow: FetchFlow, events: Seq<FetchEvent>) -> FetchAction {
    if events.len() == 0 {
        FetchAction::Send { wait: flow.remote }
    } else {
        let before = fetch_flow(flow, events.drop_last());
        fetch_step(before, events.last(), event_body(events.last())).1
    }
}

/// Whether each event is what comes of the action before it.
pub open spec fn fetch_run(flow: FetchFlow, events: Seq<FetchEvent>) -> bool
    decreases events.len(),
{
    events.len() > 0 ==> fetch_run(flow, events.drop_last()) && fetch_answers(
        fetch_done(flow, events.drop_last()),
        events.last(),
    )
}

/// How often a request is sent in the course of a list of events.
pub open spec fn times_sent(flow: FetchFlow, events: Seq<FetchEvent>) -> nat
    decreases events.len(),
{
    let now: nat = if sends(fetch_done(flow, events)) {
        1
    } else {
        0
    };
    if events.len() == 0 {
        now
    } else {
        times_sent(flow, events.drop_last()) + now
    }
}

/// A request ends after at most six events. It is sent three times at most: at
/// first, after a cooldown and after the player was authenticated anew. One to
/// the service on this machine is sent once.
pub proof fn request_is_sent_three_times_at_most(remote: bool, events: Seq<FetchEvent>)
    requires
        fetch_run(FetchFlow { remote, stage: Stage::First }, events),
    ensures
        ({
            let flow = FetchFlow { remote, stage: Stage::First };
            &&& events.len() <= 6
            &&& times_sent(flow, events) <= 3
            &&& !remote ==> times_sent(flow, events) == 1
        }),
{
    request_is_bounded(remote, events);
}

proof fn request_is_bounded(remote: bool, events: Seq<FetchEvent>)
    requires
        fetch_run(FetchFlow { remote, stage: Stage::First }, events),
    ensures
        ({
            let flow = FetchFlow { remote, stage: Stage::First };
            let now = fetch_flow(flow, events);
            let action = fetch_done(flow, events);
            &&& now.remote == remote
            &&& !remote ==> now.stage == Stage::First && !(action is Refresh) && !(action
                is CoolDown)
            &&& !remote && events.len() > 0 ==> !sends(action)
            &&& action is Refresh ==> now.stage == Stage::AfterRefresh
            &&& action is CoolDown ==> now.stage == Stage::AfterCooldown
            &&& action is Send && events.len() > 0 ==> now.stage == Stage::AfterRefresh
            &&& events.len() + fetch_steps_left(now, action) <= 6
            &&& times_sent(flow, events) + sends_left(now, action) <= 3
            &&& !remote ==> times_sent(flow, events) == 1
        }),
    decreases events.len(),
{
    let flow = FetchFlow { remote, stage: Stage::First };
    if events.len() > 0 {
        request_is_bounded(remote, events.drop_last());
        reveal_with_fuel(times_sent, 2);
    }
}

/// Whether a text spells a JSON object whose error code says that the claims of
/// a token were rejected.
pub open spec fn spells_bad_claims(text: Seq<char>) -> bool {
    parsed_json(text) matches Some(JsonTree::Object(members))
        && members.dom().contains("errorCode"@) && members["errorCode"@] == JsonTree::Text(
        "BAD_CLAIMS"@,
    )
}

/// A refusal for an expired or rejected token is answered by renewal, whichever
/// way the request came so far, as long as there was no renewal yet; any other
/// response is handed out as it was read. After a renewal, and from the service
/// on this machine, every response is handed out.
pub proof fn refused_token_is_renewed(flow: FetchFlow, status: u16, text: String)
    ensures
        ({
            let event = FetchEvent::Read { status, text };
            let (next, action) = fetch_step(flow, event, event_body(event));
            let renewable = flow.remote && (flow.stage == Stage::First || flow.stage
                == Stage::AfterCooldown);
            &&& renewable && status == 401 ==> action is Refresh
            &&& renewable && status == 400 && spells_bad_claims(text@) ==> action is Refresh
            &&& action is Refresh ==> {
                &&& renewable
                &&& status == 401 || (status == 400 && spells_bad_claims(text@))
                &&& next.stage == Stage::AfterRefresh
                &&& next.remote
            }
            &&& action !is Refresh ==> next == flow && action == FetchAction::Deliver(
                ApiResponse { status, body: text },
            )
        }),
{
}

/// A remote request that is answered by 429 is held back and sent again, once;
/// any other response is read. One that follows a renewal is sent at once, and
/// a failed renewal ends the request.
pub proof fn rate_limited_request_is_held_back(flow: FetchFlow, status: u16, succeeded: bool)
    ensures
        ({
            let event = FetchEvent::Responded { status };
            let (next, action) = fetch_step(flow, event, event_body(event));
            &&& flow.remote && flow.stage == Stage::First && status == 429 ==> action is CoolDown
                && next.stage == Stage::AfterCooldown && next.remote
            &&& !flow.remote || flow.stage != Stage::First || status != 429 ==> action is Read
                && next == flow
        }),
        ({
            let event = FetchEvent::Refreshed { succeeded };
            let (next, action) = fetch_step(flow, event, event_body(event));
            &&& next == flow
            &&& succeeded ==> action == (FetchAction::Send { wait: false })
            &&& !succeeded ==> action is Fail
        }),
{
}

proof fn fetch_course(events: Seq<FetchEvent>)
    requires
        fetch_run(FetchFlow { remote: true, stage: Stage::First }, events),
    ensures
        ({
            let flow = FetchFlow { remote: true, stage: Stage::First };
            let now = fetch_flow(flow, events);
            let action = fetch_done(flow, events);
            &&& now.remote
            &&& now.stage == Stage::AfterRefresh && action !is Refresh && action !is Fail
                ==> exists|i: int|
                0 <= i < events.len() && #[trigger] events[i] == (FetchEvent::Refreshed {
                    succeeded: true,
                })
            &&& now.stage == Stage::AfterCooldown ==> exists|i: int|
                0 <= i < events.len() && #[trigger] events[i] == (FetchEvent::Responded {
                    status: 429,
                })
            &&& action is Refresh ==> now.stage == Stage::AfterRefresh
            &&& action is Fail ==> events.len() > 0 && events.last() == (FetchEvent::Refreshed {
                succeeded: false,
            })
        }),
    decreases events.len(),
{
    if events.len() > 0 {
        let init = events.drop_last();
        let flow = FetchFlow { remote: true, stage: Stage::First };
        fetch_course(init);
        let before = fetch_flow(flow, init);
        if before.stage == Stage::AfterRefresh && fetch_done(flow, init) !is Refresh {
            let i = choose|i: int|
                0 <= i < init.len() && #[trigger] init[i] == (FetchEvent::Refreshed {
                    succeeded: true,
                });
            assert(events[i] == init[i]);
        }
        if before.stage == Stage::AfterCooldown {
            let i = choose|i: int|
                0 <= i < init.len() && #[trigger] init[i] == (FetchEvent::Responded {
                    status: 429,
                });
            assert(events[i] == init[i]);
        }
        assert(events[events.len() - 1] == events.last());
    }
}

/// In any course of a remote request, what is handed out is the response that was
/// read last; a 401 or a rejection of claims only after the player was
/// authenticated anew; and failure only because that did not succeed.
pub proof fn refusal_is_delivered_only_after_renewal(events: Seq<FetchEvent>)
    requires
        fetch_run(FetchFlow { remote: true, stage: Stage::First }, events),
    ensures
        ({
            let action = fetch_done(FetchFlow { remote: true, stage: Stage::First }, events);
            &&& action matches FetchAction::Deliver(response) ==> {
                &&& events.len() > 0
                &&& events.last() == (FetchEvent::Read {
                    status: response.status,
                    text: response.body,
                })
                &&& response.status == 401 || (response.status == 400 && spells_bad_claims(
                    response.body@,
                )) ==> exists|i: int|
                    0 <= i < events.len() && #[trigger] events[i] == (FetchEvent::Refreshed {
                        succeeded: true,
                    })
            }
            &&& action is Fail ==> events.len() > 0 && events.last() == (FetchEvent::Refreshed {
                succeeded: false,
            })
        }),
{
    fetch_course(events);
    if events.len() > 0 {
        let init = events.drop_last();
        let flow = FetchFlow { remote: true, stage: Stage::First };
        fetch_course(init);
        if let FetchEvent::Read { status, text } = events.last() {
            refused_token_is_renewed(fetch_flow(flow, init), status, text);
        }
    }
}

/// A remote request carries the player's tokens and tells of the machine, the
/// game's version and the program; one to the service on this machine carries
/// the lockfile's credentials. Each goes to the address of its service.
pub proof fn requests_carry_what_authenticates_them(session: Session)
    ensures
        forall|api: Api|
            api != Api::Local ==> #[trigger] session.auth_headers(api) == seq![
                ("Authorization"@, "Bearer "@ + session.state.access_token@),
                ("X-Riot-Entitlements-JWT"@, session.state.entitlements_token@),
                (
                    "X-Riot-ClientPlatform"@,
                    "ew0KCSJwbGF0Zm9ybVR5cGUiOiAiUEMiLA0KCSJwbGF0Zm9ybU9TIjogIldpbmRvd3MiLA0KCSJwbGF0Zm9ybU9TVmVyc2lvbiI6ICIxMC4wLjE5MDQyLjEuMjU2LjY0Yml0IiwNCgkicGxhdGZvcm1DaGlwc2V0IjogIlVua25vd24iDQp9"@,
                ),
                ("X-Riot-ClientVersion"@, session.state.client_version@),
                ("User-Agent"@, "ShooterGame/13 Windows/10.0.19043.1.256.64bit"@),
            ],
        session.auth_headers(Api::Local) == seq![
            (
                "Authorization"@,
                "Basic "@ + base64_encoded(encode_utf8("riot:"@ + session.lockfile.password@)),
            ),
        ],
        session.url_of(Api::Pd) == session.base_urls.pd@,
        session.url_of(Api::Glz) == session.base_urls.glz@,
        session.url_of(Api::Shared) == session.base_urls.shared@,
        session.url_of(Api::Local) == session.base_urls.local@,
{
}

/// An answer renews what authenticates the player exactly where it brings both
/// tokens and no message. It then replaces the tokens and the expiry, and the
/// player where it names one; all else stays.
pub proof fn renewal_replaces_the_tokens(
    before: Session,
    data: EntitlementsResponse,
    clock: Option<Elapsed>,
    after: Session,
)
    ensures
        refusal(data) is None <==> data.message is None && data.access_token is Some
            && data.token is Some,
        data.message is Some ==> refusal(data) == Some(
            "entitlements refresh rejected: "@ + data.message->0@,
        ),
        data.message is None && data.access_token is None ==> refusal(data) == Some(
            "refresh missing accessToken"@,
        ),
        data.message is None && data.access_token is Some && data.token is None ==> refusal(data)
            == Some("refresh missing token"@),
        refusal(data) is None && after.renewed(before, data, clock) ==> {
            &&& data.access_token == Some(after.state.access_token)
            &&& data.token == Some(after.state.entitlements_token)
            &&& data.subject is Some ==> data.subject == Some(after.state.puuid)
            &&& data.subject is None ==> after.state.puuid == before.state.puuid
            &&& after.state.expires_at == Some(
                match token_expiry(after.state.access_token@) {
                    Some(claimed) => Expiry::Claimed(claimed),
                    None => Expiry::HourAfter(clock),
                },
            )
            &&& after.state.client_version == before.state.client_version
            &&& after.state.cooldown_until == before.state.cooldown_until
            &&& after.region == before.region
            &&& after.base_urls == before.base_urls
            &&& after.lockfile == before.lockfile
            &&& after.granted == before.granted
        },
{
}

} // verus!
