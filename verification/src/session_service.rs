//! The session with the server, in which each change of state is reported.

use vstd::prelude::*;

use crate::backend::Backend;
use crate::encoding::is_lower_hex;
use crate::events::Event;
use crate::http::bearer;
use crate::http::json_content;
use crate::http::HttpRequest;
use crate::http::Method;
use crate::json;
use crate::json::json_number;
use crate::json::json_text;
use crate::json::parsed_json;
use crate::json::tree_member;
use crate::json::Json;
use crate::json::JsonTree;
use crate::text::append;
use crate::text::concat;
use crate::text::texts;

verus! {

/// How often the server is told that the session goes on, in seconds.
pub const PING_INTERVAL_SECS: u64 = 30;

/// What came of a report.
#[derive(Debug, Clone, Copy, PartialEq, Eq, Structural)]
pub enum EventResult {
    /// The server took it.
    Sent,
    /// The server knows no such session.
    Lost,
    /// It was not taken, for another reason.
    Failed,
}

/// The state that an event stands for.
pub open spec fn state_of(event: Event) -> Option<Seq<char>> {
    match event {
        Event::RsoLogin(_) => Some("RSO_LOGIN"@),
        Event::RsoLogout => Some("RSO_LOGOUT"@),
        Event::ValorantOpened(_) => Some("VALORANT_OPENED"@),
        Event::ValorantClosed => Some("VALORANT_CLOSED"@),
        Event::PregameStarted => Some("PREGAME_STARTED"@),
        Event::PregameEnded => Some("PREGAME_ENDED"@),
        Event::MatchStarted => Some("MATCH_STARTED"@),
        Event::MatchEnded => Some("MATCH_ENDED"@),
        Event::Startup => None,
        Event::Shutdown => None,
    }
}

/// The state that an event stands for. The start of the program is reported on
/// its own, and its end ends the session.
pub fn map_state(event: &Event) -> (r: Option<&'static str>)
    ensures
        match r {
            Some(state) => state_of(*event) == Some(state@),
            None => state_of(*event) is None,
        },
{
    match event {
        Event::RsoLogin(_) => Some("RSO_LOGIN"),
        Event::RsoLogout => Some("RSO_LOGOUT"),
        Event::ValorantOpened(_) => Some("VALORANT_OPENED"),
        Event::ValorantClosed => Some("VALORANT_CLOSED"),
        Event::PregameStarted => Some("PREGAME_STARTED"),
        Event::PregameEnded => Some("PREGAME_ENDED"),
        Event::MatchStarted => Some("MATCH_STARTED"),
        Event::MatchEnded => Some("MATCH_ENDED"),
        Event::Startup | Event::Shutdown => None,
    }
}

/// The state that is reported when the program starts, whether or not the event
/// for it is seen.
pub const STARTUP_STATE: &'static str = "STARTUP";

/// Whether a status says that the server knows no such session.
pub open spec fn session_lost(status: u16) -> bool {
    status == 404 || status == 410
}

pub fn is_session_lost(status: u16) -> (r: bool)
    ensures
        r == session_lost(status),
        r <==> status == 404 || status == 410,
{
    status == 404 || status == 410
}

/// What came of a report, by the status of the reply; none where there was no
/// reply, or no token or session to send it with.
pub fn post_event(status: Option<u16>) -> (r: EventResult)
    ensures
        r == match status {
            Some(status) => if status == 204 {
                EventResult::Sent
            } else if session_lost(status) {
                EventResult::Lost
            } else {
                EventResult::Failed
            },
            None => EventResult::Failed,
        },
        r == EventResult::Sent <==> status == Some(204u16),
        r == EventResult::Lost <==> status == Some(404u16) || status == Some(410u16),
{
    match status {
        Some(status) => if status == 204 {
            EventResult::Sent
        } else if is_session_lost(status) {
            EventResult::Lost
        } else {
            EventResult::Failed
        },
        None => EventResult::Failed,
    }
}

/// The session that a reply's body names: a string's text, or the JSON of
/// anything else.
pub open spec fn session_named(body: JsonTree) -> Option<Seq<char>> {
    match tree_member(body, "session_id"@) {
        Some(JsonTree::Text(id)) => Some(id),
        Some(other) => Some(json_text(other)),
        None => None,
    }
}

/// The session that a reply's body names.
pub fn session_id_of(body: Json) -> (r: Option<String>)
    requires
        body.wf(),
    ensures
        match r {
            Some(id) => session_named(body@) == Some(id@),
            None => session_named(body@) is None,
        },
{
    match body.into_member("session_id") {
        Some(Json::Text(id)) => Some(id),
        Some(other) => Some(other.into_text()),
        None => None,
    }
}

/// The session that a reply's text names.
pub open spec fn session_in(text: Seq<char>) -> Option<Seq<char>> {
    match parsed_json(text) {
        Some(body) => session_named(body),
        None => None,
    }
}

/// The session that a reply's text names.
pub fn extract_session_id(body: &str) -> (r: Option<String>)
    ensures
        match r {
            Some(id) => session_in(body@) == Some(id@),
            None => session_in(body@) is None,
        },
{
    match json::parse(body) {
        Some(body) => session_id_of(body),
        None => None,
    }
}

/// The session that was opened, by the reply to the request for one.
pub fn open_session(status: u16, body: &str) -> (r: Option<String>)
    ensures
        match r {
            Some(id) => status == 201 && session_in(body@) == Some(id@),
            None => status != 201 || session_in(body@) is None,
        },
{
    if status == 201 {
        extract_session_id(body)
    } else {
        None
    }
}

/// Whether `id` is written as a random UUID is: 32 lower case hexadecimal
/// digits with hyphens between them, of the version 4 and the usual variant.
pub open spec fn is_event_id(id: Seq<char>) -> bool {
    &&& id.len() == 36
    &&& forall|i: int|
        0 <= i < 36 ==> if i == 8 || i == 13 || i == 18 || i == 23 {
            #[trigger] id[i] == '-'
        } else {
            is_lower_hex(id[i])
        }
    &&& id[14] == '4'
    &&& id[19] == '8' || id[19] == '9' || id[19] == 'a' || id[19] == 'b'
}

/// `uuid::Uuid::new_v4`, printed: the form is fixed, the digits come from the
/// system's source of random numbers and nothing is said of them. It is taken
/// for granted that this source answers.
#[verifier::external_body]
fn new_event_id() -> (id: String)
    ensures
        is_event_id(id@),
{
    uuid::Uuid::new_v4().to_string()
}

/// What a report says.
pub open spec fn report_tree(state: Seq<char>, timestamp: u64, event_id: Seq<char>) -> JsonTree {
    JsonTree::Object(
        map![
            "state"@ => JsonTree::Text(state),
            "timestamp_unix_ms"@ => JsonTree::Number(json_number(timestamp)),
            "event_id"@ => JsonTree::Text(event_id),
        ],
    )
}

/// The address of a session.
pub open spec fn session_url(backend: Backend, session_id: Seq<char>, what: Seq<char>) -> Seq<
    char,
> {
    backend.base_url@ + "/v1/sessions/"@ + session_id + what
}

impl Backend {
    fn session_request(&self, token: &str, session_id: &str, what: &str) -> (r: HttpRequest)
        ensures
            r.is_made_of(
                Method::Post,
                session_url(*self, session_id@, what@),
                seq![bearer(token@)],
                None,
            ),
    {
        let mut url = concat(self.base_url.as_str(), "/v1/sessions/");
        append(&mut url, session_id);
        append(&mut url, what);
        let r = HttpRequest::new(Method::Post, url).bearer_auth(token);
        assert(r.header_texts() =~= seq![bearer(token@)]);
        r
    }

    /// The request for a session.
    pub fn open_request(&self, token: &str) -> (r: HttpRequest)
        ensures
            r.is_made_of(
                Method::Post,
                self.base_url@ + "/v1/sessions"@,
                seq![bearer(token@)],
                None,
            ),
    {
        let url = concat(self.base_url.as_str(), "/v1/sessions");
        let r = HttpRequest::new(Method::Post, url).bearer_auth(token);
        assert(r.header_texts() =~= seq![bearer(token@)]);
        r
    }

    /// The request that says that a session goes on.
    pub fn ping_request(&self, token: &str, session_id: &str) -> (r: HttpRequest)
        ensures
            r.is_made_of(
                Method::Post,
                session_url(*self, session_id@, "/ping"@),
                seq![bearer(token@)],
                None,
            ),
    {
        self.session_request(token, session_id, "/ping")
    }

    /// The request that ends a session.
    pub fn end_request(&self, token: &str, session_id: &str) -> (r: HttpRequest)
        ensures
            r.is_made_of(
                Method::Post,
                session_url(*self, session_id@, "/end"@),
                seq![bearer(token@)],
                None,
            ),
    {
        self.session_request(token, session_id, "/end")
    }

    /// The report of a state under a given identifier.
    pub fn event_request_with_id(
        &self,
        token: &str,
        session_id: &str,
        state: &str,
        timestamp: u64,
        event_id: &str,
    ) -> (r: HttpRequest)
        ensures
            r.is_made_of(
                Method::Post,
                session_url(*self, session_id@, "/event"@),
                seq![bearer(token@), json_content()],
                Some(json_text(report_tree(state@, timestamp, event_id@))),
            ),
    {
        let body = Json::object().with_text("state", state).with_integer(
            "timestamp_unix_ms",
            timestamp,
        ).with_text("event_id", event_id);
        let r = self.session_request(token, session_id, "/event").json(body);
        assert(r.header_texts() =~= seq![bearer(token@), json_content()]);
        r
    }

    /// The report of a state, under an identifier of its own.
    pub fn event_request(&self, token: &str, session_id: &str, state: &str, timestamp: u64) -> (r:
        HttpRequest)
        ensures
            exists|event_id: Seq<char>| #[trigger]
                is_event_id(event_id) && r.is_made_of(
                    Method::Post,
                    session_url(*self, session_id@, "/event"@),
                    seq![bearer(token@), json_content()],
                    Some(json_text(report_tree(state@, timestamp, event_id))),
                ),
    {
        let event_id = new_event_id();
        assert(is_event_id(event_id@));
        self.event_request_with_id(token, session_id, state, timestamp, event_id.as_str())
    }
}

/// What the service is waiting for.
#[derive(Debug, Clone, Copy, PartialEq, Eq, Structural)]
pub enum Phase {
    /// Nothing; it can take on work.
    Idle,
    /// A session, to report with.
    Opening,
    /// The reply to a report.
    Posting,
    /// A session in place of one that was lost during a report.
    Reopening,
    /// The reply to a report that was sent again.
    Reposting,
    /// The reply to a ping.
    Pinging,
    /// A session in place of one that was lost before a ping.
    Restoring,
}

/// What happens to the service.
pub enum ServiceEvent {
    /// A state is to be reported.
    Report(String),
    /// It is time for a ping.
    Tick,
    /// The session is to end.
    Shutdown,
    /// A session was asked for; `None` where there is none.
    Opened(Option<String>),
    /// A report was sent.
    Posted(EventResult),
    /// A ping was sent; says whether the session was lost.
    Pinged { lost: bool },
}

/// What the service has to do.
pub enum ServiceAction {
    /// Wait for what happens next.
    Wait,
    /// Ask for a session.
    Open,
    /// Report a state.
    Post { session_id: String, state: String },
    /// Say that the session goes on.
    Ping { session_id: String },
    /// End the session.
    End { session_id: String },
}

pub struct SessionService {
    session_id: Option<String>,
    last_state: Option<String>,
    /// States that could not be reported for want of a session.
    pending: Vec<String>,
    /// States that are being reported, the current one first.
    todo: Vec<String>,
    phase: Phase,
}

/// What the service knows.
pub struct ServiceView {
    pub session_id: Option<Seq<char>>,
    pub last_state: Option<Seq<char>>,
    pub pending: Seq<Seq<char>>,
    pub todo: Seq<Seq<char>>,
    pub phase: Phase,
}

pub enum ServiceEventView {
    Report(Seq<char>),
    Tick,
    Shutdown,
    Opened(Option<Seq<char>>),
    Posted(EventResult),
    Pinged { lost: bool },
}

pub enum ServiceActionView {
    Wait,
    Open,
    Post { session_id: Seq<char>, state: Seq<char> },
    Ping { session_id: Seq<char> },
    End { session_id: Seq<char> },
}

pub open spec fn opt_text(s: Option<String>) -> Option<Seq<char>> {
    match s {
        Some(s) => Some(s@),
        None => None,
    }
}

impl View for SessionService {
    type V = ServiceView;

    closed spec fn view(&self) -> ServiceView {
        ServiceView {
            session_id: opt_text(self.session_id),
            last_state: opt_text(self.last_state),
            pending: texts(self.pending@),
            todo: texts(self.todo@),
            phase: self.phase,
        }
    }
}

impl View for ServiceEvent {
    type V = ServiceEventView;

    open spec fn view(&self) -> ServiceEventView {
        match *self {
            ServiceEvent::Report(state) => ServiceEventView::Report(state@),
            ServiceEvent::Tick => ServiceEventView::Tick,
            ServiceEvent::Shutdown => ServiceEventView::Shutdown,
            ServiceEvent::Opened(id) => ServiceEventView::Opened(opt_text(id)),
            ServiceEvent::Posted(result) => ServiceEventView::Posted(result),
            ServiceEvent::Pinged { lost } => ServiceEventView::Pinged { lost },
        }
    }
}

impl View for ServiceAction {
    type V = ServiceActionView;

    open spec fn view(&self) -> ServiceActionView {
        match *self {
            ServiceAction::Wait => ServiceActionView::Wait,
            ServiceAction::Open => ServiceActionView::Open,
            ServiceAction::Post { session_id, state } => ServiceActionView::Post {
                session_id: session_id@,
                state: state@,
            },
            ServiceAction::Ping { session_id } => ServiceActionView::Ping {
                session_id: session_id@,
            },
            ServiceAction::End { session_id } => ServiceActionView::End { session_id: session_id@ },
        }
    }
}

impl ServiceView {
    /// A service waits for a session where it has none, and for a reply where
    /// it has one; it reports only while there is something to report.
    pub open spec fn wf(self) -> bool {
        match self.phase {
            Phase::Idle => self.todo.len() == 0,
            Phase::Opening => self.todo.len() == 1 && self.session_id is None,
            Phase::Posting => self.todo.len() > 0 && self.session_id is Some,
            Phase::Reopening => self.todo.len() > 0 && self.session_id is None,
            Phase::Reposting => self.todo.len() > 0 && self.session_id is Some,
            Phase::Pinging => self.todo.len() == 0 && self.session_id is Some,
            Phase::Restoring => self.todo.len() == 0 && self.session_id is None,
        }
    }

    /// Goes on to the next state that is to be reported, if there is one.
    pub open spec fn report_next(self) -> (ServiceView, ServiceActionView) {
        match self.session_id {
            Some(session_id) => if self.todo.len() > 0 {
                (
                    ServiceView { phase: Phase::Posting, ..self },
                    ServiceActionView::Post { session_id, state: self.todo[0] },
                )
            } else {
                (ServiceView { phase: Phase::Idle, ..self }, ServiceActionView::Wait)
            },
            None => (
                ServiceView { phase: Phase::Idle, todo: Seq::empty(), ..self },
                ServiceActionView::Wait,
            ),
        }
    }

    /// The current state is done with.
    pub open spec fn reported(self, result: EventResult) -> ServiceView {
        ServiceView {
            last_state: if result == EventResult::Sent {
                Some(self.todo[0])
            } else {
                self.last_state
            },
            todo: self.todo.drop_first(),
            ..self
        }
    }

    /// What follows an event. One that the service does not wait for changes
    /// nothing.
    pub open spec fn step(self, event: ServiceEventView) -> (ServiceView, ServiceActionView) {
        match (self.phase, event) {
            (Phase::Idle, ServiceEventView::Report(state)) => {
                let taken = ServiceView { todo: seq![state], ..self };
                if self.session_id is Some {
                    taken.report_next()
                } else {
                    (ServiceView { phase: Phase::Opening, ..taken }, ServiceActionView::Open)
                }
            },
            (Phase::Idle, ServiceEventView::Tick) => match self.session_id {
                Some(session_id) => (
                    ServiceView { phase: Phase::Pinging, ..self },
                    ServiceActionView::Ping { session_id },
                ),
                None => (self, ServiceActionView::Wait),
            },
            (Phase::Idle, ServiceEventView::Shutdown) => match self.session_id {
                Some(session_id) => (
                    ServiceView { session_id: None, last_state: None, ..self },
                    ServiceActionView::End { session_id },
                ),
                None => (self, ServiceActionView::Wait),
            },
            (Phase::Opening, ServiceEventView::Opened(id)) => match id {
                Some(_) => ServiceView {
                    session_id: id,
                    todo: self.pending + self.todo,
                    pending: Seq::empty(),
                    ..self
                }.report_next(),
                None => (
                    ServiceView {
                        phase: Phase::Idle,
                        pending: self.pending + self.todo,
                        todo: Seq::empty(),
                        ..self
                    },
                    ServiceActionView::Wait,
                ),
            },
            (Phase::Posting, ServiceEventView::Posted(result)) => if result == EventResult::Lost {
                (
                    ServiceView { session_id: None, phase: Phase::Reopening, ..self },
                    ServiceActionView::Open,
                )
            } else {
                self.reported(result).report_next()
            },
            (Phase::Reopening, ServiceEventView::Opened(id)) => match id {
                Some(session_id) => (
                    ServiceView { session_id: id, phase: Phase::Reposting, ..self },
                    ServiceActionView::Post { session_id, state: self.todo[0] },
                ),
                None => self.report_next(),
            },
            (Phase::Reposting, ServiceEventView::Posted(result)) => self.reported(
                result,
            ).report_next(),
            (Phase::Pinging, ServiceEventView::Pinged { lost }) => if lost {
                (
                    ServiceView { session_id: None, phase: Phase::Restoring, ..self },
                    ServiceActionView::Open,
                )
            } else {
                (ServiceView { phase: Phase::Idle, ..self }, ServiceActionView::Wait)
            },
            (Phase::Restoring, ServiceEventView::Opened(id)) => match (id, self.last_state) {
                (Some(_), Some(last)) => ServiceView {
                    session_id: id,
                    todo: seq![last],
                    ..self
                }.report_next(),
                _ => (
                    ServiceView { session_id: id, phase: Phase::Idle, ..self },
                    ServiceActionView::Wait,
                ),
            },
            _ => (self, ServiceActionView::Wait),
        }
    }
}

impl SessionService {
    pub fn new() -> (r: Self)
        ensures
            r@ == (ServiceView {
                session_id: None,
                last_state: None,
                pending: Seq::empty(),
                todo: Seq::empty(),
                phase: Phase::Idle,
            }),
            r@.wf(),
    {
        let r = SessionService {
            session_id: None,
            last_state: None,
            pending: Vec::new(),
            todo: Vec::new(),
            phase: Phase::Idle,
        };
        assert(r@.pending =~= Seq::<Seq<char>>::empty());
        assert(r@.todo =~= Seq::<Seq<char>>::empty());
        r
    }

    /// Reports the next state, if there is one and a session to report it in.
    fn report_next(&mut self) -> (action: ServiceAction)
        ensures
            (final(self)@, action@) == old(self)@.report_next(),
    {
        match &self.session_id {
            Some(session_id) => {
                if self.todo.len() > 0 {
                    self.phase = Phase::Posting;
                    assert(texts(self.todo@)[0] == self.todo@[0]@);
                    ServiceAction::Post {
                        session_id: session_id.clone(),
                        state: self.todo[0].clone(),
                    }
                } else {
                    self.phase = Phase::Idle;
                    ServiceAction::Wait
                }
            },
            None => {
                self.phase = Phase::Idle;
                self.todo = Vec::new();
                assert(texts(self.todo@) =~= Seq::<Seq<char>>::empty());
                ServiceAction::Wait
            },
        }
    }

    /// Has done with the current state.
    fn reported(&mut self, result: EventResult)
        requires
            old(self)@.todo.len() > 0,
        ensures
            final(self)@ == old(self)@.reported(result),
    {
        let ghost before = self.todo@;
        assert(before.len() == self@.todo.len());
        let state = self.todo.remove(0);
        assert(texts(before)[0] == state@);
        assert(texts(self.todo@) =~= texts(before).drop_first());
        if result == EventResult::Sent {
            self.last_state = Some(state);
        }
    }

    /// Takes up what waits to be reported.
    fn take_pending(&mut self)
        ensures
            final(self)@ == (ServiceView {
                todo: old(self)@.pending + old(self)@.todo,
                pending: Seq::empty(),
                ..old(self)@
            }),
    {
        let ghost before = self@;
        let mut all: Vec<String> = Vec::new();
        let mut waiting: Vec<String> = Vec::new();
        let mut current: Vec<String> = Vec::new();
        std::mem::swap(&mut waiting, &mut self.pending);
        std::mem::swap(&mut current, &mut self.todo);
        all.append(&mut waiting);
        all.append(&mut current);
        assert(texts(all@) =~= before.pending + before.todo);
        self.todo = all;
        assert(texts(self.pending@) =~= Seq::<Seq<char>>::empty());
    }

    /// Puts what is being reported behind what waits to be.
    fn put_back(&mut self)
        ensures
            final(self)@ == (ServiceView {
                pending: old(self)@.pending + old(self)@.todo,
                todo: Seq::empty(),
                ..old(self)@
            }),
    {
        let ghost before = self@;
        let mut current: Vec<String> = Vec::new();
        std::mem::swap(&mut current, &mut self.todo);
        self.pending.append(&mut current);
        assert(texts(self.pending@) =~= before.pending + before.todo);
        assert(texts(self.todo@) =~= Seq::<Seq<char>>::empty());
    }

    /// Has one state to report.
    fn set_todo(&mut self, state: String)
        ensures
            final(self)@ == (ServiceView { todo: seq![state@], ..old(self)@ }),
    {
        let mut todo: Vec<String> = Vec::new();
        todo.push(state);
        self.todo = todo;
        assert(texts(self.todo@) =~= seq![state@]);
    }

    /// What follows an event.
    pub fn on_event(&mut self, event: ServiceEvent) -> (action: ServiceAction)
        requires
            old(self)@.wf(),
        ensures
            (final(self)@, action@) == old(self)@.step(event@),
            final(self)@.wf(),
    {
        match (self.phase, event) {
            (Phase::Idle, ServiceEvent::Report(state)) => {
                self.set_todo(state);
                if self.session_id.is_some() {
                    self.report_next()
                } else {
                    self.phase = Phase::Opening;
                    ServiceAction::Open
                }
            },
            (Phase::Idle, ServiceEvent::Tick) => {
                match &self.session_id {
                    Some(session_id) => {
                        self.phase = Phase::Pinging;
                        ServiceAction::Ping { session_id: session_id.clone() }
                    },
                    None => ServiceAction::Wait,
                }
            },
            (Phase::Idle, ServiceEvent::Shutdown) => {
                match self.session_id.take() {
                    Some(session_id) => {
                        self.last_state = None;
                        ServiceAction::End { session_id }
                    },
                    None => ServiceAction::Wait,
                }
            },
            (Phase::Opening, ServiceEvent::Opened(id)) => {
                if id.is_some() {
                    self.session_id = id;
                    self.take_pending();
                    self.report_next()
                } else {
                    self.put_back();
                    self.phase = Phase::Idle;
                    ServiceAction::Wait
                }
            },
            (Phase::Posting, ServiceEvent::Posted(result)) => {
                if result == EventResult::Lost {
                    self.session_id = None;
                    self.phase = Phase::Reopening;
                    ServiceAction::Open
                } else {
                    self.reported(result);
                    self.report_next()
                }
            },
            (Phase::Reopening, ServiceEvent::Opened(id)) => {
                match id {
                    Some(session_id) => {
                        self.session_id = Some(session_id.clone());
                        self.phase = Phase::Reposting;
                        assert(texts(self.todo@)[0] == self.todo@[0]@);
                        ServiceAction::Post { session_id, state: self.todo[0].clone() }
                    },
                    None => self.report_next(),
                }
            },
            (Phase::Reposting, ServiceEvent::Posted(result)) => {
                self.reported(result);
                self.report_next()
            },
            (Phase::Pinging, ServiceEvent::Pinged { lost }) => {
                if lost {
                    self.session_id = None;
                    self.phase = Phase::Restoring;
                    ServiceAction::Open
                } else {
                    self.phase = Phase::Idle;
                    ServiceAction::Wait
                }
            },
            (Phase::Restoring, ServiceEvent::Opened(id)) => {
                match (id, &self.last_state) {
                    (Some(session_id), Some(last)) => {
                        let last = last.clone();
                        self.session_id = Some(session_id);
                        self.set_todo(last);
                        self.report_next()
                    },
                    (id, _) => {
                        self.session_id = id;
                        self.phase = Phase::Idle;
                        ServiceAction::Wait
                    },
                }
            },
            _ => ServiceAction::Wait,
        }
    }
}

/// What an event of the program means to the service, if anything.
pub fn service_event(event: &Event) -> (r: Option<ServiceEvent>)
    ensures
        match r {
            Some(ServiceEvent::Shutdown) => event is Shutdown,
            Some(ServiceEvent::Report(state)) => state_of(*event) == Some(state@),
            Some(_) => false,
            None => event !is Shutdown && state_of(*event) is None,
        },
{
    match event {
        Event::Shutdown => Some(ServiceEvent::Shutdown),
        _ => match map_state(event) {
            Some(state) => Some(ServiceEvent::Report(state.to_owned())),
            None => None,
        },
    }
}

impl ServiceView {
    /// Whether an event is one that the service waits for.
    pub open spec fn awaits(self, event: ServiceEventView) -> bool {
        match self.phase {
            Phase::Idle => event is Report || event is Tick || event is Shutdown,
            Phase::Opening | Phase::Reopening | Phase::Restoring => event is Opened,
            Phase::Posting | Phase::Reposting => event is Posted,
            Phase::Pinging => event is Pinged,
        }
    }

    /// A bound on the replies that the service waits for before it is idle again.
    pub open spec fn replies_left(self) -> nat {
        match self.phase {
            Phase::Idle => 0,
            Phase::Opening => 3 * self.pending.len() + 4,
            Phase::Posting => 3 * self.todo.len(),
            Phase::Reopening => (3 * self.todo.len() - 1) as nat,
            Phase::Reposting => (3 * self.todo.len() - 2) as nat,
            Phase::Pinging => 5,
            Phase::Restoring => 4,
        }
    }

    /// The service after `count` replies that say that a report was taken.
    pub open spec fn acknowledged(self, count: nat) -> (ServiceView, ServiceActionView)
        decreases count,
    {
        if count == 0 {
            self.report_next()
        } else {
            self.acknowledged((count - 1) as nat).0.step(
                ServiceEventView::Posted(EventResult::Sent),
            )
        }
    }
}

/// Work comes to an end: each reply that the service waits for leaves fewer to
/// wait for.
pub proof fn every_reply_brings_the_end_nearer(service: ServiceView, event: ServiceEventView)
    requires
        service.wf(),
        service.phase != Phase::Idle,
        service.awaits(event),
    ensures
        service.step(event).0.wf(),
        service.step(event).0.replies_left() < service.replies_left(),
{
}

/// An event that the service does not wait for changes nothing and asks for
/// nothing.
pub proof fn stray_event_changes_nothing(service: ServiceView, event: ServiceEventView)
    requires
        !service.awaits(event),
    ensures
        service.step(event) == (service, ServiceActionView::Wait),
{
}

/// Whatever is sent goes to the session that is open, a report carries the
/// state whose turn it is, and an ended session is forgotten.
pub proof fn requests_belong_to_the_session(service: ServiceView, event: ServiceEventView)
    requires
        service.wf(),
    ensures
        ({
            let (next, action) = service.step(event);
            match action {
                ServiceActionView::Post { session_id, state } => next.session_id == Some(session_id)
                    && next.todo.len() > 0 && next.todo[0] == state,
                ServiceActionView::Ping { session_id } => next.session_id == Some(session_id),
                ServiceActionView::End { session_id } => service.session_id == Some(session_id)
                    && next.session_id is None && next.last_state is None,
                ServiceActionView::Open => next.session_id is None,
                ServiceActionView::Wait => next.phase == service.phase || next.phase
                    == Phase::Idle,
            }
        }),
{
}

/// A state that is reported while no session can be had is kept, behind those
/// that were kept before, and nothing is sent.
pub proof fn offline_report_is_kept(service: ServiceView, state: Seq<char>)
    requires
        service.wf(),
        service.phase == Phase::Idle,
        service.session_id is None,
    ensures
        service.step(ServiceEventView::Report(state)).1 == ServiceActionView::Open,
        service.step(ServiceEventView::Report(state)).0.step(ServiceEventView::Opened(None)) == (
            ServiceView { pending: service.pending.push(state), ..service },
            ServiceActionView::Wait,
        ),
{
    let after = service.step(ServiceEventView::Report(state)).0.step(
        ServiceEventView::Opened(None),
    ).0;
    assert(after.pending =~= service.pending.push(state));
    assert(after.todo =~= service.todo);
}

/// What is kept for later leaves only to be reported, all of it, before what is
/// reported now.
pub proof fn kept_states_leave_only_to_be_reported(service: ServiceView, event: ServiceEventView)
    requires
        service.wf(),
    ensures
        ({
            let next = service.step(event).0;
            ||| next.pending == service.pending
            ||| next.pending == service.pending + service.todo
            ||| next.pending.len() == 0 && next.todo == service.pending + service.todo
                && next.phase == Phase::Posting
        }),
{
}

proof fn acknowledged_so_far(service: ServiceView, count: nat)
    requires
        service.session_id is Some,
        service.todo.len() > 0,
        count <= service.todo.len(),
    ensures
        ({
            let (next, action) = service.acknowledged(count);
            &&& next.session_id == service.session_id
            &&& next.pending == service.pending
            &&& next.todo == service.todo.skip(count as int)
            &&& next.last_state == if count == 0 {
                service.last_state
            } else {
                Some(service.todo[count - 1])
            }
            &&& if count < service.todo.len() {
                next.phase == Phase::Posting && action == (ServiceActionView::Post {
                    session_id: service.session_id->0,
                    state: service.todo[count as int],
                })
            } else {
                next.phase == Phase::Idle && action == ServiceActionView::Wait
            }
        }),
    decreases count,
{
    if count == 0 {
        assert(service.todo.skip(0) =~= service.todo);
    } else {
        let before = (count - 1) as nat;
        acknowledged_so_far(service, before);
        assert(service.todo.skip(before as int).drop_first() =~= service.todo.skip(count as int));
    }
}

/// Once a session is open, the states that were kept are reported in the order
/// in which they came, and the new one last: with `count` of them taken, the
/// next is the one whose turn it is; with all of them taken, the service is
/// idle, keeps nothing, and knows the new state as the last.
pub proof fn kept_states_are_reported_in_order(service: ServiceView, id: Seq<char>, count: nat)
    requires
        service.wf(),
        service.phase == Phase::Opening,
        count <= service.pending.len() + 1,
    ensures
        ({
            let opened = ServiceView {
                session_id: Some(id),
                todo: service.pending + service.todo,
                pending: Seq::empty(),
                ..service
            };
            let (next, action) = opened.acknowledged(count);
            &&& service.step(ServiceEventView::Opened(Some(id))) == opened.acknowledged(0)
            &&& next.pending.len() == 0
            &&& if count < service.pending.len() {
                action == (ServiceActionView::Post {
                    session_id: id,
                    state: service.pending[count as int],
                })
            } else if count == service.pending.len() {
                action == (ServiceActionView::Post { session_id: id, state: service.todo[0] })
            } else {
                &&& action == ServiceActionView::Wait
                &&& next.phase == Phase::Idle
                &&& next.session_id == Some(id)
                &&& next.last_state == Some(service.todo[0])
            }
        }),
{
    let opened = ServiceView {
        session_id: Some(id),
        todo: service.pending + service.todo,
        pending: Seq::empty(),
        ..service
    };
    acknowledged_so_far(opened, count);
}

/// A session that is lost during a report is reopened, and the same state is
/// reported once more; whatever comes of that, no session is opened for it a
/// second time.
pub proof fn lost_report_is_sent_once_more(
    service: ServiceView,
    id: Seq<char>,
    result: EventResult,
)
    requires
        service.wf(),
        service.phase == Phase::Posting,
    ensures
        ({
            let (reopening, first) = service.step(ServiceEventView::Posted(EventResult::Lost));
            let (reposting, second) = reopening.step(ServiceEventView::Opened(Some(id)));
            let (after, third) = reposting.step(ServiceEventView::Posted(result));
            &&& first == ServiceActionView::Open
            &&& second == (ServiceActionView::Post { session_id: id, state: service.todo[0] })
            &&& third !is Open
            &&& after.todo == service.todo.drop_first()
            &&& after.session_id == Some(id)
        }),
{
}

/// Where a lost session cannot be reopened, what was to be reported is dropped.
pub proof fn report_without_session_is_dropped(service: ServiceView)
    requires
        service.wf(),
        service.phase == Phase::Reopening,
    ensures
        service.step(ServiceEventView::Opened(None)) == (
            ServiceView { phase: Phase::Idle, todo: Seq::empty(), ..service },
            ServiceActionView::Wait,
        ),
{
}

/// A session that is lost between reports is reopened, and the state that was
/// taken last is reported in the new one.
pub proof fn ping_restores_the_last_state(service: ServiceView, id: Seq<char>)
    requires
        service.wf(),
        service.phase == Phase::Pinging,
    ensures
        ({
            let (restoring, first) = service.step(ServiceEventView::Pinged { lost: true });
            let (after, second) = restoring.step(ServiceEventView::Opened(Some(id)));
            &&& first == ServiceActionView::Open
            &&& after.session_id == Some(id)
            &&& match service.last_state {
                Some(last) => second == (ServiceActionView::Post { session_id: id, state: last }),
                None => second == ServiceActionView::Wait && after.phase == Phase::Idle,
            }
        }),
{
}

/// The last state is one that the server has taken: it changes only when a
/// report is taken, and is forgotten only when the session ends.
pub proof fn last_state_was_taken(service: ServiceView, event: ServiceEventView)
    requires
        service.wf(),
    ensures
        ({
            let next = service.step(event).0;
            ||| next.last_state == service.last_state
            ||| event == ServiceEventView::Posted(EventResult::Sent) && next.last_state == Some(
                service.todo[0],
            )
            ||| event == ServiceEventView::Shutdown && next.last_state is None
        }),
{
}

/// The session is lost by two statuses alone: the server knows no such session,
/// or knows it no longer. No error of the server itself loses it.
pub proof fn only_two_statuses_lose_the_session(status: u16)
    ensures
        session_lost(status) <==> status == 404 || status == 410,
        status >= 500 ==> !session_lost(status),
{
}

/// A service that is idle takes on what comes: a state is reported at once where
/// a session is open, and a session is opened for it where none is; a ping and
/// the end go to the open session, and to nobody where there is none.
pub proof fn idle_service_takes_on_work(service: ServiceView, state: Seq<char>)
    requires
        service.wf(),
        service.phase == Phase::Idle,
    ensures
        service.session_id matches Some(id) ==> {
            &&& service.step(ServiceEventView::Report(state)) == (
                ServiceView { phase: Phase::Posting, todo: seq![state], ..service },
                ServiceActionView::Post { session_id: id, state },
            )
            &&& service.step(ServiceEventView::Tick) == (
                ServiceView { phase: Phase::Pinging, ..service },
                ServiceActionView::Ping { session_id: id },
            )
            &&& service.step(ServiceEventView::Shutdown) == (
                ServiceView { session_id: None, last_state: None, ..service },
                ServiceActionView::End { session_id: id },
            )
        },
        service.session_id is None ==> {
            &&& service.step(ServiceEventView::Report(state)) == (
                ServiceView { phase: Phase::Opening, todo: seq![state], ..service },
                ServiceActionView::Open,
            )
            &&& service.step(ServiceEventView::Tick) == (service, ServiceActionView::Wait)
            &&& service.step(ServiceEventView::Shutdown) == (service, ServiceActionView::Wait)
        },
{
}

/// A report that was taken, or that failed without losing the session, makes way
/// for the next one in the same session; only one that was taken is remembered.
/// What is kept for later is not touched.
pub proof fn answered_report_makes_way(service: ServiceView, taken: bool)
    requires
        service.wf(),
        service.phase == Phase::Posting,
    ensures
        ({
            let result = if taken {
                EventResult::Sent
            } else {
                EventResult::Failed
            };
            let (next, action) = service.step(ServiceEventView::Posted(result));
            &&& next.session_id == service.session_id
            &&& next.pending == service.pending
            &&& next.todo == service.todo.skip(1)
            &&& next.last_state == if taken {
                Some(service.todo[0])
            } else {
                service.last_state
            }
            &&& service.todo.len() > 1 ==> next.phase == Phase::Posting && action == (
            ServiceActionView::Post {
                session_id: service.session_id->0,
                state: service.todo[1],
            })
            &&& service.todo.len() == 1 ==> next.phase == Phase::Idle && action
                == ServiceActionView::Wait
        }),
{
    assert(service.todo.drop_first() =~= service.todo.skip(1));
}

/// A report that was sent once more after the session was reopened counts as any
/// other: where it was taken it is remembered, and the next one follows in the
/// session that is open, whatever the server said.
pub proof fn repeated_report_makes_way(service: ServiceView, result: EventResult)
    requires
        service.wf(),
        service.phase == Phase::Reposting,
    ensures
        ({
            let (next, action) = service.step(ServiceEventView::Posted(result));
            &&& next.session_id == service.session_id
            &&& next.pending == service.pending
            &&& next.todo == service.todo.skip(1)
            &&& next.last_state == if result == EventResult::Sent {
                Some(service.todo[0])
            } else {
                service.last_state
            }
            &&& service.todo.len() > 1 ==> action == (ServiceActionView::Post {
                session_id: service.session_id->0,
                state: service.todo[1],
            })
            &&& service.todo.len() == 1 ==> next.phase == Phase::Idle && action
                == ServiceActionView::Wait
        }),
{
    assert(service.todo.drop_first() =~= service.todo.skip(1));
}

/// A ping that finds the session changes nothing. Where the session is lost and
/// cannot be reopened, there is none until the next report.
pub proof fn answered_ping_changes_nothing(service: ServiceView)
    requires
        service.wf(),
    ensures
        service.phase == Phase::Pinging ==> service.step(ServiceEventView::Pinged { lost: false })
            == (ServiceView { phase: Phase::Idle, ..service }, ServiceActionView::Wait),
        service.phase == Phase::Pinging ==> service.step(ServiceEventView::Pinged { lost: true })
            == (
            ServiceView { phase: Phase::Restoring, session_id: None, ..service },
            ServiceActionView::Open,
        ),
        service.phase == Phase::Restoring ==> service.step(ServiceEventView::Opened(None)) == (
            ServiceView { phase: Phase::Idle, session_id: None, ..service },
            ServiceActionView::Wait,
        ),
{
}

/// The session is named by the member `session_id` of a reply that spells an
/// object: by its text where it is one, and by its JSON where it is not.
pub proof fn session_is_named_by_its_member(
    text: Seq<char>,
    members: Map<Seq<char>, JsonTree>,
    value: JsonTree,
)
    ensures
        ({
            let named = JsonTree::Object(members.insert("session_id"@, value));
            &&& value matches JsonTree::Text(id) ==> session_named(named) == Some(id)
            &&& value !is Text ==> session_named(named) == Some(json_text(value))
            &&& parsed_json(text) == Some(named) ==> session_in(text) == session_named(named)
            &&& session_named(JsonTree::Object(members.remove("session_id"@))) is None
        }),
        parsed_json(text) is None ==> session_in(text) is None,
        value !is Object ==> session_named(value) is None,
{
}

/// A report says the state, the time and its own identifier, and goes to the
/// address of its session.
pub proof fn report_says_state_time_and_identifier(
    backend: Backend,
    session_id: Seq<char>,
    state: Seq<char>,
    timestamp: u64,
    event_id: Seq<char>,
)
    ensures
        report_tree(state, timestamp, event_id) == JsonTree::Object(
            Map::<Seq<char>, JsonTree>::empty().insert("state"@, JsonTree::Text(state)).insert(
                "timestamp_unix_ms"@,
                JsonTree::Number(json_number(timestamp)),
            ).insert("event_id"@, JsonTree::Text(event_id)),
        ),
        session_url(backend, session_id, "/event"@) == backend.base_url@ + "/v1/sessions/"@
            + session_id + "/event"@,
        session_url(backend, session_id, "/ping"@) == backend.base_url@ + "/v1/sessions/"@
            + session_id + "/ping"@,
        session_url(backend, session_id, "/end"@) == backend.base_url@ + "/v1/sessions/"@
            + session_id + "/end"@,
{
}

} // verus!
