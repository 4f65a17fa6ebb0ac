//! What the watchers make of what they see: the Riot client's lockfile, the
//! local API, and the running processes.

use vstd::prelude::*;
use vstd::utf8::encode_utf8;

use crate::encoding::base64_encoded;
use crate::events::Event;
use crate::http::is_success;
use crate::http::success;
use crate::http::HttpRequest;
use crate::http::Method;
use crate::lockfile::empty_content_spells_nothing;
use crate::lockfile::spelled;
use crate::lockfile::Lockfile;
use crate::lockfile::LockfileView;
use crate::text::append;
use crate::text::decimal;
use crate::text::same;
use crate::text::trim;
use crate::text::trimmed;

verus! {

pub const VALORANT_PROCESS_NAMES: [&'static str; 3] = [
    "VALORANT-Win64-Shipping.exe",
    "VALORANT-Win64-Shipping",
    "VALORANT",
];

pub const RIOT_CLIENT_PROCESS_NAMES: [&'static str; 2] = [
    "RiotClientServices.exe",
    "RiotClientServices",
];

/// Whether one of the names is that of a process.
pub open spec fn runs(processes: Seq<String>, names: Seq<&'static str>) -> bool {
    exists|i: int, j: int|
        0 <= i < processes.len() && 0 <= j < names.len() && #[trigger] processes[i]@
            == #[trigger] names[j]@
}

/// Whether one of the names is that of a process.
pub fn is_running(processes: &[String], names: &[&'static str]) -> (r: bool)
    ensures
        r == runs(processes@, names@),
{
    let mut i: usize = 0;
    while i < processes.len()
        invariant
            i <= processes.len(),
            forall|k: int, j: int|
                0 <= k < i && 0 <= j < names@.len() ==> #[trigger] processes@[k]@
                    != #[trigger] names@[j]@,
        decreases processes.len() - i,
    {
        let mut n: usize = 0;
        while n < names.len()
            invariant
                i < processes.len(),
                n <= names.len(),
                forall|j: int| 0 <= j < n ==> processes@[i as int]@ != #[trigger] names@[j]@,
            decreases names.len() - n,
        {
            if same(processes[i].as_str(), names[n]) {
                assert(processes@[i as int]@ == names@[n as int]@);
                return true;
            }
            n += 1;
        }
        i += 1;
    }
    false
}

/// Whether the Riot client is among the processes.
pub fn is_riot_client_running(processes: &[String]) -> (r: bool)
    ensures
        r == runs(processes@, RIOT_CLIENT_PROCESS_NAMES@),
{
    is_running(processes, &RIOT_CLIENT_PROCESS_NAMES)
}

/// What the watcher of the Riot client has found out: that somebody logged in,
/// with the lockfile of the client, or that nobody is any more.
pub enum Transition {
    Login(LockfileView),
    Logout,
}

/// What the watcher of the Riot client sees: the lockfile's content, `None`
/// where it cannot be read, or whether the local API says that somebody is
/// logged in.
pub enum Sight {
    Lockfile(Option<Seq<char>>),
    Authorization(bool),
}

/// What the watcher of the Riot client knows.
pub struct WatcherView {
    pub logged_in: bool,
    pub last_content: Seq<char>,
    pub lockfile: Option<LockfileView>,
}

impl WatcherView {
    /// Nobody is logged in to a client without a lockfile, and the lockfile is
    /// what the last content spells, unless that spells none.
    pub open spec fn wf(self) -> bool {
        &&& self.logged_in ==> self.lockfile is Some
        &&& spelled(self.last_content) is Some ==> self.lockfile == spelled(self.last_content)
    }

    /// The watcher once nobody is logged in, and what it has found out by that.
    pub open spec fn logged_out(self) -> (WatcherView, Option<Transition>) {
        (
            WatcherView { logged_in: false, ..self },
            if self.logged_in {
                Some(Transition::Logout)
            } else {
                None
            },
        )
    }

    /// What follows a sight.
    pub open spec fn step(self, sight: Sight) -> (WatcherView, Option<Transition>) {
        match sight {
            Sight::Lockfile(None) => WatcherView {
                last_content: Seq::empty(),
                lockfile: None,
                ..self
            }.logged_out(),
            Sight::Lockfile(Some(content)) => if trimmed(content) == self.last_content {
                (self, None)
            } else {
                let seen = WatcherView { last_content: trimmed(content), ..self };
                match spelled(trimmed(content)) {
                    Some(lockfile) => WatcherView {
                        lockfile: Some(lockfile),
                        ..seen
                    }.logged_out(),
                    None => (seen, None),
                }
            },
            Sight::Authorization(true) => match self.lockfile {
                Some(lockfile) if !self.logged_in => (
                    WatcherView { logged_in: true, ..self },
                    Some(Transition::Login(lockfile)),
                ),
                _ => (self, None),
            },
            Sight::Authorization(false) => self.logged_out(),
        }
    }

    /// Whether the local API is to be asked after a look at the lockfile: there
    /// is one, and it is not one that was just found unreadable.
    pub open spec fn asks(self, content: Option<Seq<char>>) -> bool {
        match content {
            Some(content) => if trimmed(content) == self.last_content {
                self.lockfile is Some
            } else {
                spelled(trimmed(content)) is Some
            },
            None => false,
        }
    }

    /// What the watcher has found out after a number of sights, in order.
    pub open spec fn told(self, sights: Seq<Sight>) -> (WatcherView, Seq<Transition>)
        decreases sights.len(),
    {
        if sights.len() == 0 {
            (self, Seq::empty())
        } else {
            let (before, told) = self.told(sights.drop_last());
            let (after, transition) = before.step(sights.last());
            match transition {
                Some(transition) => (after, told.push(transition)),
                None => (after, told),
            }
        }
    }
}

/// What is to be done after a look at the lockfile.
pub struct Poll {
    /// An event to tell.
    pub event: Option<Event>,
    /// A request to the local API, whose outcome is to be handed back.
    pub request: Option<HttpRequest>,
}

/// Whether an event tells of a transition.
pub open spec fn tells(event: Option<Event>, transition: Option<Transition>) -> bool {
    match (event, transition) {
        (Some(Event::RsoLogin(lockfile)), Some(Transition::Login(found))) => lockfile@ == found,
        (Some(Event::RsoLogout), Some(Transition::Logout)) => true,
        (None, None) => true,
        _ => false,
    }
}

/// The request that asks the local API whether somebody is logged in.
pub open spec fn asks_for_authorization(request: HttpRequest, lockfile: LockfileView) -> bool {
    request.is_made_of(
        Method::Get,
        lockfile.base_address() + "/rso-auth/v1/authorization"@,
        seq![("Authorization"@, lockfile.basic_credentials())],
        None,
    )
}

fn authorization_request(lockfile: &Lockfile) -> (r: HttpRequest)
    ensures
        asks_for_authorization(r, lockfile@),
{
    let mut url = lockfile.base_url();
    append(&mut url, "/rso-auth/v1/authorization");
    let header = lockfile.auth_header();
    let r = HttpRequest::new(Method::Get, url).header("Authorization", header.as_str());
    assert(r.header_texts() =~= seq![("Authorization"@, lockfile@.basic_credentials())]);
    r
}

/// Watches the lockfile and the local API for a login and a logout.
pub struct RiotClientWatcher {
    logged_in: bool,
    last_content: String,
    lockfile: Option<Lockfile>,
}

impl View for RiotClientWatcher {
    type V = WatcherView;

    closed spec fn view(&self) -> WatcherView {
        WatcherView {
            logged_in: self.logged_in,
            last_content: self.last_content@,
            lockfile: match self.lockfile {
                Some(lockfile) => Some(lockfile@),
                None => None,
            },
        }
    }
}

impl RiotClientWatcher {
    pub fn new() -> (r: Self)
        ensures
            r@ == (WatcherView { logged_in: false, last_content: Seq::empty(), lockfile: None }),
            r@.wf(),
    {
        let r = RiotClientWatcher { logged_in: false, last_content: String::new(), lockfile: None };
        assert(r@.last_content =~= Seq::<char>::empty());
        proof {
            empty_content_spells_nothing();
        }
        r
    }

    /// Takes note of the content of the lockfile, `None` where it cannot be
    /// read.
    pub fn poll_once(&mut self, content: Option<&str>) -> (poll: Poll)
        ensures
            ({
                let seen = match content {
                    Some(content) => Some(content@),
                    None => None,
                };
                let (next, transition) = old(self)@.step(Sight::Lockfile(seen));
                &&& final(self)@ == next
                &&& tells(poll.event, transition)
                &&& poll.request is Some <==> old(self)@.asks(seen)
            }),
            poll.request matches Some(request) ==> final(self)@.lockfile is Some
                && asks_for_authorization(request, final(self)@.lockfile->0),
            old(self)@.wf() ==> final(self)@.wf(),
    {
        let content = match content {
            Some(content) => trim(content),
            None => {
                let event = self.transition_logout();
                self.lockfile = None;
                self.last_content = String::new();
                assert(self@.last_content =~= Seq::<char>::empty());
                proof {
                    empty_content_spells_nothing();
                }
                return Poll { event, request: None };
            },
        };
        let mut event: Option<Event> = None;
        if !same(content, self.last_content.as_str()) {
            self.last_content = content.to_owned();
            match Lockfile::parse(content) {
                Ok(lockfile) => {
                    self.lockfile = Some(lockfile);
                },
                Err(_) => {
                    return Poll { event: None, request: None };
                },
            }
            event = self.transition_logout();
        }
        let request = match &self.lockfile {
            Some(lockfile) => Some(authorization_request(lockfile)),
            None => None,
        };
        Poll { event, request }
    }

    /// Takes note of the status of the local API's answer, `None` where there was
    /// none: somebody is logged in where the request was carried out.
    pub fn on_authorization(&mut self, status: Option<u16>) -> (event: Option<Event>)
        ensures
            ({
                let authorized = status is Some && success(status->0);
                let (next, transition) = old(self)@.step(Sight::Authorization(authorized));
                &&& final(self)@ == next
                &&& tells(event, transition)
            }),
            old(self)@.wf() ==> final(self)@.wf(),
    {
        let authorized = match status {
            Some(status) => is_success(status),
            None => false,
        };
        if !authorized {
            return self.transition_logout();
        }
        if self.logged_in {
            return None;
        }
        match &self.lockfile {
            Some(lockfile) => {
                let lockfile = lockfile.clone();
                Some(self.transition_login(lockfile))
            },
            None => None,
        }
    }

    fn transition_login(&mut self, lockfile: Lockfile) -> (event: Event)
        ensures
            final(self)@ == (WatcherView { logged_in: true, ..old(self)@ }),
            event == Event::RsoLogin(lockfile),
    {
        self.logged_in = true;
        Event::RsoLogin(lockfile)
    }

    fn transition_logout(&mut self) -> (event: Option<Event>)
        ensures
            final(self)@ == old(self)@.logged_out().0,
            tells(event, old(self)@.logged_out().1),
    {
        if self.logged_in {
            self.logged_in = false;
            Some(Event::RsoLogout)
        } else {
            None
        }
    }
}

/// A login is told only after a logout, and a logout only after a login: to a
/// watcher that starts with nobody logged in, every second transition is a
/// logout, and somebody is logged in after an odd number of them.
pub proof fn logins_and_logouts_alternate(watcher: WatcherView, sights: Seq<Sight>)
    requires
        !watcher.logged_in,
    ensures
        ({
            let (after, told) = watcher.told(sights);
            &&& forall|i: int|
                0 <= i < told.len() ==> (#[trigger] told[i] is Login <==> i % 2 == 0)
            &&& after.logged_in <==> told.len() % 2 == 1
        }),
    decreases sights.len(),
{
    if sights.len() > 0 {
        logins_and_logouts_alternate(watcher, sights.drop_last());
    }
}

/// A login is told with the lockfile that the watcher holds, which is the one
/// that the last content spells, unless that spells none; and the watcher holds
/// one as long as somebody is logged in.
pub proof fn login_is_told_with_the_lockfile(watcher: WatcherView, sight: Sight)
    requires
        watcher.wf(),
    ensures
        watcher.step(sight).0.wf(),
        watcher.step(sight).1 matches Some(Transition::Login(lockfile)) ==> {
            let after = watcher.step(sight).0;
            &&& after.lockfile == Some(lockfile)
            &&& spelled(after.last_content) is Some ==> spelled(after.last_content) == Some(
                lockfile,
            )
        },
{
    empty_content_spells_nothing();
}

/// New credentials log out whoever was logged in with the old ones.
pub proof fn new_credentials_log_out(watcher: WatcherView, content: Seq<char>)
    requires
        trimmed(content) != watcher.last_content,
        spelled(trimmed(content)) is Some,
    ensures
        ({
            let (after, transition) = watcher.step(Sight::Lockfile(Some(content)));
            &&& !after.logged_in
            &&& after.lockfile == spelled(trimmed(content))
            &&& transition is Some <==> watcher.logged_in
        }),
{
}

/// What the watcher of the game's process has to do.
#[derive(Debug, Clone, Copy, PartialEq, Eq, Structural)]
pub enum ProcessAction {
    /// Nothing.
    Wait,
    /// Read the lockfile, and tell that the game was opened.
    ReadLockfile,
    /// Tell that the game was closed.
    TellClosed,
}

/// Watches for the game's process.
#[derive(Debug, Clone, Copy, PartialEq, Eq, Structural)]
pub struct ProcessWatcher {
    pub valorant_was_running: bool,
}

proof fn game_runs_under_three_names(processes: Seq<String>)
    ensures
        runs(processes, VALORANT_PROCESS_NAMES@) <==> exists|i: int|
            0 <= i < processes.len() && ((#[trigger] processes[i])@
                == "VALORANT-Win64-Shipping.exe"@ || processes[i]@ == "VALORANT-Win64-Shipping"@
                || processes[i]@ == "VALORANT"@),
{
    let names = VALORANT_PROCESS_NAMES@;
    assert(names[0]@ == "VALORANT-Win64-Shipping.exe"@);
    assert(names[1]@ == "VALORANT-Win64-Shipping"@);
    assert(names[2]@ == "VALORANT"@);
    if runs(processes, names) {
        let (i, j) = choose|i: int, j: int|
            0 <= i < processes.len() && 0 <= j < names.len() && #[trigger] processes[i]@
                == #[trigger] names[j]@;
        assert(j == 0 || j == 1 || j == 2);
        assert(processes[i]@ == names[j]@);
    }
}

impl ProcessWatcher {
    pub fn new() -> (r: Self)
        ensures
            !r.valorant_was_running,
    {
        ProcessWatcher { valorant_was_running: false }
    }

    /// What follows from whether the game runs.
    pub open spec fn step(self, running: bool) -> (ProcessWatcher, ProcessAction) {
        (
            ProcessWatcher { valorant_was_running: running },
            if running && !self.valorant_was_running {
                ProcessAction::ReadLockfile
            } else if !running && self.valorant_was_running {
                ProcessAction::TellClosed
            } else {
                ProcessAction::Wait
            },
        )
    }

    /// What is done after a number of looks at the processes, in order.
    pub open spec fn done(self, looks: Seq<bool>) -> (ProcessWatcher, Seq<ProcessAction>)
        decreases looks.len(),
    {
        if looks.len() == 0 {
            (self, Seq::empty())
        } else {
            let (before, done) = self.done(looks.drop_last());
            let (after, action) = before.step(looks.last());
            if action == ProcessAction::Wait {
                (after, done)
            } else {
                (after, done.push(action))
            }
        }
    }

    /// Takes note of the processes that run.
    pub fn poll_once(&mut self, processes: &[String]) -> (action: ProcessAction)
        ensures
            (*final(self), action) == old(self).step(
                runs(processes@, VALORANT_PROCESS_NAMES@),
            ),
            final(self).valorant_was_running == exists|i: int|
                0 <= i < processes@.len() && ((#[trigger] processes@[i])@
                    == "VALORANT-Win64-Shipping.exe"@ || processes@[i]@
                    == "VALORANT-Win64-Shipping"@ || processes@[i]@ == "VALORANT"@),
    {
        let running = is_running(processes, &VALORANT_PROCESS_NAMES);
        proof {
            game_runs_under_three_names(processes@);
        }
        let action = if running && !self.valorant_was_running {
            ProcessAction::ReadLockfile
        } else if !running && self.valorant_was_running {
            ProcessAction::TellClosed
        } else {
            ProcessAction::Wait
        };
        self.valorant_was_running = running;
        action
    }
}

/// The game is told to be closed only after it was found open, and the other way
/// round: every second action of a new watcher is the one for a closed game.
pub proof fn openings_and_closings_alternate(watcher: ProcessWatcher, looks: Seq<bool>)
    requires
        !watcher.valorant_was_running,
    ensures
        ({
            let (after, done) = watcher.done(looks);
            &&& forall|i: int|
                0 <= i < done.len() ==> #[trigger] done[i] == if i % 2 == 0 {
                    ProcessAction::ReadLockfile
                } else {
                    ProcessAction::TellClosed
                }
            &&& after.valorant_was_running <==> done.len() % 2 == 1
        }),
    decreases looks.len(),
{
    if looks.len() > 0 {
        openings_and_closings_alternate(watcher, looks.drop_last());
    }
}

/// How often the lockfile is read before the game is passed over.
pub const LOCKFILE_RETRIES: u32 = 10;

/// The pause between two reads of the lockfile, in seconds.
pub const LOCKFILE_RETRY_SECS: u64 = 1;

/// What is to be done about a lockfile.
pub enum ReadAction {
    /// Read it.
    Read,
    /// Pause, and read it.
    PauseAndRead,
    /// It was read.
    Found(Lockfile),
    /// It cannot be read.
    GiveUp,
}

/// What comes of a read of the lockfile.
pub enum ReadOutcome {
    Found(LockfileView),
    Again,
    GiveUp,
}

/// The lockfile that was read, `None` where there is no content.
pub open spec fn readable(content: Option<Seq<char>>) -> Option<LockfileView> {
    match content {
        Some(content) => spelled(content),
        None => None,
    }
}

/// Reads of the lockfile: which one it is, and how many there may be.
#[derive(Debug, Clone, Copy, PartialEq, Eq, Structural)]
pub struct LockfileReads {
    pub attempt: u32,
    pub retries: u32,
}

impl LockfileReads {
    /// What follows a read.
    pub open spec fn step(self, content: Option<Seq<char>>) -> (LockfileReads, ReadOutcome) {
        match readable(content) {
            Some(lockfile) => (self, ReadOutcome::Found(lockfile)),
            None => if self.attempt < self.retries {
                (
                    LockfileReads { attempt: (self.attempt + 1) as u32, ..self },
                    ReadOutcome::Again,
                )
            } else {
                (self, ReadOutcome::GiveUp)
            },
        }
    }

    /// The reads after the first `contents`, none of which was readable.
    pub open spec fn after(self, contents: Seq<Option<Seq<char>>>) -> LockfileReads
        decreases contents.len(),
    {
        if contents.len() == 0 {
            self
        } else {
            self.after(contents.drop_last()).step(contents.last()).0
        }
    }

    /// The first read, if there may be one.
    pub fn start(retries: u32) -> (r: (LockfileReads, ReadAction))
        ensures
            r.0 == (LockfileReads { attempt: 1, retries }),
            r.1 == if retries == 0 {
                ReadAction::GiveUp
            } else {
                ReadAction::Read
            },
    {
        let reads = LockfileReads { attempt: 1, retries };
        if retries == 0 {
            (reads, ReadAction::GiveUp)
        } else {
            (reads, ReadAction::Read)
        }
    }

    /// Takes note of what a read gave, `None` where the file is not there or
    /// cannot be read.
    pub fn read_lockfile_with_retry(&mut self, content: Option<&str>) -> (action: ReadAction)
        ensures
            ({
                let seen = match content {
                    Some(content) => Some(content@),
                    None => None,
                };
                let (next, outcome) = old(self).step(seen);
                &&& *final(self) == next
                &&& match outcome {
                    ReadOutcome::Found(found) => action matches ReadAction::Found(lockfile)
                        && lockfile@ == found,
                    ReadOutcome::Again => action is PauseAndRead,
                    ReadOutcome::GiveUp => action is GiveUp,
                }
            }),
    {
        if let Some(content) = content {
            if let Ok(lockfile) = Lockfile::parse(content) {
                return ReadAction::Found(lockfile);
            }
        }
        if self.attempt < self.retries {
            self.attempt = self.attempt + 1;
            ReadAction::PauseAndRead
        } else {
            ReadAction::GiveUp
        }
    }
}

/// The first lockfile that can be read is taken; otherwise it is read again
/// until it was read as often as it may be, and no more.
pub proof fn first_readable_lockfile_is_taken(
    retries: u32,
    contents: Seq<Option<Seq<char>>>,
    content: Option<Seq<char>>,
)
    requires
        contents.len() < retries,
        forall|i: int| 0 <= i < contents.len() ==> readable(#[trigger] contents[i]) is None,
    ensures
        (LockfileReads { attempt: 1, retries }).after(contents).step(content).1 == match readable(
            content,
        ) {
            Some(lockfile) => ReadOutcome::Found(lockfile),
            None => if contents.len() + 1 < retries {
                ReadOutcome::Again
            } else {
                ReadOutcome::GiveUp
            },
        },
        (LockfileReads { attempt: 1, retries }).after(contents).attempt == contents.len() + 1,
        (LockfileReads { attempt: 1, retries }).after(contents).retries == retries,
    decreases contents.len(),
{
    if contents.len() > 0 {
        first_readable_lockfile_is_taken(retries, contents.drop_last(), contents.last());
        assert(readable(contents.last()) is None);
    }
}

/// Somebody is found to be logged in when the local API says so and nobody was
/// before, and to be logged out when it does not and somebody was; otherwise
/// there is nothing to tell. Neither touches the lockfile.
pub proof fn authorization_decides_the_login(watcher: WatcherView, lockfile: LockfileView)
    requires
        watcher.lockfile == Some(lockfile),
    ensures
        ({
            let (yes, told_yes) = watcher.step(Sight::Authorization(true));
            let (no, told_no) = watcher.step(Sight::Authorization(false));
            &&& yes == (WatcherView { logged_in: true, ..watcher })
            &&& no == (WatcherView { logged_in: false, ..watcher })
            &&& told_yes == if watcher.logged_in {
                None
            } else {
                Some(Transition::Login(lockfile))
            }
            &&& told_no == if watcher.logged_in {
                Some(Transition::Logout)
            } else {
                None
            }
        }),
{
}

/// Without a lockfile nobody is logged in, and whoever was is told to be gone; the
/// watcher starts anew, and asks nobody.
pub proof fn missing_lockfile_logs_out(watcher: WatcherView)
    ensures
        ({
            let (after, transition) = watcher.step(Sight::Lockfile(None));
            &&& !after.logged_in
            &&& after.lockfile is None
            &&& after.last_content.len() == 0
            &&& transition == if watcher.logged_in {
                Some(Transition::Logout)
            } else {
                None
            }
        }),
        !watcher.asks(None),
{
}

/// A lockfile that is as it was changes nothing. One that is new and spells
/// nothing is remembered and otherwise passed over. One that is new and spells
/// credentials is taken over, and whoever was logged in is logged out. White
/// space around it makes no difference.
pub proof fn lockfile_is_taken_over_when_it_changes(watcher: WatcherView, content: Seq<char>)
    ensures
        ({
            let (after, transition) = watcher.step(Sight::Lockfile(Some(content)));
            let text = trimmed(content);
            &&& after.last_content == text
            &&& text == watcher.last_content ==> after == watcher && transition is None
            &&& text != watcher.last_content && spelled(text) is None ==> {
                &&& after.lockfile == watcher.lockfile
                &&& after.logged_in == watcher.logged_in
                &&& transition is None
                &&& !watcher.asks(Some(content))
            }
            &&& text != watcher.last_content && spelled(text) is Some ==> {
                &&& after.lockfile == spelled(text)
                &&& !after.logged_in
                &&& transition == if watcher.logged_in {
                    Some(Transition::Logout)
                } else {
                    None
                }
                &&& watcher.asks(Some(content))
            }
            &&& text == watcher.last_content ==> (watcher.asks(Some(content))
                <==> watcher.lockfile is Some)
        }),
{
}

/// An event tells of a transition: of a login with its lockfile, of a logout
/// without one.
pub proof fn events_tell_of_transitions(event: Option<Event>, transition: Option<Transition>)
    requires
        tells(event, transition),
    ensures
        transition is None <==> event is None,
        transition matches Some(Transition::Login(found)) ==> event matches Some(
            Event::RsoLogin(lockfile),
        ) && lockfile@ == found,
        transition == Some(Transition::Logout) ==> event == Some(Event::RsoLogout),
{
}

/// The local API is asked for the authorization with the lockfile's credentials.
pub proof fn authorization_is_asked_for(request: HttpRequest, lockfile: LockfileView)
    requires
        asks_for_authorization(request, lockfile),
    ensures
        request.method == Method::Get,
        request.url@ == lockfile.protocol + "://127.0.0.1:"@ + decimal(lockfile.port as nat)
            + "/rso-auth/v1/authorization"@,
        request.header_texts() == seq![
            (
                "Authorization"@,
                "Basic "@ + base64_encoded(encode_utf8("riot:"@ + lockfile.password)),
            ),
        ],
        request.body is None,
{
}

/// The game is found open when it runs and did not before, and closed when it
/// ran before and does not: the watcher always knows what it saw last.
pub proof fn change_of_the_process_is_noticed(watcher: ProcessWatcher, running: bool)
    ensures
        ({
            let (after, action) = watcher.step(running);
            &&& after.valorant_was_running == running
            &&& action == ProcessAction::ReadLockfile <==> running && !watcher.valorant_was_running
            &&& action == ProcessAction::TellClosed <==> !running && watcher.valorant_was_running
        }),
{
}

/// A process is one of those looked for where it has exactly one of the names.
pub proof fn processes_run_under_their_names(processes: Seq<String>, names: Seq<&'static str>)
    ensures
        runs(processes, names) <==> exists|i: int, j: int|
            0 <= i < processes.len() && 0 <= j < names.len() && #[trigger] processes[i]@
                == #[trigger] names[j]@,
        processes.len() == 0 ==> !runs(processes, names),
{
}

/// A lockfile can be read where there is content and it spells one.
pub proof fn readable_content_spells_a_lockfile(content: Seq<char>)
    ensures
        readable(Some(content)) == spelled(content),
        readable(None) is None,
{
}

} // verus!
