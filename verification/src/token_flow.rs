//! How tokens are obtained and kept alive. Each flow is a step from what is
//! held and what has happened to what is held then and what is to be done.

use vstd::prelude::*;

use crate::backend::Backend;
use crate::backend::BackendAuthError;
use crate::backend::LoginProof;
use crate::backend::TokenPair;
use crate::backend::Tokens;
use crate::text::same;

verus! {

/// What a request for a token came to.
pub type Reply = Result<TokenPair, BackendAuthError>;

/// What happens while the program's token is obtained.
pub enum AppTokenEvent {
    /// The token is asked for.
    Asked { now: i64 },
    /// The stored token was looked for.
    Loaded { stored: Option<TokenPair>, now: i64 },
    /// The stored token was sent to be renewed.
    Refreshed(Reply),
    /// The user was asked to log in; `None` where that failed.
    Proved(Option<LoginProof>),
    /// The login was sent.
    LoggedIn(Reply),
    /// What is to be stored was written.
    Saved,
}

/// What is to be done to obtain the program's token.
pub enum AppTokenAction {
    /// Look for a stored token.
    Load,
    /// Renew a token.
    Refresh { refresh_token: String },
    /// Have the user log in.
    Prove,
    /// Send the login.
    Login { hwid: String, login: LoginProof },
    /// Write what is to be stored.
    Save,
    /// Nothing; says whether a token is held.
    Finish(bool),
}

/// One step towards the program's token.
pub open spec fn app_token_step(backend: Backend, event: AppTokenEvent) -> (
    Backend,
    AppTokenAction,
) {
    match event {
        AppTokenEvent::Asked { now } => match backend.tokens.app {
            Some(app) if !app.refresh_over(now as int) => (backend, AppTokenAction::Finish(true)),
            _ => (backend, AppTokenAction::Load),
        },
        AppTokenEvent::Loaded { stored, now } => match stored {
            Some(app) if !app.refresh_over(now as int) => (
                backend,
                AppTokenAction::Refresh { refresh_token: app.refresh_token },
            ),
            _ => (backend, AppTokenAction::Prove),
        },
        AppTokenEvent::Refreshed(Ok(pair)) => (
            Backend { tokens: Tokens { app: Some(pair), ..backend.tokens }, ..backend },
            AppTokenAction::Save,
        ),
        AppTokenEvent::Refreshed(Err(e)) => if e.dead_token() {
            (backend, AppTokenAction::Prove)
        } else {
            (backend, AppTokenAction::Finish(false))
        },
        AppTokenEvent::Proved(login) => match (login, backend.hwid) {
            (Some(login), Some(hwid)) => (backend, AppTokenAction::Login { hwid, login }),
            _ => (backend, AppTokenAction::Finish(false)),
        },
        AppTokenEvent::LoggedIn(Ok(pair)) => (
            Backend {
                tokens: Tokens { app: Some(pair), ..backend.tokens.without_game() },
                ..backend
            },
            AppTokenAction::Save,
        ),
        AppTokenEvent::LoggedIn(Err(_)) => (backend, AppTokenAction::Finish(false)),
        AppTokenEvent::Saved => (backend, AppTokenAction::Finish(true)),
    }
}

/// Whether an event is what comes of an action.
pub open spec fn app_token_answers(action: AppTokenAction, event: AppTokenEvent) -> bool {
    match action {
        AppTokenAction::Load => event is Loaded,
        AppTokenAction::Refresh { .. } => event is Refreshed,
        AppTokenAction::Prove => event is Proved,
        AppTokenAction::Login { .. } => event is LoggedIn,
        AppTokenAction::Save => event is Saved,
        AppTokenAction::Finish(_) => false,
    }
}

/// How many steps can still follow an action.
pub open spec fn app_token_steps_left(action: AppTokenAction) -> nat {
    match action {
        AppTokenAction::Load => 5,
        AppTokenAction::Refresh { .. } => 4,
        AppTokenAction::Prove => 3,
        AppTokenAction::Login { .. } => 2,
        AppTokenAction::Save => 1,
        AppTokenAction::Finish(_) => 0,
    }
}

/// What is held after a run of events.
pub open spec fn app_token_held(backend: Backend, events: Seq<AppTokenEvent>) -> Backend
    decreases events.len(),
{
    if events.len() == 0 {
        backend
    } else {
        app_token_step(app_token_held(backend, events.drop_last()), events.last()).0
    }
}

/// What is to be done after a run of events.
pub open spec fn app_token_done(backend: Backend, events: Seq<AppTokenEvent>) -> AppTokenAction {
    app_token_step(app_token_held(backend, events.drop_last()), events.last()).1
}

/// Whether events form a run: the token is asked for, and then each event is
/// what comes of the action before it.
pub open spec fn app_token_run(backend: Backend, events: Seq<AppTokenEvent>) -> bool
    decreases events.len(),
{
    if events.len() <= 1 {
        events.len() == 1 && events[0] is Asked
    } else {
        app_token_run(backend, events.drop_last()) && app_token_answers(
            app_token_done(backend, events.drop_last()),
            events.last(),
        )
    }
}

/// A run that ends well leaves a token of the program held; one that ends
/// badly leaves everything as it was. No run takes more than six steps.
pub proof fn app_token_run_outcome(backend: Backend, events: Seq<AppTokenEvent>)
    requires
        app_token_run(backend, events),
    ensures
        events.len() + app_token_steps_left(app_token_done(backend, events)) <= 6,
        app_token_done(backend, events) is Save ==> app_token_held(backend, events).tokens.app
            is Some,
        app_token_done(backend, events) == AppTokenAction::Finish(true) ==> app_token_held(
            backend,
            events,
        ).tokens.app is Some,
        !(app_token_done(backend, events) is Save || app_token_done(backend, events)
            == AppTokenAction::Finish(true)) ==> app_token_held(backend, events) == backend,
    decreases events.len(),
{
    if events.len() > 1 {
        app_token_run_outcome(backend, events.drop_last());
    } else {
        assert(app_token_held(backend, events.drop_last()) == backend);
    }
}

/// A refresh that fails for a passing reason ends the run without asking the
/// user to log in; one that fails for good asks.
pub proof fn transient_failure_does_not_ask_for_login(backend: Backend, e: BackendAuthError)
    ensures
        app_token_step(backend, AppTokenEvent::Refreshed(Err(e))).1 == if e.dead_token() {
            AppTokenAction::Prove
        } else {
            AppTokenAction::Finish(false)
        },
{
}

/// A fresh login leaves no game token of an earlier one.
pub proof fn login_drops_game_token(backend: Backend, pair: TokenPair)
    ensures
        app_token_step(backend, AppTokenEvent::LoggedIn(Ok(pair))).0.submission_headers() is None,
        app_token_step(backend, AppTokenEvent::LoggedIn(Ok(pair))).0.tokens.app == Some(pair),
{
}

impl Backend {
    /// One step towards the program's token.
    pub fn ensure_app_token(&mut self, event: AppTokenEvent) -> (action: AppTokenAction)
        ensures
            (*final(self), action) == app_token_step(*old(self), event),
    {
        match event {
            AppTokenEvent::Asked { now } => {
                if let Some(app) = &self.tokens.app {
                    if !app.is_refresh_expired(now) {
                        return AppTokenAction::Finish(true);
                    }
                }
                AppTokenAction::Load
            },
            AppTokenEvent::Loaded { stored, now } => {
                if let Some(app) = stored {
                    if !app.is_refresh_expired(now) {
                        return AppTokenAction::Refresh { refresh_token: app.refresh_token };
                    }
                }
                AppTokenAction::Prove
            },
            AppTokenEvent::Refreshed(Ok(pair)) => {
                self.tokens.app = Some(pair);
                AppTokenAction::Save
            },
            AppTokenEvent::Refreshed(Err(e)) => {
                if e.is_dead_token() {
                    AppTokenAction::Prove
                } else {
                    AppTokenAction::Finish(false)
                }
            },
            AppTokenEvent::Proved(login) => {
                match (login, &self.hwid) {
                    (Some(login), Some(hwid)) => AppTokenAction::Login {
                        hwid: hwid.clone(),
                        login,
                    },
                    _ => AppTokenAction::Finish(false),
                }
            },
            AppTokenEvent::LoggedIn(Ok(pair)) => {
                self.tokens.app = Some(pair);
                self.clear_game_token();
                AppTokenAction::Save
            },
            AppTokenEvent::LoggedIn(Err(_)) => AppTokenAction::Finish(false),
            AppTokenEvent::Saved => AppTokenAction::Finish(true),
        }
    }
}

/// What happens while a game token is obtained.
pub enum GameTokenEvent {
    /// The token is asked for.
    Asked { now: i64 },
    /// The token that is held was sent to be renewed.
    Refreshed(Reply),
    /// A new token was asked for.
    Minted(Reply),
    /// What is to be stored was written.
    Saved,
}

/// What is to be done to obtain a game token.
pub enum GameTokenAction {
    /// Renew the token that is held.
    Refresh { refresh_token: String },
    /// Ask for a new token.
    Mint { app_access: String, puuid: String, shard: String },
    /// Write what is to be stored.
    Save,
    /// Nothing; says whether a token is held.
    Finish(bool),
}

/// The account that a game token is asked for, and the access token of the
/// program, as it was when the game token was asked for.
pub struct GameTokenFlow {
    pub puuid: String,
    pub shard: String,
    pub app_access: Option<String>,
}

impl GameTokenFlow {
    /// Asks for a new token, where the program holds one of its own.
    pub open spec fn mint(self) -> GameTokenAction {
        match self.app_access {
            Some(app_access) => GameTokenAction::Mint {
                app_access,
                puuid: self.puuid,
                shard: self.shard,
            },
            None => GameTokenAction::Finish(false),
        }
    }
}

/// Whether the game token that is held can be renewed for an account.
pub open spec fn game_token_renewable(
    tokens: Tokens,
    puuid: Seq<char>,
    shard: Seq<char>,
    now: int,
) -> bool {
    tokens.game is Some && tokens.bound_to(puuid, shard) && !tokens.game->0.refresh_over(now)
}

/// One step towards a game token.
pub open spec fn game_token_step(flow: GameTokenFlow, backend: Backend, event: GameTokenEvent) -> (
    GameTokenFlow,
    Backend,
    GameTokenAction,
) {
    match event {
        GameTokenEvent::Asked { now } => match backend.tokens.app {
            Some(app) => {
                let flow = GameTokenFlow { app_access: Some(app.access_token), ..flow };
                if game_token_renewable(backend.tokens, flow.puuid@, flow.shard@, now as int) {
                    (
                        flow,
                        backend,
                        GameTokenAction::Refresh {
                            refresh_token: backend.tokens.game->0.refresh_token,
                        },
                    )
                } else {
                    (flow, backend, flow.mint())
                }
            },
            None => (
                GameTokenFlow { app_access: None, ..flow },
                backend,
                GameTokenAction::Finish(false),
            ),
        },
        GameTokenEvent::Refreshed(Ok(pair)) => (
            flow,
            Backend { tokens: Tokens { game: Some(pair), ..backend.tokens }, ..backend },
            GameTokenAction::Save,
        ),
        GameTokenEvent::Refreshed(Err(_)) => (
            flow,
            Backend { tokens: Tokens { game: None, ..backend.tokens }, ..backend },
            flow.mint(),
        ),
        GameTokenEvent::Minted(Ok(pair)) => (
            flow,
            Backend {
                tokens: Tokens {
                    app: backend.tokens.app,
                    game: Some(pair),
                    bound_puuid: Some(flow.puuid),
                    bound_shard: Some(flow.shard),
                },
                ..backend
            },
            GameTokenAction::Save,
        ),
        GameTokenEvent::Minted(Err(_)) => (
            flow,
            Backend { tokens: backend.tokens.without_game(), ..backend },
            GameTokenAction::Finish(false),
        ),
        GameTokenEvent::Saved => (flow, backend, GameTokenAction::Finish(true)),
    }
}

impl GameTokenFlow {
    pub fn new(puuid: &str, shard: &str) -> (r: Self)
        ensures
            r.puuid@ == puuid@,
            r.shard@ == shard@,
            r.app_access is None,
    {
        GameTokenFlow { puuid: puuid.to_owned(), shard: shard.to_owned(), app_access: None }
    }

    fn mint_action(&self) -> (r: GameTokenAction)
        ensures
            r == self.mint(),
    {
        match &self.app_access {
            Some(app_access) => GameTokenAction::Mint {
                app_access: app_access.clone(),
                puuid: self.puuid.clone(),
                shard: self.shard.clone(),
            },
            None => GameTokenAction::Finish(false),
        }
    }
}

fn can_refresh(tokens: &Tokens, puuid: &str, shard: &str, now: i64) -> (r: bool)
    ensures
        r == game_token_renewable(*tokens, puuid@, shard@, now as int),
{
    match (&tokens.game, &tokens.bound_puuid, &tokens.bound_shard) {
        (Some(game), Some(p), Some(s)) => same(p.as_str(), puuid) && same(s.as_str(), shard)
            && !game.is_refresh_expired(now),
        _ => false,
    }
}

impl Backend {
    /// One step towards a game token.
    pub fn ensure_game_token(&mut self, flow: &mut GameTokenFlow, event: GameTokenEvent) -> (action:
        GameTokenAction)
        ensures
            (*final(flow), *final(self), action) == game_token_step(*old(flow), *old(self), event),
    {
        match event {
            GameTokenEvent::Asked { now } => {
                flow.app_access = self.app_access_token();
                if flow.app_access.is_none() {
                    return GameTokenAction::Finish(false);
                }
                if can_refresh(&self.tokens, flow.puuid.as_str(), flow.shard.as_str(), now) {
                    if let Some(game) = &self.tokens.game {
                        return GameTokenAction::Refresh {
                            refresh_token: game.refresh_token.clone(),
                        };
                    }
                }
                flow.mint_action()
            },
            GameTokenEvent::Refreshed(Ok(pair)) => {
                self.tokens.game = Some(pair);
                GameTokenAction::Save
            },
            GameTokenEvent::Refreshed(Err(_)) => {
                self.tokens.game = None;
                flow.mint_action()
            },
            GameTokenEvent::Minted(Ok(pair)) => {
                self.tokens.game = Some(pair);
                self.tokens.bound_puuid = Some(flow.puuid.clone());
                self.tokens.bound_shard = Some(flow.shard.clone());
                GameTokenAction::Save
            },
            GameTokenEvent::Minted(Err(_)) => {
                self.clear_game_token();
                GameTokenAction::Finish(false)
            },
            GameTokenEvent::Saved => GameTokenAction::Finish(true),
        }
    }
}

/// Whether an event is what comes of an action.
pub open spec fn game_token_answers(action: GameTokenAction, event: GameTokenEvent) -> bool {
    match action {
        GameTokenAction::Refresh { .. } => event is Refreshed,
        GameTokenAction::Mint { .. } => event is Minted,
        GameTokenAction::Save => event is Saved,
        GameTokenAction::Finish(_) => false,
    }
}

/// How many steps can still follow an action.
pub open spec fn game_token_steps_left(action: GameTokenAction) -> nat {
    match action {
        GameTokenAction::Refresh { .. } => 3,
        GameTokenAction::Mint { .. } => 2,
        GameTokenAction::Save => 1,
        GameTokenAction::Finish(_) => 0,
    }
}

/// The flow and what is held after a run of events.
pub open spec fn game_token_held(
    flow: GameTokenFlow,
    backend: Backend,
    events: Seq<GameTokenEvent>,
) -> (GameTokenFlow, Backend)
    decreases events.len(),
{
    if events.len() == 0 {
        (flow, backend)
    } else {
        let before = game_token_held(flow, backend, events.drop_last());
        let after = game_token_step(before.0, before.1, events.last());
        (after.0, after.1)
    }
}

/// What is to be done after a run of events.
pub open spec fn game_token_done(
    flow: GameTokenFlow,
    backend: Backend,
    events: Seq<GameTokenEvent>,
) -> GameTokenAction {
    let before = game_token_held(flow, backend, events.drop_last());
    game_token_step(before.0, before.1, events.last()).2
}

/// Whether events form a run: the token is asked for, and then each event is
/// what comes of the action before it.
pub open spec fn game_token_run(
    flow: GameTokenFlow,
    backend: Backend,
    events: Seq<GameTokenEvent>,
) -> bool
    decreases events.len(),
{
    if events.len() <= 1 {
        events.len() == 1 && events[0] is Asked
    } else {
        game_token_run(flow, backend, events.drop_last()) && game_token_answers(
            game_token_done(flow, backend, events.drop_last()),
            events.last(),
        )
    }
}

/// A run that ends well leaves a game token held that is bound to the account
/// asked for, so that submissions are made for it. One that ends badly where
/// the program holds a token leaves none, so that submissions are skipped. The
/// program's own token is never touched, and no run takes more than four steps.
pub proof fn game_token_run_outcome(
    flow: GameTokenFlow,
    backend: Backend,
    events: Seq<GameTokenEvent>,
)
    requires
        game_token_run(flow, backend, events),
    ensures
        events.len() + game_token_steps_left(game_token_done(flow, backend, events)) <= 4,
        ({
            let held = game_token_held(flow, backend, events).1;
            let done = game_token_done(flow, backend, events);
            &&& held.tokens.app == backend.tokens.app
            &&& held.base_url == backend.base_url
            &&& held.hwid == backend.hwid
            &&& (done == GameTokenAction::Finish(true) || done is Save) ==> {
                &&& held.tokens.game is Some
                &&& held.tokens.bound_to(flow.puuid@, flow.shard@)
                &&& held.submission_headers() is Some
            }
            &&& done == GameTokenAction::Finish(false) ==> if backend.tokens.app is Some {
                held.submission_headers() is None
            } else {
                held == backend
            }
        }),
{
    game_token_run_kept(flow, backend, events);
}

proof fn game_token_run_kept(flow: GameTokenFlow, backend: Backend, events: Seq<GameTokenEvent>)
    requires
        game_token_run(flow, backend, events),
    ensures
        events.len() + game_token_steps_left(game_token_done(flow, backend, events)) <= 4,
        ({
            let after = game_token_held(flow, backend, events);
            let held = after.1;
            let done = game_token_done(flow, backend, events);
            &&& after.0.puuid == flow.puuid
            &&& after.0.shard == flow.shard
            &&& after.0.app_access is Some <==> backend.tokens.app is Some
            &&& held.tokens.app == backend.tokens.app
            &&& held.base_url == backend.base_url
            &&& held.hwid == backend.hwid
            &&& done is Refresh ==> held.tokens.bound_to(flow.puuid@, flow.shard@)
            &&& done is Refresh || done is Mint ==> backend.tokens.app is Some
            &&& (done == GameTokenAction::Finish(true) || done is Save) ==> held.tokens.game is Some
                && held.tokens.bound_to(flow.puuid@, flow.shard@)
            &&& done == GameTokenAction::Finish(false) ==> if backend.tokens.app is Some {
                held.submission_headers() is None
            } else {
                held == backend
            }
        }),
    decreases events.len(),
{
    if events.len() > 1 {
        game_token_run_kept(flow, backend, events.drop_last());
    } else {
        assert(game_token_held(flow, backend, events.drop_last()) == (flow, backend));
    }
}

/// Time to wait, in whole seconds and milliseconds.
#[derive(Debug, Clone, Copy)]
pub struct Pause {
    pub secs: u64,
    pub millis: u32,
}

impl Pause {
    pub open spec fn total_millis(self) -> int {
        self.secs * 1000 + self.millis
    }
}

/// Three quarters of the time that is left, and half a minute at least, in
/// milliseconds.
pub open spec fn refresh_delay(secs_left: int) -> int {
    if secs_left * 750 < 30_000 {
        30_000
    } else {
        secs_left * 750
    }
}

/// How long to wait with the refresh of a token that has `secs_left` to live.
pub fn pause_before_refresh(secs_left: i128) -> (pause: Pause)
    requires
        secs_left <= 0x1_0000_0000_0000_0000,
    ensures
        pause.total_millis() == refresh_delay(secs_left as int),
        pause.millis < 1000,
        pause.secs * 1000 + pause.millis == if secs_left <= 40 {
            30_000
        } else {
            750 * secs_left
        },
{
    if secs_left < 40 {
        Pause { secs: 30, millis: 0 }
    } else {
        let quarters: i128 = secs_left * 3;
        Pause { secs: (quarters / 4) as u64, millis: ((quarters % 4) * 250) as u32 }
    }
}

/// What happens while tokens are kept alive.
pub enum RefreshEvent {
    /// The next refresh is to be planned.
    Woken { now: i64 },
    /// The time before a refresh has passed.
    Slept { refresh_app: bool },
    /// A token was sent to be renewed.
    Refreshed { refresh_app: bool, reply: Reply },
    /// What is to be stored was written.
    Saved,
    /// The time of a rest has passed.
    Rested,
}

/// What is to be done to keep tokens alive.
pub enum RefreshAction {
    /// Wait until a token is due.
    Sleep { pause: Pause, refresh_app: bool },
    /// Renew a token.
    Refresh { refresh_app: bool, refresh_token: String },
    /// Write what is to be stored.
    Save,
    /// Wait after a failure, or for a token to keep alive.
    Rest { secs: u64 },
    /// Plan the next refresh.
    Plan,
}

/// The pause after a refresh that failed, and while there is nothing to keep
/// alive, in seconds.
pub const REFRESH_REST_SECS: u64 = 60;

/// Whether the program's token is due no later than the game token.
pub open spec fn app_is_due_first(app: TokenPair, game: Option<TokenPair>) -> bool {
    match game {
        Some(game) => app.access_token_expires_at <= game.access_token_expires_at,
        None => true,
    }
}

/// The time that the token which is due first can still be used.
pub open spec fn due_first_left(app: TokenPair, game: Option<TokenPair>, now: int) -> int {
    if app_is_due_first(app, game) {
        app.access_left(now)
    } else {
        game->0.access_left(now)
    }
}

/// Whether `action`, with what is held then, is what keeping tokens alive asks
/// for after `event`.
pub open spec fn refresh_step(
    before: Backend,
    event: RefreshEvent,
    after: Backend,
    action: RefreshAction,
) -> bool {
    match event {
        RefreshEvent::Woken { now } => after == before && match before.tokens.app {
            Some(app) => {
                &&& action matches RefreshAction::Sleep { pause, refresh_app }
                &&& refresh_app == app_is_due_first(app, before.tokens.game)
                &&& pause.millis < 1000
                &&& pause.total_millis() == refresh_delay(
                    due_first_left(app, before.tokens.game, now as int),
                )
            },
            None => action == (RefreshAction::Rest { secs: REFRESH_REST_SECS }),
        },
        RefreshEvent::Slept { refresh_app } => after == before && action == match (
            if refresh_app {
                before.tokens.app
            } else {
                before.tokens.game
            }
        ) {
            Some(pair) => RefreshAction::Refresh { refresh_app, refresh_token: pair.refresh_token },
            None => if refresh_app {
                RefreshAction::Rest { secs: REFRESH_REST_SECS }
            } else {
                RefreshAction::Plan
            },
        },
        RefreshEvent::Refreshed { refresh_app, reply: Ok(pair) } => {
            &&& action == RefreshAction::Save
            &&& after == (Backend {
                tokens: if refresh_app {
                    Tokens { app: Some(pair), ..before.tokens }
                } else {
                    Tokens { game: Some(pair), ..before.tokens }
                },
                ..before
            })
        },
        RefreshEvent::Refreshed { refresh_app, reply: Err(e) } => if e.dead_token() {
            &&& action == (RefreshAction::Rest { secs: REFRESH_REST_SECS })
            &&& after == (Backend {
                tokens: Tokens { app: None, game: None, ..before.tokens },
                ..before
            })
        } else {
            after == before && action == (RefreshAction::Rest { secs: REFRESH_REST_SECS })
        },
        RefreshEvent::Saved => after == before && action == RefreshAction::Plan,
        RefreshEvent::Rested => after == before && action == RefreshAction::Plan,
    }
}

impl Backend {
    /// One step of keeping tokens alive. There is always a next one: while no
    /// token is held, the flow rests and looks again.
    pub fn proactive_refresh_loop(&mut self, event: RefreshEvent) -> (action: RefreshAction)
        ensures
            refresh_step(*old(self), event, *final(self), action),
    {
        match event {
            RefreshEvent::Woken { now } => {
                let (left, refresh_app): (i128, bool) = match (&self.tokens.app, &self.tokens.game) {
                    (None, _) => {
                        return RefreshAction::Rest { secs: REFRESH_REST_SECS };
                    },
                    (Some(app), None) => (app.access_expires_in(now), true),
                    (Some(app), Some(game)) => {
                        let app_left = app.access_expires_in(now);
                        let game_left = game.access_expires_in(now);
                        if app_left <= game_left {
                            (app_left, true)
                        } else {
                            (game_left, false)
                        }
                    },
                };
                RefreshAction::Sleep { pause: pause_before_refresh(left), refresh_app }
            },
            RefreshEvent::Slept { refresh_app } => {
                let due = if refresh_app {
                    &self.tokens.app
                } else {
                    &self.tokens.game
                };
                match due {
                    Some(pair) => RefreshAction::Refresh {
                        refresh_app,
                        refresh_token: pair.refresh_token.clone(),
                    },
                    None => if refresh_app {
                        RefreshAction::Rest { secs: REFRESH_REST_SECS }
                    } else {
                        RefreshAction::Plan
                    },
                }
            },
            RefreshEvent::Refreshed { refresh_app, reply } => {
                match reply {
                    Ok(pair) => {
                        if refresh_app {
                            self.tokens.app = Some(pair);
                        } else {
                            self.tokens.game = Some(pair);
                        }
                        RefreshAction::Save
                    },
                    Err(e) => if e.is_dead_token() {
                        self.tokens.app = None;
                        self.tokens.game = None;
                        RefreshAction::Rest { secs: REFRESH_REST_SECS }
                    } else {
                        RefreshAction::Rest { secs: REFRESH_REST_SECS }
                    },
                }
            },
            RefreshEvent::Saved => RefreshAction::Plan,
            RefreshEvent::Rested => RefreshAction::Plan,
        }
    }
}

/// No refresh is planned sooner than half a minute ahead, so that an expired
/// token does not make the flow spin; and one that is planned ahead of that
/// falls within the token's life.
pub proof fn refresh_is_planned_in_time(secs_left: int)
    ensures
        refresh_delay(secs_left) >= 30_000,
        secs_left >= 40 ==> refresh_delay(secs_left) == secs_left * 750,
        secs_left > 30 ==> refresh_delay(secs_left) < secs_left * 1000,
{
}

/// Whether an event is what comes of an action.
pub open spec fn refresh_answers(action: RefreshAction, event: RefreshEvent) -> bool {
    match action {
        RefreshAction::Sleep { refresh_app, .. } => event == (RefreshEvent::Slept { refresh_app }),
        RefreshAction::Refresh { refresh_app, .. } => event matches RefreshEvent::Refreshed {
            refresh_app: asked,
            ..
        } && asked == refresh_app,
        RefreshAction::Save => event == RefreshEvent::Saved,
        RefreshAction::Rest { .. } => event == RefreshEvent::Rested,
        RefreshAction::Plan => event is Woken,
    }
}

/// Keeping tokens alive never ends: whatever is held and whatever happened,
/// there is something to do, and what comes of it leads to the next step. Each
/// pause that this takes lasts half a minute at least.
pub proof fn refreshing_never_ends(
    before: Backend,
    event: RefreshEvent,
    after: Backend,
    action: RefreshAction,
)
    requires
        refresh_step(before, event, after, action),
    ensures
        exists|next: RefreshEvent| #[trigger] refresh_answers(action, next),
        action matches RefreshAction::Sleep { pause, .. } ==> pause.total_millis() >= 30_000,
        action matches RefreshAction::Rest { secs } ==> secs >= 30,
        event is Woken ==> action is Sleep || action is Rest,
{
    match action {
        RefreshAction::Sleep { refresh_app, .. } => {
            assert(refresh_answers(action, RefreshEvent::Slept { refresh_app }));
        },
        RefreshAction::Refresh { refresh_app, .. } => {
            let reply = Err(BackendAuthError { status_code: None, error_code: None });
            assert(refresh_answers(action, RefreshEvent::Refreshed { refresh_app, reply }));
        },
        RefreshAction::Save => {
            assert(refresh_answers(action, RefreshEvent::Saved));
        },
        RefreshAction::Rest { .. } => {
            assert(refresh_answers(action, RefreshEvent::Rested));
        },
        RefreshAction::Plan => {
            assert(refresh_answers(action, RefreshEvent::Woken { now: 0 }));
        },
    }
}

/// After a token turned out to be dead no token is held, so that nothing is
/// submitted. The flow rests and looks again, without asking the server, until
/// a token is held, whatever else is then; with it a refresh is planned.
pub proof fn dead_token_is_rested_on(
    before: Backend,
    refresh_app: bool,
    e: BackendAuthError,
    after: Backend,
    action: RefreshAction,
    now: i64,
    then: Backend,
    later: Backend,
    next: RefreshAction,
)
    requires
        e.dead_token(),
        refresh_step(before, RefreshEvent::Refreshed { refresh_app, reply: Err(e) }, after, action),
        refresh_step(then, RefreshEvent::Woken { now }, later, next),
    ensures
        after.tokens.app is None,
        after.tokens.game is None,
        after.submission_headers() is None,
        action is Rest,
        later == then,
        then.tokens.app is None ==> next is Rest,
        then.tokens.app is Some ==> next is Sleep,
        forall|b: Backend, a: RefreshAction|
            #![trigger refresh_step(after, RefreshEvent::Rested, b, a)]
            refresh_step(after, RefreshEvent::Rested, b, a) ==> b == after && a
                == RefreshAction::Plan,
{
}

/// The access token that is chosen for renewal expires no later than any other
/// that is held, and is the program's on a tie. The pause takes three quarters
/// of what is left of its life, and half a minute at least.
pub proof fn token_due_first_is_planned(
    before: Backend,
    now: i64,
    after: Backend,
    action: RefreshAction,
)
    requires
        before.tokens.app is Some,
        refresh_step(before, RefreshEvent::Woken { now }, after, action),
    ensures
        after == before,
        action is Sleep,
        action matches RefreshAction::Sleep { pause, refresh_app } ==> {
            let app_end = before.tokens.app->0.access_token_expires_at;
            let game = before.tokens.game;
            let end = if refresh_app {
                app_end
            } else {
                game->0.access_token_expires_at
            };
            &&& game is None ==> refresh_app
            &&& game is Some ==> (refresh_app <==> app_end <= game->0.access_token_expires_at)
            &&& end <= app_end
            &&& game is Some ==> end <= game->0.access_token_expires_at
            &&& pause.secs * 1000 + pause.millis >= 30_000
            &&& pause.secs * 1000 + pause.millis >= 750 * (end - now)
            &&& pause.secs * 1000 + pause.millis == 30_000 || pause.secs * 1000 + pause.millis
                == 750 * (end - now)
        },
{
}

/// The token that was chosen is renewed with its own refresh token. A new pair
/// takes the place of the one that it renews and of nothing else; a failure that
/// is not for good changes nothing.
pub proof fn chosen_token_is_renewed(
    before: Backend,
    refresh_app: bool,
    pair: TokenPair,
    e: BackendAuthError,
    after: Backend,
    action: RefreshAction,
)
    ensures
        refresh_step(before, RefreshEvent::Slept { refresh_app }, after, action) ==> {
            &&& after == before
            &&& refresh_app && before.tokens.app is Some ==> action == (RefreshAction::Refresh {
                refresh_app,
                refresh_token: before.tokens.app->0.refresh_token,
            })
            &&& !refresh_app && before.tokens.game is Some ==> action == (RefreshAction::Refresh {
                refresh_app,
                refresh_token: before.tokens.game->0.refresh_token,
            })
            &&& refresh_app && before.tokens.app is None ==> action is Rest
            &&& !refresh_app && before.tokens.game is None ==> action is Plan
        },
        refresh_step(
            before,
            RefreshEvent::Refreshed { refresh_app, reply: Ok(pair) },
            after,
            action,
        ) ==> {
            &&& action is Save
            &&& refresh_app ==> after.tokens.app == Some(pair) && after.tokens.game
                == before.tokens.game
            &&& !refresh_app ==> after.tokens.game == Some(pair) && after.tokens.app
                == before.tokens.app
            &&& after.tokens.bound_puuid == before.tokens.bound_puuid
            &&& after.tokens.bound_shard == before.tokens.bound_shard
            &&& after.base_url == before.base_url
            &&& after.hwid == before.hwid
        },
        refresh_step(
            before,
            RefreshEvent::Refreshed { refresh_app, reply: Err(e) },
            after,
            action,
        ) ==> {
            &&& action is Rest
            &&& after.base_url == before.base_url
            &&& after.hwid == before.hwid
            &&& if e.error_code is Some && is_one_of_the_dead_codes(e.error_code->0@) {
                after.tokens.app is None && after.tokens.game is None
            } else {
                after == before
            }
        },
        refresh_step(before, RefreshEvent::Saved, after, action) ==> after == before
            && action is Plan,
        refresh_step(before, RefreshEvent::Rested, after, action) ==> after == before
            && action is Plan,
{
    dead_tokens_have_these_codes(e);
}

/// The codes by which the server says that a token is dead for good.
pub open spec fn is_one_of_the_dead_codes(code: Seq<char>) -> bool {
    seq![
        "REFRESH_TOKEN_EXPIRED"@,
        "TOKEN_DECODE_ERROR"@,
        "WRONG_TOKEN_TYPE"@,
        "WRONG_TOKEN_SCOPE"@,
        "USER_NOT_FOUND"@,
        "USER_IS_BANNED"@,
    ].contains(code)
}

/// A token is dead exactly where the server says one of six codes; a failure
/// without a code, or with any other, is not for good.
pub proof fn dead_tokens_have_these_codes(e: BackendAuthError)
    ensures
        e.dead_token() <==> e.error_code is Some && is_one_of_the_dead_codes(e.error_code->0@),
{
    if e.error_code is Some {
        let codes = seq![
            "REFRESH_TOKEN_EXPIRED"@,
            "TOKEN_DECODE_ERROR"@,
            "WRONG_TOKEN_TYPE"@,
            "WRONG_TOKEN_SCOPE"@,
            "USER_NOT_FOUND"@,
            "USER_IS_BANNED"@,
        ];
        let code = e.error_code->0@;
        assert(codes[0] == "REFRESH_TOKEN_EXPIRED"@);
        assert(codes[1] == "TOKEN_DECODE_ERROR"@);
        assert(codes[2] == "WRONG_TOKEN_TYPE"@);
        assert(codes[3] == "WRONG_TOKEN_SCOPE"@);
        assert(codes[4] == "USER_NOT_FOUND"@);
        assert(codes[5] == "USER_IS_BANNED"@);
    }
}

/// A token of the program that can be renewed for more than a minute is enough.
/// Otherwise a stored one that can be is renewed with its refresh token, and
/// failing that the user is asked to log in.
pub proof fn app_token_is_looked_for(backend: Backend, stored: Option<TokenPair>, now: i64)
    ensures
        ({
            let (held, action) = app_token_step(backend, AppTokenEvent::Asked { now });
            &&& held == backend
            &&& backend.tokens.app is Some && backend.tokens.app->0.refresh_token_expires_at
                > now + 60 ==> action == AppTokenAction::Finish(true)
            &&& backend.tokens.app is None || backend.tokens.app->0.refresh_token_expires_at
                <= now + 60 ==> action is Load
        }),
        ({
            let (held, action) = app_token_step(backend, AppTokenEvent::Loaded { stored, now });
            &&& held == backend
            &&& stored is Some && stored->0.refresh_token_expires_at > now + 60 ==> action == (
            AppTokenAction::Refresh { refresh_token: stored->0.refresh_token })
            &&& stored is None || stored->0.refresh_token_expires_at <= now + 60 ==> action is Prove
        }),
{
}

/// A renewal replaces the program's token and keeps the game token; a login
/// replaces the one and drops the other. Both are stored, and then the token is
/// held. A renewal that failed for good asks for a login; any other failure
/// changes nothing and ends without a token.
pub proof fn app_token_is_taken(
    backend: Backend,
    pair: TokenPair,
    e: BackendAuthError,
    login: Option<LoginProof>,
)
    ensures
        ({
            let (held, action) = app_token_step(backend, AppTokenEvent::Refreshed(Ok(pair)));
            &&& action is Save
            &&& held.tokens.app == Some(pair)
            &&& held.tokens.game == backend.tokens.game
            &&& held.tokens.bound_puuid == backend.tokens.bound_puuid
            &&& held.tokens.bound_shard == backend.tokens.bound_shard
            &&& held.base_url == backend.base_url
            &&& held.hwid == backend.hwid
        }),
        ({
            let (held, action) = app_token_step(backend, AppTokenEvent::Refreshed(Err(e)));
            &&& held == backend
            &&& if e.error_code is Some && is_one_of_the_dead_codes(e.error_code->0@) {
                action is Prove
            } else {
                action == AppTokenAction::Finish(false)
            }
        }),
        ({
            let (held, action) = app_token_step(backend, AppTokenEvent::Proved(login));
            &&& held == backend
            &&& login is Some && backend.hwid is Some ==> action == (AppTokenAction::Login {
                hwid: backend.hwid->0,
                login: login->0,
            })
            &&& login is None || backend.hwid is None ==> action == AppTokenAction::Finish(false)
        }),
        ({
            let (held, action) = app_token_step(backend, AppTokenEvent::LoggedIn(Ok(pair)));
            &&& action is Save
            &&& held.tokens.app == Some(pair)
            &&& held.tokens.game is None
            &&& held.tokens.bound_puuid is None
            &&& held.tokens.bound_shard is None
            &&& held.base_url == backend.base_url
            &&& held.hwid == backend.hwid
        }),
        app_token_step(backend, AppTokenEvent::LoggedIn(Err(e))) == (
            backend,
            AppTokenAction::Finish(false),
        ),
        app_token_step(backend, AppTokenEvent::Saved) == (backend, AppTokenAction::Finish(true)),
{
    dead_tokens_have_these_codes(e);
}

/// A game token is asked for with the program's access token. One that is bound
/// to this account and this shard, and can be renewed for more than a minute, is
/// renewed with its own refresh token; otherwise a new one is asked for.
pub proof fn game_token_is_asked_for(flow: GameTokenFlow, backend: Backend, now: i64)
    ensures
        ({
            let (next, held, action) = game_token_step(
                flow,
                backend,
                GameTokenEvent::Asked { now },
            );
            let tokens = backend.tokens;
            let own = tokens.game is Some && tokens.bound_puuid is Some
                && tokens.bound_puuid->0@ == flow.puuid@ && tokens.bound_shard is Some
                && tokens.bound_shard->0@ == flow.shard@
                && tokens.game->0.refresh_token_expires_at > now + 60;
            &&& held == backend
            &&& next.puuid == flow.puuid && next.shard == flow.shard
            &&& tokens.app is None ==> action == GameTokenAction::Finish(false)
            &&& tokens.app is Some ==> next.app_access == Some(tokens.app->0.access_token)
            &&& tokens.app is Some && own ==> action == (GameTokenAction::Refresh {
                refresh_token: tokens.game->0.refresh_token,
            })
            &&& tokens.app is Some && !own ==> action == (GameTokenAction::Mint {
                app_access: tokens.app->0.access_token,
                puuid: flow.puuid,
                shard: flow.shard,
            })
        }),
{
}

/// A game token that was renewed stays bound as it was; a new one is bound to
/// the account and the shard that it was asked for. A renewal that failed drops
/// the token and asks for a new one; where that fails too, nothing stays bound.
/// The program's token is never touched.
pub proof fn game_token_is_taken(
    flow: GameTokenFlow,
    backend: Backend,
    pair: TokenPair,
    e: BackendAuthError,
)
    ensures
        ({
            let (next, held, action) = game_token_step(
                flow,
                backend,
                GameTokenEvent::Refreshed(Ok(pair)),
            );
            &&& action is Save
            &&& next == flow
            &&& held.tokens.app == backend.tokens.app
            &&& held.tokens.game == Some(pair)
            &&& held.tokens.bound_puuid == backend.tokens.bound_puuid
            &&& held.tokens.bound_shard == backend.tokens.bound_shard
        }),
        ({
            let (next, held, action) = game_token_step(
                flow,
                backend,
                GameTokenEvent::Refreshed(Err(e)),
            );
            &&& next == flow
            &&& held.tokens.app == backend.tokens.app
            &&& held.tokens.game is None
            &&& held.tokens.bound_puuid == backend.tokens.bound_puuid
            &&& held.tokens.bound_shard == backend.tokens.bound_shard
            &&& flow.app_access is None ==> action == GameTokenAction::Finish(false)
            &&& flow.app_access is Some ==> action == (GameTokenAction::Mint {
                app_access: flow.app_access->0,
                puuid: flow.puuid,
                shard: flow.shard,
            })
        }),
        ({
            let (next, held, action) = game_token_step(
                flow,
                backend,
                GameTokenEvent::Minted(Ok(pair)),
            );
            &&& action is Save
            &&& held.tokens.app == backend.tokens.app
            &&& held.tokens.game == Some(pair)
            &&& held.tokens.bound_puuid == Some(flow.puuid)
            &&& held.tokens.bound_shard == Some(flow.shard)
        }),
        ({
            let (next, held, action) = game_token_step(
                flow,
                backend,
                GameTokenEvent::Minted(Err(e)),
            );
            &&& action == GameTokenAction::Finish(false)
            &&& held.tokens.app == backend.tokens.app
            &&& held.tokens.game is None
            &&& held.tokens.bound_puuid is None
            &&& held.tokens.bound_shard is None
        }),
        game_token_step(flow, backend, GameTokenEvent::Saved) == (
            flow,
            backend,
            GameTokenAction::Finish(true),
        ),
        forall|event: GameTokenEvent|
            (#[trigger] game_token_step(flow, backend, event)).1.base_url == backend.base_url
                && game_token_step(flow, backend, event).1.hwid == backend.hwid,
{
}

} // verus!
