//! The tokens that the server issued, and the requests that are made with
//! them.

use vstd::prelude::*;

use crate::http::bearer;
use crate::http::json_content;
use crate::http::pair_texts;
use crate::http::HttpRequest;
use crate::http::Method;
use crate::json::json_text;
use crate::json::Json;
use crate::json::JsonTree;
use crate::text::concat;
use crate::text::is_white_space;
use crate::text::same;
use crate::text::solid_text_is_not_trimmed;
use crate::text::starts_with;
use crate::text::strip_back;
use crate::text::strip_back_ends_otherwise;
use crate::text::trim;
use crate::text::trim_end_matches;
use crate::text::trimmed;
use crate::text::CharClass;

verus! {

/// An access token and the token that renews it, each with the second since
/// the epoch at which it expires.
#[derive(Debug)]
pub struct TokenPair {
    pub access_token: String,
    pub access_token_expires_at: i64,
    pub refresh_token: String,
    pub refresh_token_expires_at: i64,
}

impl Clone for TokenPair {
    fn clone(&self) -> (r: Self)
        ensures
            r == *self,
    {
        TokenPair {
            access_token: self.access_token.clone(),
            access_token_expires_at: self.access_token_expires_at,
            refresh_token: self.refresh_token.clone(),
            refresh_token_expires_at: self.refresh_token_expires_at,
        }
    }
}

impl TokenPair {
    /// Seconds for which the access token can still be used.
    pub open spec fn access_left(self, now: int) -> int {
        self.access_token_expires_at - now
    }

    /// A refresh token counts as expired a minute early.
    pub open spec fn refresh_over(self, now: int) -> bool {
        self.refresh_token_expires_at - now <= 60
    }

    pub fn access_expires_in(&self, now: i64) -> (secs: i128)
        ensures
            secs == self.access_left(now as int),
            secs == self.access_token_expires_at - now,
    {
        self.access_token_expires_at as i128 - now as i128
    }

    pub fn refresh_expires_in(&self, now: i64) -> (secs: i128)
        ensures
            secs == self.refresh_token_expires_at - now,
    {
        self.refresh_token_expires_at as i128 - now as i128
    }

    pub fn is_refresh_expired(&self, now: i64) -> (r: bool)
        ensures
            r == self.refresh_over(now as int),
            r == (self.refresh_token_expires_at <= now + 60),
    {
        self.refresh_expires_in(now) <= 60
    }
}

/// The tokens that are held: one for the program, and one for the account and
/// shard that it is bound to.
pub struct Tokens {
    pub app: Option<TokenPair>,
    pub game: Option<TokenPair>,
    pub bound_puuid: Option<String>,
    pub bound_shard: Option<String>,
}

impl Tokens {
    /// The same tokens without the one of a game account.
    pub open spec fn without_game(self) -> Tokens {
        Tokens { app: self.app, game: None, bound_puuid: None, bound_shard: None }
    }

    /// Whether a game token is bound to this account and shard.
    pub open spec fn bound_to(self, puuid: Seq<char>, shard: Seq<char>) -> bool {
        self.bound_puuid is Some && self.bound_puuid->0@ == puuid && self.bound_shard is Some
            && self.bound_shard->0@ == shard
    }
}

impl Default for Tokens {
    fn default() -> (r: Self)
        ensures
            r == (Tokens { app: None, game: None, bound_puuid: None, bound_shard: None }),
    {
        Tokens { app: None, game: None, bound_puuid: None, bound_shard: None }
    }
}

/// A server's refusal, or a failure to reach it.
#[derive(Debug)]
pub struct BackendAuthError {
    pub status_code: Option<u16>,
    pub error_code: Option<String>,
}

/// The error codes that mean that a token is dead for good, so that refreshing
/// it never succeeds.
pub open spec fn dead_token_code(code: Seq<char>) -> bool {
    ||| code == "REFRESH_TOKEN_EXPIRED"@
    ||| code == "TOKEN_DECODE_ERROR"@
    ||| code == "WRONG_TOKEN_TYPE"@
    ||| code == "WRONG_TOKEN_SCOPE"@
    ||| code == "USER_NOT_FOUND"@
    ||| code == "USER_IS_BANNED"@
}

impl BackendAuthError {
    pub open spec fn dead_token(self) -> bool {
        self.error_code is Some && dead_token_code(self.error_code->0@)
    }

    /// The error of a request that got no usable answer.
    pub fn network(message: &str) -> (r: Self)
        ensures
            r.status_code is None,
            r.error_code is Some,
            r.error_code->0@ == "NETWORK_ERROR: "@ + message@,
            !r.dead_token(),
    {
        let r = BackendAuthError {
            status_code: None,
            error_code: Some(concat("NETWORK_ERROR: ", message)),
        };
        proof {
            network_code_is_not_dead(message@);
        }
        r
    }

    pub fn is_dead_token(&self) -> (r: bool)
        ensures
            r == self.dead_token(),
            r <==> self.error_code is Some && {
                let code = self.error_code->0@;
                ||| code == "REFRESH_TOKEN_EXPIRED"@
                ||| code == "TOKEN_DECODE_ERROR"@
                ||| code == "WRONG_TOKEN_TYPE"@
                ||| code == "WRONG_TOKEN_SCOPE"@
                ||| code == "USER_NOT_FOUND"@
                ||| code == "USER_IS_BANNED"@
            },
    {
        match &self.error_code {
            Some(code) => {
                let code = code.as_str();
                same(code, "REFRESH_TOKEN_EXPIRED") || same(code, "TOKEN_DECODE_ERROR") || same(
                    code,
                    "WRONG_TOKEN_TYPE",
                ) || same(code, "WRONG_TOKEN_SCOPE") || same(code, "USER_NOT_FOUND") || same(
                    code,
                    "USER_IS_BANNED",
                )
            },
            None => false,
        }
    }
}

/// A network failure is never taken for a dead token, whatever its message.
pub proof fn network_code_is_not_dead(message: Seq<char>)
    ensures
        !dead_token_code("NETWORK_ERROR: "@ + message),
{
    reveal_strlit("NETWORK_ERROR: ");
    reveal_strlit("REFRESH_TOKEN_EXPIRED");
    reveal_strlit("TOKEN_DECODE_ERROR");
    reveal_strlit("WRONG_TOKEN_TYPE");
    reveal_strlit("WRONG_TOKEN_SCOPE");
    reveal_strlit("USER_NOT_FOUND");
    reveal_strlit("USER_IS_BANNED");
    assert(("NETWORK_ERROR: "@ + message)[0] == 'N');
}

/// What the server needs to know of a login with a third party.
pub struct LoginProof {
    pub provider: String,
    pub provider_id: String,
    pub access_token: String,
}

/// An address with its scheme, without blanks around it or slashes behind it.
pub open spec fn normalized_url(url: Seq<char>) -> Seq<char> {
    let bare = strip_back(trimmed(url), CharClass::Only('/'));
    if "http://"@.is_prefix_of(bare) || "https://"@.is_prefix_of(bare) {
        bare
    } else {
        "http://"@ + bare
    }
}

pub fn normalize_base_url(url: &str) -> (r: String)
    ensures
        r@ == normalized_url(url@),
{
    let url = trim_end_matches(trim(url), '/');
    if starts_with(url, "http://") || starts_with(url, "https://") {
        url.to_owned()
    } else {
        concat("http://", url)
    }
}

/// A normalized address has a scheme, and ends in a slash only where nothing
/// else is left of it.
pub proof fn normalized_url_has_a_scheme(url: Seq<char>)
    ensures
        "http://"@.is_prefix_of(normalized_url(url)) || "https://"@.is_prefix_of(
            normalized_url(url),
        ),
        normalized_url(url).last() == '/' ==> normalized_url(url) == "http://"@,
{
    reveal_strlit("http://");
    reveal_strlit("https://");
    let bare = strip_back(trimmed(url), CharClass::Only('/'));
    strip_back_ends_otherwise(trimmed(url), CharClass::Only('/'));
    if bare.len() == 0 {
        assert("http://"@ + bare =~= "http://"@);
    } else {
        assert(("http://"@ + bare).last() == bare.last());
    }
    assert("http://"@.is_prefix_of("http://"@ + bare));
}

pub fn scope_name(is_app: bool) -> (name: &'static str)
    ensures
        name@ == if is_app {
            "app"@
        } else {
            "game"@
        },
{
    if is_app {
        "app"
    } else {
        "game"
    }
}

/// What is known of the server and held from it.
pub struct Backend {
    pub base_url: String,
    pub tokens: Tokens,
    pub hwid: Option<String>,
}

impl Backend {
    pub fn new(server_base_url: &str) -> (r: Self)
        ensures
            r.base_url@ == normalized_url(server_base_url@),
            r.tokens == (Tokens { app: None, game: None, bound_puuid: None, bound_shard: None }),
            r.hwid is None,
    {
        Backend {
            base_url: normalize_base_url(server_base_url),
            tokens: Tokens::default(),
            hwid: None,
        }
    }

    pub fn set_hwid(&mut self, hwid: String)
        ensures
            *final(self) == (Backend { hwid: Some(hwid), ..*old(self) }),
    {
        self.hwid = Some(hwid);
    }

    pub fn base_url(&self) -> (r: &str)
        ensures
            r@ == self.base_url@,
    {
        self.base_url.as_str()
    }

    pub fn app_access_token(&self) -> (r: Option<String>)
        ensures
            r == match self.tokens.app {
                Some(app) => Some(app.access_token),
                None => None,
            },
    {
        match &self.tokens.app {
            Some(app) => Some(app.access_token.clone()),
            None => None,
        }
    }

    /// The headers of a submission for the account that is played: there are
    /// some where a game token is held and bound.
    pub open spec fn submission_headers(self) -> Option<Seq<(Seq<char>, Seq<char>)>> {
        match (self.tokens.game, self.tokens.bound_puuid, self.tokens.bound_shard) {
            (Some(game), Some(puuid), Some(shard)) => Some(
                seq![bearer(game.access_token@), ("puuid"@, puuid@), ("shard"@, shard@)],
            ),
            _ => None,
        }
    }

    pub fn game_headers(&self) -> (r: Option<Vec<(String, String)>>)
        ensures
            match r {
                Some(headers) => self.submission_headers() == Some(pair_texts(headers@)),
                None => self.submission_headers() is None,
            },
    {
        match (&self.tokens.game, &self.tokens.bound_puuid, &self.tokens.bound_shard) {
            (Some(game), Some(puuid), Some(shard)) => {
                let mut headers: Vec<(String, String)> = Vec::new();
                headers.push(
                    ("Authorization".to_owned(), concat("Bearer ", game.access_token.as_str())),
                );
                headers.push(("puuid".to_owned(), puuid.clone()));
                headers.push(("shard".to_owned(), shard.clone()));
                assert(pair_texts(headers@) =~= self.submission_headers()->0);
                Some(headers)
            },
            _ => None,
        }
    }

    /// The request that hands a response's body on to the server, where a game
    /// token is held.
    pub fn submit(&self, path: &str, body: &str) -> (r: Option<HttpRequest>)
        ensures
            match r {
                Some(request) => {
                    &&& self.submission_headers() is Some
                    &&& request.is_made_of(
                        Method::Post,
                        self.base_url@ + path@,
                        seq![json_content()] + self.submission_headers()->0,
                        Some(body@),
                    )
                },
                None => self.submission_headers() is None,
            },
    {
        let headers = match self.game_headers() {
            Some(headers) => headers,
            None => {
                return None;
            },
        };
        let url = concat(self.base_url.as_str(), path);
        let mut request = HttpRequest::new(Method::Post, url).json_body(body.to_owned());
        let ghost given = pair_texts(headers@);
        let mut i: usize = 0;
        assert(request.header_texts() =~= seq![json_content()] + given.take(0));
        while i < headers.len()
            invariant
                i <= headers.len(),
                given == pair_texts(headers@),
                request.is_made_of(
                    Method::Post,
                    self.base_url@ + path@,
                    seq![json_content()] + given.take(i as int),
                    Some(body@),
                ),
            decreases headers.len() - i,
        {
            request = request.header(headers[i].0.as_str(), headers[i].1.as_str());
            assert(given[i as int] == (headers@[i as int].0@, headers@[i as int].1@));
            i += 1;
            assert(request.header_texts() =~= seq![json_content()] + given.take(i as int));
        }
        assert(given.take(i as int) =~= given);
        Some(request)
    }

    /// Drops the game token and keeps the program's own.
    pub fn clear_game_token(&mut self)
        ensures
            *final(self) == (Backend { tokens: old(self).tokens.without_game(), ..*old(self) }),
    {
        self.tokens.game = None;
        self.tokens.bound_puuid = None;
        self.tokens.bound_shard = None;
    }

    /// What goes into the file of stored tokens, if anything.
    pub fn session_to_store(&self) -> (r: Option<TokenPair>)
        ensures
            r == self.tokens.app,
    {
        match &self.tokens.app {
            Some(app) => Some(app.clone()),
            None => None,
        }
    }

    /// The headers of a request for a token.
    pub open spec fn token_headers(token: Option<Seq<char>>) -> Seq<(Seq<char>, Seq<char>)> {
        match token {
            Some(token) => seq![json_content(), bearer(token)],
            None => seq![json_content()],
        }
    }

    /// Whether `request` asks the server for a token.
    pub open spec fn asks_for_token(
        self,
        request: HttpRequest,
        path: Seq<char>,
        body: JsonTree,
        token: Option<Seq<char>>,
    ) -> bool {
        request.is_made_of(
            Method::Post,
            self.base_url@ + path,
            Self::token_headers(token),
            Some(json_text(body)),
        )
    }

    fn post_token(&self, path: &str, body: Json, token: Option<&str>) -> (r: HttpRequest)
        requires
            body.wf(),
        ensures
            self.asks_for_token(
                r,
                path@,
                body@,
                match token {
                    Some(token) => Some(token@),
                    None => None,
                },
            ),
    {
        let url = concat(self.base_url.as_str(), path);
        let request = HttpRequest::new(Method::Post, url).json(body);
        match token {
            Some(token) => {
                let r = request.bearer_auth(token);
                assert(r.header_texts() =~= Self::token_headers(Some(token@)));
                r
            },
            None => {
                assert(request.header_texts() =~= Self::token_headers(None));
                request
            },
        }
    }

    /// The request that logs the program in.
    pub fn post_login(&self, hwid: &str, login: &LoginProof) -> (r: HttpRequest)
        ensures
            self.asks_for_token(
                r,
                "/v1/login"@,
                JsonTree::Object(
                    map![
                    "hwid"@ => JsonTree::Text(hwid@),
                    "provider"@ => JsonTree::Text(login.provider@),
                    "provider_id"@ => JsonTree::Text(login.provider_id@),
                    "access_token"@ => JsonTree::Text(login.access_token@),
                ],
                ),
                None,
            ),
    {
        let body = Json::object().with_text("hwid", hwid).with_text(
            "provider",
            login.provider.as_str(),
        ).with_text("provider_id", login.provider_id.as_str()).with_text(
            "access_token",
            login.access_token.as_str(),
        );
        self.post_token("/v1/login", body, None)
    }

    /// The request for a token that is bound to an account and a shard.
    pub fn post_game_token(&self, app_access_token: &str, puuid: &str, shard: &str) -> (r:
        HttpRequest)
        ensures
            self.asks_for_token(
                r,
                "/v1/auth/game-token"@,
                JsonTree::Object(
                    map!["puuid"@ => JsonTree::Text(puuid@), "shard"@ => JsonTree::Text(shard@)],
                ),
                Some(app_access_token@),
            ),
    {
        let body = Json::object().with_text("puuid", puuid).with_text("shard", shard);
        self.post_token("/v1/auth/game-token", body, Some(app_access_token))
    }

    fn post_refresh(&self, path: &str, refresh_token: &str) -> (r: HttpRequest)
        ensures
            self.asks_for_token(
                r,
                path@,
                JsonTree::Object(map!["refresh_token"@ => JsonTree::Text(refresh_token@)]),
                None,
            ),
    {
        let body = Json::object().with_text("refresh_token", refresh_token);
        self.post_token(path, body, None)
    }

    /// The request that renews the program's token.
    pub fn post_refresh_app(&self, refresh_token: &str) -> (r: HttpRequest)
        ensures
            self.asks_for_token(
                r,
                "/v1/auth/refresh/app"@,
                JsonTree::Object(map!["refresh_token"@ => JsonTree::Text(refresh_token@)]),
                None,
            ),
    {
        self.post_refresh("/v1/auth/refresh/app", refresh_token)
    }

    /// The request that renews the game token.
    pub fn post_refresh_game(&self, refresh_token: &str) -> (r: HttpRequest)
        ensures
            self.asks_for_token(
                r,
                "/v1/auth/refresh/game"@,
                JsonTree::Object(map!["refresh_token"@ => JsonTree::Text(refresh_token@)]),
                None,
            ),
    {
        self.post_refresh("/v1/auth/refresh/game", refresh_token)
    }
}

/// What a reply to a request for a token comes to. `error_code` is what a
/// refusal's body names, and `parsed` what a grant's body holds.
pub fn token_reply(
    status: u16,
    error_code: Option<String>,
    parsed: Result<TokenPair, String>,
) -> (r: Result<TokenPair, BackendAuthError>)
    ensures
        match r {
            Ok(pair) => 200 <= status < 300 && parsed == Ok::<TokenPair, String>(pair),
            Err(e) => if 200 <= status < 300 {
                &&& parsed is Err
                &&& e.status_code is None
                &&& e.error_code is Some
                &&& e.error_code->0@ == "NETWORK_ERROR: "@ + ("malformed token response: "@
                    + parsed->Err_0@)
            } else {
                e == (BackendAuthError { status_code: Some(status), error_code })
            },
        },
{
    if !crate::http::is_success(status) {
        return Err(BackendAuthError { status_code: Some(status), error_code });
    }
    match parsed {
        Ok(pair) => Ok(pair),
        Err(message) => {
            let text = concat("malformed token response: ", message.as_str());
            Err(BackendAuthError::network(text.as_str()))
        },
    }
}

/// Nothing is submitted unless a game token is held and bound to an account and
/// a shard; all three then go with the submission.
pub proof fn submissions_carry_the_bound_account(backend: Backend)
    ensures
        backend.submission_headers() is Some <==> backend.tokens.game is Some
            && backend.tokens.bound_puuid is Some && backend.tokens.bound_shard is Some,
        backend.submission_headers() is Some ==> backend.submission_headers()->0 == seq![
            ("Authorization"@, "Bearer "@ + backend.tokens.game->0.access_token@),
            ("puuid"@, backend.tokens.bound_puuid->0@),
            ("shard"@, backend.tokens.bound_shard->0@),
        ],
{
}

/// A request for a token is posted to a path of the server as JSON, with an
/// access token where there is one.
pub proof fn token_requests_are_posted(
    backend: Backend,
    request: HttpRequest,
    path: Seq<char>,
    body: JsonTree,
    token: Option<Seq<char>>,
)
    requires
        backend.asks_for_token(request, path, body, token),
    ensures
        request.method == Method::Post,
        request.url@ == backend.base_url@ + path,
        request.body is Some,
        request.body->0@ == json_text(body),
        request.query@.len() == 0,
        token is None ==> request.header_texts() == seq![("Content-Type"@, "application/json"@)],
        token is Some ==> request.header_texts() == seq![
            ("Content-Type"@, "application/json"@),
            ("Authorization"@, "Bearer "@ + token->0),
        ],
{
    assert(request.query_texts().len() == request.query@.len());
}

/// Dropping the game token drops what it is bound to and keeps the rest.
pub proof fn dropped_game_token_leaves_the_app_token(tokens: Tokens)
    ensures
        tokens.without_game().app == tokens.app,
        tokens.without_game().game is None,
        tokens.without_game().bound_puuid is None,
        tokens.without_game().bound_shard is None,
{
}

/// An address without blanks around it and slashes behind it stays as it is
/// where it has a scheme, and gets one where it has none; and slashes behind an
/// address make no difference.
pub proof fn normalizing_adds_only_the_scheme(url: Seq<char>)
    requires
        url.len() > 0,
        !is_white_space(url[0]),
        !is_white_space(url.last()),
    ensures
        url.last() != '/' && ("http://"@.is_prefix_of(url) || "https://"@.is_prefix_of(url))
            ==> normalized_url(url) == url,
        url.last() != '/' && !"http://"@.is_prefix_of(url) && !"https://"@.is_prefix_of(url)
            ==> normalized_url(url) == "http://"@ + url,
        normalized_url(url.push('/')) == normalized_url(url),
{
    solid_text_is_not_trimmed(url);
    let longer = url.push('/');
    assert(longer[0] == url[0]);
    solid_text_is_not_trimmed(longer);
    assert(longer.drop_last() =~= url);
}

} // verus!
