//! The session of a player: where the services are, what authenticates a
//! request to them, and how a request is carried through.

use vstd::prelude::*;

use crate::clock::Elapsed;
use crate::encoding::base64url_decode;
use crate::encoding::base64url_decoded;
use crate::json;
use crate::json::parsed_json_bytes;
use crate::json::tree_member;
use crate::json::Json;
use crate::json::JsonTree;
use crate::lockfile::Lockfile;
use crate::pattern;
use crate::pattern::group_texts;
use crate::pattern::regex_compiles;
use crate::pattern::regex_groups;
use crate::pattern::regex_source;
use crate::text::append;
use crate::text::decimal;
use crate::text::concat;
use crate::text::joined;
use crate::text::joined_of_both;
use crate::text::joined_texts_are_the_pieces;
use crate::text::joining_separates;
use crate::text::lines;
use crate::text::lines_of_longer;
use crate::text::pieces;
use crate::text::pieces_joined_again;
use crate::text::pieces_never_empty;
use crate::text::pieces_of_both;
use crate::text::same;
use crate::text::split;
use crate::text::split_lines;
use crate::text::texts;
use crate::text::trim;
use crate::text::trimmed;
use crate::text::without_return;

verus! {

/// What the services are told of the machine.
pub const CLIENT_PLATFORM: &'static str =
    "ew0KCSJwbGF0Zm9ybVR5cGUiOiAiUEMiLA0KCSJwbGF0Zm9ybU9TIjogIldpbmRvd3MiLA0KCSJwbGF0Zm9ybU9TVmVyc2lvbiI6ICIxMC4wLjE5MDQyLjEuMjU2LjY0Yml0IiwNCgkicGxhdGZvcm1DaGlwc2V0IjogIlVua25vd24iDQp9";

/// What the services are told of the program.
pub const USER_AGENT: &'static str = "ShooterGame/13 Windows/10.0.19043.1.256.64bit";

/// How long the services are left alone after one of them asked for it, in
/// nanoseconds.
pub const RATELIMIT_COOLDOWN_NANOS: u128 = 65_000_000_000;

/// Where the local service says what authenticates the player.
pub const ENTITLEMENTS_PATH: &'static str = "/entitlements/v1/token";

/// Where the game's version is asked for when the log does not name it.
pub const VERSION_URL: &'static str = "https://valorant-api.com/v1/version";

/// The pause before the log is read again for the region, in seconds.
pub const REGION_RETRY_SECS: u64 = 2;

/// The pause after what authenticates the player could not be renewed, in
/// seconds.
pub const REFRESH_RETRY_SECS: u64 = 60;

/// The service that a request is for.
#[derive(Debug, Clone, Copy, PartialEq, Eq, Structural)]
pub enum Api {
    Pd,
    Glz,
    Shared,
    Local,
}

impl Api {
    /// Whether the service runs at Riot, and not on this machine.
    pub open spec fn remote(self) -> bool {
        self != Api::Local
    }

    pub fn is_riot(self) -> (r: bool)
        ensures
            r == self.remote(),
            r <==> self == Api::Pd || self == Api::Glz || self == Api::Shared,
    {
        match self {
            Api::Local => false,
            _ => true,
        }
    }
}

/// Where a player's account is kept and matches are hosted.
#[derive(Debug)]
pub struct Region {
    pub pd_shard: String,
    pub glz_shard: String,
    pub glz_region: String,
}

impl Region {
    /// Whether the region is made of these names.
    pub open spec fn is_made_of(
        self,
        pd_shard: Seq<char>,
        glz_shard: Seq<char>,
        glz_region: Seq<char>,
    ) -> bool {
        self.pd_shard@ == pd_shard && self.glz_shard@ == glz_shard && self.glz_region@ == glz_region
    }
}

/// The pattern of an address that names the account's shard.
pub const PD_PATTERN: &'static str = r"https://pd\.(\w+)\.a\.pvp\.net/account-xp/v1/";

/// The pattern of an address that names the shard and region of matches.
pub const GLZ_PATTERN: &'static str = r"https://glz-(\w[\w-]*)\.(\w+)\.a\.pvp\.net";

/// The pattern of a line that names the game's version.
pub const VERSION_PATTERN: &'static str = r"CI server version:\s*(.+)";

/// The groups of the first line in which a pattern matches.
pub open spec fn first_match(pattern: Seq<char>, all: Seq<Seq<char>>) -> Option<
    Seq<Option<Seq<char>>>,
>
    decreases all.len(),
{
    if all.len() == 0 {
        None
    } else {
        match regex_groups(pattern, all[0]) {
            Some(groups) => Some(groups),
            None => first_match(pattern, all.drop_first()),
        }
    }
}

/// Group `n` of a match, if there is one.
pub open spec fn group_of(found: Option<Seq<Option<Seq<char>>>>, n: int) -> Option<Seq<char>> {
    match found {
        Some(groups) => if 0 <= n < groups.len() {
            groups[n]
        } else {
            None
        },
        None => None,
    }
}

/// The views of a match's groups.
pub open spec fn found_texts(found: Option<Vec<Option<String>>>) -> Option<
    Seq<Option<Seq<char>>>,
> {
    match found {
        Some(groups) => Some(group_texts(groups@)),
        None => None,
    }
}

fn find_first(re: &regex::Regex, all: &Vec<String>) -> (r: Option<Vec<Option<String>>>)
    ensures
        found_texts(r) == first_match(regex_source(*re), texts(all@)),
{
    let ghost whole = texts(all@);
    let ghost pattern = regex_source(*re);
    let mut i: usize = 0;
    assert(whole.skip(0) =~= whole);
    while i < all.len()
        invariant
            i <= all.len(),
            whole == texts(all@),
            pattern == regex_source(*re),
            first_match(pattern, whole) == first_match(pattern, whole.skip(i as int)),
        decreases all.len() - i,
    {
        let ghost left = whole.skip(i as int);
        assert(left[0] == all@[i as int]@);
        assert(left.drop_first() =~= whole.skip(i + 1));
        if let Some(groups) = pattern::captures(re, all[i].as_str()) {
            return Some(groups);
        }
        i += 1;
    }
    None
}

fn found_group(found: &Option<Vec<Option<String>>>, n: usize) -> (r: Option<String>)
    ensures
        match r {
            Some(s) => group_of(found_texts(*found), n as int) == Some(s@),
            None => group_of(found_texts(*found), n as int) is None,
        },
{
    match found {
        Some(groups) => pattern::group(groups, n),
        None => None,
    }
}

/// Whether a region is the one that a log names: the shard of the first address
/// of the account service and the shard and region of the first address of the
/// match service.
pub open spec fn names_region(log: Seq<char>, region: Option<Region>) -> bool {
    let pd = first_match(PD_PATTERN@, lines(log));
    let glz = first_match(GLZ_PATTERN@, lines(log));
    if regex_compiles(PD_PATTERN@) && regex_compiles(GLZ_PATTERN@) {
        is_region_of(region, group_of(pd, 1), group_of(glz, 1), group_of(glz, 2))
    } else {
        region is None
    }
}

/// The region that a log names.
pub fn parse_region(log: &str) -> (r: Option<Region>)
    ensures
        names_region(log@, r),
{
    let pd_re = match pattern::compile(PD_PATTERN) {
        Some(re) => re,
        None => {
            return None;
        },
    };
    let glz_re = match pattern::compile(GLZ_PATTERN) {
        Some(re) => re,
        None => {
            return None;
        },
    };
    let all = split_lines(log);
    let pd = find_first(&pd_re, &all);
    let glz = find_first(&glz_re, &all);
    region_of(found_group(&pd, 1), found_group(&glz, 1), found_group(&glz, 2))
}

/// Whether a region is what these names come to. All three are needed, and the
/// test environment `pbe` is hosted in North America.
pub open spec fn is_region_of(
    region: Option<Region>,
    pd_shard: Option<Seq<char>>,
    glz_shard: Option<Seq<char>>,
    glz_region: Option<Seq<char>>,
) -> bool {
    match (pd_shard, glz_shard, glz_region) {
        (Some(pd_shard), Some(glz_shard), Some(glz_region)) => {
            &&& region is Some
            &&& if pd_shard == "pbe"@ {
                region->0.is_made_of("na"@, "na-1"@, "na"@)
            } else {
                region->0.is_made_of(pd_shard, glz_shard, glz_region)
            }
        },
        _ => region is None,
    }
}

/// The view of a string that may be missing.
pub open spec fn text_of(s: Option<String>) -> Option<Seq<char>> {
    match s {
        Some(s) => Some(s@),
        None => None,
    }
}

/// The region that the names found in a log come to.
pub fn region_of(
    pd_shard: Option<String>,
    glz_shard: Option<String>,
    glz_region: Option<String>,
) -> (r: Option<Region>)
    ensures
        is_region_of(r, text_of(pd_shard), text_of(glz_shard), text_of(glz_region)),
{
    match (pd_shard, glz_shard, glz_region) {
        (Some(pd_shard), Some(glz_shard), Some(glz_region)) => if same(pd_shard.as_str(), "pbe") {
            Some(
                Region {
                    pd_shard: "na".to_owned(),
                    glz_shard: "na-1".to_owned(),
                    glz_region: "na".to_owned(),
                },
            )
        } else {
            Some(Region { pd_shard, glz_shard, glz_region })
        },
        _ => None,
    }
}

/// The form of a version that the services know: `shipping` stands third
/// unless it is there already or there are fewer than two parts.
pub open spec fn version_text(named: Seq<char>) -> Seq<char> {
    let parts = pieces(trimmed(named), '-');
    if !parts.contains("shipping"@) && parts.len() >= 2 {
        joined(parts.insert(2, "shipping"@), "-"@)
    } else {
        joined(parts, "-"@)
    }
}

/// The form that the services know of a version that a log names.
pub fn version_of(named: &str) -> (r: String)
    ensures
        r@ == version_text(named@),
{
    let mut parts = split(trim(named), '-');
    let ghost whole = texts(parts@);
    let mut present: bool = false;
    let mut i: usize = 0;
    while i < parts.len()
        invariant
            i <= parts.len(),
            whole == texts(parts@),
            present <==> exists|k: int| 0 <= k < i && #[trigger] whole[k] == "shipping"@,
        decreases parts.len() - i,
    {
        assert(whole[i as int] == parts@[i as int]@);
        if same(parts[i].as_str(), "shipping") {
            present = true;
        }
        i += 1;
    }
    assert(present <==> whole.contains("shipping"@));
    if !present && parts.len() >= 2 {
        parts.insert(2, "shipping".to_owned());
        assert(texts(parts@) =~= whole.insert(2, "shipping"@));
    }
    crate::text::join(&parts, "-")
}

/// The game's version that a log names, in the form that the services know.
pub open spec fn named_version(log: Seq<char>) -> Option<Seq<char>> {
    match group_of(first_match(VERSION_PATTERN@, lines(log)), 1) {
        Some(named) if regex_compiles(VERSION_PATTERN@) => Some(version_text(named)),
        _ => None,
    }
}

/// The game's version that a log names, in the form that the services know.
pub fn parse_version(log: &str) -> (r: Option<String>)
    ensures
        text_of(r) == named_version(log@),
{
    let re = match pattern::compile(VERSION_PATTERN) {
        Some(re) => re,
        None => {
            return None;
        },
    };
    let all = split_lines(log);
    let found = find_first(&re, &all);
    match found_group(&found, 1) {
        Some(named) => Some(version_of(named.as_str())),
        None => None,
    }
}

/// Whether the first match of a pattern in a log hangs on the carriage return
/// that the log ends in: it is in the last line, and would be another one, or
/// none, once a newline follows and takes the carriage return with it.
pub open spec fn hangs_on_return(pattern: Seq<char>, log: Seq<char>) -> bool {
    let last = lines(log).last();
    &&& log.len() > 0
    &&& log.last() == '\r'
    &&& first_match(pattern, lines(log).drop_last()) is None
    &&& regex_groups(pattern, last) != regex_groups(pattern, without_return(last))
}

proof fn first_match_in_both(pattern: Seq<char>, first: Seq<Seq<char>>, second: Seq<Seq<char>>)
    ensures
        first_match(pattern, first + second) == match first_match(pattern, first) {
            Some(groups) => Some(groups),
            None => first_match(pattern, second),
        },
    decreases first.len(),
{
    let both = first + second;
    if first.len() == 0 {
        assert(both =~= second);
    } else {
        assert(both[0] == first[0]);
        assert(both.drop_first() =~= first.drop_first() + second);
        first_match_in_both(pattern, first.drop_first(), second);
    }
}

/// A match that is found in a log stays the first one, whatever lines the log
/// grows by.
pub proof fn growing_log_keeps_the_match(pattern: Seq<char>, log: Seq<char>, more: Seq<char>)
    requires
        first_match(pattern, lines(log)) is Some,
        !hangs_on_return(pattern, log),
    ensures
        first_match(pattern, lines(log + seq!['\n'] + more)) == first_match(pattern, lines(log)),
{
    lines_of_longer(log, more);
    pieces_never_empty(log, '\n');
    let parts = pieces(log, '\n');
    let done = parts.drop_last().map_values(|line: Seq<char>| without_return(line));
    let last = parts.last();
    let grown = done + seq![without_return(last)] + lines(more);
    assert(lines(log + seq!['\n'] + more) =~= grown);
    first_match_in_both(pattern, done + seq![without_return(last)], lines(more));
    first_match_in_both(pattern, done, seq![without_return(last)]);
    if first_match(pattern, done) is Some {
        if last.len() > 0 {
            assert(lines(log) =~= done + seq![last]);
            first_match_in_both(pattern, done, seq![last]);
        }
    } else {
        assert(last.len() > 0);
        assert(lines(log) =~= done + seq![last]);
        assert(lines(log).drop_last() =~= done);
        assert(lines(log).last() == last);
        assert(last.last() == log.last());
        first_match_in_both(pattern, done, seq![last]);
        assert(seq![last].drop_first() =~= Seq::empty());
        assert(seq![without_return(last)].drop_first() =~= Seq::empty());
        assert(regex_groups(pattern, without_return(last)) == regex_groups(pattern, last));
        reveal_with_fuel(first_match, 2);
    }
}

/// A growing log never changes a region that was found in it. Left out are only
/// logs whose match hangs on a carriage return at their end.
pub proof fn growing_log_keeps_the_region(
    log: Seq<char>,
    more: Seq<char>,
    region: Region,
    later: Option<Region>,
)
    requires
        names_region(log, Some(region)),
        names_region(log + seq!['\n'] + more, later),
        !hangs_on_return(PD_PATTERN@, log),
        !hangs_on_return(GLZ_PATTERN@, log),
    ensures
        later is Some,
        later->0.is_made_of(region.pd_shard@, region.glz_shard@, region.glz_region@),
{
    growing_log_keeps_the_match(PD_PATTERN@, log, more);
    growing_log_keeps_the_match(GLZ_PATTERN@, log, more);
}

/// A growing log never changes a version that was found in it. Left out are only
/// logs whose match hangs on a carriage return at their end.
pub proof fn growing_log_keeps_the_version(log: Seq<char>, more: Seq<char>)
    requires
        named_version(log) is Some,
        !hangs_on_return(VERSION_PATTERN@, log),
    ensures
        named_version(log + seq!['\n'] + more) == named_version(log),
{
    growing_log_keeps_the_match(VERSION_PATTERN@, log, more);
}

/// A version that names `shipping` already is only trimmed.
pub proof fn shipping_version_is_kept(named: Seq<char>)
    requires
        pieces(trimmed(named), '-').contains("shipping"@),
    ensures
        version_text(named) == trimmed(named),
{
    reveal_strlit("-");
    assert("-"@ =~= seq!['-']);
    pieces_joined_again(trimmed(named), '-');
}

/// The second part of a token, between its dots.
pub open spec fn token_payload(token: Seq<char>) -> Option<Seq<char>> {
    let parts = pieces(token, '.');
    if parts.len() > 1 {
        Some(parts[1])
    } else {
        None
    }
}

/// The number that a token's claims give for its expiry.
pub open spec fn expiry_claim(claims: JsonTree) -> Option<serde_json::Number> {
    match tree_member(claims, "exp"@) {
        Some(JsonTree::Number(n)) => Some(n),
        _ => None,
    }
}

/// The number that a token gives for its expiry, in seconds since the epoch.
pub open spec fn token_expiry(token: Seq<char>) -> Option<serde_json::Number> {
    match token_payload(token) {
        Some(payload) => match base64url_decoded(payload) {
            Some(bytes) => match parsed_json_bytes(bytes) {
                Some(claims) => expiry_claim(claims),
                None => None,
            },
            None => None,
        },
        None => None,
    }
}

/// The number that a token's claims give for its expiry.
pub fn expiry_claim_of(claims: Json) -> (r: Option<serde_json::Number>)
    requires
        claims.wf(),
    ensures
        r == expiry_claim(claims@),
{
    match claims.into_member("exp") {
        Some(Json::Number(n)) => Some(n),
        _ => None,
    }
}

/// The number that a token gives for its expiry, in seconds since the epoch.
pub fn decode_jwt_exp(token: &str) -> (r: Option<serde_json::Number>)
    ensures
        r == token_expiry(token@),
{
    let parts = split(token, '.');
    if parts.len() < 2 {
        return None;
    }
    assert(texts(parts@)[1] == parts@[1]@);
    let bytes = match base64url_decode(parts[1].as_str()) {
        Some(bytes) => bytes,
        None => {
            return None;
        },
    };
    match json::parse_bytes(bytes.as_slice()) {
        Some(claims) => expiry_claim_of(claims),
        None => None,
    }
}

/// When an access token expires.
pub enum Expiry {
    /// At the second since the epoch that the token gives.
    Claimed(serde_json::Number),
    /// An hour after the clock was read.
    HourAfter(Option<Elapsed>),
}

/// When a token expires that was received at `clock`.
pub open spec fn expiry_of(token: Seq<char>, clock: Option<Elapsed>) -> Expiry {
    match token_expiry(token) {
        Some(n) => Expiry::Claimed(n),
        None => Expiry::HourAfter(clock),
    }
}

pub(crate) fn expiry(token: &str, clock: Option<Elapsed>) -> (r: Expiry)
    ensures
        r == expiry_of(token@, clock),
{
    match decode_jwt_exp(token) {
        Some(n) => Expiry::Claimed(n),
        None => Expiry::HourAfter(clock),
    }
}

/// The addresses of the services.
pub struct BaseUrls {
    pub pd: String,
    pub glz: String,
    pub shared: String,
    pub local: String,
}

/// The address of a service in a region.
pub open spec fn service_url(region: Region, lockfile: Lockfile, api: Api) -> Seq<char> {
    match api {
        Api::Pd => "https://pd."@ + region.pd_shard@ + ".a.pvp.net"@,
        Api::Glz => "https://glz-"@ + region.glz_shard@ + "."@ + region.glz_region@
            + ".a.pvp.net"@,
        Api::Shared => "https://shared."@ + region.pd_shard@ + ".a.pvp.net"@,
        Api::Local => lockfile@.base_address(),
    }
}

/// The part of a session that changes while it lasts.
pub struct State {
    pub puuid: String,
    pub access_token: String,
    pub entitlements_token: String,
    pub client_version: String,
    pub expires_at: Option<Expiry>,
    /// The reading of a steady clock, in nanoseconds, before which the
    /// services are left alone.
    pub cooldown_until: Option<u128>,
}

pub struct Session {
    pub lockfile: Lockfile,
    pub region: Region,
    pub base_urls: BaseUrls,
    pub state: State,
    /// What authenticates the player, until the version is known too.
    pub granted: Option<Grant>,
}

/// What the local service says of the player.
pub struct EntitlementsResponse {
    pub access_token: Option<String>,
    pub token: Option<String>,
    pub subject: Option<String>,
    pub message: Option<String>,
}

/// What authenticates the player.
pub struct Grant {
    pub puuid: String,
    pub access_token: String,
    pub entitlements_token: String,
    pub expires_at: Expiry,
}

/// What happens while a session is authenticated.
pub enum AuthEvent {
    /// The region was found.
    Located(Region),
    /// The local service answered.
    Entitled { data: EntitlementsResponse, clock: Option<Elapsed> },
    /// The game's version was found.
    Versioned(String),
}

/// What is to be done to authenticate a session.
pub enum AuthAction {
    /// Ask the local service, after a wait.
    Ask { wait_secs: u64 },
    /// Find the game's version.
    FindVersion,
    /// Nothing; the session is authenticated.
    Done,
    /// Nothing; the version came before what authenticates the player.
    OutOfOrder,
}

/// How long to wait before the local service is asked again, if its answer
/// does not authenticate the player yet.
pub open spec fn entitlements_wait(data: EntitlementsResponse) -> Option<u64> {
    if data.message is Some && data.message->0@ == "Entitlements token is not ready yet"@ {
        Some(1)
    } else if data.message is Some && data.message->0@ == "Invalid URI format"@ {
        Some(5)
    } else if data.access_token is Some && data.token is Some {
        None
    } else {
        Some(1)
    }
}

/// Whether a grant is what an answer of the local service holds.
pub open spec fn grants(
    data: EntitlementsResponse,
    clock: Option<Elapsed>,
    grant: Grant,
) -> bool {
    &&& data.access_token == Some(grant.access_token)
    &&& data.token == Some(grant.entitlements_token)
    &&& grant.puuid@ == match data.subject {
        Some(subject) => subject@,
        None => Seq::empty(),
    }
    &&& grant.expires_at == expiry_of(grant.access_token@, clock)
}

/// Whether a session has the addresses of its region.
pub open spec fn located(urls: BaseUrls, region: Region, lockfile: Lockfile) -> bool {
    &&& urls.pd@ == service_url(region, lockfile, Api::Pd)
    &&& urls.glz@ == service_url(region, lockfile, Api::Glz)
    &&& urls.shared@ == service_url(region, lockfile, Api::Shared)
    &&& urls.local@ == service_url(region, lockfile, Api::Local)
}

/// Whether `action`, with the session then, is what authentication asks for
/// after `event`.
pub open spec fn auth_step(
    before: Session,
    event: AuthEvent,
    after: Session,
    action: AuthAction,
) -> bool {
    match event {
        AuthEvent::Located(region) => {
            &&& action == AuthAction::Ask { wait_secs: 0 }
            &&& after == (Session { region, base_urls: after.base_urls, ..before })
            &&& located(after.base_urls, region, before.lockfile)
        },
        AuthEvent::Entitled { data, clock } => match entitlements_wait(data) {
            Some(wait_secs) => after == before && action == (AuthAction::Ask { wait_secs }),
            None => {
                &&& action == AuthAction::FindVersion
                &&& after.granted is Some
                &&& grants(data, clock, after.granted->0)
                &&& after == (Session { granted: after.granted, ..before })
            },
        },
        AuthEvent::Versioned(version) => match before.granted {
            Some(grant) => {
                &&& action == AuthAction::Done
                &&& after == (Session {
                    granted: None,
                    state: State {
                        puuid: grant.puuid,
                        access_token: grant.access_token,
                        entitlements_token: grant.entitlements_token,
                        client_version: version,
                        expires_at: Some(grant.expires_at),
                        cooldown_until: before.state.cooldown_until,
                    },
                    ..before
                })
            },
            None => after == before && action == AuthAction::OutOfOrder,
        },
    }
}

impl Session {
    pub fn new(lockfile: Lockfile) -> (r: Self)
        ensures
            r.lockfile == lockfile,
            r.region.is_made_of(Seq::empty(), Seq::empty(), Seq::empty()),
            r.base_urls.pd@ == Seq::<char>::empty(),
            r.base_urls.glz@ == Seq::<char>::empty(),
            r.base_urls.shared@ == Seq::<char>::empty(),
            r.base_urls.local@ == Seq::<char>::empty(),
            r.state.puuid@ == Seq::<char>::empty(),
            r.state.access_token@ == Seq::<char>::empty(),
            r.state.entitlements_token@ == Seq::<char>::empty(),
            r.state.client_version@ == Seq::<char>::empty(),
            r.state.expires_at is None,
            r.state.cooldown_until is None,
            r.granted is None,
    {
        Session {
            lockfile,
            region: Region {
                pd_shard: String::new(),
                glz_shard: String::new(),
                glz_region: String::new(),
            },
            base_urls: BaseUrls {
                pd: String::new(),
                glz: String::new(),
                shared: String::new(),
                local: String::new(),
            },
            state: State {
                puuid: String::new(),
                access_token: String::new(),
                entitlements_token: String::new(),
                client_version: String::new(),
                expires_at: None,
                cooldown_until: None,
            },
            granted: None,
        }
    }

    pub fn puuid(&self) -> (r: String)
        ensures
            r == self.state.puuid,
    {
        self.state.puuid.clone()
    }

    pub fn region(&self) -> (r: &Region)
        ensures
            *r == self.region,
    {
        &self.region
    }

    /// The address of a service, as the session has it.
    pub open spec fn url_of(self, api: Api) -> Seq<char> {
        match api {
            Api::Pd => self.base_urls.pd@,
            Api::Glz => self.base_urls.glz@,
            Api::Shared => self.base_urls.shared@,
            Api::Local => self.base_urls.local@,
        }
    }

    pub(crate) fn base_url(&self, api: Api) -> (r: &str)
        ensures
            r@ == self.url_of(api),
    {
        match api {
            Api::Pd => self.base_urls.pd.as_str(),
            Api::Glz => self.base_urls.glz.as_str(),
            Api::Shared => self.base_urls.shared.as_str(),
            Api::Local => self.base_urls.local.as_str(),
        }
    }

    /// One step of authentication.
    pub fn authenticate(&mut self, event: AuthEvent) -> (action: AuthAction)
        ensures
            auth_step(*old(self), event, *final(self), action),
    {
        match event {
            AuthEvent::Located(region) => {
                self.base_urls = urls_of(&region, &self.lockfile);
                self.region = region;
                AuthAction::Ask { wait_secs: 0 }
            },
            AuthEvent::Entitled { data, clock } => {
                if let Some(wait_secs) = wait_for_entitlements(&data) {
                    return AuthAction::Ask { wait_secs };
                }
                match (data.access_token, data.token) {
                    (Some(access_token), Some(entitlements_token)) => {
                        let puuid = match data.subject {
                            Some(subject) => subject,
                            None => String::new(),
                        };
                        let expires_at = expiry(access_token.as_str(), clock);
                        self.granted = Some(
                            Grant { puuid, access_token, entitlements_token, expires_at },
                        );
                        AuthAction::FindVersion
                    },
                    _ => AuthAction::Ask { wait_secs: 1 },
                }
            },
            AuthEvent::Versioned(client_version) => {
                match self.granted.take() {
                    Some(grant) => {
                        self.state.puuid = grant.puuid;
                        self.state.access_token = grant.access_token;
                        self.state.entitlements_token = grant.entitlements_token;
                        self.state.client_version = client_version;
                        self.state.expires_at = Some(grant.expires_at);
                        AuthAction::Done
                    },
                    None => AuthAction::OutOfOrder,
                }
            },
        }
    }
}

fn urls_of(region: &Region, lockfile: &Lockfile) -> (r: BaseUrls)
    ensures
        located(r, *region, *lockfile),
{
    let mut pd = concat("https://pd.", region.pd_shard.as_str());
    append(&mut pd, ".a.pvp.net");
    let mut glz = concat("https://glz-", region.glz_shard.as_str());
    append(&mut glz, ".");
    append(&mut glz, region.glz_region.as_str());
    append(&mut glz, ".a.pvp.net");
    let mut shared = concat("https://shared.", region.pd_shard.as_str());
    append(&mut shared, ".a.pvp.net");
    BaseUrls { pd, glz, shared, local: lockfile.base_url() }
}

/// How long to wait before the local service is asked again, if its answer
/// does not authenticate the player yet.
pub fn wait_for_entitlements(data: &EntitlementsResponse) -> (r: Option<u64>)
    ensures
        r == entitlements_wait(*data),
{
    if let Some(message) = &data.message {
        if same(message.as_str(), "Entitlements token is not ready yet") {
            return Some(1);
        }
        if same(message.as_str(), "Invalid URI format") {
            return Some(5);
        }
    }
    if data.access_token.is_some() && data.token.is_some() {
        None
    } else {
        Some(1)
    }
}

/// An authenticated session has an access token of the answer that the local
/// service gave last, and the addresses of the region that was found.
pub proof fn authentication_keeps_its_parts(
    start: Session,
    region: Region,
    data: EntitlementsResponse,
    clock: Option<Elapsed>,
    version: String,
    found: Session,
    entitled: Session,
    done: Session,
    first: AuthAction,
    second: AuthAction,
    third: AuthAction,
)
    requires
        auth_step(start, AuthEvent::Located(region), found, first),
        auth_step(found, AuthEvent::Entitled { data, clock }, entitled, second),
        auth_step(entitled, AuthEvent::Versioned(version), done, third),
        second == AuthAction::FindVersion,
    ensures
        third == AuthAction::Done,
        done.region == region,
        located(done.base_urls, region, start.lockfile),
        data.access_token == Some(done.state.access_token),
        data.token == Some(done.state.entitlements_token),
        done.state.client_version == version,
        done.state.expires_at == Some(expiry_of(done.state.access_token@, clock)),
        done.lockfile == start.lockfile,
{
}

/// The first line in which a pattern matches gives the match, and none that
/// follows does; where it matches in no line there is none.
pub proof fn first_matching_line_counts(pattern: Seq<char>, all: Seq<Seq<char>>, at: int)
    requires
        0 <= at <= all.len(),
        forall|i: int| 0 <= i < at ==> regex_groups(pattern, #[trigger] all[i]) is None,
        at == all.len() || regex_groups(pattern, all[at]) is Some,
    ensures
        first_match(pattern, all) == if at < all.len() {
            regex_groups(pattern, all[at])
        } else {
            None
        },
    decreases at,
{
    if at > 0 {
        assert(regex_groups(pattern, all[0]) is None);
        let rest = all.drop_first();
        assert forall|i: int| 0 <= i < at - 1 implies regex_groups(pattern, #[trigger] rest[i])
            is None by {
            assert(rest[i] == all[i + 1]);
        }
        first_matching_line_counts(pattern, rest, at - 1);
    }
}

/// The region has the shard of the first address of the account service, and the
/// shard and region of the first address of the match service; the test
/// environment counts as North America. Without both addresses there is none.
pub proof fn region_is_made_of_the_first_addresses(
    log: Seq<char>,
    pd: Seq<Option<Seq<char>>>,
    glz: Seq<Option<Seq<char>>>,
    region: Option<Region>,
)
    requires
        regex_compiles(r"https://pd\.(\w+)\.a\.pvp\.net/account-xp/v1/"@),
        regex_compiles(r"https://glz-(\w[\w-]*)\.(\w+)\.a\.pvp\.net"@),
        names_region(log, region),
    ensures
        first_match(r"https://pd\.(\w+)\.a\.pvp\.net/account-xp/v1/"@, lines(log)) == Some(pd)
            && first_match(r"https://glz-(\w[\w-]*)\.(\w+)\.a\.pvp\.net"@, lines(log)) == Some(
            glz,
        ) && pd.len() > 1 && pd[1] is Some && glz.len() > 2 && glz[1] is Some && glz[2] is Some
            ==> {
            &&& region is Some
            &&& pd[1]->0 == "pbe"@ ==> region->0.pd_shard@ == "na"@ && region->0.glz_shard@
                == "na-1"@ && region->0.glz_region@ == "na"@
            &&& pd[1]->0 != "pbe"@ ==> region->0.pd_shard@ == pd[1]->0 && region->0.glz_shard@
                == glz[1]->0 && region->0.glz_region@ == glz[2]->0
        },
        first_match(r"https://pd\.(\w+)\.a\.pvp\.net/account-xp/v1/"@, lines(log)) is None
            ==> region is None,
        first_match(r"https://glz-(\w[\w-]*)\.(\w+)\.a\.pvp\.net"@, lines(log)) is None
            ==> region is None,
{
}

/// The version is what the first line says that names one, in the form that the
/// services know.
pub proof fn version_is_what_the_first_line_says(log: Seq<char>, groups: Seq<Option<Seq<char>>>)
    requires
        regex_compiles(r"CI server version:\s*(.+)"@),
    ensures
        first_match(r"CI server version:\s*(.+)"@, lines(log)) == Some(groups) && groups.len() > 1
            && groups[1] is Some ==> named_version(log) == Some(version_text(groups[1]->0)),
        first_match(r"CI server version:\s*(.+)"@, lines(log)) is None ==> named_version(log)
            is None,
{
}

/// A version of two parts or more that does not name `shipping` gets it as its
/// third part, before what follows; one of a single part stays as it is. White
/// space around it makes no difference.
pub proof fn shipping_is_put_third(
    first: Seq<char>,
    second: Seq<char>,
    rest: Seq<char>,
    named: Seq<char>,
)
    requires
        !first.contains('-'),
        !second.contains('-'),
        first != "shipping"@,
        second != "shipping"@,
        !pieces(rest, '-').contains("shipping"@),
    ensures
        trimmed(named) == first + seq!['-'] + (second + seq!['-'] + rest) ==> version_text(named)
            == first + "-"@ + second + "-shipping-"@ + rest,
        trimmed(named) == first + seq!['-'] + second ==> version_text(named) == first + "-"@
            + second + "-shipping"@,
        trimmed(named) == first ==> version_text(named) == first,
{
    reveal_strlit("-");
    reveal_strlit("-shipping");
    reveal_strlit("-shipping-");
    reveal_strlit("shipping");
    assert("-"@ =~= seq!['-']);
    assert("-shipping"@ =~= "-"@ + "shipping"@);
    assert("-shipping-"@ =~= "-"@ + "shipping"@ + "-"@);
    joined_texts_are_the_pieces(seq![first], '-');
    assert(joined(seq![first], seq!['-']) == first);
    joined_texts_are_the_pieces(seq![second], '-');
    assert(joined(seq![second], seq!['-']) == second);
    let parts = pieces(trimmed(named), '-');
    if trimmed(named) == first {
        assert(parts == seq![first]);
        assert(!parts.contains("shipping"@)) by {
            assert(parts[0] != "shipping"@);
        }
    }
    if trimmed(named) == first + seq!['-'] + second {
        pieces_of_both(first, second, '-');
        assert(parts =~= seq![first, second]);
        assert(!parts.contains("shipping"@)) by {
            assert(parts[0] != "shipping"@ && parts[1] != "shipping"@);
        }
        let full = parts.insert(2, "shipping"@);
        assert(full =~= seq![first, second].push("shipping"@));
        joining_separates(seq![first, second], "shipping"@, "-"@);
        joining_separates(seq![first], second, "-"@);
        assert(seq![first].push(second) =~= seq![first, second]);
        assert(joined(full, "-"@) =~= first + "-"@ + second + "-shipping"@);
    }
    if trimmed(named) == first + seq!['-'] + (second + seq!['-'] + rest) {
        pieces_of_both(second, rest, '-');
        pieces_of_both(first, second + seq!['-'] + rest, '-');
        let tail = pieces(rest, '-');
        assert(parts =~= seq![first, second] + tail);
        assert(!parts.contains("shipping"@)) by {
            if parts.contains("shipping"@) {
                let i = choose|i: int| 0 <= i < parts.len() && parts[i] == "shipping"@;
                if i >= 2 {
                    assert(tail[i - 2] == "shipping"@);
                    assert(tail.contains("shipping"@));
                }
            }
        }
        let full = parts.insert(2, "shipping"@);
        let head = seq![first, second, "shipping"@];
        assert(full =~= head + tail);
        pieces_never_empty(rest, '-');
        joined_of_both(head, tail, "-"@);
        pieces_joined_again(rest, '-');
        joining_separates(seq![first, second], "shipping"@, "-"@);
        joining_separates(seq![first], second, "-"@);
        assert(seq![first].push(second) =~= seq![first, second]);
        assert(seq![first, second].push("shipping"@) =~= head);
        assert(joined(full, "-"@) =~= first + "-"@ + second + "-shipping-"@ + rest);
    }
}

/// The expiry of a token is the number `exp` in the claims that its second part
/// spells; a token without it, or that cannot be read, lasts an hour from when it
/// was received.
pub proof fn expiry_is_claimed_or_an_hour(
    head: Seq<char>,
    payload: Seq<char>,
    signature: Seq<char>,
    claims: Map<Seq<char>, JsonTree>,
    clock: Option<Elapsed>,
)
    requires
        !head.contains('.'),
        !payload.contains('.'),
        base64url_decoded(payload) is Some,
        parsed_json_bytes(base64url_decoded(payload)->0) == Some(JsonTree::Object(claims)),
    ensures
        ({
            let token = head + seq!['.'] + (payload + seq!['.'] + signature);
            &&& claims.dom().contains("exp"@) ==> (claims["exp"@] matches JsonTree::Number(n)
                ==> expiry_of(token, clock) == Expiry::Claimed(n))
            &&& !claims.dom().contains("exp"@) || claims["exp"@] !is Number ==> expiry_of(
                token,
                clock,
            ) == Expiry::HourAfter(clock)
        }),
        expiry_of(head, clock) == Expiry::HourAfter(clock),
{
    joined_texts_are_the_pieces(seq![head], '.');
    assert(joined(seq![head], seq!['.']) == head);
    joined_texts_are_the_pieces(seq![payload], '.');
    assert(joined(seq![payload], seq!['.']) == payload);
    pieces_of_both(payload, signature, '.');
    pieces_of_both(head, payload + seq!['.'] + signature, '.');
    pieces_never_empty(signature, '.');
}

/// An answer that brings both tokens and neither says that it is not ready nor
/// that the address is malformed authenticates the player; any other is asked for
/// again, after a second, or after five where the address was malformed.
pub proof fn entitlements_are_asked_for_until_they_come(data: EntitlementsResponse)
    ensures
        ({
            let unready = data.message is Some && data.message->0@
                == "Entitlements token is not ready yet"@;
            let malformed = data.message is Some && data.message->0@ == "Invalid URI format"@;
            let complete = data.access_token is Some && data.token is Some;
            &&& entitlements_wait(data) is None <==> complete && !unready && !malformed
            &&& malformed ==> entitlements_wait(data) == Some(5u64)
            &&& unready || (!malformed && !complete) ==> entitlements_wait(data) == Some(1u64)
        }),
{
    reveal_strlit("Entitlements token is not ready yet");
    reveal_strlit("Invalid URI format");
    assert("Entitlements token is not ready yet"@[0] == 'E');
    assert("Invalid URI format"@[0] == 'I');
}

/// The services are at the addresses of the region: the account's shard names two
/// of them, the shard and region of matches the third, and the lockfile the one on
/// this machine.
pub proof fn services_are_in_the_region(urls: BaseUrls, region: Region, lockfile: Lockfile)
    requires
        located(urls, region, lockfile),
    ensures
        urls.pd@ == "https://pd."@ + region.pd_shard@ + ".a.pvp.net"@,
        urls.glz@ == "https://glz-"@ + region.glz_shard@ + "."@ + region.glz_region@
            + ".a.pvp.net"@,
        urls.shared@ == "https://shared."@ + region.pd_shard@ + ".a.pvp.net"@,
        urls.local@ == lockfile.protocol@ + "://127.0.0.1:"@ + decimal(lockfile.port as nat),
{
}

/// Each step of authentication does its part and leaves the rest: the region and
/// the addresses, what authenticates the player, and with the version the whole.
pub proof fn authentication_goes_step_by_step(
    before: Session,
    region: Region,
    data: EntitlementsResponse,
    clock: Option<Elapsed>,
    version: String,
    after: Session,
    action: AuthAction,
)
    ensures
        auth_step(before, AuthEvent::Located(region), after, action) ==> {
            &&& action == (AuthAction::Ask { wait_secs: 0 })
            &&& after.region == region
            &&& after.state == before.state
            &&& after.lockfile == before.lockfile
            &&& after.granted == before.granted
            &&& located(after.base_urls, region, before.lockfile)
        },
        auth_step(before, AuthEvent::Entitled { data, clock }, after, action) ==> {
            &&& after.state == before.state
            &&& after.region == before.region
            &&& after.base_urls == before.base_urls
            &&& entitlements_wait(data) matches Some(wait_secs) ==> action == (AuthAction::Ask {
                wait_secs,
            }) && after == before
            &&& entitlements_wait(data) is None ==> {
                &&& action == AuthAction::FindVersion
                &&& after.granted is Some
                &&& data.access_token == Some(after.granted->0.access_token)
                &&& data.token == Some(after.granted->0.entitlements_token)
                &&& data.subject is Some ==> after.granted->0.puuid@ == data.subject->0@
                &&& data.subject is None ==> after.granted->0.puuid@.len() == 0
                &&& after.granted->0.expires_at == expiry_of(
                    after.granted->0.access_token@,
                    clock,
                )
            }
        },
        auth_step(before, AuthEvent::Versioned(version), after, action) ==> {
            &&& before.granted is None ==> action == AuthAction::OutOfOrder && after == before
            &&& before.granted is Some ==> {
                &&& action == AuthAction::Done
                &&& after.state.client_version == version
                &&& after.state.access_token == before.granted->0.access_token
                &&& after.state.entitlements_token == before.granted->0.entitlements_token
                &&& after.state.puuid == before.granted->0.puuid
                &&& after.state.expires_at == Some(before.granted->0.expires_at)
                &&& after.state.cooldown_until == before.state.cooldown_until
                &&& after.granted is None
                &&& after.region == before.region
                &&& after.base_urls == before.base_urls
            }
        },
{
}

/// A token whose second part cannot be decoded, or spells no claims, lasts an hour
/// from when it was received.
pub proof fn unreadable_token_lasts_an_hour(
    head: Seq<char>,
    payload: Seq<char>,
    signature: Seq<char>,
    clock: Option<Elapsed>,
)
    requires
        !head.contains('.'),
        !payload.contains('.'),
        base64url_decoded(payload) is None || parsed_json_bytes(base64url_decoded(payload)->0)
            !is Some || parsed_json_bytes(base64url_decoded(payload)->0)->0 !is Object,
    ensures
        expiry_of(head + seq!['.'] + (payload + seq!['.'] + signature), clock)
            == Expiry::HourAfter(clock),
{
    joined_texts_are_the_pieces(seq![head], '.');
    assert(joined(seq![head], seq!['.']) == head);
    joined_texts_are_the_pieces(seq![payload], '.');
    assert(joined(seq![payload], seq!['.']) == payload);
    pieces_of_both(payload, signature, '.');
    pieces_of_both(head, payload + seq!['.'] + signature, '.');
    pieces_never_empty(signature, '.');
}

/// The three names that were found make the region, and all three are needed.
pub proof fn region_needs_three_names(
    region: Option<Region>,
    pd_shard: Option<Seq<char>>,
    glz_shard: Option<Seq<char>>,
    glz_region: Option<Seq<char>>,
)
    requires
        is_region_of(region, pd_shard, glz_shard, glz_region),
    ensures
        region is Some <==> pd_shard is Some && glz_shard is Some && glz_region is Some,
        region is Some && pd_shard->0 != "pbe"@ ==> region->0.pd_shard@ == pd_shard->0
            && region->0.glz_shard@ == glz_shard->0 && region->0.glz_region@ == glz_region->0,
        region is Some && pd_shard->0 == "pbe"@ ==> region->0.pd_shard@ == "na"@
            && region->0.glz_shard@ == "na-1"@ && region->0.glz_region@ == "na"@,
{
}

} // verus!
