//! The player's presence, and what is collected while a match is set up and
//! played.

use vstd::prelude::*;
use vstd::utf8::encode_utf8;

use crate::dedup::bodies_are_marked_by_their_other_fields;
use crate::dedup::marked;
use crate::dedup::marker;
use crate::dedup::Marker;
use crate::encoding::base64_decode;
use crate::encoding::base64_decoded;
use crate::encoding::hex;
use crate::encoding::sha256_digest;
use crate::events::Event;
use crate::fetch::ApiResponse;
use crate::http::is_success;
use crate::http::success;
use crate::json;
use crate::json::json_text;
use crate::json::parsed_json;
use crate::json::parsed_json_bytes;
use crate::json::tree_item;
use crate::json::tree_member;
use crate::json::tree_member_text;
use crate::json::Json;
use crate::json::JsonTree;
use crate::text::append;
use crate::text::concat;
use crate::text::contains;
use crate::text::holds_text;
use crate::text::same;
use crate::text::stands_at;

verus! {

/// What the local websocket is asked for: the presences, in the first version
/// of WAMP.
pub const SUBSCRIBE_PRESENCE: &'static str = "[5,\"OnJsonApiEvent_chat_v4_presences\"]";

/// The pause before the local websocket is opened again, in seconds.
pub const RECONNECT_SECS: u64 = 3;

/// The pause before loadouts are asked for again, in seconds.
pub const LOADOUT_RETRY_SECS: u64 = 10;

/// The fields of a match that change while nothing happens.
pub const PREGAME_VOLATILE: [&'static str; 4] = [
    "Version",
    "PhaseTimeRemainingNS",
    "StepTimeRemainingNS",
    "LastUpdated",
];

/// The presences in a message.
pub open spec fn presences(message: JsonTree) -> Option<Seq<JsonTree>> {
    match tree_item(message, 2) {
        Some(event) => match tree_member(event, "data"@) {
            Some(data) => match tree_member(data, "presences"@) {
                Some(JsonTree::Array(items)) => Some(items),
                _ => None,
            },
            None => None,
        },
        None => None,
    }
}

/// Whether a presence is that of a player in the game.
pub open spec fn is_own(presence: JsonTree, puuid: Seq<char>) -> bool {
    tree_member_text(presence, "puuid"@) == Some(puuid) && tree_member_text(presence, "product"@)
        == Some("valorant"@)
}

/// The first presence of a player in the game.
pub open spec fn first_own(items: Seq<JsonTree>, puuid: Seq<char>) -> Option<JsonTree>
    decreases items.len(),
{
    if items.len() == 0 {
        None
    } else if is_own(items[0], puuid) {
        Some(items[0])
    } else {
        first_own(items.drop_first(), puuid)
    }
}

/// The private part of a player's presence, as a message carries it.
pub open spec fn private_part(message: JsonTree, puuid: Seq<char>) -> Option<Seq<char>> {
    match presences(message) {
        Some(items) => match first_own(items, puuid) {
            Some(presence) => tree_member_text(presence, "private"@),
            None => None,
        },
        None => None,
    }
}

/// A text that is filled up with `=` to a number of bytes that four divides.
pub open spec fn padded(encoded: Seq<char>) -> Seq<char> {
    encoded + Seq::new(padding(encode_utf8(encoded).len()), |i: int| '=')
}

/// What is missing to a number that four divides.
pub open spec fn padding(len: nat) -> nat {
    ((4 - len % 4) % 4) as nat
}

/// The value in the private part of a presence.
pub open spec fn private_value(encoded: Seq<char>) -> Option<JsonTree> {
    match base64_decoded(padded(encoded)) {
        Some(bytes) => parsed_json_bytes(bytes),
        None => None,
    }
}

/// The state of the game, in the private part of a presence.
pub open spec fn loop_state(private: JsonTree) -> Option<Seq<char>> {
    match tree_member(private, "matchPresenceData"@) {
        Some(data) => tree_member_text(data, "sessionLoopState"@),
        None => None,
    }
}

/// The state of a player's game, in a message, if it says so.
pub open spec fn state_in(text: Seq<char>, puuid: Seq<char>) -> Option<Seq<char>> {
    match parsed_json(text) {
        Some(message) => match private_part(message, puuid) {
            Some(encoded) => match private_value(encoded) {
                Some(private) => loop_state(private),
                None => None,
            },
            None => None,
        },
        None => None,
    }
}

/// The presences in a message.
fn presences_of(message: &Json) -> (r: Option<&Vec<Json>>)
    requires
        message.wf(),
    ensures
        match r {
            Some(items) => {
                &&& presences(message@) is Some
                &&& presences(message@)->0.len() == items.len()
                &&& forall|i: int|
                    0 <= i < items.len() ==> (#[trigger] items@[i]).wf() && items@[i]@ == presences(
                        message@,
                    )->0[i]
            },
            None => presences(message@) is None,
        },
{
    match message.item(2) {
        Some(event) => match event.member("data") {
            Some(data) => match data.member("presences") {
                Some(items) => items.items(),
                None => None,
            },
            None => None,
        },
        None => None,
    }
}

/// Whether a member of an object is a given text.
fn member_is(object: &Json, name: &str, text: &str) -> (r: bool)
    requires
        object.wf(),
    ensures
        r == (tree_member_text(object@, name@) == Some(text@)),
{
    match object.member_text(name) {
        Some(found) => same(found, text),
        None => false,
    }
}

/// The private part of a player's presence, as a message carries it.
pub fn private_of<'a>(message: &'a Json, puuid: &str) -> (r: Option<&'a str>)
    requires
        message.wf(),
    ensures
        match r {
            Some(encoded) => private_part(message@, puuid@) == Some(encoded@),
            None => private_part(message@, puuid@) is None,
        },
{
    let items = match presences_of(message) {
        Some(items) => items,
        None => {
            return None;
        },
    };
    let ghost all = presences(message@)->0;
    assert(all.skip(0) =~= all);
    let mut i: usize = 0;
    while i < items.len()
        invariant
            i <= items.len(),
            presences(message@) == Some(all),
            all.len() == items.len(),
            forall|k: int|
                0 <= k < items.len() ==> (#[trigger] items@[k]).wf() && items@[k]@ == all[k],
            first_own(all, puuid@) == first_own(all.skip(i as int), puuid@),
        decreases items.len() - i,
    {
        let ghost left = all.skip(i as int);
        assert(items@[i as int]@ == left[0]);
        assert(left.drop_first() =~= all.skip(i + 1));
        if member_is(&items[i], "puuid", puuid) && member_is(&items[i], "product", "valorant") {
            return items[i].member_text("private");
        }
        i += 1;
    }
    None
}

/// The value in the private part of a presence.
pub fn decode_private(encoded: &str) -> (r: Option<Json>)
    ensures
        match r {
            Some(private) => private.wf() && private_value(encoded@) == Some(private@),
            None => private_value(encoded@) is None,
        },
{
    let missing: usize = (4 - encoded.as_bytes().len() % 4) % 4;
    let mut text = encoded.to_owned();
    let mut i: usize = 0;
    assert(text@ =~= encoded@ + Seq::new(0, |i: int| '='));
    while i < missing
        invariant
            i <= missing,
            text@ == encoded@ + Seq::new(i as nat, |i: int| '='),
        decreases missing - i,
    {
        text.push('=');
        i += 1;
        assert(text@ =~= encoded@ + Seq::new(i as nat, |i: int| '='));
    }
    match base64_decode(text.as_str()) {
        Some(bytes) => json::parse_bytes(bytes.as_slice()),
        None => None,
    }
}

/// The state of the game, in the private part of a presence.
pub fn loop_state_of(private: &Json) -> (r: Option<&str>)
    requires
        private.wf(),
    ensures
        match r {
            Some(state) => loop_state(private@) == Some(state@),
            None => loop_state(private@) is None,
        },
{
    match private.member("matchPresenceData") {
        Some(data) => data.member_text("sessionLoopState"),
        None => None,
    }
}

/// The state of a player's game, in a message, if it says so.
pub fn extract_state(text: &str, puuid: &str) -> (r: Option<String>)
    ensures
        match r {
            Some(state) => state_in(text@, puuid@) == Some(state@),
            None => state_in(text@, puuid@) is None,
        },
{
    let message = match json::parse(text) {
        Some(message) => message,
        None => {
            return None;
        },
    };
    let private = match private_of(&message, puuid) {
        Some(encoded) => decode_private(encoded),
        None => None,
    };
    match private {
        Some(private) => match loop_state_of(&private) {
            Some(state) => Some(state.to_owned()),
            None => None,
        },
        None => None,
    }
}

/// What a player does that is collected.
#[derive(Debug, Clone, Copy, PartialEq, Eq, Structural)]
pub enum Activity {
    /// A match is set up.
    Pregame,
    /// A match is played.
    Match,
}

/// The activity that a state of the game stands for.
pub open spec fn activity_in(state: Seq<char>) -> Option<Activity> {
    if state == "PREGAME"@ {
        Some(Activity::Pregame)
    } else if state == "INGAME"@ {
        Some(Activity::Match)
    } else {
        None
    }
}

/// The activity of a player whose last known state of the game is `state`.
pub open spec fn activity_of(state: Option<Seq<char>>) -> Option<Activity> {
    match state {
        Some(state) => activity_in(state),
        None => None,
    }
}

fn activity(state: &str) -> (r: Option<Activity>)
    ensures
        r == activity_in(state@),
{
    if same(state, "PREGAME") {
        Some(Activity::Pregame)
    } else if same(state, "INGAME") {
        Some(Activity::Match)
    } else {
        None
    }
}

/// The event that tells that an activity began.
pub fn started(activity: Activity) -> (event: Event)
    ensures
        event == match activity {
            Activity::Pregame => Event::PregameStarted,
            Activity::Match => Event::MatchStarted,
        },
{
    match activity {
        Activity::Pregame => Event::PregameStarted,
        Activity::Match => Event::MatchStarted,
    }
}

/// The event that tells that an activity ended.
pub fn ended(activity: Activity) -> (event: Event)
    ensures
        event == match activity {
            Activity::Pregame => Event::PregameEnded,
            Activity::Match => Event::MatchEnded,
        },
{
    match activity {
        Activity::Pregame => Event::PregameEnded,
        Activity::Match => Event::MatchEnded,
    }
}

/// What is to be done when a player's state changes.
#[derive(Debug, Clone, Copy, PartialEq, Eq, Structural)]
pub enum TrackerAction {
    /// Stop collecting.
    Stop(Activity),
    /// Tell that it ended.
    TellEnded(Activity),
    /// Tell that it began.
    TellStarted(Activity),
    /// Start collecting.
    Start(Activity),
}

/// What is to be done when an activity ends.
pub open spec fn closing(activity: Option<Activity>) -> Seq<TrackerAction> {
    match activity {
        Some(activity) => seq![TrackerAction::Stop(activity), TrackerAction::TellEnded(activity)],
        None => Seq::empty(),
    }
}

/// What is to be done when an activity begins.
pub open spec fn opening(activity: Option<Activity>) -> Seq<TrackerAction> {
    match activity {
        Some(activity) => seq![TrackerAction::TellStarted(activity), TrackerAction::Start(activity)],
        None => Seq::empty(),
    }
}

/// What follows when a message says that the state is `next`, if it says so.
pub open spec fn tracker_step(state: Option<Seq<char>>, next: Option<Seq<char>>) -> (
    Option<Seq<char>>,
    Seq<TrackerAction>,
) {
    if next is None || next == state {
        (state, Seq::empty())
    } else {
        (next, closing(activity_of(state)) + opening(activity_of(next)))
    }
}

/// Follows the state of a player's game.
pub struct Tracker {
    state: Option<String>,
}

impl View for Tracker {
    type V = Option<Seq<char>>;

    closed spec fn view(&self) -> Option<Seq<char>> {
        match self.state {
            Some(state) => Some(state@),
            None => None,
        }
    }
}

impl Tracker {
    pub fn new() -> (r: Self)
        ensures
            r@ is None,
    {
        Tracker { state: None }
    }

    /// Takes note of the state that a message says, if it says one.
    pub fn on_state(&mut self, state: Option<String>) -> (actions: Vec<TrackerAction>)
        ensures
            (final(self)@, actions@) == tracker_step(
                old(self)@,
                match state {
                    Some(state) => Some(state@),
                    None => None,
                },
            ),
    {
        let mut actions: Vec<TrackerAction> = Vec::new();
        let next = match state {
            Some(next) => next,
            None => {
                assert(actions@ =~= Seq::<TrackerAction>::empty());
                return actions;
            },
        };
        if let Some(state) = &self.state {
            if same(state.as_str(), next.as_str()) {
                assert(actions@ =~= Seq::<TrackerAction>::empty());
                return actions;
            }
            if let Some(activity) = activity(state.as_str()) {
                actions.push(TrackerAction::Stop(activity));
                actions.push(TrackerAction::TellEnded(activity));
            }
        }
        assert(actions@ =~= closing(activity_of(self@)));
        if let Some(activity) = activity(next.as_str()) {
            actions.push(TrackerAction::TellStarted(activity));
            actions.push(TrackerAction::Start(activity));
        }
        assert(actions@ =~= closing(activity_of(self@)) + opening(activity_in(next@)));
        self.state = Some(next);
        actions
    }

    /// Takes note of a message.
    pub fn on_message(&mut self, text: &str, puuid: &str) -> (actions: Vec<TrackerAction>)
        ensures
            (final(self)@, actions@) == tracker_step(old(self)@, state_in(text@, puuid@)),
    {
        self.on_state(extract_state(text, puuid))
    }
}

/// What runs and what was told while a player is followed.
pub struct Following {
    /// What is being collected.
    pub collected: Option<Activity>,
    /// What was told to have begun, and not to have ended.
    pub told: Option<Activity>,
}

/// What runs and what was told once an action is done, or `None` where the
/// action makes no sense: something is stopped that does not run, or started
/// while something runs, or told out of turn.
pub open spec fn applied(following: Option<Following>, action: TrackerAction) -> Option<Following> {
    match following {
        Some(following) => match action {
            TrackerAction::Stop(activity) => if following.collected == Some(activity) {
                Some(Following { collected: None, ..following })
            } else {
                None
            },
            TrackerAction::TellEnded(activity) => if following.told == Some(activity) {
                Some(Following { told: None, ..following })
            } else {
                None
            },
            TrackerAction::TellStarted(activity) => if following.told is None {
                Some(Following { told: Some(activity), ..following })
            } else {
                None
            },
            TrackerAction::Start(activity) => if following.collected is None {
                Some(Following { collected: Some(activity), ..following })
            } else {
                None
            },
        },
        None => None,
    }
}

/// What runs and what was told once all actions are done, in order.
pub open spec fn all_applied(
    following: Option<Following>,
    actions: Seq<TrackerAction>,
) -> Option<Following>
    decreases actions.len(),
{
    if actions.len() == 0 {
        following
    } else {
        applied(all_applied(following, actions.drop_last()), actions.last())
    }
}

/// The state and all actions after a number of messages, each given by the
/// state that it says.
pub open spec fn followed(states: Seq<Option<Seq<char>>>) -> (Option<Seq<char>>, Seq<TrackerAction>)
    decreases states.len(),
{
    if states.len() == 0 {
        (None, Seq::empty())
    } else {
        let (before, done) = followed(states.drop_last());
        let (after, actions) = tracker_step(before, states.last());
        (after, done + actions)
    }
}

proof fn applied_in_turn(
    following: Option<Following>,
    first: Seq<TrackerAction>,
    second: Seq<TrackerAction>,
)
    ensures
        all_applied(following, first + second) == all_applied(
            all_applied(following, first),
            second,
        ),
    decreases second.len(),
{
    if second.len() == 0 {
        assert(first + second =~= first);
    } else {
        applied_in_turn(following, first, second.drop_last());
        assert((first + second).drop_last() =~= first + second.drop_last());
    }
}

proof fn closing_ends(activity: Option<Activity>)
    ensures
        all_applied(
            Some(Following { collected: activity, told: activity }),
            closing(activity),
        ) == Some(Following { collected: None, told: None }),
        all_applied(Some(Following { collected: None, told: None }), opening(activity)) == Some(
            Following { collected: activity, told: activity },
        ),
{
    reveal_with_fuel(all_applied, 3);
    if let Some(a) = activity {
        assert(closing(activity).drop_last() =~= seq![TrackerAction::Stop(a)]);
        assert(opening(activity).drop_last() =~= seq![TrackerAction::TellStarted(a)]);
    }
}

/// Whatever the messages say, at most one thing is collected at a time, and it
/// is what the last known state stands for; nothing is stopped that does not
/// run; and the beginnings and ends that are told alternate.
pub proof fn collection_follows_the_state(states: Seq<Option<Seq<char>>>)
    ensures
        ({
            let (state, actions) = followed(states);
            all_applied(Some(Following { collected: None, told: None }), actions) == Some(
                Following { collected: activity_of(state), told: activity_of(state) },
            )
        }),
    decreases states.len(),
{
    if states.len() > 0 {
        collection_follows_the_state(states.drop_last());
        let (before, done) = followed(states.drop_last());
        let (after, actions) = tracker_step(before, states.last());
        let start = Some(Following { collected: None, told: None });
        applied_in_turn(start, done, actions);
        if states.last() is Some && states.last() != before {
            closing_ends(activity_of(before));
            closing_ends(activity_of(after));
            applied_in_turn(
                Some(Following { collected: activity_of(before), told: activity_of(before) }),
                closing(activity_of(before)),
                opening(activity_of(after)),
            );
        }
    }
}

/// The match that a response names.
pub open spec fn match_in(body: Option<JsonTree>) -> Option<Seq<char>> {
    match body {
        Some(body) => tree_member_text(body, "MatchID"@),
        None => None,
    }
}

/// The match that a response names, `None` where there was no response.
pub open spec fn found_match(response: Option<ApiResponse>) -> Option<Seq<char>> {
    match response {
        Some(response) => if success(response.status) {
            match_in(parsed_json(response.body@))
        } else {
            None
        },
        None => None,
    }
}

/// The match that a response's value names.
pub fn match_id_of(body: &Json) -> (r: Option<String>)
    requires
        body.wf(),
    ensures
        match r {
            Some(id) => match_in(Some(body@)) == Some(id@),
            None => match_in(Some(body@)) is None,
        },
{
    match body.member_text("MatchID") {
        Some(id) => Some(id.to_owned()),
        None => None,
    }
}

/// The match that a response names, `None` where there was no response.
pub fn fetch_match_id(response: &Option<ApiResponse>) -> (r: Option<String>)
    ensures
        match r {
            Some(id) => found_match(*response) == Some(id@),
            None => found_match(*response) is None,
        },
{
    match response {
        Some(response) => {
            if !is_success(response.status) {
                return None;
            }
            match json::parse(response.body.as_str()) {
                Some(body) => match_id_of(&body),
                None => None,
            }
        },
        None => None,
    }
}

/// What stands for the body of a match that is set up.
pub open spec fn pregame_marker(body: Seq<char>) -> Seq<char> {
    marked(body, parsed_json(body), Marker::HashExcluding(&PREGAME_VOLATILE))
}

/// What is to be done with a match that is set up.
#[derive(Debug, Clone, Copy, PartialEq, Eq, Structural)]
pub struct PregameStep {
    /// Forward the response's body.
    pub submit: bool,
    /// Ask no more.
    pub over: bool,
}

/// Asks for a match that is set up, and knows what it was like last.
pub struct PregamePoll {
    last_marker: Option<String>,
}

impl View for PregamePoll {
    type V = Option<Seq<char>>;

    closed spec fn view(&self) -> Option<Seq<char>> {
        match self.last_marker {
            Some(marker) => Some(marker@),
            None => None,
        }
    }
}

/// What follows a response, `None` where there was none, to a poll that knows
/// the marker `last`.
pub open spec fn pregame_step(last: Option<Seq<char>>, response: Option<ApiResponse>) -> (
    Option<Seq<char>>,
    PregameStep,
) {
    match response {
        Some(response) => if success(response.status) {
            (
                Some(pregame_marker(response.body@)),
                PregameStep {
                    submit: last != Some(pregame_marker(response.body@)),
                    over: holds_text(response.body@, "character_select_finished"@),
                },
            )
        } else {
            (last, PregameStep { submit: false, over: response.status == 404 })
        },
        None => (last, PregameStep { submit: false, over: false }),
    }
}

/// The path of the match that a player sets up.
pub fn pregame_player_path(puuid: &str) -> (r: String)
    ensures
        r@ == "/pregame/v1/players/"@ + puuid@,
{
    concat("/pregame/v1/players/", puuid)
}

/// The path of a match that is set up.
pub fn pregame_match_path(match_id: &str) -> (r: String)
    ensures
        r@ == "/pregame/v1/matches/"@ + match_id@,
{
    concat("/pregame/v1/matches/", match_id)
}

/// Where a match that is set up is forwarded to.
pub const PREGAME_SERVER_PATH: &'static str = "/v1/pregame";

impl PregamePoll {
    pub fn new() -> (r: Self)
        ensures
            r@ is None,
    {
        PregamePoll { last_marker: None }
    }

    /// Takes note of a marker, and says whether it is a new one.
    pub fn note(&mut self, marker: String) -> (new: bool)
        ensures
            final(self)@ == Some(marker@),
            new == (old(self)@ != Some(marker@)),
    {
        let known = match &self.last_marker {
            Some(last) => same(last.as_str(), marker.as_str()),
            None => false,
        };
        if !known {
            self.last_marker = Some(marker);
        }
        !known
    }

    /// Takes note of a response, `None` where there was none.
    pub fn poll_pregame(&mut self, response: &Option<ApiResponse>) -> (step: PregameStep)
        ensures
            (final(self)@, step) == pregame_step(old(self)@, *response),
    {
        match response {
            Some(response) => {
                if is_success(response.status) {
                    let body = response.body.as_str();
                    let marker = marker(body, &Marker::HashExcluding(&PREGAME_VOLATILE));
                    let submit = self.note(marker);
                    PregameStep { submit, over: contains(body, "character_select_finished") }
                } else {
                    PregameStep { submit: false, over: response.status == 404 }
                }
            },
            None => PregameStep { submit: false, over: false },
        }
    }
}

/// The marker that a poll knows, and the markers of what was forwarded, after a
/// number of responses.
pub open spec fn forwarded(responses: Seq<Option<ApiResponse>>) -> (Option<Seq<char>>, Seq<Seq<char>>)
    decreases responses.len(),
{
    if responses.len() == 0 {
        (None, Seq::empty())
    } else {
        let (last, sent) = forwarded(responses.drop_last());
        let (next, step) = pregame_step(last, responses.last());
        if step.submit {
            (next, sent.push(next->0))
        } else {
            (next, sent)
        }
    }
}

/// A match that is set up is forwarded when it has changed, and only then: no
/// two bodies that are forwarded one after the other have the same marker, and
/// the marker of the last response that carried a match is that of the last body
/// that was forwarded.
pub proof fn unchanged_pregame_is_not_forwarded(responses: Seq<Option<ApiResponse>>)
    ensures
        ({
            let (last, sent) = forwarded(responses);
            &&& last == if sent.len() == 0 {
                None
            } else {
                Some(sent.last())
            }
            &&& forall|i: int|
                0 <= i < sent.len() - 1 ==> #[trigger] sent[i] != sent[i + 1]
        }),
    decreases responses.len(),
{
    if responses.len() > 0 {
        unchanged_pregame_is_not_forwarded(responses.drop_last());
    }
}

/// The path of the match that a player plays.
pub open spec fn player_path_text(puuid: Seq<char>) -> Seq<char> {
    "/core-game/v1/players/"@ + puuid
}

/// The path of the loadouts of a match.
pub open spec fn loadouts_path_text(match_id: Seq<char>) -> Seq<char> {
    "/core-game/v1/matches/"@ + match_id + "/loadouts"@
}

/// Where the loadouts of a match are forwarded to.
pub open spec fn loadouts_server_path_text(match_id: Seq<char>) -> Seq<char> {
    "/v1/account/match-loadouts?match_id="@ + match_id
}

/// The path of the match that a player plays.
pub fn ingame_player_path(puuid: &str) -> (r: String)
    ensures
        r@ == player_path_text(puuid@),
{
    concat("/core-game/v1/players/", puuid)
}

/// What is to be done about the loadouts of a match.
pub enum LoadoutAction {
    /// Pause, and ask which match the player plays.
    Pause,
    /// Ask for the loadouts.
    Fetch { path: String },
    /// Forward the loadouts; that is all.
    Submit { path: String, body: String },
}

pub enum LoadoutActionView {
    Pause,
    Fetch { path: Seq<char> },
    Submit { path: Seq<char>, body: Seq<char> },
}

impl View for LoadoutAction {
    type V = LoadoutActionView;

    open spec fn view(&self) -> LoadoutActionView {
        match *self {
            LoadoutAction::Pause => LoadoutActionView::Pause,
            LoadoutAction::Fetch { path } => LoadoutActionView::Fetch { path: path@ },
            LoadoutAction::Submit { path, body } => LoadoutActionView::Submit {
                path: path@,
                body: body@,
            },
        }
    }
}

/// Asks for the loadouts of the match that a player plays; knows the match once
/// it was found.
pub struct LoadoutFlow {
    match_id: Option<String>,
}

impl View for LoadoutFlow {
    type V = Option<Seq<char>>;

    closed spec fn view(&self) -> Option<Seq<char>> {
        match self.match_id {
            Some(id) => Some(id@),
            None => None,
        }
    }
}

/// What follows a response, `None` where there was none: to the question for
/// the match where it is not known, else to that for its loadouts.
pub open spec fn loadout_step(match_id: Option<Seq<char>>, response: Option<ApiResponse>) -> (
    Option<Seq<char>>,
    LoadoutActionView,
) {
    match match_id {
        None => match found_match(response) {
            Some(id) => (Some(id), LoadoutActionView::Fetch { path: loadouts_path_text(id) }),
            None => (None, LoadoutActionView::Pause),
        },
        Some(id) => (
            None,
            match response {
                Some(response) => if success(response.status) {
                    LoadoutActionView::Submit {
                        path: loadouts_server_path_text(id),
                        body: response.body@,
                    }
                } else {
                    LoadoutActionView::Pause
                },
                None => LoadoutActionView::Pause,
            },
        ),
    }
}

impl LoadoutFlow {
    pub fn new() -> (r: Self)
        ensures
            r@ is None,
    {
        LoadoutFlow { match_id: None }
    }

    /// Takes note of a match.
    pub fn on_match(&mut self, match_id: Option<String>) -> (action: LoadoutAction)
        ensures
            match match_id {
                Some(id) => final(self)@ == Some(id@) && action@ == (LoadoutActionView::Fetch {
                    path: loadouts_path_text(id@),
                }),
                None => final(self)@ is None && action@ == LoadoutActionView::Pause,
            },
    {
        match match_id {
            Some(id) => {
                let mut path = concat("/core-game/v1/matches/", id.as_str());
                append(&mut path, "/loadouts");
                self.match_id = Some(id);
                LoadoutAction::Fetch { path }
            },
            None => {
                self.match_id = None;
                LoadoutAction::Pause
            },
        }
    }

    /// Takes note of a response, `None` where there was none.
    pub fn fetch_ingame_loadouts(&mut self, response: Option<ApiResponse>) -> (action: LoadoutAction)
        ensures
            (final(self)@, action@) == loadout_step(old(self)@, response),
    {
        match self.match_id.take() {
            None => self.on_match(fetch_match_id(&response)),
            Some(id) => match response {
                Some(response) => if is_success(response.status) {
                    let path = concat("/v1/account/match-loadouts?match_id=", id.as_str());
                    LoadoutAction::Submit { path, body: response.body }
                } else {
                    LoadoutAction::Pause
                },
                None => LoadoutAction::Pause,
            },
        }
    }
}

/// Loadouts are forwarded under the match that they were asked for, which is
/// the one that the response before named; and after a failure the match is
/// asked for anew.
pub proof fn loadouts_belong_to_the_match(first: Option<ApiResponse>, second: Option<ApiResponse>)
    ensures
        ({
            let (known, asked) = loadout_step(None, first);
            let (after, action) = loadout_step(known, second);
            &&& asked !is Submit
            &&& found_match(first) is None <==> asked == LoadoutActionView::Pause
            &&& found_match(first) is Some ==> {
                let id = found_match(first)->0;
                &&& asked == (LoadoutActionView::Fetch { path: loadouts_path_text(id) })
                &&& after is None
                &&& if second is Some && success(second->0.status) {
                    action == (LoadoutActionView::Submit {
                        path: loadouts_server_path_text(id),
                        body: second->0.body@,
                    })
                } else {
                    action == LoadoutActionView::Pause
                }
            }
        }),
{
}

/// The last state that a list of messages says, if any says one.
pub open spec fn last_said(states: Seq<Option<Seq<char>>>) -> Option<Seq<char>>
    decreases states.len(),
{
    if states.len() == 0 {
        None
    } else if states.last() is Some {
        states.last()
    } else {
        last_said(states.drop_last())
    }
}

/// A match is set up in the state `PREGAME` and played in the state `INGAME`, and
/// in no other.
pub proof fn two_states_are_collected(state: Option<Seq<char>>)
    ensures
        activity_of(state) == Some(Activity::Pregame) <==> state == Some("PREGAME"@),
        activity_of(state) == Some(Activity::Match) <==> state == Some("INGAME"@),
        activity_of(state) is None <==> state != Some("PREGAME"@) && state != Some("INGAME"@),
{
    reveal_strlit("PREGAME");
    reveal_strlit("INGAME");
    assert("PREGAME"@[0] != "INGAME"@[0]);
}

/// After a message that says a state the tracker is in that state. One that says
/// none, or the state that is known, asks for nothing.
pub proof fn spoken_state_is_taken_over(before: Option<Seq<char>>, said: Seq<char>)
    ensures
        tracker_step(before, Some(said)).0 == Some(said),
        tracker_step(before, None) == (before, Seq::<TrackerAction>::empty()),
        before == Some(said) ==> tracker_step(before, Some(said)).1.len() == 0,
{
}

/// What a change of state asks for: first that the old activity is stopped and
/// told to have ended, then that the new one is told to have begun and started.
/// States that stand for no activity ask for nothing of their own.
pub proof fn change_of_state_stops_and_starts(before: Option<Seq<char>>, said: Seq<char>)
    requires
        before != Some(said),
    ensures
        ({
            let actions = tracker_step(before, Some(said)).1;
            let left = before == Some("PREGAME"@) || before == Some("INGAME"@);
            let entered = said == "PREGAME"@ || said == "INGAME"@;
            let old = if before == Some("PREGAME"@) {
                Activity::Pregame
            } else {
                Activity::Match
            };
            let new = if said == "PREGAME"@ {
                Activity::Pregame
            } else {
                Activity::Match
            };
            let from: int = if left {
                2
            } else {
                0
            };
            &&& actions.len() == from + if entered {
                2int
            } else {
                0
            }
            &&& left ==> actions[0] == TrackerAction::Stop(old) && actions[1]
                == TrackerAction::TellEnded(old)
            &&& entered ==> actions[from] == TrackerAction::TellStarted(new) && actions[from + 1]
                == TrackerAction::Start(new)
        }),
{
    two_states_are_collected(before);
    two_states_are_collected(Some(said));
}

/// After any list of messages, what is collected, and what was told to have begun
/// and not to have ended, is what the last state that a message said stands for:
/// the setting up of a match, its playing, or nothing.
pub proof fn collection_follows_the_last_message(states: Seq<Option<Seq<char>>>)
    ensures
        followed(states).0 == last_said(states),
        ({
            let now = all_applied(
                Some(Following { collected: None, told: None }),
                followed(states).1,
            );
            &&& now is Some
            &&& now->0.collected == now->0.told
            &&& now->0.collected == Some(Activity::Pregame) <==> last_said(states) == Some(
                "PREGAME"@,
            )
            &&& now->0.collected == Some(Activity::Match) <==> last_said(states) == Some(
                "INGAME"@,
            )
        }),
    decreases states.len(),
{
    if states.len() > 0 {
        collection_follows_the_last_message(states.drop_last());
        let before = followed(states.drop_last()).0;
        if states.last() is Some {
            spoken_state_is_taken_over(before, states.last()->0);
        } else {
            spoken_state_is_taken_over(before, Seq::empty());
        }
    }
    collection_follows_the_state(states);
    two_states_are_collected(followed(states).0);
}

/// The names of the fields that change while nothing happens.
pub open spec fn is_volatile(key: Seq<char>) -> bool {
    key == "Version"@ || key == "PhaseTimeRemainingNS"@ || key == "StepTimeRemainingNS"@ || key
        == "LastUpdated"@
}

/// A match without the fields that change while nothing happens.
pub open spec fn steady(members: Map<Seq<char>, JsonTree>) -> Map<Seq<char>, JsonTree> {
    members.remove("Version"@).remove("PhaseTimeRemainingNS"@).remove(
        "StepTimeRemainingNS"@,
    ).remove("LastUpdated"@)
}

proof fn pregame_marker_of_object(body: Seq<char>, members: Map<Seq<char>, JsonTree>)
    requires
        parsed_json(body) == Some(JsonTree::Object(members)),
    ensures
        pregame_marker(body) == hex(
            sha256_digest(encode_utf8(json_text(JsonTree::Object(steady(members))))),
        ),
{
    let fields: &'static [&'static str] = &PREGAME_VOLATILE;
    let left = steady(members);
    assert(fields@ == PREGAME_VOLATILE@);
    assert(fields@.len() == 4);
    assert(fields@[0]@ == "Version"@);
    assert(fields@[1]@ == "PhaseTimeRemainingNS"@);
    assert(fields@[2]@ == "StepTimeRemainingNS"@);
    assert(fields@[3]@ == "LastUpdated"@);
    assert forall|key: Seq<char>| #[trigger] left.dom().contains(key) <==> members.dom().contains(
        key,
    ) && (forall|i: int| 0 <= i < fields@.len() ==> (#[trigger] fields@[i])@ != key) by {
        if left.dom().contains(key) {
            assert forall|i: int| 0 <= i < fields@.len() implies (#[trigger] fields@[i])@
                != key by {
                assert(i == 0 || i == 1 || i == 2 || i == 3);
            }
        }
    }
    bodies_are_marked_by_their_other_fields(body, members, left, fields);
}

/// Of two responses in a row that both carry a match, the second is not forwarded
/// where the matches agree on everything but the version, the times that are left
/// and the time of the last change.
pub proof fn countdown_alone_is_not_forwarded(
    last: Option<Seq<char>>,
    first: ApiResponse,
    second: ApiResponse,
    one: Map<Seq<char>, JsonTree>,
    other: Map<Seq<char>, JsonTree>,
)
    requires
        200 <= first.status < 300,
        200 <= second.status < 300,
        parsed_json(first.body@) == Some(JsonTree::Object(one)),
        parsed_json(second.body@) == Some(JsonTree::Object(other)),
        forall|key: Seq<char>|
            #![trigger one.dom().contains(key)]
            #![trigger other.dom().contains(key)]
            !is_volatile(key) ==> (one.dom().contains(key) <==> other.dom().contains(key)) && (
            one.dom().contains(key) ==> one[key] == other[key]),
    ensures
        !pregame_step(pregame_step(last, Some(first)).0, Some(second)).1.submit,
{
    pregame_marker_of_object(first.body@, one);
    pregame_marker_of_object(second.body@, other);
    assert forall|key: Seq<char>| steady(one).dom().contains(key) implies #[trigger] steady(
        other,
    ).dom().contains(key) && steady(one)[key] == steady(other)[key] by {
        assert(one.dom().contains(key));
        assert(!is_volatile(key));
    }
    assert forall|key: Seq<char>| steady(other).dom().contains(key) implies #[trigger] steady(
        one,
    ).dom().contains(key) by {
        assert(other.dom().contains(key));
        assert(!is_volatile(key));
    }
    assert(steady(one).dom() =~= steady(other).dom());
    assert(steady(one) =~= steady(other));
}

/// A match is forwarded when it is the first that a poll sees, and when the digest
/// of what is steady in it differs from that of the match before; what is
/// forwarded then counts as the match before. A response that carries none is not
/// forwarded and changes nothing.
pub proof fn changed_pregame_is_forwarded(
    first: ApiResponse,
    second: ApiResponse,
    one: Map<Seq<char>, JsonTree>,
    other: Map<Seq<char>, JsonTree>,
    failed: Option<ApiResponse>,
    last: Option<Seq<char>>,
)
    requires
        200 <= first.status < 300,
        200 <= second.status < 300,
        parsed_json(first.body@) == Some(JsonTree::Object(one)),
        parsed_json(second.body@) == Some(JsonTree::Object(other)),
        failed is Some ==> !(200 <= failed->0.status < 300),
    ensures
        pregame_step(None, Some(first)).1.submit,
        ({
            let seen = pregame_step(last, Some(first)).0;
            pregame_step(seen, Some(second)).1.submit <==> hex(
                sha256_digest(encode_utf8(json_text(JsonTree::Object(steady(one))))),
            ) != hex(sha256_digest(encode_utf8(json_text(JsonTree::Object(steady(other))))))
        }),
        pregame_step(last, failed).0 == last,
        !pregame_step(last, failed).1.submit,
{
    pregame_marker_of_object(first.body@, one);
    pregame_marker_of_object(second.body@, other);
}

/// A match is asked for until it says that the agents are chosen, or until there
/// is no such match; no other response, and no failure, ends that.
pub proof fn pregame_ends_with_the_choice_of_agents(
    last: Option<Seq<char>>,
    response: Option<ApiResponse>,
)
    ensures
        pregame_step(last, response).1.over <==> response is Some && (response->0.status == 404 || (
        200 <= response->0.status < 300 && exists|at: int|
            0 <= at <= response->0.body@.len() - "character_select_finished"@.len()
                && #[trigger] response->0.body@.subrange(
                at,
                at + "character_select_finished"@.len(),
            ) == "character_select_finished"@)),
{
    if response is Some {
        let body = response->0.body@;
        let needle = "character_select_finished"@;
        if holds_text(body, needle) {
            let at = choose|at: int| stands_at(body, needle, at);
            assert(body.subrange(at, at + needle.len()) == needle);
        }
        if exists|at: int|
            0 <= at <= body.len() - needle.len() && #[trigger] body.subrange(at, at + needle.len())
                == needle {
            let at = choose|at: int|
                0 <= at <= body.len() - needle.len() && #[trigger] body.subrange(
                    at,
                    at + needle.len(),
                ) == needle;
            assert(stands_at(body, needle, at));
        }
    }
}

/// A response names a match by the text of its member `MatchID`, where the
/// request was carried out and the body spells an object that has one.
pub proof fn match_is_named_by_its_member(
    response: ApiResponse,
    members: Map<Seq<char>, JsonTree>,
    id: Seq<char>,
)
    requires
        parsed_json(response.body@) == Some(JsonTree::Object(members)),
    ensures
        200 <= response.status < 300 && members.dom().contains("MatchID"@) && members["MatchID"@]
            == JsonTree::Text(id) ==> found_match(Some(response)) == Some(id),
        !(200 <= response.status < 300) ==> found_match(Some(response)) is None,
        !members.dom().contains("MatchID"@) ==> found_match(Some(response)) is None,
        members.dom().contains("MatchID"@) && members["MatchID"@] !is Text ==> found_match(
            Some(response),
        ) is None,
        found_match(None) is None,
{
}

/// The loadouts of the match that a response named are asked for at its address
/// and forwarded under its name; the body is forwarded as it came.
pub proof fn loadouts_are_forwarded_under_their_match(
    found: ApiResponse,
    members: Map<Seq<char>, JsonTree>,
    id: Seq<char>,
    response: Option<ApiResponse>,
)
    requires
        200 <= found.status < 300,
        parsed_json(found.body@) == Some(JsonTree::Object(members)),
        members.dom().contains("MatchID"@),
        members["MatchID"@] == JsonTree::Text(id),
    ensures
        loadout_step(None, Some(found)) == (
            Some(id),
            LoadoutActionView::Fetch { path: "/core-game/v1/matches/"@ + id + "/loadouts"@ },
        ),
        response is Some && 200 <= response->0.status < 300 ==> loadout_step(Some(id), response)
            == (
            None::<Seq<char>>,
            LoadoutActionView::Submit {
                path: "/v1/account/match-loadouts?match_id="@ + id,
                body: response->0.body@,
            },
        ),
        response is None || !(200 <= response->0.status < 300) ==> loadout_step(Some(id), response)
            == (None::<Seq<char>>, LoadoutActionView::Pause),
        loadout_step(None, None) == (None::<Seq<char>>, LoadoutActionView::Pause),
{
}

/// The encoded part of a presence is filled up with as few equals signs as make
/// the number of its bytes one that four divides.
pub proof fn private_part_is_filled_up(encoded: Seq<char>)
    ensures
        ({
            let more = padded(encoded).len() - encoded.len();
            &&& 0 <= more < 4
            &&& (encode_utf8(encoded).len() + more) % 4 == 0
            &&& padded(encoded).take(encoded.len() as int) == encoded
            &&& forall|i: int|
                encoded.len() <= i < padded(encoded).len() ==> #[trigger] padded(encoded)[i] == '='
        }),
{
    assert(padded(encoded).take(encoded.len() as int) =~= encoded);
}

/// The presence that counts is the first one in a message that is the player's and
/// of this game, and its private part is what is read.
pub proof fn first_own_presence_counts(
    event: Map<Seq<char>, JsonTree>,
    data: Map<Seq<char>, JsonTree>,
    message: Seq<JsonTree>,
    items: Seq<JsonTree>,
    at: int,
    own: Map<Seq<char>, JsonTree>,
    puuid: Seq<char>,
    encoded: Seq<char>,
)
    requires
        message.len() > 2,
        message[2] == JsonTree::Object(event),
        event.dom().contains("data"@),
        event["data"@] == JsonTree::Object(data),
        data.dom().contains("presences"@),
        data["presences"@] == JsonTree::Array(items),
        0 <= at < items.len(),
        items[at] == JsonTree::Object(own),
        own.dom().contains("puuid"@) && own["puuid"@] == JsonTree::Text(puuid),
        own.dom().contains("product"@) && own["product"@] == JsonTree::Text("valorant"@),
        own.dom().contains("private"@) && own["private"@] == JsonTree::Text(encoded),
        forall|i: int|
            0 <= i < at ==> (#[trigger] items[i] matches JsonTree::Object(other) ==> !(
            other.dom().contains("puuid"@) && other["puuid"@] == JsonTree::Text(puuid)
                && other.dom().contains("product"@) && other["product"@] == JsonTree::Text(
                "valorant"@,
            ))),
    ensures
        private_part(JsonTree::Array(message), puuid) == Some(encoded),
{
    first_own_is_found(items, puuid, at);
}

proof fn first_own_is_found(items: Seq<JsonTree>, puuid: Seq<char>, at: int)
    requires
        0 <= at < items.len(),
        is_own(items[at], puuid),
        forall|i: int| 0 <= i < at ==> !is_own(#[trigger] items[i], puuid),
    ensures
        first_own(items, puuid) == Some(items[at]),
    decreases at,
{
    if at > 0 {
        assert(!is_own(items[0], puuid));
        let rest = items.drop_first();
        assert forall|i: int| 0 <= i < at - 1 implies !is_own(#[trigger] rest[i], puuid) by {
            assert(rest[i] == items[i + 1]);
        }
        first_own_is_found(rest, puuid, at - 1);
    }
}

/// A message says the state that the private part of the presence spells, once it
/// is filled up and decoded; where one of these fails it says none.
pub proof fn state_is_read_from_the_private_part(
    text: Seq<char>,
    puuid: Seq<char>,
    message: JsonTree,
    encoded: Seq<char>,
    private: Map<Seq<char>, JsonTree>,
    data: Map<Seq<char>, JsonTree>,
    state: Seq<char>,
)
    requires
        parsed_json(text) == Some(message),
        private_part(message, puuid) == Some(encoded),
    ensures
        base64_decoded(padded(encoded)) is Some && parsed_json_bytes(
            base64_decoded(padded(encoded))->0,
        ) == Some(JsonTree::Object(private)) && private.dom().contains("matchPresenceData"@)
            && private["matchPresenceData"@] == JsonTree::Object(data) && data.dom().contains(
            "sessionLoopState"@,
        ) && data["sessionLoopState"@] == JsonTree::Text(state) ==> state_in(text, puuid) == Some(
            state,
        ),
        base64_decoded(padded(encoded)) is None ==> state_in(text, puuid) is None,
{
}

/// Where no presence in a message is the player's and of this game, or the message
/// has no list of presences, there is no private part to read.
pub proof fn others_presences_do_not_count(message: JsonTree, puuid: Seq<char>)
    ensures
        message !is Array || message->Array_0.len() <= 2 || message->Array_0[2] !is Object
            ==> private_part(message, puuid) is None,
        presences(message) is None ==> private_part(message, puuid) is None,
        presences(message) matches Some(items) ==> (forall|i: int|
            0 <= i < items.len() ==> !(#[trigger] items[i] matches JsonTree::Object(other)
                && other.dom().contains("puuid"@) && other["puuid"@] == JsonTree::Text(puuid)
                && other.dom().contains("product"@) && other["product"@] == JsonTree::Text(
                "valorant"@,
            ))) ==> private_part(message, puuid) is None,
{
    if let Some(items) = presences(message) {
        if forall|i: int|
            0 <= i < items.len() ==> !(#[trigger] items[i] matches JsonTree::Object(other)
                && other.dom().contains("puuid"@) && other["puuid"@] == JsonTree::Text(puuid)
                && other.dom().contains("product"@) && other["product"@] == JsonTree::Text(
                "valorant"@,
            )) {
            assert forall|i: int| 0 <= i < items.len() implies !is_own(#[trigger] items[i], puuid) by {
                assert(!(items[i] matches JsonTree::Object(other) && other.dom().contains("puuid"@)
                    && other["puuid"@] == JsonTree::Text(puuid) && other.dom().contains("product"@)
                    && other["product"@] == JsonTree::Text("valorant"@)));
            }
            no_own_is_found(items, puuid);
        }
    }
}

proof fn no_own_is_found(items: Seq<JsonTree>, puuid: Seq<char>)
    requires
        forall|i: int| 0 <= i < items.len() ==> !is_own(#[trigger] items[i], puuid),
    ensures
        first_own(items, puuid) is None,
    decreases items.len(),
{
    if items.len() > 0 {
        assert(!is_own(items[0], puuid));
        let rest = items.drop_first();
        assert forall|i: int| 0 <= i < rest.len() implies !is_own(#[trigger] rest[i], puuid) by {
            assert(rest[i] == items[i + 1]);
        }
        no_own_is_found(rest, puuid);
    }
}

/// A message that spells no JSON, or has no private part for the player, or one
/// whose private part spells no state, says none.
pub proof fn unreadable_message_says_no_state(
    text: Seq<char>,
    puuid: Seq<char>,
    private: Map<Seq<char>, JsonTree>,
    data: Map<Seq<char>, JsonTree>,
)
    ensures
        parsed_json(text) is None ==> state_in(text, puuid) is None,
        parsed_json(text) is Some && private_part(parsed_json(text)->0, puuid) is None
            ==> state_in(text, puuid) is None,
        !private.dom().contains("matchPresenceData"@) ==> loop_state(JsonTree::Object(private))
            is None,
        private.dom().contains("matchPresenceData"@) && private["matchPresenceData"@]
            == JsonTree::Object(data) && (!data.dom().contains("sessionLoopState"@)
            || data["sessionLoopState"@] !is Text) ==> loop_state(JsonTree::Object(private))
            is None,
{
}

} // verus!
