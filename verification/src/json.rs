//! JSON values as plain data. Parsing and printing are `serde_json`'s; what a
//! value holds is read and changed here.

use vstd::prelude::*;

use crate::text;

verus! {

/// `serde_json::Number`, carried as it was parsed.
#[verifier::external_type_specification]
#[verifier::external_body]
pub struct ExNumber(serde_json::Number);

/// `serde_json::Value`, the parser's own form of a value.
#[verifier::external_type_specification]
#[verifier::external_body]
pub struct ExValue(serde_json::Value);

/// A JSON value.
pub enum Json {
    Null,
    Bool(bool),
    Number(serde_json::Number),
    Text(String),
    Array(Vec<Json>),
    Object(Vec<(String, Json)>),
}

/// What a JSON value means: an object is a map, whatever the order in which
/// its members were written.
pub enum JsonTree {
    Null,
    Bool(bool),
    Number(serde_json::Number),
    Text(Seq<char>),
    Array(Seq<JsonTree>),
    Object(Map<Seq<char>, JsonTree>),
}

impl Json {
    pub open spec fn tree(self) -> JsonTree
        decreases self,
    {
        match self {
            Json::Null => JsonTree::Null,
            Json::Bool(b) => JsonTree::Bool(b),
            Json::Number(n) => JsonTree::Number(n),
            Json::Text(s) => JsonTree::Text(s@),
            Json::Array(items) => JsonTree::Array(items_tree(items@)),
            Json::Object(members) => JsonTree::Object(members_tree(members@)),
        }
    }

    /// No object in the value has two members of one name.
    pub open spec fn wf(self) -> bool
        decreases self,
    {
        match self {
            Json::Array(items) => items_wf(items@),
            Json::Object(members) => distinct(names(members@)) && members_wf(members@),
            _ => true,
        }
    }
}

pub open spec fn items_tree(items: Seq<Json>) -> Seq<JsonTree>
    decreases items,
{
    if items.len() == 0 {
        Seq::empty()
    } else {
        items_tree(items.drop_last()).push(items.last().tree())
    }
}

pub open spec fn members_tree(members: Seq<(String, Json)>) -> Map<Seq<char>, JsonTree>
    decreases members,
{
    if members.len() == 0 {
        Map::empty()
    } else {
        members_tree(members.drop_last()).insert(members.last().0@, members.last().1.tree())
    }
}

pub open spec fn items_wf(items: Seq<Json>) -> bool
    decreases items,
{
    items.len() > 0 ==> items.last().wf() && items_wf(items.drop_last())
}

pub open spec fn members_wf(members: Seq<(String, Json)>) -> bool
    decreases members,
{
    members.len() > 0 ==> members.last().1.wf() && members_wf(members.drop_last())
}

/// The names of a list of members.
pub open spec fn names<T>(members: Seq<(String, T)>) -> Seq<Seq<char>> {
    members.map_values(|member: (String, T)| member.0@)
}

pub open spec fn distinct(keys: Seq<Seq<char>>) -> bool {
    forall|i: int, j: int| 0 <= i < j < keys.len() ==> keys[i] != keys[j]
}

impl View for Json {
    type V = JsonTree;

    open spec fn view(&self) -> JsonTree {
        self.tree()
    }
}

proof fn items_tree_at(items: Seq<Json>)
    ensures
        items_tree(items).len() == items.len(),
        forall|i: int| 0 <= i < items.len() ==> #[trigger] items_tree(items)[i] == items[i].tree(),
    decreases items.len(),
{
    if items.len() > 0 {
        items_tree_at(items.drop_last());
    }
}

proof fn items_wf_at(items: Seq<Json>)
    ensures
        items_wf(items) <==> forall|i: int| 0 <= i < items.len() ==> (#[trigger] items[i]).wf(),
    decreases items.len(),
{
    if items.len() > 0 {
        let init = items.drop_last();
        items_wf_at(init);
        if items_wf(items) {
            assert forall|i: int| 0 <= i < items.len() implies (#[trigger] items[i]).wf() by {
                if i < init.len() {
                    assert(init[i].wf());
                }
            }
        }
        if forall|i: int| 0 <= i < items.len() ==> (#[trigger] items[i]).wf() {
            assert forall|i: int| 0 <= i < init.len() implies (#[trigger] init[i]).wf() by {
                assert(items[i].wf());
            }
            assert(items[items.len() - 1].wf());
        }
    }
}

proof fn members_wf_at(members: Seq<(String, Json)>)
    ensures
        members_wf(members) <==> forall|i: int|
            0 <= i < members.len() ==> (#[trigger] members[i]).1.wf(),
    decreases members.len(),
{
    if members.len() > 0 {
        let init = members.drop_last();
        members_wf_at(init);
        if members_wf(members) {
            assert forall|i: int| 0 <= i < members.len() implies (#[trigger] members[i]).1.wf() by {
                if i < init.len() {
                    assert(init[i].1.wf());
                }
            }
        }
        if forall|i: int| 0 <= i < members.len() ==> (#[trigger] members[i]).1.wf() {
            assert forall|i: int| 0 <= i < init.len() implies (#[trigger] init[i]).1.wf() by {
                assert(members[i].1.wf());
            }
            assert(members[members.len() - 1].1.wf());
        }
    }
}

/// Where the names differ, each member is found under its own name, and no
/// other name is found.
proof fn members_tree_at(members: Seq<(String, Json)>)
    requires
        distinct(names(members)),
    ensures
        members_tree(members).dom().finite(),
        forall|i: int|
            0 <= i < members.len() ==> #[trigger] members_tree(members).dom().contains(
                members[i].0@,
            ) && members_tree(members)[members[i].0@] == members[i].1.tree(),
        forall|key: Seq<char>| #[trigger]
            members_tree(members).dom().contains(key) ==> exists|i: int|
                0 <= i < members.len() && (#[trigger] members[i]).0@ == key,
    decreases members.len(),
{
    if members.len() > 0 {
        let init = members.drop_last();
        let last = members.last();
        assert forall|i: int, j: int| 0 <= i < j < init.len() implies names(init)[i] != names(
            init,
        )[j] by {
            assert(names(init)[i] == names(members)[i]);
            assert(names(init)[j] == names(members)[j]);
        }
        members_tree_at(init);
        let whole = members_tree(members);
        assert forall|i: int| 0 <= i < members.len() implies #[trigger] whole.dom().contains(
            members[i].0@,
        ) && whole[members[i].0@] == members[i].1.tree() by {
            if i < init.len() {
                assert(members[i] == init[i]);
                assert(names(members)[i] != names(members)[members.len() - 1]);
                assert(members_tree(init).dom().contains(init[i].0@));
            }
        }
        assert forall|key: Seq<char>| #[trigger] whole.dom().contains(key) implies exists|i: int|
            0 <= i < members.len() && (#[trigger] members[i]).0@ == key by {
            if key == last.0@ {
                assert(members[members.len() - 1].0@ == key);
            } else {
                assert(members_tree(init).dom().contains(key));
                let i = choose|i: int| 0 <= i < init.len() && (#[trigger] init[i]).0@ == key;
                assert(members[i].0@ == key);
            }
        }
    }
}

/// The outer layer of a parser's value.
pub enum Layer {
    Null,
    Bool(bool),
    Number(serde_json::Number),
    Text(String),
    Items(Vec<serde_json::Value>),
    Members(Vec<(String, serde_json::Value)>),
}

/// What a `serde_json::Value` holds.
pub uninterp spec fn value_tree(value: serde_json::Value) -> JsonTree;

/// The members of a list of parser's values; a later one takes the place of an
/// earlier one of the same name.
pub open spec fn value_members(members: Seq<(String, serde_json::Value)>) -> Map<
    Seq<char>,
    JsonTree,
>
    decreases members.len(),
{
    if members.len() == 0 {
        Map::empty()
    } else {
        value_members(members.drop_last()).insert(members.last().0@, value_tree(members.last().1))
    }
}

impl Layer {
    pub open spec fn tree(self) -> JsonTree {
        match self {
            Layer::Null => JsonTree::Null,
            Layer::Bool(b) => JsonTree::Bool(b),
            Layer::Number(n) => JsonTree::Number(n),
            Layer::Text(s) => JsonTree::Text(s@),
            Layer::Items(items) => JsonTree::Array(
                items@.map_values(|item: serde_json::Value| value_tree(item)),
            ),
            Layer::Members(members) => JsonTree::Object(value_members(members@)),
        }
    }

    pub open spec fn distinct_names(self) -> bool {
        match self {
            Layer::Members(members) => distinct(names(members@)),
            _ => true,
        }
    }
}

/// Takes a `serde_json::Value` apart, variant by variant. Its object is a map,
/// so that no two of the members handed out have one name.
#[verifier::external_body]
fn unpack(value: serde_json::Value) -> (layer: Layer)
    ensures
        layer.tree() == value_tree(value),
        layer.distinct_names(),
{
    match value {
        serde_json::Value::Null => Layer::Null,
        serde_json::Value::Bool(b) => Layer::Bool(b),
        serde_json::Value::Number(n) => Layer::Number(n),
        serde_json::Value::String(s) => Layer::Text(s),
        serde_json::Value::Array(items) => Layer::Items(items),
        serde_json::Value::Object(members) => Layer::Members(members.into_iter().collect()),
    }
}

/// Puts a `serde_json::Value` together, variant by variant. The members of an
/// object become the entries of `serde_json::Map`.
#[verifier::external_body]
fn pack(layer: Layer) -> (value: serde_json::Value)
    requires
        layer.distinct_names(),
    ensures
        value_tree(value) == layer.tree(),
{
    match layer {
        Layer::Null => serde_json::Value::Null,
        Layer::Bool(b) => serde_json::Value::Bool(b),
        Layer::Number(n) => serde_json::Value::Number(n),
        Layer::Text(s) => serde_json::Value::String(s),
        Layer::Items(items) => serde_json::Value::Array(items),
        Layer::Members(members) => serde_json::Value::Object(members.into_iter().collect()),
    }
}

proof fn value_members_at(members: Seq<(String, serde_json::Value)>)
    requires
        distinct(names(members)),
    ensures
        value_members(members).dom().finite(),
        forall|i: int|
            0 <= i < members.len() ==> #[trigger] value_members(members).dom().contains(
                members[i].0@,
            ) && value_members(members)[members[i].0@] == value_tree(members[i].1),
    decreases members.len(),
{
    if members.len() > 0 {
        let init = members.drop_last();
        assert forall|i: int, j: int| 0 <= i < j < init.len() implies names(init)[i] != names(
            init,
        )[j] by {
            assert(names(init)[i] == names(members)[i]);
            assert(names(init)[j] == names(members)[j]);
        }
        value_members_at(init);
        let whole = value_members(members);
        assert forall|i: int| 0 <= i < members.len() implies #[trigger] whole.dom().contains(
            members[i].0@,
        ) && whole[members[i].0@] == value_tree(members[i].1) by {
            if i < init.len() {
                assert(members[i] == init[i]);
                assert(names(members)[i] != names(members)[members.len() - 1]);
                assert(value_members(init).dom().contains(init[i].0@));
            }
        }
    }
}

fn from_value(value: serde_json::Value) -> (json: Json)
    ensures
        json@ == value_tree(value),
        json.wf(),
    decreases value_tree(value),
{
    let ghost whole = value_tree(value);
    match unpack(value) {
        Layer::Null => Json::Null,
        Layer::Bool(b) => Json::Bool(b),
        Layer::Number(n) => Json::Number(n),
        Layer::Text(s) => Json::Text(s),
        Layer::Items(items) => {
            let ghost trees = whole->Array_0;
            let ghost given = items@;
            let mut converted: Vec<Json> = Vec::new();
            for item in it: items
                invariant
                    whole == JsonTree::Array(trees),
                    trees == given.map_values(|item: serde_json::Value| value_tree(item)),
                    it.seq() == given,
                    whole == value_tree(value),
                    items_tree(converted@) =~= trees.take(it.index() as int),
                    items_wf(converted@),
            {
                assert(trees[it.index() as int] == value_tree(item));
                assert(decreases_to!(whole => whole->Array_0));
                assert(decreases_to!(trees => trees[it.index() as int]));
                let ghost before = converted@;
                converted.push(from_value(item));
                assert(converted@.drop_last() =~= before);
            }
            assert(trees.take(trees.len() as int) =~= trees);
            Json::Array(converted)
        },
        Layer::Members(members) => {
            let ghost given = members@;
            let ghost map = whole->Object_0;
            proof {
                value_members_at(given);
            }
            let mut converted: Vec<(String, Json)> = Vec::new();
            for member in it: members
                invariant
                    whole == JsonTree::Object(map),
                    map == value_members(given),
                    map.dom().finite(),
                    it.seq() == given,
                    whole == value_tree(value),
                    forall|i: int|
                        0 <= i < given.len() ==> #[trigger] map.dom().contains(given[i].0@)
                            && map[given[i].0@] == value_tree(given[i].1),
                    members_tree(converted@) =~= value_members(given.take(it.index() as int)),
                    names(converted@) =~= names(given.take(it.index() as int)),
                    members_wf(converted@),
            {
                let ghost i = it.index() as int;
                assert(given[i] == member);
                assert(map.dom().contains(given[i].0@));
                assert(decreases_to!(whole => whole->Object_0));
                assert(decreases_to!(map => map[given[i].0@]));
                let ghost before = converted@;
                let (name, inner) = member;
                converted.push((name, from_value(inner)));
                assert(converted@.drop_last() =~= before);
                assert(given.take(i + 1).drop_last() =~= given.take(i));
                assert(names(converted@) =~= names(before).push(given[i].0@));
                assert(names(given.take(i + 1)) =~= names(given.take(i)).push(given[i].0@));
            }
            assert(given.take(given.len() as int) =~= given);
            Json::Object(converted)
        },
    }
}

fn into_value(json: Json) -> (value: serde_json::Value)
    requires
        json.wf(),
    ensures
        value_tree(value) == json@,
    decreases json,
{
    let ghost whole = json;
    match json {
        Json::Null => pack(Layer::Null),
        Json::Bool(b) => pack(Layer::Bool(b)),
        Json::Number(n) => pack(Layer::Number(n)),
        Json::Text(s) => pack(Layer::Text(s)),
        Json::Array(items) => {
            let ghost list = items;
            let ghost given = items@;
            proof {
                items_wf_at(given);
                items_tree_at(given);
            }
            let mut converted: Vec<serde_json::Value> = Vec::new();
            for item in it: items
                invariant
                    whole == Json::Array(list),
                    whole == json,
                    list@ == given,
                    it.seq() == given,
                    forall|i: int| 0 <= i < given.len() ==> (#[trigger] given[i]).wf(),
                    converted@.len() == it.index(),
                    forall|i: int|
                        0 <= i < it.index() ==> value_tree(#[trigger] converted@[i])
                            == given[i].tree(),
            {
                assert(given[it.index() as int] == item);
                assert(decreases_to!(whole => whole->Array_0));
                assert(decreases_to!(list => list@));
                assert(decreases_to!(given => given[it.index() as int]));
                converted.push(into_value(item));
            }
            assert(converted@.map_values(|item: serde_json::Value| value_tree(item)) =~= items_tree(
                given,
            ));
            pack(Layer::Items(converted))
        },
        Json::Object(members) => {
            let ghost list = members;
            let ghost given = members@;
            proof {
                members_wf_at(given);
            }
            let mut converted: Vec<(String, serde_json::Value)> = Vec::new();
            for member in it: members
                invariant
                    whole == Json::Object(list),
                    whole == json,
                    list@ == given,
                    it.seq() == given,
                    forall|i: int| 0 <= i < given.len() ==> (#[trigger] given[i]).1.wf(),
                    value_members(converted@) =~= members_tree(given.take(it.index() as int)),
                    names(converted@) =~= names(given.take(it.index() as int)),
            {
                let ghost i = it.index() as int;
                assert(given[i] == member);
                assert(given[i].1.wf());
                assert(decreases_to!(whole => whole->Object_0));
                assert(decreases_to!(list => list@));
                assert(decreases_to!(given => given[i]));
                assert(decreases_to!(given[i] => given[i].1));
                let ghost before = converted@;
                let (name, inner) = member;
                converted.push((name, into_value(inner)));
                assert(converted@.drop_last() =~= before);
                assert(given.take(i + 1).drop_last() =~= given.take(i));
                assert(names(converted@) =~= names(before).push(given[i].0@));
                assert(names(given.take(i + 1)) =~= names(given.take(i)).push(given[i].0@));
            }
            assert(given.take(given.len() as int) =~= given);
            pack(Layer::Members(converted))
        },
    }
}

/// `serde_json::Number::clone`: the copy is the same number.
pub assume_specification[ <serde_json::Number as Clone>::clone ](n: &serde_json::Number) -> (r:
    serde_json::Number)
    ensures
        r == *n,
;

impl Clone for Json {
    fn clone(&self) -> (r: Self)
        ensures
            r@ == self@,
            self.wf() ==> r.wf(),
        decreases self,
    {
        match self {
            Json::Null => Json::Null,
            Json::Bool(b) => Json::Bool(*b),
            Json::Number(n) => Json::Number(n.clone()),
            Json::Text(s) => Json::Text(s.clone()),
            Json::Array(items) => {
                let ghost given = items@;
                let mut copies: Vec<Json> = Vec::new();
                let mut i: usize = 0;
                while i < items.len()
                    invariant
                        i <= items.len(),
                        *self == Json::Array(*items),
                        given == items@,
                        items_tree(copies@) == items_tree(given.take(i as int)),
                        items_wf(given.take(i as int)) ==> items_wf(copies@),
                    decreases items.len() - i,
                {
                    assert(decreases_to!(self => self->Array_0));
                    assert(decreases_to!(items => items@));
                    assert(decreases_to!(given => given[i as int]));
                    let ghost before = copies@;
                    let copy = items[i].clone();
                    copies.push(copy);
                    i += 1;
                    assert(copies@.drop_last() =~= before);
                    assert(given.take(i as int).drop_last() =~= given.take(i - 1));
                }
                assert(given.take(i as int) =~= given);
                Json::Array(copies)
            },
            Json::Object(members) => {
                let ghost given = members@;
                let mut copies: Vec<(String, Json)> = Vec::new();
                let mut i: usize = 0;
                while i < members.len()
                    invariant
                        i <= members.len(),
                        *self == Json::Object(*members),
                        given == members@,
                        members_tree(copies@) == members_tree(given.take(i as int)),
                        members_wf(given.take(i as int)) ==> members_wf(copies@),
                        names(copies@) == names(given.take(i as int)),
                    decreases members.len() - i,
                {
                    assert(decreases_to!(self => self->Object_0));
                    assert(decreases_to!(members => members@));
                    assert(decreases_to!(given => given[i as int]));
                    assert(decreases_to!(given[i as int] => given[i as int].1));
                    let ghost before = copies@;
                    let name = members[i].0.clone();
                    let copy = members[i].1.clone();
                    copies.push((name, copy));
                    i += 1;
                    assert(copies@.drop_last() =~= before);
                    assert(given.take(i as int).drop_last() =~= given.take(i - 1));
                    assert(names(copies@) =~= names(before).push(given[i - 1].0@));
                    assert(names(given.take(i as int)) =~= names(given.take(i - 1)).push(
                        given[i - 1].0@,
                    ));
                }
                assert(given.take(i as int) =~= given);
                Json::Object(copies)
            },
        }
    }
}

/// The number that `serde_json` makes of a `u64`.
pub uninterp spec fn json_number(n: u64) -> serde_json::Number;

/// `serde_json::Number::from`: the number is a function of the integer alone.
#[verifier::external_body]
fn number_from(n: u64) -> (r: serde_json::Number)
    ensures
        r == json_number(n),
{
    serde_json::Number::from(n)
}

/// What `serde_json::from_str` reads in a text.
pub uninterp spec fn parsed_json(text: Seq<char>) -> Option<JsonTree>;

/// What `serde_json::from_slice` reads in a run of bytes.
pub uninterp spec fn parsed_json_bytes(bytes: Seq<u8>) -> Option<JsonTree>;

/// The compact text that `serde_json` prints for a value.
pub uninterp spec fn json_text(tree: JsonTree) -> Seq<char>;

/// `serde_json::from_str`: whether the text is JSON, and what it holds, depend
/// on the text alone.
#[verifier::external_body]
fn parse_value(text: &str) -> (r: Option<serde_json::Value>)
    ensures
        match r {
            Some(value) => parsed_json(text@) == Some(value_tree(value)),
            None => parsed_json(text@) is None,
        },
{
    serde_json::from_str::<serde_json::Value>(text).ok()
}

/// `serde_json::from_slice`: whether the bytes are JSON, and what they hold,
/// depend on the bytes alone.
#[verifier::external_body]
fn parse_value_bytes(bytes: &[u8]) -> (r: Option<serde_json::Value>)
    ensures
        match r {
            Some(value) => parsed_json_bytes(bytes@) == Some(value_tree(value)),
            None => parsed_json_bytes(bytes@) is None,
        },
{
    serde_json::from_slice::<serde_json::Value>(bytes).ok()
}

/// `serde_json`'s `Display` of a value: the text depends on what the value
/// holds alone, since an object's members are printed in the order of names.
#[verifier::external_body]
fn value_text(value: &serde_json::Value) -> (r: String)
    ensures
        r@ == json_text(value_tree(*value)),
{
    value.to_string()
}

/// The JSON value that `text` spells.
pub fn parse(text: &str) -> (r: Option<Json>)
    ensures
        match r {
            Some(json) => json.wf() && parsed_json(text@) == Some(json@),
            None => parsed_json(text@) is None,
        },
{
    match parse_value(text) {
        Some(value) => Some(from_value(value)),
        None => None,
    }
}

/// The JSON value that `bytes` spell.
pub fn parse_bytes(bytes: &[u8]) -> (r: Option<Json>)
    ensures
        match r {
            Some(json) => json.wf() && parsed_json_bytes(bytes@) == Some(json@),
            None => parsed_json_bytes(bytes@) is None,
        },
{
    match parse_value_bytes(bytes) {
        Some(value) => Some(from_value(value)),
        None => None,
    }
}

/// The member of an object under `name`.
pub open spec fn tree_member(tree: JsonTree, name: Seq<char>) -> Option<JsonTree> {
    match tree {
        JsonTree::Object(members) => if members.dom().contains(name) {
            Some(members[name])
        } else {
            None
        },
        _ => None,
    }
}

/// The item of an array at `index`.
pub open spec fn tree_item(tree: JsonTree, index: int) -> Option<JsonTree> {
    match tree {
        JsonTree::Array(items) => if 0 <= index < items.len() {
            Some(items[index])
        } else {
            None
        },
        _ => None,
    }
}

/// The text of a string.
pub open spec fn tree_text(tree: JsonTree) -> Option<Seq<char>> {
    match tree {
        JsonTree::Text(s) => Some(s),
        _ => None,
    }
}

/// The text of the string member under `name`.
pub open spec fn tree_member_text(tree: JsonTree, name: Seq<char>) -> Option<Seq<char>> {
    match tree_member(tree, name) {
        Some(member) => tree_text(member),
        None => None,
    }
}

/// A value without the member under `name`; one that is no object stays as it
/// is.
pub open spec fn tree_without(tree: JsonTree, name: Seq<char>) -> JsonTree {
    match tree {
        JsonTree::Object(members) => JsonTree::Object(members.remove(name)),
        _ => tree,
    }
}

/// The place of the member under `name`, or the number of members.
fn place_of(members: &Vec<(String, Json)>, name: &str) -> (at: usize)
    requires
        distinct(names(members@)),
    ensures
        at <= members.len(),
        at < members.len() ==> members@[at as int].0@ == name@,
        at < members.len() <==> members_tree(members@).dom().contains(name@),
        at < members.len() ==> members_tree(members@)[name@] == members@[at as int].1@,
{
    proof {
        members_tree_at(members@);
    }
    let mut at: usize = 0;
    while at < members.len()
        invariant
            at <= members.len(),
            forall|i: int| 0 <= i < at ==> (#[trigger] members@[i]).0@ != name@,
        ensures
            at < members.len() ==> members@[at as int].0@ == name@,
            at == members.len() ==> forall|i: int|
                0 <= i < members.len() ==> (#[trigger] members@[i]).0@ != name@,
            at <= members.len(),
        decreases members.len() - at,
    {
        if text::same(members[at].0.as_str(), name) {
            break ;
        }
        at += 1;
    }
    assert(at < members.len() ==> members_tree(members@).dom().contains(members@[at as int].0@));
    at
}

impl Json {
    /// The member of an object under `name`.
    pub fn member(&self, name: &str) -> (r: Option<&Json>)
        requires
            self.wf(),
        ensures
            match r {
                Some(member) => member.wf() && tree_member(self@, name@) == Some(member@),
                None => tree_member(self@, name@) is None,
            },
    {
        match self {
            Json::Object(members) => {
                proof {
                    members_wf_at(members@);
                }
                let at = place_of(members, name);
                if at < members.len() {
                    Some(&members[at].1)
                } else {
                    None
                }
            },
            _ => None,
        }
    }

    /// The member of an object under `name`, taken out of it.
    pub fn into_member(self, name: &str) -> (r: Option<Json>)
        requires
            self.wf(),
        ensures
            match r {
                Some(member) => member.wf() && tree_member(self@, name@) == Some(member@),
                None => tree_member(self@, name@) is None,
            },
    {
        match self {
            Json::Object(members) => {
                let mut members = members;
                proof {
                    members_wf_at(members@);
                }
                let at = place_of(&members, name);
                if at < members.len() {
                    let (_, member) = members.swap_remove(at);
                    Some(member)
                } else {
                    None
                }
            },
            _ => None,
        }
    }

    /// The item of an array at `index`.
    pub fn item(&self, index: usize) -> (r: Option<&Json>)
        requires
            self.wf(),
        ensures
            match r {
                Some(item) => item.wf() && tree_item(self@, index as int) == Some(item@),
                None => tree_item(self@, index as int) is None,
            },
    {
        match self {
            Json::Array(items) => {
                proof {
                    items_wf_at(items@);
                    items_tree_at(items@);
                }
                if index < items.len() {
                    Some(&items[index])
                } else {
                    None
                }
            },
            _ => None,
        }
    }

    /// The items of an array.
    pub fn items(&self) -> (r: Option<&Vec<Json>>)
        requires
            self.wf(),
        ensures
            match r {
                Some(items) => {
                    &&& self@ is Array
                    &&& self@->Array_0.len() == items.len()
                    &&& forall|i: int|
                        0 <= i < items.len() ==> (#[trigger] items@[i]).wf() && items@[i]@
                            == self@->Array_0[i]
                },
                None => self@ !is Array,
            },
    {
        match self {
            Json::Array(items) => {
                proof {
                    items_wf_at(items@);
                    items_tree_at(items@);
                }
                Some(items)
            },
            _ => None,
        }
    }

    /// The text of a string.
    pub fn as_text(&self) -> (r: Option<&str>)
        ensures
            match r {
                Some(s) => tree_text(self@) == Some(s@),
                None => tree_text(self@) is None,
            },
    {
        match self {
            Json::Text(s) => Some(s.as_str()),
            _ => None,
        }
    }

    /// The text of the string member under `name`.
    pub fn member_text(&self, name: &str) -> (r: Option<&str>)
        requires
            self.wf(),
        ensures
            match r {
                Some(s) => tree_member_text(self@, name@) == Some(s@),
                None => tree_member_text(self@, name@) is None,
            },
    {
        match self.member(name) {
            Some(member) => member.as_text(),
            None => None,
        }
    }

    /// The value without the member under `name`.
    pub fn without(self, name: &str) -> (r: Json)
        requires
            self.wf(),
        ensures
            r.wf(),
            r@ == tree_without(self@, name@),
    {
        match self {
            Json::Object(members) => {
                let mut members = members;
                let ghost given = members@;
                let at = place_of(&members, name);
                if at < members.len() {
                    let _ = members.remove(at);
                    proof {
                        members_remove_at(given, at as int);
                    }
                } else {
                    assert(members_tree(given).remove(name@) =~= members_tree(given));
                }
                Json::Object(members)
            },
            other => other,
        }
    }

    /// The object without members.
    pub fn object() -> (r: Json)
        ensures
            r.wf(),
            r@ == JsonTree::Object(Map::empty()),
    {
        Json::Object(Vec::new())
    }

    /// The object with `value` under `name`.
    pub fn with(self, name: &str, value: Json) -> (r: Json)
        requires
            self.wf(),
            self@ is Object,
            value.wf(),
        ensures
            r.wf(),
            r@ == JsonTree::Object(self@->Object_0.insert(name@, value@)),
    {
        match self.without(name) {
            Json::Object(members) => {
                let mut members = members;
                let ghost given = members@;
                members.push((name.to_owned(), value));
                proof {
                    members_tree_at(given);
                    assert(members@.drop_last() =~= given);
                    assert forall|i: int, j: int| 0 <= i < j < members@.len() implies names(
                        members@,
                    )[i] != names(members@)[j] by {
                        assert(names(given)[i] == names(members@)[i]);
                        assert(members_tree(given).dom().contains(given[i].0@));
                        if j < given.len() {
                            assert(names(given)[j] == names(members@)[j]);
                        }
                    }
                    assert(members_tree(members@) =~= self@->Object_0.insert(name@, value@));
                }
                Json::Object(members)
            },
            other => other,
        }
    }

    /// The object with a string under `name`.
    pub fn with_text(self, name: &str, value: &str) -> (r: Json)
        requires
            self.wf(),
            self@ is Object,
        ensures
            r.wf(),
            r@ == JsonTree::Object(self@->Object_0.insert(name@, JsonTree::Text(value@))),
    {
        self.with(name, Json::Text(value.to_owned()))
    }

    /// The object with an integer under `name`.
    pub fn with_integer(self, name: &str, value: u64) -> (r: Json)
        requires
            self.wf(),
            self@ is Object,
        ensures
            r.wf(),
            r@ == JsonTree::Object(
                self@->Object_0.insert(name@, JsonTree::Number(json_number(value))),
            ),
    {
        self.with(name, Json::Number(number_from(value)))
    }

    /// The compact text of the value.
    pub fn into_text(self) -> (r: String)
        requires
            self.wf(),
        ensures
            r@ == json_text(self@),
    {
        let value = into_value(self);
        value_text(&value)
    }
}

proof fn members_remove_at(members: Seq<(String, Json)>, at: int)
    requires
        distinct(names(members)),
        members_wf(members),
        0 <= at < members.len(),
    ensures
        distinct(names(members.remove(at))),
        members_wf(members.remove(at)),
        members_tree(members.remove(at)) == members_tree(members).remove(members[at].0@),
{
    let rest = members.remove(at);
    assert forall|i: int, j: int| 0 <= i < j < rest.len() implies names(rest)[i] != names(
        rest,
    )[j] by {
        let a = if i < at {
            i
        } else {
            i + 1
        };
        let b = if j < at {
            j
        } else {
            j + 1
        };
        assert(names(members)[a] == names(rest)[i]);
        assert(names(members)[b] == names(rest)[j]);
    }
    members_wf_at(members);
    members_wf_at(rest);
    assert forall|i: int| 0 <= i < rest.len() implies (#[trigger] rest[i]).1.wf() by {
        if i < at {
            assert(rest[i] == members[i]);
        } else {
            assert(rest[i] == members[i + 1]);
        }
    }
    members_tree_at(members);
    members_tree_at(rest);
    let whole = members_tree(members);
    let left = members_tree(rest);
    let name = members[at].0@;
    assert forall|key: Seq<char>| #[trigger] left.dom().contains(key) implies whole.remove(
        name,
    ).dom().contains(key) && left[key] == whole[key] by {
        let i = choose|i: int| 0 <= i < rest.len() && (#[trigger] rest[i]).0@ == key;
        let a = if i < at {
            i
        } else {
            i + 1
        };
        assert(members[a] == rest[i]);
        assert(names(members)[a] == key);
        assert(names(members)[at] == name);
        assert(whole.dom().contains(members[a].0@));
        assert(left.dom().contains(rest[i].0@));
    }
    assert forall|key: Seq<char>| #[trigger]
        whole.remove(name).dom().contains(key) implies left.dom().contains(key) by {
        assert(whole.dom().contains(key));
        let a = choose|a: int| 0 <= a < members.len() && (#[trigger] members[a]).0@ == key;
        let i = if a < at {
            a
        } else {
            a - 1
        };
        assert(members[a] == rest[i]);
        assert(left.dom().contains(rest[i].0@));
    }
    assert(left =~= whole.remove(name));
}

/// A member of an object is found under its name, and an item of an array at its
/// place; nothing is found in other values. A member that is taken away is gone,
/// and the others stay.
pub proof fn members_and_items_are_found(
    members: Map<Seq<char>, JsonTree>,
    items: Seq<JsonTree>,
    name: Seq<char>,
    other: Seq<char>,
    at: int,
    value: JsonTree,
)
    ensures
        tree_member(JsonTree::Object(members), name) == if members.dom().contains(name) {
            Some(members[name])
        } else {
            None
        },
        tree_item(JsonTree::Array(items), at) == if 0 <= at < items.len() {
            Some(items[at])
        } else {
            None
        },
        value !is Object ==> tree_member(value, name) is None && tree_without(value, name) == value,
        value !is Array ==> tree_item(value, at) is None,
        value matches JsonTree::Text(text) ==> tree_text(value) == Some(text),
        value !is Text ==> tree_text(value) is None,
        tree_member(JsonTree::Object(members.insert(name, value)), name) == Some(value),
        tree_member_text(JsonTree::Object(members.insert(name, value)), name) == tree_text(value),
        !members.dom().contains(name) ==> tree_member_text(JsonTree::Object(members), name) is None,
        tree_member(tree_without(JsonTree::Object(members), name), name) is None,
        other != name ==> tree_member(tree_without(JsonTree::Object(members), name), other)
            == tree_member(JsonTree::Object(members), other),
{
}

} // verus!
