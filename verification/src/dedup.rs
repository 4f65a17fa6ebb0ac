//! Markers that tell whether a response differs from the one before it.

use vstd::hash_map::StringHashMap;
use vstd::prelude::*;
use vstd::utf8::encode_utf8;

use crate::encoding::digest_text;
use crate::encoding::hex;
use crate::encoding::sha256_digest;
use crate::encoding::sha256_hex;
use crate::json;
use crate::json::json_text;
use crate::json::parsed_json;
use crate::json::tree_member;
use crate::json::tree_without;
use crate::json::Json;
use crate::json::JsonTree;
use crate::text::joined;
use crate::text::joined_texts_are_the_pieces;
use crate::text::pieces;
use crate::text::pieces_never_empty;
use crate::text::pieces_of_both;
use crate::text::same;
use crate::text::split;
use crate::text::texts;

verus! {

/// What stands for a body: the field that a path of names leads to, a digest
/// of the whole, or a digest of all but some fields.
pub enum Marker {
    Field(&'static str),
    Hash,
    HashExcluding(&'static [&'static str]),
}

/// The value that a path of names leads to.
pub open spec fn walked(tree: JsonTree, path: Seq<Seq<char>>) -> Option<JsonTree>
    decreases path.len(),
{
    if path.len() == 0 {
        Some(tree)
    } else {
        match tree_member(tree, path[0]) {
            Some(next) => walked(next, path.drop_first()),
            None => None,
        }
    }
}

/// A value without the members under `names`.
pub open spec fn without_all(tree: JsonTree, names: Seq<&'static str>) -> JsonTree
    decreases names.len(),
{
    if names.len() == 0 {
        tree
    } else {
        tree_without(without_all(tree, names.drop_last()), names.last()@)
    }
}

/// The marker of a body, given the JSON value that it spells, if any.
pub open spec fn marked(body: Seq<char>, parsed: Option<JsonTree>, kind: Marker) -> Seq<char> {
    match (kind, parsed) {
        (Marker::Field(path), Some(tree)) => match walked(tree, pieces(path@, '/')) {
            Some(field) => json_text(field),
            None => digest_text(body),
        },
        (Marker::HashExcluding(fields), Some(tree)) => digest_text(
            json_text(without_all(tree, fields@)),
        ),
        _ => digest_text(body),
    }
}

/// The marker of a body.
pub fn marker(body: &str, kind: &Marker) -> (r: String)
    ensures
        r@ == marked(body@, parsed_json(body@), *kind),
{
    match kind {
        Marker::Hash => sha256_hex(body),
        _ => marker_of(body, json::parse(body), kind),
    }
}

/// The marker of a body that spells `parsed`.
pub fn marker_of(body: &str, parsed: Option<Json>, kind: &Marker) -> (r: String)
    requires
        parsed matches Some(json) ==> json.wf(),
    ensures
        r@ == marked(
            body@,
            match parsed {
                Some(json) => Some(json@),
                None => None,
            },
            *kind,
        ),
{
    match (kind, parsed) {
        (Marker::Field(path), Some(json)) => field_marker(body, json, path),
        (Marker::HashExcluding(fields), Some(json)) => hash_excluding(json, fields),
        _ => sha256_hex(body),
    }
}

fn field_marker(body: &str, json: Json, path: &str) -> (r: String)
    requires
        json.wf(),
    ensures
        r@ == match walked(json@, pieces(path@, '/')) {
            Some(field) => json_text(field),
            None => digest_text(body@),
        },
{
    let names = split(path, '/');
    let ghost whole = pieces(path@, '/');
    let ghost start = json@;
    let mut current: Json = json;
    let mut i: usize = 0;
    assert(whole.skip(0) =~= whole);
    while i < names.len()
        invariant
            i <= names.len(),
            texts(names@) == whole,
            whole == pieces(path@, '/'),
            start == json@,
            current.wf(),
            walked(start, whole) == walked(current@, whole.skip(i as int)),
        decreases names.len() - i,
    {
        let ghost left = whole.skip(i as int);
        assert(left[0] == texts(names@)[i as int]);
        assert(left.drop_first() =~= whole.skip(i + 1));
        match current.into_member(names[i].as_str()) {
            Some(next) => {
                current = next;
            },
            None => {
                return sha256_hex(body);
            },
        }
        i += 1;
    }
    current.into_text()
}

fn hash_excluding(json: Json, fields: &[&'static str]) -> (r: String)
    requires
        json.wf(),
    ensures
        r@ == digest_text(json_text(without_all(json@, fields@))),
{
    let ghost start = json@;
    let mut rest: Json = json;
    let mut i: usize = 0;
    while i < fields.len()
        invariant
            i <= fields.len(),
            rest.wf(),
            rest@ == without_all(start, fields@.take(i as int)),
        decreases fields.len() - i,
    {
        rest = rest.without(fields[i]);
        i += 1;
        let ghost seen = fields@.take(i as int);
        assert(seen.drop_last() =~= fields@.take(i - 1));
        assert(seen.last() == fields@[i - 1]);
    }
    assert(fields@.take(i as int) =~= fields@);
    let text = rest.into_text();
    sha256_hex(text.as_str())
}

/// Remembers the last marker of each key.
pub struct Deduper {
    last: StringHashMap<String>,
}

impl View for Deduper {
    type V = Map<Seq<char>, Seq<char>>;

    closed spec fn view(&self) -> Map<Seq<char>, Seq<char>> {
        self.last@.map_values(|marker: String| marker@)
    }
}

/// Whether `marker` differs from what is remembered under `key`.
pub open spec fn is_change(
    seen: Map<Seq<char>, Seq<char>>,
    key: Seq<char>,
    marker: Seq<char>,
) -> bool {
    !(seen.dom().contains(key) && seen[key] == marker)
}

impl Deduper {
    pub fn new() -> (r: Self)
        ensures
            r@ == Map::<Seq<char>, Seq<char>>::empty(),
    {
        let r = Deduper { last: StringHashMap::new() };
        assert(r@ =~= Map::<Seq<char>, Seq<char>>::empty());
        r
    }

    /// Remembers a marker, and says whether it is new under its key.
    pub fn changed(&mut self, key: &str, marker: String) -> (r: bool)
        ensures
            r == is_change(old(self)@, key@, marker@),
            r <==> !old(self)@.dom().contains(key@) || old(self)@[key@] != marker@,
            final(self)@ == old(self)@.insert(key@, marker@),
    {
        let known = match self.last.get(key) {
            Some(last) => same(last.as_str(), marker.as_str()),
            None => false,
        };
        if known {
            assert(self@ =~= old(self)@.insert(key@, marker@));
            return false;
        }
        self.last.insert(key.to_owned(), marker);
        assert(self@ =~= old(self)@.insert(key@, marker@));
        true
    }
}

impl Default for Deduper {
    fn default() -> (r: Self)
        ensures
            r@ == Map::<Seq<char>, Seq<char>>::empty(),
    {
        Deduper::new()
    }
}

/// A marker that was just remembered is no change, and what is remembered
/// under other keys is not touched.
pub proof fn remembered_marker_is_no_change(
    seen: Map<Seq<char>, Seq<char>>,
    key: Seq<char>,
    marker: Seq<char>,
    other: Seq<char>,
    probe: Seq<char>,
)
    ensures
        !is_change(seen.insert(key, marker), key, marker),
        probe != marker ==> is_change(seen.insert(key, marker), key, probe),
        other != key ==> is_change(seen.insert(key, marker), other, probe) == is_change(
            seen,
            other,
            probe,
        ),
{
}

/// Two bodies that spell values which differ only in excluded fields have one
/// marker.
pub proof fn excluded_fields_do_not_count(
    first: Seq<char>,
    second: Seq<char>,
    fields: &'static [&'static str],
)
    requires
        parsed_json(first) is Some,
        parsed_json(second) is Some,
        without_all(parsed_json(first)->0, fields@) == without_all(
            parsed_json(second)->0,
            fields@,
        ),
    ensures
        marked(first, parsed_json(first), Marker::HashExcluding(fields)) == marked(
            second,
            parsed_json(second),
            Marker::HashExcluding(fields),
        ),
{
}

/// What is left of an object without some fields: the members under all other
/// names, as they were. Anything but an object is left as it is.
pub proof fn other_fields_are_left(tree: JsonTree, names: Seq<&'static str>)
    ensures
        tree matches JsonTree::Object(members) ==> {
            &&& without_all(tree, names) is Object
            &&& forall|key: Seq<char>| #[trigger]
                without_all(tree, names)->Object_0.dom().contains(key) <==> members.dom().contains(
                    key,
                ) && (forall|i: int| 0 <= i < names.len() ==> (#[trigger] names[i])@ != key)
            &&& forall|key: Seq<char>| #[trigger]
                without_all(tree, names)->Object_0.dom().contains(key) ==> without_all(
                    tree,
                    names,
                )->Object_0[key] == members[key]
        },
        tree !is Object ==> without_all(tree, names) == tree,
    decreases names.len(),
{
    if names.len() > 0 {
        let init = names.drop_last();
        other_fields_are_left(tree, init);
        if let JsonTree::Object(members) = tree {
            let kept = without_all(tree, init)->Object_0;
            let left = without_all(tree, names)->Object_0;
            assert(left == kept.remove(names.last()@));
            assert forall|key: Seq<char>| #[trigger] left.dom().contains(key) <==> members.dom(

            ).contains(key) && (forall|i: int|
                0 <= i < names.len() ==> (#[trigger] names[i])@ != key) by {
                if left.dom().contains(key) {
                    assert(kept.dom().contains(key));
                    assert forall|i: int| 0 <= i < names.len() implies (#[trigger] names[i])@
                        != key by {
                        if i < init.len() {
                            assert(init[i]@ != key);
                        }
                    }
                }
                if members.dom().contains(key) && (forall|i: int|
                    0 <= i < names.len() ==> (#[trigger] names[i])@ != key) {
                    assert forall|i: int| 0 <= i < init.len() implies (#[trigger] init[i])@
                        != key by {
                        assert(names[i]@ != key);
                    }
                    assert(kept.dom().contains(key));
                    assert(names[names.len() - 1]@ != key);
                }
            }
            assert forall|key: Seq<char>| #[trigger] left.dom().contains(key) implies left[key]
                == members[key] by {
                assert(kept.dom().contains(key));
            }
        }
    }
}

/// Two objects that agree on all but the excluded fields have one marker: that of
/// the object with the other fields alone. Whatever spells no JSON value is
/// marked by the digest of the whole.
pub proof fn bodies_are_marked_by_their_other_fields(
    body: Seq<char>,
    members: Map<Seq<char>, JsonTree>,
    left: Map<Seq<char>, JsonTree>,
    fields: &'static [&'static str],
)
    requires
        forall|key: Seq<char>| #[trigger]
            left.dom().contains(key) <==> members.dom().contains(key) && (forall|i: int|
                0 <= i < fields@.len() ==> (#[trigger] fields@[i])@ != key),
        forall|key: Seq<char>| #[trigger] left.dom().contains(key) ==> left[key] == members[key],
    ensures
        marked(body, Some(JsonTree::Object(members)), Marker::HashExcluding(fields)) == hex(
            sha256_digest(encode_utf8(json_text(JsonTree::Object(left)))),
        ),
        marked(body, None, Marker::HashExcluding(fields)) == hex(sha256_digest(encode_utf8(body))),
{
    other_fields_are_left(JsonTree::Object(members), fields@);
    let kept = without_all(JsonTree::Object(members), fields@)->Object_0;
    assert(kept.dom() =~= left.dom());
    assert(kept =~= left);
}

/// The digest of the whole body marks it where that is asked for, and where a
/// field is asked for that is not there.
pub proof fn bodies_are_marked_by_their_digest(
    body: Seq<char>,
    parsed: Option<JsonTree>,
    members: Map<Seq<char>, JsonTree>,
    path: &'static str,
)
    ensures
        marked(body, parsed, Marker::Hash) == hex(sha256_digest(encode_utf8(body))),
        marked(body, None, Marker::Field(path)) == hex(sha256_digest(encode_utf8(body))),
        !path@.contains('/') && !members.dom().contains(path@) ==> marked(
            body,
            Some(JsonTree::Object(members)),
            Marker::Field(path),
        ) == hex(sha256_digest(encode_utf8(body))),
        !path@.contains('/') && members.dom().contains(path@) ==> marked(
            body,
            Some(JsonTree::Object(members)),
            Marker::Field(path),
        ) == json_text(members[path@]),
{
    if !path@.contains('/') {
        joined_texts_are_the_pieces(seq![path@], '/');
        assert(joined(seq![path@], seq!['/']) == path@);
        assert(seq![path@].drop_first() =~= Seq::empty());
        reveal_with_fuel(walked, 2);
    }
}

/// A path leads into the member that its first name names, and on from there by
/// the rest; it leads nowhere where there is no such member.
pub proof fn paths_lead_from_member_to_member(
    members: Map<Seq<char>, JsonTree>,
    name: Seq<char>,
    rest: Seq<char>,
)
    requires
        !name.contains('/'),
    ensures
        walked(JsonTree::Object(members), pieces(name + seq!['/'] + rest, '/')) == if members.dom(

        ).contains(name) {
            walked(members[name], pieces(rest, '/'))
        } else {
            None
        },
{
    joined_texts_are_the_pieces(seq![name], '/');
    assert(joined(seq![name], seq!['/']) == name);
    pieces_of_both(name, rest, '/');
    let path = pieces(name + seq!['/'] + rest, '/');
    assert(path[0] == name);
    assert(path.drop_first() =~= pieces(rest, '/'));
}

/// A body that spells a value is marked by the JSON of the field that a path leads
/// to, and by its digest where the path leads nowhere.
pub proof fn fields_mark_their_bodies(body: Seq<char>, tree: JsonTree, path: &'static str)
    ensures
        walked(tree, pieces(path@, '/')) matches Some(field) ==> marked(
            body,
            Some(tree),
            Marker::Field(path),
        ) == json_text(field),
        walked(tree, pieces(path@, '/')) is None ==> marked(body, Some(tree), Marker::Field(path))
            == hex(sha256_digest(encode_utf8(body))),
        tree !is Object ==> marked(body, Some(tree), Marker::Field(path)) == hex(
            sha256_digest(encode_utf8(body)),
        ),
        walked(tree, Seq::empty()) == Some(tree),
{
    pieces_never_empty(path@, '/');
}

} // verus!
