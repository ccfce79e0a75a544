//! JSON values as the control API exchanges them.

use vstd::prelude::*;
use vstd::string::*;
use crate::text::opt_view;

verus! {

/// A JSON number. A number that is not an integer is carried by its bit pattern.
#[derive(Clone, Copy, Debug, PartialEq, Eq, Structural)]
pub enum Number {
    Unsigned(u64),
    Negative(i64),
    Float(u64),
}

/// A JSON value.
#[derive(Debug, PartialEq)]
pub enum Json {
    Null,
    Bool(bool),
    Number(Number),
    Text(String),
    Array(Vec<Json>),
    /// The members of an object. Where a name occurs twice the later member counts.
    Object(Vec<(String, Json)>),
}

/// What a JSON value means: text is a sequence of characters, an object a map.
pub ghost enum JsonView {
    Null,
    Bool(bool),
    Number(Number),
    Text(Seq<char>),
    Array(Seq<JsonView>),
    Object(Map<Seq<char>, JsonView>),
}

/// The values of an array's items.
pub open spec fn items_view(items: Seq<Json>) -> Seq<JsonView>
    decreases items,
{
    if items.len() == 0 {
        Seq::empty()
    } else {
        items_view(items.drop_last()).push(items.last().view())
    }
}

/// The map that an object's members stand for.
pub open spec fn members_view(members: Seq<(String, Json)>) -> Map<Seq<char>, JsonView>
    decreases members,
{
    if members.len() == 0 {
        Map::empty()
    } else {
        members_view(members.drop_last()).insert(members.last().0@, members.last().1.view())
    }
}

/// The member `key` of a value, `Null` where the value is no object or has no such member.
pub open spec fn member(value: JsonView, key: Seq<char>) -> JsonView {
    match value {
        JsonView::Object(members) => if members.contains_key(key) {
            members[key]
        } else {
            JsonView::Null
        },
        _ => JsonView::Null,
    }
}

/// Text, or `Null` where there is none.
pub open spec fn text_or_null(text: Option<Seq<char>>) -> JsonView {
    match text {
        Some(s) => JsonView::Text(s),
        None => JsonView::Null,
    }
}

/// A count or an id, or `Null` where there is none.
pub open spec fn unsigned_or_null(number: Option<u64>) -> JsonView {
    match number {
        Some(n) => unsigned_json(n),
        None => JsonView::Null,
    }
}

pub open spec fn unsigned_json(n: u64) -> JsonView {
    JsonView::Number(Number::Unsigned(n))
}

/// The texts of `texts`, each as a JSON value.
pub open spec fn texts_view(texts: Seq<String>) -> Seq<JsonView> {
    texts.map_values(|s: String| JsonView::Text(s@))
}

/// Adding an item at the end of an array adds its value at the end.
pub proof fn lemma_items_push(items: Seq<Json>, item: Json)
    ensures
        items_view(items.push(item)) == items_view(items).push(item@),
{
    assert(items.push(item).drop_last() =~= items);
}

/// An array has as many values as items, in the same order.
pub proof fn lemma_items_index(items: Seq<Json>)
    ensures
        items_view(items).len() == items.len(),
        forall|i: int| 0 <= i < items.len() ==> #[trigger] items_view(items)[i] == items[i]@,
    decreases items.len(),
{
    if items.len() > 0 {
        lemma_items_index(items.drop_last());
        assert forall|i: int| 0 <= i < items.len() implies #[trigger] items_view(items)[i]
            == items[i]@ by {
            if i < items.len() - 1 {
                assert(items_view(items.drop_last())[i] == items.drop_last()[i]@);
            }
        }
    }
}

/// Adding a member at the end of an object inserts it.
pub proof fn lemma_members_push(members: Seq<(String, Json)>, key: String, value: Json)
    ensures
        members_view(members.push((key, value))) == members_view(members).insert(key@, value@),
{
    assert(members.push((key, value)).drop_last() =~= members);
}

/// Appends the member `key` with `value`.
pub fn put(members: &mut Vec<(String, Json)>, key: &str, value: Json)
    ensures
        members_view(final(members)@) == members_view(old(members)@).insert(key@, value@),
{
    let name = key.to_owned();
    proof {
        lemma_members_push(members@, name, value);
    }
    members.push((name, value));
}

/// Leaves out every member named `key` and hands back the value of the last of them.
pub fn take_member(members: Vec<(String, Json)>, key: &str) -> (result: (
    Vec<(String, Json)>,
    Option<Json>,
))
    ensures
        members_view(result.0@) == members_view(members@).remove(key@),
        match result.1 {
            Some(value) => members_view(members@).contains_key(key@) && value@ == members_view(
                members@,
            )[key@],
            None => !members_view(members@).contains_key(key@),
        },
{
    let wanted = key.to_owned();
    let mut kept: Vec<(String, Json)> = Vec::new();
    let mut found: Option<Json> = None;
    assert(members_view(kept@) =~= members_view(members@.take(0)).remove(key@));
    for entry in it: members
        invariant
            it.seq() == members@,
            wanted@ == key@,
            members_view(kept@) == members_view(members@.take(it.index() as int)).remove(key@),
            match found {
                Some(value) => members_view(members@.take(it.index() as int)).contains_key(key@)
                    && value@ == members_view(members@.take(it.index() as int))[key@],
                None => !members_view(members@.take(it.index() as int)).contains_key(key@),
            },
    {
        let ghost seen = members@.take(it.index() as int);
        let (name, value) = entry;
        proof {
            assert(members@.take(it.index() + 1) =~= seen.push((name, value)));
            lemma_members_push(seen, name, value);
            lemma_members_push(kept@, name, value);
        }
        if name == wanted {
            found = Some(value);
            assert(members_view(kept@) =~= members_view(seen).insert(name@, value@).remove(key@));
        } else {
            kept.push((name, value));
            assert(members_view(kept@) =~= members_view(seen).insert(name@, value@).remove(key@));
        }
    }
    assert(members@.take(members@.len() as int) =~= members@);
    (kept, found)
}

impl Json {
    pub open spec fn view(&self) -> JsonView
        decreases self,
    {
        match self {
            Json::Null => JsonView::Null,
            Json::Bool(b) => JsonView::Bool(*b),
            Json::Number(n) => JsonView::Number(*n),
            Json::Text(s) => JsonView::Text(s@),
            Json::Array(items) => JsonView::Array(items_view(items@)),
            Json::Object(members) => JsonView::Object(members_view(members@)),
        }
    }

    pub fn text(s: &str) -> (json: Json)
        ensures
            json@ == JsonView::Text(s@),
    {
        Json::Text(s.to_owned())
    }

    pub fn unsigned(n: u64) -> (json: Json)
        ensures
            json@ == unsigned_json(n),
    {
        Json::Number(Number::Unsigned(n))
    }

    pub fn text_or_null(text: &Option<String>) -> (json: Json)
        ensures
            json@ == text_or_null(opt_view(*text)),
    {
        match text {
            Some(s) => Json::Text(s.clone()),
            None => Json::Null,
        }
    }

    pub fn unsigned_or_null(number: Option<u64>) -> (json: Json)
        ensures
            json@ == unsigned_or_null(number),
    {
        match number {
            Some(n) => Json::unsigned(n),
            None => Json::Null,
        }
    }

    pub fn texts(texts: &Vec<String>) -> (json: Json)
        ensures
            json@ == JsonView::Array(texts_view(texts@)),
    {
        let mut items: Vec<Json> = Vec::new();
        for i in 0..texts.len()
            invariant
                items_view(items@) == texts_view(texts@.take(i as int)),
        {
            let item = Json::Text(texts[i].clone());
            proof {
                lemma_items_push(items@, item);
                assert(texts@.take(i + 1) =~= texts@.take(i as int).push(texts@[i as int]));
                assert(texts_view(texts@.take(i + 1)) =~= texts_view(texts@.take(i as int)).push(
                    JsonView::Text(texts@[i as int]@),
                ));
            }
            items.push(item);
        }
        assert(texts@.take(texts@.len() as int) =~= texts@);
        Json::Array(items)
    }

    /// The member `key`, where the value is an object that has one.
    pub fn get(&self, key: &str) -> (value: Option<&Json>)
        ensures
            match self@ {
                JsonView::Object(members) => if members.contains_key(key@) {
                    value is Some && value->0@ == members[key@]
                } else {
                    value is None
                },
                _ => value is None,
            },
    {
        match self {
            Json::Object(members) => {
                let wanted = key.to_owned();
                let mut i: usize = members.len();
                assert(members@.take(members@.len() as int) =~= members@);
                while i > 0
                    invariant
                        i <= members.len(),
                        wanted@ == key@,
                        self@ == JsonView::Object(members_view(members@)),
                        members_view(members@).contains_key(key@) == members_view(
                            members@.take(i as int),
                        ).contains_key(key@),
                        members_view(members@).contains_key(key@) ==> members_view(members@)[key@]
                            == members_view(members@.take(i as int))[key@],
                    decreases i,
                {
                    i = i - 1;
                    assert(members@.take(i + 1).drop_last() =~= members@.take(i as int));
                    if members[i].0 == wanted {
                        return Some(&members[i].1);
                    }
                }
                None
            },
            _ => None,
        }
    }

    /// Takes the member `key` out of the value; `Null` where there is none.
    pub fn into_member(self, key: &str) -> (value: Json)
        ensures
            value@ == member(self@, key@),
    {
        match self {
            Json::Object(members) => {
                let wanted = key.to_owned();
                let mut rest = members;
                loop
                    invariant
                        wanted@ == key@,
                        self@ == JsonView::Object(members_view(members@)),
                        members_view(members@).contains_key(key@) == members_view(
                            rest@,
                        ).contains_key(key@),
                        members_view(members@).contains_key(key@) ==> members_view(members@)[key@]
                            == members_view(rest@)[key@],
                    ensures
                        rest.len() == 0,
                    decreases rest.len(),
                {
                    match rest.pop() {
                        Some((name, value)) => {
                            if name == wanted {
                                return value;
                            }
                        },
                        None => {
                            break;
                        },
                    }
                }
                Json::Null
            },
            _ => Json::Null,
        }
    }

    pub fn as_bool(&self) -> (b: Option<bool>)
        ensures
            b == as_bool(self@),
    {
        match self {
            Json::Bool(b) => Some(*b),
            _ => None,
        }
    }

    pub fn as_unsigned(&self) -> (n: Option<u64>)
        ensures
            n == as_unsigned(self@),
    {
        match self {
            Json::Number(Number::Unsigned(n)) => Some(*n),
            _ => None,
        }
    }
}

/// The truth value, where the value is one.
pub open spec fn as_bool(value: JsonView) -> Option<bool> {
    match value {
        JsonView::Bool(b) => Some(b),
        _ => None,
    }
}

/// The integer, where the value is one that is not negative.
pub open spec fn as_unsigned(value: JsonView) -> Option<u64> {
    match value {
        JsonView::Number(Number::Unsigned(n)) => Some(n),
        _ => None,
    }
}

/// A JSON value means what it holds: nothing becomes something else, and text and numbers stay as
/// they are.
pub proof fn law_json_means_what_it_holds(value: Json)
    ensures
        value is Null <==> value@ is Null,
        value matches Json::Bool(b) ==> value@ == JsonView::Bool(b),
        value matches Json::Number(n) ==> value@ == JsonView::Number(n),
        value matches Json::Text(s) ==> value@ == JsonView::Text(s@),
        value matches Json::Array(items) ==> {
            &&& value@ is Array
            &&& value@->Array_0.len() == items@.len()
            &&& forall|i: int|
                0 <= i < items@.len() ==> #[trigger] value@->Array_0[i] == items@[i]@
        },
        value is Object <==> value@ is Object,
{
    if let Json::Array(items) = value {
        lemma_items_index(items@);
    }
}

/// An object has the members that are written in it and no others; where a name is written twice,
/// the later member is the one that counts.
pub proof fn law_last_member_counts(members: Vec<(String, Json)>, at: int)
    requires
        0 <= at < members@.len(),
        forall|j: int| at < j < members@.len() ==> #[trigger] members@[j].0@ != members@[at].0@,
    ensures
        Json::Object(members)@ is Object,
        Json::Object(members)@->Object_0.contains_key(members@[at].0@),
        Json::Object(members)@->Object_0[members@[at].0@] == members@[at].1@,
{
    lemma_last_member(members@, at);
}

/// An object has no member that is not written in it.
pub proof fn law_no_member_is_made_up(members: Vec<(String, Json)>, key: Seq<char>)
    requires
        forall|i: int| 0 <= i < members@.len() ==> #[trigger] members@[i].0@ != key,
    ensures
        !Json::Object(members)@->Object_0.contains_key(key),
{
    lemma_no_member(members@, key);
}

proof fn lemma_last_member(members: Seq<(String, Json)>, at: int)
    requires
        0 <= at < members.len(),
        forall|j: int| at < j < members.len() ==> #[trigger] members[j].0@ != members[at].0@,
    ensures
        members_view(members).contains_key(members[at].0@),
        members_view(members)[members[at].0@] == members[at].1@,
    decreases members.len(),
{
    let last = members.len() - 1;
    if at < last {
        let rest = members.drop_last();
        assert(members[last].0@ != members[at].0@);
        assert(rest[at] == members[at]);
        assert forall|j: int| at < j < rest.len() implies #[trigger] rest[j].0@ != rest[at].0@ by {
            assert(members[j].0@ != members[at].0@);
        }
        lemma_last_member(rest, at);
    }
}

proof fn lemma_no_member(members: Seq<(String, Json)>, key: Seq<char>)
    requires
        forall|i: int| 0 <= i < members.len() ==> #[trigger] members[i].0@ != key,
    ensures
        !members_view(members).contains_key(key),
    decreases members.len(),
{
    if members.len() > 0 {
        let rest = members.drop_last();
        assert(members[members.len() - 1].0@ != key);
        assert forall|i: int| 0 <= i < rest.len() implies #[trigger] rest[i].0@ != key by {
            assert(members[i].0@ != key);
        }
        lemma_no_member(rest, key);
    }
}

/// A member is read as it stands, and what is no member is null; a truth value or a count is read
/// only from one.
pub proof fn law_members_are_read_as_they_stand(value: JsonView, key: Seq<char>)
    ensures
        member(value, key) == match value {
            JsonView::Object(members) if members.contains_key(key) => members[key],
            _ => JsonView::Null,
        },
        forall|b: bool| as_bool(value) == Some(b) <==> value == JsonView::Bool(b),
        forall|n: u64|
            as_unsigned(value) == Some(n) <==> value == JsonView::Number(Number::Unsigned(n)),
{
}

} // verus!
