//! JSON values that the crate builds and reads.

use vstd::prelude::*;
use vstd::string::*;

use crate::text::chars;

verus! {

/// A JSON value.
#[derive(Debug)]
pub enum Json {
    Null,
    Bool(bool),
    Int(i64),
    /// A number that is no signed 64-bit integer, as it is written.
    Number(String),
    Text(String),
    Array(Vec<Json>),
    /// The members of an object. Of members with the same key the last one counts.
    Object(Vec<(String, Json)>),
}

/// A JSON value as a mathematical value: the members of an object have no order.
pub enum JsonModel {
    Null,
    Bool(bool),
    Int(i64),
    Number(Seq<char>),
    Text(Seq<char>),
    Array(Seq<JsonModel>),
    Object(Map<Seq<char>, JsonModel>),
}

/// The mathematical value of a JSON value.
pub open spec fn model_of(j: Json) -> JsonModel
    decreases j,
{
    match j {
        Json::Null => JsonModel::Null,
        Json::Bool(b) => JsonModel::Bool(b),
        Json::Int(n) => JsonModel::Int(n),
        Json::Number(s) => JsonModel::Number(s@),
        Json::Text(s) => JsonModel::Text(s@),
        Json::Array(v) => JsonModel::Array(items_of(v@)),
        Json::Object(v) => JsonModel::Object(members_of(v@)),
    }
}

/// The mathematical values of the items of an array.
pub open spec fn items_of(v: Seq<Json>) -> Seq<JsonModel>
    decreases v,
{
    if v.len() == 0 {
        Seq::empty()
    } else {
        items_of(v.drop_last()).push(model_of(v[v.len() - 1]))
    }
}

/// The members of an object as a map.
pub open spec fn members_of(v: Seq<(String, Json)>) -> Map<Seq<char>, JsonModel>
    decreases v,
{
    if v.len() == 0 {
        Map::empty()
    } else {
        members_of(v.drop_last()).insert(v[v.len() - 1].0@, model_of(v[v.len() - 1].1))
    }
}

impl View for Json {
    type V = JsonModel;

    open spec fn view(&self) -> JsonModel {
        model_of(*self)
    }
}

/// The value of the member `key`, where there is one.
pub open spec fn member(j: JsonModel, key: Seq<char>) -> Option<JsonModel> {
    match j {
        JsonModel::Object(m) => if m.contains_key(key) {
            Some(m[key])
        } else {
            None
        },
        _ => None,
    }
}

/// The value has no members but those under the given keys.
pub open spec fn has_only(j: JsonModel, keys: Set<Seq<char>>) -> bool {
    forall|k: Seq<char>| #[trigger] member(j, k) is Some ==> keys.contains(k)
}

/// The text of a value that is a string.
pub open spec fn text_of(j: JsonModel) -> Option<Seq<char>> {
    match j {
        JsonModel::Text(s) => Some(s),
        _ => None,
    }
}

/// The text of the member `key`, where that member is a string.
pub open spec fn member_text(j: JsonModel, key: Seq<char>) -> Option<Seq<char>> {
    match member(j, key) {
        Some(v) => text_of(v),
        None => None,
    }
}

/// A string, or null in its absence.
pub open spec fn opt_text(s: Option<Seq<char>>) -> JsonModel {
    match s {
        Some(t) => JsonModel::Text(t),
        None => JsonModel::Null,
    }
}

/// The items of an array with one more behind them.
pub proof fn lemma_items_push(v: Seq<Json>, x: Json)
    ensures
        items_of(v.push(x)) == items_of(v).push(model_of(x)),
{
    assert(v.push(x).drop_last() =~= v);
}

/// The members of an object with one more behind them.
pub proof fn lemma_members_push(v: Seq<(String, Json)>, x: (String, Json))
    ensures
        members_of(v.push(x)) == members_of(v).insert(x.0@, model_of(x.1)),
{
    assert(v.push(x).drop_last() =~= v);
}

/// The items of an array, one by one.
pub proof fn lemma_items(v: Seq<Json>)
    ensures
        items_of(v).len() == v.len(),
        forall|i: int| 0 <= i < v.len() ==> #[trigger] items_of(v)[i] == model_of(v[i]),
    decreases v.len(),
{
    if v.len() > 0 {
        lemma_items(v.drop_last());
        assert forall|i: int| 0 <= i < v.len() implies #[trigger] items_of(v)[i] == model_of(
            v[i],
        ) by {
            if i < v.len() - 1 {
                assert(items_of(v)[i] == items_of(v.drop_last())[i]);
            }
        }
    }
}

/// A key behind which no member with the same key stands decides its value.
proof fn lemma_last_member(v: Seq<(String, Json)>, i: int)
    requires
        0 <= i < v.len(),
        forall|j: int| i < j < v.len() ==> (#[trigger] v[j]).0@ != v[i].0@,
    ensures
        members_of(v).contains_key(v[i].0@),
        members_of(v)[v[i].0@] == model_of(v[i].1),
    decreases v.len(),
{
    if i < v.len() - 1 {
        assert(v[v.len() - 1].0@ != v[i].0@);
        assert forall|j: int| i < j < v.drop_last().len() implies (#[trigger] v.drop_last()[j]).0@
            != v.drop_last()[i].0@ by {
            assert(v.drop_last()[j] == v[j]);
        }
        lemma_last_member(v.drop_last(), i);
    }
}

/// A key that no member has is not in the map.
proof fn lemma_no_member(v: Seq<(String, Json)>, key: Seq<char>)
    requires
        forall|j: int| 0 <= j < v.len() ==> (#[trigger] v[j]).0@ != key,
    ensures
        !members_of(v).contains_key(key),
    decreases v.len(),
{
    if v.len() > 0 {
        assert(v[v.len() - 1].0@ != key);
        assert forall|j: int| 0 <= j < v.drop_last().len() implies (#[trigger] v.drop_last()[j]).0@
            != key by {
            assert(v.drop_last()[j] == v[j]);
        }
        lemma_no_member(v.drop_last(), key);
    }
}

/// Taking the last member with a key out and putting a new value under the same
/// key behind the others changes that key's value and nothing else.
pub proof fn lemma_member_moved(v: Seq<(String, Json)>, i: int, x: (String, Json))
    requires
        0 <= i < v.len(),
        v[i].0@ == x.0@,
    ensures
        members_of(v.remove(i).push(x)) == members_of(v).insert(x.0@, model_of(x.1)),
    decreases v.len(),
{
    lemma_members_push(v.remove(i), x);
    lemma_member_removed(v, i);
    assert(members_of(v.remove(i)).insert(x.0@, model_of(x.1)) =~= members_of(v).insert(
        x.0@,
        model_of(x.1),
    ));
}

/// Taking a member out changes no other key.
proof fn lemma_member_removed(v: Seq<(String, Json)>, i: int)
    requires
        0 <= i < v.len(),
    ensures
        forall|q: Seq<char>|
            q != v[i].0@ ==> {
                &&& #[trigger] members_of(v.remove(i)).contains_key(q) == members_of(
                    v,
                ).contains_key(q)
                &&& members_of(v).contains_key(q) ==> members_of(v.remove(i))[q] == members_of(
                    v,
                )[q]
            },
    decreases v.len(),
{
    if i == v.len() - 1 {
        assert(v.remove(i) =~= v.drop_last());
    } else {
        let w = v.drop_last();
        lemma_member_removed(w, i);
        assert(v.remove(i).drop_last() =~= w.remove(i));
        let x = v[v.len() - 1];
        assert(v.remove(i)[v.len() - 2] == x);
        assert(w[i] == v[i]);
        let a = members_of(w.remove(i));
        assert(members_of(v.remove(i)) == a.insert(x.0@, model_of(x.1)));
        assert forall|q: Seq<char>| q != v[i].0@ implies {
            &&& #[trigger] members_of(v.remove(i)).contains_key(q) == members_of(v).contains_key(q)
            &&& members_of(v).contains_key(q) ==> members_of(v.remove(i))[q] == members_of(v)[q]
        } by {
            assert(a.contains_key(q) == members_of(w).contains_key(q));
        }
    }
}

/// The place of the last member with the key `key`.
pub fn last_with_key(v: &Vec<(String, Json)>, key: &str) -> (r: Option<usize>)
    ensures
        match r {
            Some(i) => i < v@.len() && v@[i as int].0@ == key@ && members_of(v@).contains_key(key@)
                && members_of(v@)[key@] == model_of(v@[i as int].1),
            None => !members_of(v@).contains_key(key@),
        },
{
    let mut i: usize = v.len();
    while i > 0
        invariant
            i <= v@.len(),
            forall|j: int| i <= j < v@.len() ==> (#[trigger] v@[j]).0@ != key@,
        decreases i,
    {
        i = i - 1;
        if chars::str_eq(v[i].0.as_str(), key) {
            proof {
                lemma_last_member(v@, i as int);
            }
            return Some(i);
        }
    }
    proof {
        lemma_no_member(v@, key@);
    }
    None
}

impl Json {
    /// The member `key` of an object; nothing of any other value.
    pub fn get(&self, key: &str) -> (r: Option<&Json>)
        ensures
            match r {
                Some(j) => member(self@, key@) == Some(j@),
                None => member(self@, key@) is None,
            },
    {
        match self {
            Json::Object(v) => match last_with_key(v, key) {
                Some(i) => Some(&v[i].1),
                None => None,
            },
            _ => None,
        }
    }

    /// The text of a string; nothing of any other value.
    pub fn as_str(&self) -> (r: Option<&str>)
        ensures
            match r {
                Some(s) => text_of(self@) == Some(s@),
                None => text_of(self@) is None,
            },
    {
        match self {
            Json::Text(s) => Some(s.as_str()),
            _ => None,
        }
    }

    /// A copy of the value.
    pub fn copy(&self) -> (r: Json)
        ensures
            r@ == self@,
        decreases self,
    {
        match self {
            Json::Null => Json::Null,
            Json::Bool(b) => Json::Bool(*b),
            Json::Int(n) => Json::Int(*n),
            Json::Number(s) => Json::Number(s.clone()),
            Json::Text(s) => Json::Text(s.clone()),
            Json::Array(v) => Json::Array(copy_items(v)),
            Json::Object(v) => Json::Object(copy_members(v)),
        }
    }
}

impl Clone for Json {
    fn clone(&self) -> (r: Json)
        ensures
            r@ == self@,
    {
        self.copy()
    }
}

fn copy_items(v: &Vec<Json>) -> (r: Vec<Json>)
    ensures
        items_of(r@) == items_of(v@),
    decreases v,
{
    let mut r: Vec<Json> = Vec::new();
    let mut i: usize = 0;
    while i < v.len()
        invariant
            i <= v@.len(),
            items_of(r@) == items_of(v@.take(i as int)),
        decreases v@.len() - i,
    {
        let x: Json = v[i].copy();
        proof {
            lemma_items_push(r@, x);
            lemma_items_push(v@.take(i as int), v@[i as int]);
            assert(v@.take(i as int).push(v@[i as int]) =~= v@.take(i + 1));
        }
        r.push(x);
        i = i + 1;
    }
    assert(v@.take(i as int) =~= v@);
    r
}

fn copy_members(v: &Vec<(String, Json)>) -> (r: Vec<(String, Json)>)
    ensures
        members_of(r@) == members_of(v@),
    decreases v,
{
    let mut r: Vec<(String, Json)> = Vec::new();
    let mut i: usize = 0;
    while i < v.len()
        invariant
            i <= v@.len(),
            members_of(r@) == members_of(v@.take(i as int)),
        decreases v@.len() - i,
    {
        let x: (String, Json) = (v[i].0.clone(), v[i].1.copy());
        proof {
            lemma_members_push(r@, x);
            lemma_members_push(v@.take(i as int), v@[i as int]);
            assert(v@.take(i as int).push(v@[i as int]) =~= v@.take(i + 1));
        }
        r.push(x);
        i = i + 1;
    }
    assert(v@.take(i as int) =~= v@);
    r
}

/// A string, or null in its absence.
pub fn text_or_null(s: &Option<String>) -> (r: Json)
    ensures
        r@ == opt_text(chars::opt_view(*s)),
{
    match s {
        Some(t) => Json::Text(t.clone()),
        None => Json::Null,
    }
}

/// No members.
pub fn no_members() -> (r: Vec<(String, Json)>)
    ensures
        members_of(r@) == Map::<Seq<char>, JsonModel>::empty(),
{
    Vec::new()
}

/// Gives the member `key` a value.
pub fn put(members: &mut Vec<(String, Json)>, key: &str, value: Json)
    ensures
        members_of(final(members)@) == members_of(old(members)@).insert(key@, value@),
{
    let member: (String, Json) = (key.to_owned(), value);
    proof {
        lemma_members_push(members@, member);
    }
    members.push(member);
}

/// The strings of a list as an array.
pub open spec fn text_items(l: Seq<Seq<char>>) -> JsonModel {
    JsonModel::Array(l.map_values(|s: Seq<char>| JsonModel::Text(s)))
}

/// The strings of a list as an array.
pub fn text_array(l: &Vec<String>) -> (r: Json)
    ensures
        r@ == text_items(chars::seq_views(l@)),
{
    let mut v: Vec<Json> = Vec::new();
    let mut i: usize = 0;
    while i < l.len()
        invariant
            i <= l@.len(),
            v@.len() == i,
            forall|j: int| 0 <= j < i ==> (#[trigger] v@[j])@ == JsonModel::Text(l@[j]@),
        decreases l@.len() - i,
    {
        v.push(Json::Text(l[i].clone()));
        i = i + 1;
    }
    proof {
        lemma_items(v@);
        assert(items_of(v@) =~= chars::seq_views(l@).map_values(
            |s: Seq<char>| JsonModel::Text(s),
        ));
    }
    Json::Array(v)
}

/// A list of strings as the JSON text that the `serde_json` crate writes.
pub uninterp spec fn list_text(items: Seq<Seq<char>>) -> Seq<char>;

/// The list of strings that the `serde_json` crate reads out of a text, if the text
/// holds one.
pub uninterp spec fn list_in(text: Seq<char>) -> Option<Seq<Seq<char>>>;

/// `serde_json::to_string` of a list of strings. Writing strings to memory never
/// fails, and what is written is read back.
#[verifier::external_body]
pub(crate) fn write_list(items: &Vec<String>) -> (r: Result<String, String>)
    ensures
        r is Ok,
        r->Ok_0@ == list_text(chars::seq_views(items@)),
        list_in(r->Ok_0@) == Some(chars::seq_views(items@)),
{
    serde_json::to_string(items).map_err(|e| e.to_string())
}

/// `serde_json::from_str` to a list of strings.
#[verifier::external_body]
pub(crate) fn read_list(text: &str) -> (r: Option<Vec<String>>)
    ensures
        r is Some == list_in(text@) is Some,
        r is Some ==> list_in(text@) == Some(chars::seq_views(r->Some_0@)),
{
    serde_json::from_str(text).ok()
}

/// The list of strings in a text, empty where the text holds none.
pub open spec fn list_or_empty(text: Seq<char>) -> Seq<Seq<char>> {
    match list_in(text) {
        Some(v) => v,
        None => Seq::empty(),
    }
}

/// The list of strings in a text, empty where the text holds none.
pub fn list_from(text: &str) -> (r: Vec<String>)
    ensures
        chars::seq_views(r@) == list_or_empty(text@),
{
    match read_list(text) {
        Some(v) => v,
        None => {
            let v: Vec<String> = Vec::new();
            assert(chars::seq_views(v@) =~= Seq::empty());
            v
        },
    }
}

/// What a member of an object is: the last value that was put under its key.
pub proof fn law_last_member_counts(v: Seq<(String, Json)>, x: (String, Json), key: Seq<char>)
    ensures
        member(JsonModel::Object(members_of(v.push(x))), key) == if key == x.0@ {
            Some(x.1@)
        } else {
            member(JsonModel::Object(members_of(v)), key)
        },
        member(JsonModel::Object(members_of(Seq::empty())), key) is None,
{
    lemma_members_push(v, x);
}

/// The text of a member is there only where the member is a string.
pub proof fn law_text_of_a_member(j: JsonModel, key: Seq<char>, s: Seq<char>)
    ensures
        member_text(j, key) == Some(s) <==> (j matches JsonModel::Object(m) && m.contains_key(key)
            && m[key] == JsonModel::Text(s)),
{
}

} // verus!
