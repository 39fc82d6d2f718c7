//! Display strings of addresses, and the headers of a message as JSON.

use vstd::prelude::*;
use vstd::string::*;

use crate::json;
use crate::json::Json;
use crate::mail::message;
use crate::mail::message::{Field, FieldValue, MimeType, ParsedMessage, Recipient, RecipientGroup, Recipients};
use crate::text::chars;
use crate::text::words;

verus! {

/// A mailbox as it is shown: the address in angle brackets behind the name,
/// where there is a name.
pub open spec fn shown_recipient(a: message::RecipientModel) -> Seq<char> {
    let name = match a.name {
        Some(n) => n.push(' '),
        None => Seq::empty(),
    };
    match a.address {
        Some(e) => if name.len() > 0 {
            name + seq!['<'] + e + seq!['>']
        } else {
            e
        },
        None => name,
    }
}

/// The mailboxes of a list that show anything, each as it is shown.
pub open spec fn shown_list(v: Seq<message::RecipientModel>) -> Seq<Seq<char>>
    decreases v.len(),
{
    if v.len() == 0 {
        Seq::empty()
    } else if shown_recipient(v.last()).len() > 0 {
        shown_list(v.drop_last()).push(shown_recipient(v.last()))
    } else {
        shown_list(v.drop_last())
    }
}

/// The addresses of a list, without their names.
pub open spec fn plain_addresses(v: Seq<message::RecipientModel>) -> Seq<Seq<char>>
    decreases v.len(),
{
    if v.len() == 0 {
        Seq::empty()
    } else {
        match v.last().address {
            Some(e) => plain_addresses(v.drop_last()).push(e),
            None => plain_addresses(v.drop_last()),
        }
    }
}

/// A group as it is shown: its name, a colon, and the addresses.
pub open spec fn shown_group(g: message::GroupModel) -> Seq<char> {
    let members = words::joined(plain_addresses(g.addresses), ", "@);
    match g.name {
        Some(n) => n + ": "@ + members,
        None => members,
    }
}

/// An address header as one line.
pub open spec fn rendered(a: message::RecipientsModel) -> Seq<char> {
    match a {
        message::RecipientsModel::List(v) => words::joined(shown_list(v), ", "@),
        message::RecipientsModel::Group(v) => words::joined(
            v.map_values(|g: message::GroupModel| shown_group(g)),
            ", "@,
        ),
    }
}

fn show_recipient(a: &Recipient) -> (r: String)
    ensures
        r@ == shown_recipient(a@),
{
    let mut s = String::new();
    if let Some(name) = &a.name {
        s.append(name.as_str());
        s.push(' ');
    }
    assert(a.name matches Some(n) ==> s@ =~= n@.push(' '));
    if let Some(email) = &a.address {
        let ghost name = s@;
        if !s.as_str().is_empty() {
            s.push('<');
            s.append(email.as_str());
            s.push('>');
            assert(s@ =~= name + seq!['<'] + email@ + seq!['>']);
        } else {
            s.append(email.as_str());
            assert(s@ =~= email@);
        }
    }
    s
}

fn show_list(v: &Vec<Recipient>) -> (r: Vec<String>)
    ensures
        chars::seq_views(r@) == shown_list(message::addrs(v@)),
{
    let mut r: Vec<String> = Vec::new();
    let ghost m = message::addrs(v@);
    let mut i: usize = 0;
    assert(chars::seq_views(r@) =~= Seq::empty());
    while i < v.len()
        invariant
            i <= v@.len(),
            m == message::addrs(v@),
            chars::seq_views(r@) == shown_list(m.take(i as int)),
        decreases v@.len() - i,
    {
        let s: String = show_recipient(&v[i]);
        let ghost before = r@;
        assert(m.take(i + 1).drop_last() =~= m.take(i as int));
        assert(m.take(i + 1).last() == v@[i as int]@);
        if !s.as_str().is_empty() {
            r.push(s);
            assert(chars::seq_views(r@) =~= chars::seq_views(before).push(s@));
        }
        i = i + 1;
    }
    assert(m.take(i as int) =~= m);
    r
}

fn list_addresses(v: &Vec<Recipient>) -> (r: Vec<String>)
    ensures
        chars::seq_views(r@) == plain_addresses(message::addrs(v@)),
{
    let mut r: Vec<String> = Vec::new();
    let ghost m = message::addrs(v@);
    let mut i: usize = 0;
    assert(chars::seq_views(r@) =~= Seq::empty());
    while i < v.len()
        invariant
            i <= v@.len(),
            m == message::addrs(v@),
            chars::seq_views(r@) == plain_addresses(m.take(i as int)),
        decreases v@.len() - i,
    {
        let ghost before = r@;
        assert(m.take(i + 1).drop_last() =~= m.take(i as int));
        assert(m.take(i + 1).last() == v@[i as int]@);
        if let Some(e) = &v[i].address {
            r.push(e.clone());
            assert(chars::seq_views(r@) =~= chars::seq_views(before).push(e@));
        }
        i = i + 1;
    }
    assert(m.take(i as int) =~= m);
    r
}

fn show_group(g: &RecipientGroup) -> (r: String)
    ensures
        r@ == shown_group(g@),
{
    let members: String = words::join(&list_addresses(&g.addresses), ", ");
    match &g.name {
        Some(n) => words::cat3(n.as_str(), ": ", members.as_str()),
        None => members,
    }
}

/// An address header as one comma-separated line.
pub fn render_address(addr: &Recipients) -> (r: String)
    ensures
        r@ == rendered(addr@),
{
    match addr {
        Recipients::List(v) => words::join(&show_list(v), ", "),
        Recipients::Group(v) => {
            let mut shown: Vec<String> = Vec::new();
            let mut i: usize = 0;
            while i < v.len()
                invariant
                    i <= v@.len(),
                    shown@.len() == i,
                    forall|j: int| 0 <= j < i ==> (#[trigger] shown@[j])@ == shown_group(v@[j]@),
                decreases v@.len() - i,
            {
                shown.push(show_group(&v[i]));
                i = i + 1;
            }
            assert(chars::seq_views(shown@) =~= message::groups(v@).map_values(
                |g: message::GroupModel| shown_group(g),
            ));
            words::join(&shown, ", ")
        },
    }
}

/// A content type as it is written.
pub open spec fn type_text(c: message::MimeTypeModel) -> Seq<char> {
    match c.subtype {
        Some(s) => c.ctype + "/"@ + s,
        None => c.ctype,
    }
}

/// A content type as it is written, `type/subtype`.
pub fn render_type(c: &MimeType) -> (r: String)
    ensures
        r@ == type_text(c@),
{
    match &c.subtype {
        Some(s) => words::cat3(c.ctype.as_str(), "/", s.as_str()),
        None => c.ctype.clone(),
    }
}

/// The value of a header as JSON.
pub open spec fn value_json(v: message::ValueModel) -> json::JsonModel {
    match v {
        message::ValueModel::Text(s) => json::JsonModel::Text(s),
        message::ValueModel::TextList(l) => json::text_items(l),
        message::ValueModel::DateTime(s) => json::JsonModel::Text(s),
        message::ValueModel::Recipients(a) => json::JsonModel::Text(rendered(a)),
        message::ValueModel::MimeType(c) => json::JsonModel::Text(type_text(c)),
        message::ValueModel::Received => json::JsonModel::Null,
        message::ValueModel::Empty => json::JsonModel::Null,
    }
}

/// The headers after one more: the first value under a name stands alone, a
/// further one makes an array of both, and an array is extended.
pub open spec fn with_header(
    m: Map<Seq<char>, json::JsonModel>,
    name: Seq<char>,
    value: json::JsonModel,
) -> Map<Seq<char>, json::JsonModel> {
    if m.contains_key(name) {
        match m[name] {
            json::JsonModel::Array(s) => m.insert(name, json::JsonModel::Array(s.push(value))),
            one => m.insert(name, json::JsonModel::Array(seq![one, value])),
        }
    } else {
        m.insert(name, value)
    }
}

/// The headers of a message by name.
pub open spec fn headers_map(hs: Seq<message::FieldModel>) -> Map<Seq<char>, json::JsonModel>
    decreases hs.len(),
{
    if hs.len() == 0 {
        Map::empty()
    } else {
        with_header(headers_map(hs.drop_last()), hs.last().name, value_json(hs.last().value))
    }
}

fn value_to_json(v: &FieldValue) -> (r: Json)
    ensures
        r@ == value_json(v@),
{
    match v {
        FieldValue::Text(s) => Json::Text(s.clone()),
        FieldValue::TextList(l) => json::text_array(l),
        FieldValue::DateTime(s) => Json::Text(s.clone()),
        FieldValue::Recipients(a) => Json::Text(render_address(a)),
        FieldValue::MimeType(c) => Json::Text(render_type(c)),
        FieldValue::Received | FieldValue::Empty => Json::Null,
    }
}

/// Puts `value` behind the value `old`.
fn gather(old_value: Json, value: Json) -> (r: Json)
    ensures
        r@ == match old_value@ {
            json::JsonModel::Array(s) => json::JsonModel::Array(s.push(value@)),
            one => json::JsonModel::Array(seq![one, value@]),
        },
{
    match old_value {
        Json::Array(v) => {
            let mut v = v;
            proof {
                json::lemma_items_push(v@, value);
            }
            v.push(value);
            Json::Array(v)
        },
        one => {
            let mut v: Vec<Json> = Vec::new();
            proof {
                json::lemma_items_push(Seq::empty(), one);
                json::lemma_items_push(Seq::empty().push(one), value);
            }
            v.push(one);
            v.push(value);
            assert(json::items_of(v@) =~= seq![one@, value@]);
            Json::Array(v)
        },
    }
}

fn push_header(obj: &mut Vec<(String, Json)>, name: String, value: Json)
    ensures
        json::members_of(final(obj)@) == with_header(
            json::members_of(old(obj)@),
            name@,
            value@,
        ),
{
    match json::last_with_key(obj, name.as_str()) {
        None => {
            proof {
                json::lemma_members_push(obj@, (name, value));
            }
            obj.push((name, value));
        },
        Some(i) => {
            let ghost before = obj@;
            let (key, old_value) = obj.remove(i);
            let both = gather(old_value, value);
            proof {
                json::lemma_member_moved(before, i as int, (key, both));
            }
            obj.push((key, both));
        },
    }
}

/// Every header of a message in one JSON object. A header that occurs more than
/// once gathers its values in an array, in the order in which they occur.
pub fn headers_to_json(msg: &ParsedMessage) -> (r: Json)
    ensures
        r@ == json::JsonModel::Object(headers_map(msg@.headers)),
{
    let hs: &Vec<Field> = &msg.headers;
    let ghost m = message::headers(hs@);
    let mut obj: Vec<(String, Json)> = Vec::new();
    let mut i: usize = 0;
    while i < hs.len()
        invariant
            i <= hs@.len(),
            m == message::headers(hs@),
            json::members_of(obj@) == headers_map(m.take(i as int)),
        decreases hs@.len() - i,
    {
        assert(m.take(i + 1).drop_last() =~= m.take(i as int));
        assert(m.take(i + 1).last() == hs@[i as int]@);
        push_header(&mut obj, hs[i].name.clone(), value_to_json(&hs[i].value));
        i = i + 1;
    }
    assert(m.take(i as int) =~= m);
    Json::Object(obj)
}

/// The values of the headers with the name `name`, in the order in which they
/// occur.
pub open spec fn values_under(hs: Seq<message::FieldModel>, name: Seq<char>) -> Seq<
    json::JsonModel,
>
    decreases hs.len(),
{
    if hs.len() == 0 {
        Seq::empty()
    } else if hs.last().name == name {
        values_under(hs.drop_last(), name).push(value_json(hs.last().value))
    } else {
        values_under(hs.drop_last(), name)
    }
}

/// No header is lost: under each name stands the value of its one header, or the
/// values of all its headers, in their order. Where the first of several is a
/// list itself, the others are put behind its items.
pub proof fn law_repeated_headers_are_kept(hs: Seq<message::FieldModel>, name: Seq<char>)
    ensures
        ({
            let vs = values_under(hs, name);
            let m = headers_map(hs);
            &&& m.contains_key(name) == (vs.len() > 0)
            &&& vs.len() == 1 ==> m[name] == vs[0]
            &&& vs.len() > 1 ==> m[name] == match vs[0] {
                json::JsonModel::Array(s) => json::JsonModel::Array(s + vs.drop_first()),
                _ => json::JsonModel::Array(vs),
            }
        }),
    decreases hs.len(),
{
    if hs.len() > 0 {
        let front = hs.drop_last();
        law_repeated_headers_are_kept(front, name);
        let vs = values_under(front, name);
        let x = value_json(hs.last().value);
        if hs.last().name == name && vs.len() > 0 {
            let ws = vs.push(x);
            if let json::JsonModel::Array(s) = vs[0] {
                assert(ws.drop_first() =~= vs.drop_first().push(x));
                assert(s + ws.drop_first() =~= (s + vs.drop_first()).push(x));
                if vs.len() == 1 {
                    assert(s + ws.drop_first() =~= s.push(x));
                }
            } else if vs.len() == 1 {
                assert(ws =~= seq![vs[0], x]);
            }
        }
    }
}

/// How a mailbox is shown: the name, and the address in angle brackets behind it; the
/// address alone where there is no name, the name alone where there is no address.
pub proof fn law_mailbox_is_shown(name: Seq<char>, address: Seq<char>)
    ensures
        ({
            let both = message::RecipientModel { name: Some(name), address: Some(address) };
            let bare = message::RecipientModel { name: None, address: Some(address) };
            let nameless = message::RecipientModel { name: Some(name), address: None };
            let none = message::RecipientModel { name: None, address: None };
            &&& rendered(message::RecipientsModel::List(seq![both])) == name + seq![' ', '<']
                + address + seq!['>']
            &&& rendered(message::RecipientsModel::List(seq![bare])) == address
            &&& rendered(message::RecipientsModel::List(seq![nameless])) == name + seq![' ']
            &&& rendered(message::RecipientsModel::List(seq![none])) == Seq::<char>::empty()
            &&& rendered(message::RecipientsModel::List(Seq::empty())) == Seq::<char>::empty()
        }),
{
    let both = message::RecipientModel { name: Some(name), address: Some(address) };
    let bare = message::RecipientModel { name: None, address: Some(address) };
    let nameless = message::RecipientModel { name: Some(name), address: None };
    let none = message::RecipientModel { name: None, address: None };
    lemma_one_shown(both);
    lemma_one_shown(bare);
    lemma_one_shown(nameless);
    lemma_one_shown(none);
    assert(shown_list(Seq::empty()) =~= Seq::empty());
    assert(rendered(message::RecipientsModel::List(Seq::empty())) =~= Seq::empty());
    assert(shown_recipient(both) =~= name + seq![' ', '<'] + address + seq!['>']);
    assert(shown_recipient(bare) =~= address);
    assert(shown_recipient(nameless) =~= name + seq![' ']);
}

proof fn lemma_one_shown(a: message::RecipientModel)
    ensures
        rendered(message::RecipientsModel::List(seq![a])) == shown_recipient(a),
{
    assert(seq![a].drop_last() =~= Seq::empty());
    assert(shown_list(Seq::<message::RecipientModel>::empty()) =~= Seq::empty());
    if shown_recipient(a).len() > 0 {
        assert(shown_list(seq![a]) =~= seq![shown_recipient(a)]);
        words::law_joined(Seq::empty(), Seq::empty(), shown_recipient(a), ", "@);
    } else {
        assert(shown_list(seq![a]) =~= Seq::empty());
        assert(shown_recipient(a) =~= Seq::empty());
    }
}

/// The mailboxes of a list are shown one after the other, with a comma between two that
/// show anything.
pub proof fn law_mailboxes_are_shown_in_order(
    a: Seq<message::RecipientModel>,
    b: Seq<message::RecipientModel>,
)
    ensures
        ({
            let x = rendered(message::RecipientsModel::List(a));
            let y = rendered(message::RecipientsModel::List(b));
            rendered(message::RecipientsModel::List(a + b)) == if x.len() == 0 {
                y
            } else if y.len() == 0 {
                x
            } else {
                x + ", "@ + y
            }
        }),
{
    lemma_shown_lists(a, b);
    lemma_shown_not_empty(a);
    lemma_shown_not_empty(b);
    let x = shown_list(a);
    let y = shown_list(b);
    words::law_joined(x, y, Seq::empty(), ", "@);
    if x.len() == 0 {
        assert(x + y =~= y);
        assert(words::joined(x, ", "@) =~= Seq::empty());
    }
    if y.len() == 0 {
        assert(x + y =~= x);
        assert(words::joined(y, ", "@) =~= Seq::empty());
    }
}

proof fn lemma_shown_lists(a: Seq<message::RecipientModel>, b: Seq<message::RecipientModel>)
    ensures
        shown_list(a + b) == shown_list(a) + shown_list(b),
    decreases b.len(),
{
    if b.len() == 0 {
        assert(a + b =~= a);
        assert(shown_list(a) + shown_list(b) =~= shown_list(a));
    } else {
        assert((a + b).drop_last() =~= a + b.drop_last());
        lemma_shown_lists(a, b.drop_last());
        assert(shown_list(a + b) =~= shown_list(a) + shown_list(b));
    }
}

proof fn lemma_shown_not_empty(a: Seq<message::RecipientModel>)
    ensures
        shown_list(a).len() > 0 ==> words::joined(shown_list(a), ", "@).len() > 0,
    decreases a.len(),
{
    if a.len() > 0 {
        lemma_shown_not_empty(a.drop_last());
        let v = shown_list(a);
        if v.len() > 0 {
            lemma_each_shown(a, 0);
            words::lemma_joined_len(v, ", "@, 0);
        }
    }
}

proof fn lemma_each_shown(a: Seq<message::RecipientModel>, k: int)
    requires
        0 <= k < shown_list(a).len(),
    ensures
        shown_list(a)[k].len() > 0,
    decreases a.len(),
{
    if k < shown_list(a.drop_last()).len() {
        lemma_each_shown(a.drop_last(), k);
    }
}

/// A group is shown as its name, a colon and its addresses with commas; groups are shown
/// one after the other, with a comma between two.
pub proof fn law_groups_are_shown(
    name: Seq<char>,
    address: Seq<char>,
    a: Seq<message::GroupModel>,
    b: Seq<message::GroupModel>,
)
    requires
        a.len() > 0,
        b.len() > 0,
    ensures
        ({
            let one = message::RecipientModel { name: None, address: Some(address) };
            let g = message::GroupModel { name: Some(name), addresses: seq![one] };
            rendered(message::RecipientsModel::Group(seq![g])) == name + ": "@ + address
        }),
        rendered(message::RecipientsModel::Group(a + b)) == rendered(
            message::RecipientsModel::Group(a),
        ) + ", "@ + rendered(message::RecipientsModel::Group(b)),
{
    let one = message::RecipientModel { name: None, address: Some(address) };
    let g = message::GroupModel { name: Some(name), addresses: seq![one] };
    let shown = |g: message::GroupModel| shown_group(g);
    assert(seq![one].drop_last() =~= Seq::empty());
    assert(plain_addresses(Seq::<message::RecipientModel>::empty()) =~= Seq::empty());
    assert(plain_addresses(seq![one]) =~= seq![address]);
    words::law_joined(Seq::empty(), Seq::empty(), address, ", "@);
    assert(seq![g].map_values(shown) =~= seq![shown_group(g)]);
    words::law_joined(Seq::empty(), Seq::empty(), shown_group(g), ", "@);
    assert((a + b).map_values(shown) =~= a.map_values(shown) + b.map_values(shown));
    words::law_joined(a.map_values(shown), b.map_values(shown), Seq::empty(), ", "@);
}

/// How the value of a header is written: a text as it is, a list as an array, a date as
/// its text, addresses as they are shown, a content type with its subtype, and nothing of
/// what has no text.
pub proof fn law_header_values(
    s: Seq<char>,
    l: Seq<Seq<char>>,
    a: message::RecipientsModel,
    c: message::MimeTypeModel,
)
    ensures
        value_json(message::ValueModel::Text(s)) == json::JsonModel::Text(s),
        value_json(message::ValueModel::DateTime(s)) == json::JsonModel::Text(s),
        value_json(message::ValueModel::Recipients(a)) == json::JsonModel::Text(rendered(a)),
        value_json(message::ValueModel::MimeType(c)) == json::JsonModel::Text(
            match c.subtype {
                Some(t) => c.ctype + "/"@ + t,
                None => c.ctype,
            },
        ),
        value_json(message::ValueModel::Received) == json::JsonModel::Null,
        value_json(message::ValueModel::Empty) == json::JsonModel::Null,
        value_json(message::ValueModel::TextList(l)) == json::JsonModel::Array(
            l.map_values(|t: Seq<char>| json::JsonModel::Text(t)),
        ),
{
    assert(value_json(message::ValueModel::TextList(l)) == json::text_items(l));
}

} // verus!
