//! Projects the raw bytes of a message into the shape that is stored.

use vstd::prelude::*;
use vstd::string::*;

use crate::json;
use crate::json::Json;
use crate::mail::headers;
use crate::mail::headers::{headers_to_json, render_address, render_type};
use crate::mail::message;
use crate::mail::message::{FieldValue, ParsedMessage, Part, Recipients};
use crate::text::chars;

verus! {

/// A message, ready to be stored.
#[derive(Debug, Clone)]
pub struct Parsed {
    pub header_from: Option<String>,
    pub header_to: Option<String>,
    pub header_cc: Option<String>,
    pub header_subject: Option<String>,
    pub message_id: Option<String>,
    pub in_reply_to: Option<String>,
    pub text_body: Option<String>,
    pub html_body: Option<String>,
    pub has_text: bool,
    pub has_html: bool,
    pub headers_json: Json,
    pub attachments: Vec<ParsedAttachment>,
}

/// An attachment, ready to be stored.
#[derive(Debug, Clone)]
pub struct ParsedAttachment {
    pub filename: Option<String>,
    pub content_type: Option<String>,
    pub content_id: Option<String>,
    pub data: Vec<u8>,
}

/// A stored message as a mathematical value.
pub struct ParsedModel {
    pub header_from: Option<Seq<char>>,
    pub header_to: Option<Seq<char>>,
    pub header_cc: Option<Seq<char>>,
    pub header_subject: Option<Seq<char>>,
    pub message_id: Option<Seq<char>>,
    pub in_reply_to: Option<Seq<char>>,
    pub text_body: Option<Seq<char>>,
    pub html_body: Option<Seq<char>>,
    pub has_text: bool,
    pub has_html: bool,
    pub headers_json: json::JsonModel,
    pub attachments: Seq<AttachmentModel>,
}

/// A stored attachment as a mathematical value.
pub struct AttachmentModel {
    pub filename: Option<Seq<char>>,
    pub content_type: Option<Seq<char>>,
    pub content_id: Option<Seq<char>>,
    pub data: Seq<u8>,
}

impl View for ParsedAttachment {
    type V = AttachmentModel;

    open spec fn view(&self) -> AttachmentModel {
        AttachmentModel {
            filename: chars::opt_view(self.filename),
            content_type: chars::opt_view(self.content_type),
            content_id: chars::opt_view(self.content_id),
            data: self.data@,
        }
    }
}

/// The attachments of a list.
pub open spec fn attachment_models(v: Seq<ParsedAttachment>) -> Seq<AttachmentModel> {
    v.map_values(|a: ParsedAttachment| a@)
}

impl View for Parsed {
    type V = ParsedModel;

    open spec fn view(&self) -> ParsedModel {
        ParsedModel {
            header_from: chars::opt_view(self.header_from),
            header_to: chars::opt_view(self.header_to),
            header_cc: chars::opt_view(self.header_cc),
            header_subject: chars::opt_view(self.header_subject),
            message_id: chars::opt_view(self.message_id),
            in_reply_to: chars::opt_view(self.in_reply_to),
            text_body: chars::opt_view(self.text_body),
            html_body: chars::opt_view(self.html_body),
            has_text: self.has_text,
            has_html: self.has_html,
            headers_json: self.headers_json@,
            attachments: attachment_models(self.attachments@),
        }
    }
}

/// An address header as one line; nothing where the line would be empty.
pub open spec fn shown_address(a: Option<message::RecipientsModel>) -> Option<Seq<char>> {
    match a {
        Some(x) => if headers::rendered(x).len() > 0 {
            Some(headers::rendered(x))
        } else {
            None
        },
        None => None,
    }
}

/// The first of the identifiers in a header.
pub open spec fn first_id(v: message::ValueModel) -> Option<Seq<char>> {
    match v {
        message::ValueModel::Text(s) => Some(s),
        message::ValueModel::TextList(l) => if l.len() > 0 {
            Some(l[0])
        } else {
            None
        },
        _ => None,
    }
}

/// An attached part as it is stored. A part without a file name takes the name
/// of its content type.
pub open spec fn projected_part(p: message::PartModel) -> AttachmentModel {
    AttachmentModel {
        filename: match (p.name, p.content_type) {
            (Some(n), _) => Some(n),
            (None, Some(c)) => c.name,
            (None, None) => None,
        },
        content_type: match p.content_type {
            Some(c) => Some(headers::type_text(c)),
            None => None,
        },
        content_id: p.content_id,
        data: p.contents,
    }
}

/// The attachments as they are stored, in their order; those that name no part
/// are left out.
pub open spec fn projected_parts(v: Seq<Option<message::PartModel>>) -> Seq<AttachmentModel>
    decreases v.len(),
{
    if v.len() == 0 {
        Seq::empty()
    } else {
        match v.last() {
            Some(p) => projected_parts(v.drop_last()).push(projected_part(p)),
            None => projected_parts(v.drop_last()),
        }
    }
}

/// What is stored of input in which no message was recognised.
pub open spec fn nothing_parsed() -> ParsedModel {
    ParsedModel {
        header_from: None,
        header_to: None,
        header_cc: None,
        header_subject: None,
        message_id: None,
        in_reply_to: None,
        text_body: None,
        html_body: None,
        has_text: false,
        has_html: false,
        headers_json: json::JsonModel::Object(Map::empty()),
        attachments: Seq::empty(),
    }
}

/// A message as it is stored.
pub open spec fn projected(msg: Option<message::MessageModel>) -> ParsedModel {
    match msg {
        None => nothing_parsed(),
        Some(m) => ParsedModel {
            header_from: shown_address(m.from),
            header_to: shown_address(m.to),
            header_cc: shown_address(m.cc),
            header_subject: m.subject,
            message_id: m.message_id,
            in_reply_to: first_id(m.in_reply_to),
            text_body: m.text,
            html_body: m.html,
            has_text: m.text_count > 0,
            has_html: m.html_count > 0,
            headers_json: json::JsonModel::Object(headers::headers_map(m.headers)),
            attachments: projected_parts(m.attachments),
        },
    }
}

/// Parses the raw bytes of a message. Input that is no message gives an almost
/// empty result.
pub fn parse(raw: &[u8]) -> (r: Parsed)
    ensures
        r@ == projected(message::message_in(raw@)),
{
    project(message::parse_message(raw))
}

/// Projects a message that has been parsed, or the absence of one.
pub fn project(msg: Option<ParsedMessage>) -> (r: Parsed)
    ensures
        r@ == projected(message::opt_message(msg)),
{
    let m: ParsedMessage = match msg {
        Some(m) => m,
        None => {
            let r = Parsed {
                header_from: None,
                header_to: None,
                header_cc: None,
                header_subject: None,
                message_id: None,
                in_reply_to: None,
                text_body: None,
                html_body: None,
                has_text: false,
                has_html: false,
                headers_json: Json::Object(Vec::new()),
                attachments: Vec::new(),
            };
            assert(r@.attachments =~= Seq::empty());
            return r;
        },
    };
    let headers_json: Json = headers_to_json(&m);
    let attachments: Vec<ParsedAttachment> = project_parts(&m.attachments);
    Parsed {
        header_from: first_address(&m.envelope.from),
        header_to: first_address(&m.envelope.to),
        header_cc: first_address(&m.envelope.cc),
        header_subject: chars::clone_opt(&m.envelope.subject),
        message_id: chars::clone_opt(&m.envelope.message_id),
        in_reply_to: first_identifier(&m.envelope.in_reply_to),
        text_body: chars::clone_opt(&m.bodies.text),
        html_body: chars::clone_opt(&m.bodies.html),
        has_text: m.bodies.text_count > 0,
        has_html: m.bodies.html_count > 0,
        headers_json,
        attachments,
    }
}

fn first_address(addr: &Option<Recipients>) -> (r: Option<String>)
    ensures
        chars::opt_view(r) == shown_address(message::opt_address(*addr)),
{
    match addr {
        Some(a) => {
            let s: String = render_address(a);
            if s.as_str().is_empty() {
                None
            } else {
                Some(s)
            }
        },
        None => None,
    }
}

fn first_identifier(v: &FieldValue) -> (r: Option<String>)
    ensures
        chars::opt_view(r) == first_id(v@),
{
    match v {
        FieldValue::Text(s) => Some(s.clone()),
        FieldValue::TextList(l) => if l.len() > 0 {
            Some(l[0].clone())
        } else {
            None
        },
        _ => None,
    }
}

fn project_part(p: &Part) -> (r: ParsedAttachment)
    ensures
        r@ == projected_part(p@),
{
    let mut data: Vec<u8> = Vec::new();
    data.extend_from_slice(p.contents.as_slice());
    assert(data@ =~= p.contents@);
    ParsedAttachment {
        filename: match (&p.name, &p.content_type) {
            (Some(n), _) => Some(n.clone()),
            (None, Some(c)) => chars::clone_opt(&c.name),
            (None, None) => None,
        },
        content_type: match &p.content_type {
            Some(c) => Some(render_type(c)),
            None => None,
        },
        content_id: chars::clone_opt(&p.content_id),
        data,
    }
}

fn project_parts(v: &Vec<Option<Part>>) -> (r: Vec<ParsedAttachment>)
    ensures
        attachment_models(r@) == projected_parts(message::parts(v@)),
{
    let mut r: Vec<ParsedAttachment> = Vec::new();
    let ghost m = message::parts(v@);
    let mut i: usize = 0;
    assert(attachment_models(r@) =~= Seq::empty());
    while i < v.len()
        invariant
            i <= v@.len(),
            m == message::parts(v@),
            attachment_models(r@) == projected_parts(m.take(i as int)),
        decreases v@.len() - i,
    {
        assert(m.take(i + 1).drop_last() =~= m.take(i as int));
        assert(m.take(i + 1).last() == message::opt_part(v@[i as int]));
        if let Some(p) = &v[i] {
            let ghost before = r@;
            let a = project_part(p);
            r.push(a);
            assert(attachment_models(r@) =~= attachment_models(before).push(a@));
        }
        i = i + 1;
    }
    assert(m.take(i as int) =~= m);
    r
}

/// The text outside of tags: what stands between a `<` and the next `>` is
/// dropped, and so are the two.
pub open spec fn outside_tags(s: Seq<char>) -> Seq<char>
    decreases s.len(),
{
    if s.len() == 0 {
        Seq::empty()
    } else {
        let before = outside_tags(s.drop_last());
        if s.last() == '<' || s.last() == '>' || inside_tag(s.drop_last()) {
            before
        } else {
            before.push(s.last())
        }
    }
}

/// The last angle bracket of `s` is an opening one.
pub open spec fn inside_tag(s: Seq<char>) -> bool
    decreases s.len(),
{
    if s.len() == 0 {
        false
    } else if s.last() == '<' {
        true
    } else if s.last() == '>' {
        false
    } else {
        inside_tag(s.drop_last())
    }
}

/// The text of a message that the search index holds.
pub open spec fn searchable(text: Option<Seq<char>>, html: Option<Seq<char>>) -> Seq<char> {
    match (text, html) {
        (Some(t), _) => t,
        (None, Some(h)) => outside_tags(h),
        (None, None) => Seq::empty(),
    }
}

/// The text of a message that the search index holds: its text, else its HTML
/// without the tags.
pub fn fts_body(parsed: &Parsed) -> (r: String)
    ensures
        r@ == searchable(parsed@.text_body, parsed@.html_body),
{
    if let Some(t) = &parsed.text_body {
        return t.clone();
    }
    if let Some(h) = &parsed.html_body {
        return strip_html(h.as_str());
    }
    String::new()
}

/// HTML without its tags, for indexing only: nothing is made safe by it.
pub fn strip_html(html: &str) -> (r: String)
    ensures
        r@ == outside_tags(html@),
{
    let v: Vec<char> = chars::chars_of(html);
    let mut out = String::new();
    let mut in_tag: bool = false;
    let mut i: usize = 0;
    while i < v.len()
        invariant
            i <= v@.len(),
            out@ == outside_tags(v@.take(i as int)),
            in_tag == inside_tag(v@.take(i as int)),
        decreases v@.len() - i,
    {
        let c: char = v[i];
        assert(v@.take(i + 1).drop_last() =~= v@.take(i as int));
        if c == '<' {
            in_tag = true;
        } else if c == '>' {
            in_tag = false;
        } else if !in_tag {
            out.push(c);
        }
        i = i + 1;
    }
    assert(v@.take(i as int) =~= v@);
    out
}

/// No angle bracket of the HTML reaches the search index.
pub proof fn law_index_has_no_brackets(html: Seq<char>)
    ensures
        !outside_tags(html).contains('<'),
        !outside_tags(html).contains('>'),
    decreases html.len(),
{
    if html.len() > 0 {
        law_index_has_no_brackets(html.drop_last());
        let before = outside_tags(html.drop_last());
        assert forall|i: int| 0 <= i < outside_tags(html).len() implies #[trigger] outside_tags(
            html,
        )[i] != '<' && outside_tags(html)[i] != '>' by {
            if i < before.len() {
                assert(before.contains(before[i]));
            }
        }
    }
}

/// Taking the tags out a second time changes nothing.
pub proof fn law_stripping_twice_changes_nothing(html: Seq<char>)
    ensures
        outside_tags(outside_tags(html)) == outside_tags(html),
{
    law_index_has_no_brackets(html);
    law_plain_text_is_indexed_whole(outside_tags(html));
}

/// Text without angle brackets is indexed as it stands.
pub proof fn law_plain_text_is_indexed_whole(text: Seq<char>)
    requires
        !text.contains('<'),
        !text.contains('>'),
    ensures
        outside_tags(text) == text,
        !inside_tag(text),
    decreases text.len(),
{
    if text.len() > 0 {
        let front = text.drop_last();
        assert forall|c: char| front.contains(c) implies text.contains(c) by {
            let k = choose|k: int| 0 <= k < front.len() && front[k] == c;
            assert(text[k] == c);
        }
        law_plain_text_is_indexed_whole(front);
        assert(text.contains(text.last()));
        assert(front.push(text.last()) =~= text);
    }
}

/// No attachment is lost: what is stored are the attachments that name a part, in their
/// order, each with its bytes and its content id, under its file name or else the name of
/// its content type, and with its type and subtype.
pub proof fn law_no_attachment_is_lost(v: Seq<Option<message::PartModel>>)
    ensures
        projected_parts(v) == v.filter(|p: Option<message::PartModel>| p is Some).map_values(
            |p: Option<message::PartModel>|
                AttachmentModel {
                    filename: match p->0.name {
                        Some(n) => Some(n),
                        None => match p->0.content_type {
                            Some(c) => c.name,
                            None => None,
                        },
                    },
                    content_type: match p->0.content_type {
                        Some(c) => Some(
                            match c.subtype {
                                Some(s) => c.ctype + "/"@ + s,
                                None => c.ctype,
                            },
                        ),
                        None => None,
                    },
                    content_id: p->0.content_id,
                    data: p->0.contents,
                },
        ),
    decreases v.len(),
{
    reveal(Seq::filter);
    let present = |p: Option<message::PartModel>| p is Some;
    let stored = |p: Option<message::PartModel>|
        AttachmentModel {
            filename: match p->0.name {
                Some(n) => Some(n),
                None => match p->0.content_type {
                    Some(c) => c.name,
                    None => None,
                },
            },
            content_type: match p->0.content_type {
                Some(c) => Some(
                    match c.subtype {
                        Some(s) => c.ctype + "/"@ + s,
                        None => c.ctype,
                    },
                ),
                None => None,
            },
            content_id: p->0.content_id,
            data: p->0.contents,
        };
    if v.len() > 0 {
        law_no_attachment_is_lost(v.drop_last());
        let front = v.drop_last().filter(present);
        if v.last() is Some {
            assert(v.filter(present) == front.push(v.last()));
            assert(front.push(v.last()).map_values(stored) =~= front.map_values(stored).push(
                stored(v.last()),
            ));
            assert(projected_part(v.last()->0) == stored(v.last()));
        }
        assert(projected_parts(v) =~= v.filter(present).map_values(stored));
    } else {
        assert(projected_parts(v) =~= v.filter(present).map_values(stored));
    }
}

/// Where every attachment names a part, there are as many as the message has, and the
/// bytes, the content id and the name of each are its own.
pub proof fn law_attachments_keep_their_places(v: Seq<Option<message::PartModel>>, i: int)
    requires
        forall|k: int| 0 <= k < v.len() ==> #[trigger] v[k] is Some,
        0 <= i < v.len(),
    ensures
        projected_parts(v).len() == v.len(),
        projected_parts(v)[i].data == v[i]->0.contents,
        projected_parts(v)[i].content_id == v[i]->0.content_id,
        v[i]->0.name is Some ==> projected_parts(v)[i].filename == v[i]->0.name,
    decreases v.len(),
{
    let front = v.drop_last();
    assert forall|k: int| 0 <= k < front.len() implies #[trigger] front[k] is Some by {
        assert(v[k] is Some);
    }
    assert(v[v.len() - 1] is Some);
    if front.len() > 0 {
        law_attachments_keep_their_places(front, if i < front.len() {
            i
        } else {
            0
        });
    }
}

/// What is stored of a message is what the parser read: the subject, the identifiers, the
/// bodies and the attachments are taken over, the address lines are those that show
/// anything, and there is text or HTML where the parser counted a part of it.
pub proof fn law_message_is_taken_over(m: message::MessageModel)
    ensures
        ({
            let p = projected(Some(m));
            &&& p.header_subject == m.subject
            &&& p.message_id == m.message_id
            &&& p.text_body == m.text
            &&& p.html_body == m.html
            &&& p.has_text == (m.text_count > 0)
            &&& p.has_html == (m.html_count > 0)
            &&& p.attachments == projected_parts(m.attachments)
            &&& m.from is None ==> p.header_from is None
            &&& m.to is None ==> p.header_to is None
            &&& m.cc is None ==> p.header_cc is None
            &&& m.from matches Some(a) ==> p.header_from == (if headers::rendered(a).len() == 0 {
                None
            } else {
                Some(headers::rendered(a))
            })
            &&& m.to matches Some(a) ==> p.header_to == (if headers::rendered(a).len() == 0 {
                None
            } else {
                Some(headers::rendered(a))
            })
            &&& m.cc matches Some(a) ==> p.header_cc == (if headers::rendered(a).len() == 0 {
                None
            } else {
                Some(headers::rendered(a))
            })
            &&& m.in_reply_to matches message::ValueModel::Text(s) ==> p.in_reply_to == Some(s)
            &&& m.in_reply_to matches message::ValueModel::TextList(l) ==> p.in_reply_to == (
            if l.len() > 0 {
                Some(l[0])
            } else {
                None
            })
            &&& !(m.in_reply_to is Text) && !(m.in_reply_to is TextList) ==> p.in_reply_to is None
            &&& p.headers_json == json::JsonModel::Object(headers::headers_map(m.headers))
        }),
        ({
            let p = projected(None);
            &&& p.header_from is None && p.header_to is None && p.header_cc is None
            &&& p.header_subject is None && p.message_id is None && p.in_reply_to is None
            &&& p.text_body is None && p.html_body is None && !p.has_text && !p.has_html
            &&& p.headers_json == json::JsonModel::Object(Map::empty())
            &&& p.attachments.len() == 0
        }),
{
}

/// A tag is taken out with its brackets, a bracket that closes nothing goes alone, and a
/// tag that is not closed takes the rest of the text with it. What stands outside is kept.
pub proof fn law_tags_are_taken_out(a: Seq<char>, tag: Seq<char>, b: Seq<char>)
    requires
        !a.contains('<'),
        !a.contains('>'),
        !tag.contains('>'),
    ensures
        outside_tags(a + seq!['<'] + tag + seq!['>'] + b) == a + outside_tags(b),
        outside_tags(a + seq!['<'] + tag) == a,
        outside_tags(a + seq!['>'] + b) == a + outside_tags(b),
{
    law_plain_text_is_indexed_whole(a);
    let open = a + seq!['<'];
    assert(open.drop_last() =~= a);
    assert(outside_tags(open) == a && inside_tag(open));
    lemma_inside(open, tag);
    assert(open + tag =~= a + seq!['<'] + tag);
    let closed = open + tag + seq!['>'];
    assert(closed.drop_last() =~= open + tag);
    assert(outside_tags(closed) == a && !inside_tag(closed));
    lemma_outside(closed, b);
    assert(closed + b =~= a + seq!['<'] + tag + seq!['>'] + b);
    let stray = a + seq!['>'];
    assert(stray.drop_last() =~= a);
    assert(outside_tags(stray) == a && !inside_tag(stray));
    lemma_outside(stray, b);
}

proof fn lemma_inside(a: Seq<char>, t: Seq<char>)
    requires
        inside_tag(a),
        !t.contains('>'),
    ensures
        outside_tags(a + t) == outside_tags(a),
        inside_tag(a + t),
    decreases t.len(),
{
    if t.len() == 0 {
        assert(a + t =~= a);
    } else {
        assert((a + t).drop_last() =~= a + t.drop_last());
        assert(!t.drop_last().contains('>')) by {
            if t.drop_last().contains('>') {
                let k = choose|k: int| 0 <= k < t.drop_last().len() && t.drop_last()[k] == '>';
                assert(t[k] == '>');
            }
        }
        assert(t.contains(t.last()));
        lemma_inside(a, t.drop_last());
    }
}

proof fn lemma_outside(a: Seq<char>, t: Seq<char>)
    requires
        !inside_tag(a),
    ensures
        outside_tags(a + t) == outside_tags(a) + outside_tags(t),
        inside_tag(a + t) == inside_tag(t),
    decreases t.len(),
{
    if t.len() == 0 {
        assert(a + t =~= a);
        assert(outside_tags(a) + outside_tags(t) =~= outside_tags(a));
    } else {
        assert((a + t).drop_last() =~= a + t.drop_last());
        lemma_outside(a, t.drop_last());
        assert(outside_tags(a + t) =~= outside_tags(a) + outside_tags(t));
    }
}

/// The index holds the plain text of a message that has one, else its HTML without tags.
pub proof fn law_index_prefers_the_text(text: Seq<char>, html: Seq<char>)
    ensures
        searchable(Some(text), Some(html)) == text,
        searchable(Some(text), None) == text,
        searchable(None, Some(html)) == outside_tags(html),
        searchable(None, None).len() == 0,
{
}

/// The values of a stored message are those of its fields.
pub proof fn law_values_of_a_message(p: Parsed, i: int)
    ensures
        p@.header_from == chars::opt_view(p.header_from),
        p@.header_to == chars::opt_view(p.header_to) && p@.header_cc == chars::opt_view(p.header_cc),
        p@.header_subject == chars::opt_view(p.header_subject),
        p@.message_id == chars::opt_view(p.message_id),
        p@.in_reply_to == chars::opt_view(p.in_reply_to),
        p@.text_body == chars::opt_view(p.text_body) && p@.html_body == chars::opt_view(p.html_body),
        p@.has_text == p.has_text && p@.has_html == p.has_html,
        p@.headers_json == p.headers_json@,
        p@.attachments.len() == p.attachments@.len(),
        0 <= i < p.attachments@.len() ==> {
            &&& p@.attachments[i].filename == chars::opt_view(p.attachments@[i].filename)
            &&& p@.attachments[i].content_type == chars::opt_view(p.attachments@[i].content_type)
            &&& p@.attachments[i].content_id == chars::opt_view(p.attachments@[i].content_id)
            &&& p@.attachments[i].data == p.attachments@[i].data@
        },
{
}

} // verus!
