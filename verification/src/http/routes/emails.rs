//! Captured emails.

use vstd::prelude::*;
use vstd::string::*;

use crate::db::emails;
use crate::db::emails::EmailDetail;
use crate::error::Error;
use crate::http::dto::{ListMessagesQuery, SearchBody};
use crate::http::routes::paging;
use crate::text::chars;
use crate::text::unicode;
use crate::text::words;

verus! {

/// The emails that a request lists: of which mailbox, how many, and from where on.
pub fn list(q: ListMessagesQuery) -> (r: Result<(String, u32, u32), Error>)
    ensures
        match q.mailbox_id {
            Some(mb) => r matches Ok(l) && l.0 == mb && l.1 == paging::bounded(q.limit, 100, 1000)
                && l.2 == match q.offset {
                Some(n) => n,
                None => 0u32,
            },
            None => r matches Err(Error::Invalid(m)) && m@ == "mailboxId query param required"@,
        },
{
    match q.mailbox_id {
        Some(mb) => Ok((mb, paging::limit(q.limit, 100, 1000), paging::offset(q.offset))),
        None => Err(Error::Invalid("mailboxId query param required".to_owned())),
    }
}

/// How many emails a search shows.
pub fn search(body: &SearchBody) -> (r: u32)
    ensures
        r == paging::bounded(body.limit, 50, 500),
{
    paging::limit(body.limit, 50, 500)
}

/// The email has an attachment with the identifier `id`.
pub open spec fn has_attachment(attachments: Seq<emails::MetaModel>, id: Seq<char>) -> bool {
    exists|i: int| 0 <= i < attachments.len() && (#[trigger] attachments[i]).id == id
}

/// Lets a request for an attachment pass only where it is one of the email's own.
pub fn check_attachment(detail: &EmailDetail, attachment_id: &str) -> (r: Result<(), Error>)
    ensures
        r is Ok == has_attachment(detail@.attachments, attachment_id@),
        r matches Err(e) ==> (e matches Error::AttachmentNotFound(i) && i@ == attachment_id@),
{
    let v: &Vec<emails::AttachmentMeta> = &detail.attachments;
    let ghost m = detail@.attachments;
    let mut i: usize = 0;
    while i < v.len()
        invariant
            i <= v@.len(),
            m == emails::metas(v@),
            m == detail@.attachments,
            forall|j: int| 0 <= j < i ==> (#[trigger] m[j]).id != attachment_id@,
        decreases v@.len() - i,
    {
        if chars::str_eq(v[i].id.as_str(), attachment_id) {
            assert(m[i as int].id == attachment_id@);
            return Ok(());
        }
        i = i + 1;
    }
    Err(Error::AttachmentNotFound(attachment_id.to_owned()))
}

/// The headers of an answer that carries an attachment.
#[derive(Debug)]
pub struct AttachmentHeaders {
    pub content_type: Option<String>,
    pub content_disposition: Option<String>,
}

/// A character that the value of a header may hold.
pub open spec fn in_header(c: char) -> bool {
    (c as u32 >= 32 && c as u32 != 127) || c == '\t'
}

/// A text that the value of a header may be.
pub open spec fn is_header_value(s: Seq<char>) -> bool {
    words::all_chars(s, |c: char| in_header(c))
}

/// `http::HeaderValue::from_str`: whether a text can be the value of a header. It
/// can, unless it holds a control character of ASCII other than the tab.
#[verifier::external_body]
fn header_value_ok(s: &str) -> (r: bool)
    ensures
        r == is_header_value(s@),
{
    ::http::HeaderValue::from_str(s).is_ok()
}

/// A character of a file name as a header shows it.
pub open spec fn shown_char(c: char) -> char {
    if c == '"' || c == '\\' || unicode::is_control_char(c) {
        '_'
    } else {
        c
    }
}

/// A file name as a header shows it: quotes, backslashes and control characters give
/// way to underscores.
pub open spec fn shown_name(s: Seq<char>) -> Seq<char> {
    s.map_values(|c: char| shown_char(c))
}

/// A file name as a header shows it.
pub fn sanitize(s: &str) -> (r: String)
    ensures
        r@ == shown_name(s@),
{
    let v: Vec<char> = chars::chars_of(s);
    let mut out = String::new();
    let mut i: usize = 0;
    while i < v.len()
        invariant
            i <= v@.len(),
            out@ == shown_name(v@.take(i as int)),
        decreases v@.len() - i,
    {
        let c: char = v[i];
        if c == '"' || c == '\\' || c.is_control() {
            out.push('_');
        } else {
            out.push(c);
        }
        i = i + 1;
        assert(out@ =~= shown_name(v@.take(i as int)));
    }
    assert(v@.take(i as int) =~= v@);
    out
}

/// How a browser is told the name of an attachment.
pub open spec fn disposition(name: Seq<char>) -> Seq<char> {
    "attachment; filename=\""@ + shown_name(name) + "\""@
}

/// The headers of an answer that carries an attachment with this name and type. A
/// type that no header can hold is left out; an unknown type is one of plain bytes.
pub fn attachment_headers(name: Option<&str>, content_type: Option<&str>) -> (r: AttachmentHeaders)
    ensures
        match content_type {
            Some(ct) => chars::opt_view(r.content_type) == if is_header_value(ct@) {
                Some(ct@)
            } else {
                None
            },
            None => chars::opt_view(r.content_type) == Some("application/octet-stream"@),
        },
        match name {
            Some(n) => chars::opt_view(r.content_disposition) == Some(disposition(n@)),
            None => r.content_disposition is None,
        },
{
    let content_type: Option<String> = match content_type {
        Some(ct) => if header_value_ok(ct) {
            Some(ct.to_owned())
        } else {
            None
        },
        None => Some("application/octet-stream".to_owned()),
    };
    let content_disposition: Option<String> = match name {
        Some(n) => {
            let d: String = words::cat3("attachment; filename=\"", sanitize(n).as_str(), "\"");
            proof {
                law_names_fit_in_headers(n@);
            }
            if header_value_ok(d.as_str()) {
                Some(d)
            } else {
                None
            }
        },
        None => None,
    };
    AttachmentHeaders { content_type, content_disposition }
}

/// Whatever an attachment is called, its name fits in a header, and cannot end the
/// quotes in which it stands.
pub proof fn law_names_fit_in_headers(name: Seq<char>)
    ensures
        is_header_value(disposition(name)),
        !shown_name(name).contains('"'),
        !shown_name(name).contains('\\'),
        shown_name(name).len() == name.len(),
{
    let d = disposition(name);
    let a = "attachment; filename=\""@;
    reveal_strlit("attachment; filename=\"");
    reveal_strlit("\"");
    assert forall|i: int| 0 <= i < d.len() implies in_header(#[trigger] d[i]) by {
        if i < a.len() {
            assert(d[i] == a[i]);
        } else if i < a.len() + name.len() {
            assert(d[i] == shown_char(name[i - a.len()]));
        } else {
            assert(d[i] == '"');
        }
    }
    assert forall|i: int| 0 <= i < name.len() implies #[trigger] shown_name(name)[i] != '"'
        && shown_name(name)[i] != '\\' by {
        assert(shown_name(name)[i] == shown_char(name[i]));
    }
}

/// A file name keeps its length and all its characters, but for quotes, backslashes and
/// control characters, which become underscores.
pub proof fn law_names_are_shown(name: Seq<char>, i: int)
    requires
        0 <= i < name.len(),
    ensures
        shown_name(name).len() == name.len(),
        name[i] == '"' || name[i] == '\\' ==> shown_name(name)[i] == '_',
        name[i] as u32 <= 0x1F || 0x7F <= name[i] as u32 <= 0x9F ==> shown_name(name)[i] == '_',
        name[i] != '"' && name[i] != '\\' && 0x20 <= name[i] as u32 && !(0x7F <= name[i] as u32
            <= 0x9F) ==> shown_name(name)[i] == name[i],
        disposition(name) == "attachment; filename=\""@ + shown_name(name) + "\""@,
{
}

} // verus!
