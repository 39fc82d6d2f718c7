use postcrate_core::fuzz;
use postcrate_core::json::Json;
use postcrate_core::mail::headers::{headers_to_json, render_address};
use postcrate_core::mail::message::{
    Bodies, Envelope, Field, FieldValue, MimeType, ParsedMessage, Part, Recipient, RecipientGroup,
    Recipients,
};
use postcrate_core::mail::parse::{fts_body, parse, project, strip_html};

fn text(s: &str) -> Option<String> {
    Some(s.to_string())
}

fn member<'a>(j: &'a Json, key: &str) -> &'a Json {
    j.get(key).unwrap()
}

#[test]
fn minimal_text_message() {
    let raw = b"From: a@b.com\r\nTo: c@d.com\r\nSubject: hi\r\n\r\nhello world\r\n";
    let p = parse(raw);
    assert!(p.has_text);
    assert_eq!(p.header_subject.as_deref(), Some("hi"));
    assert!(p.text_body.as_deref().unwrap_or("").contains("hello"));
}

#[test]
fn envelope_headers_are_shown() {
    let raw = b"From: Ann <a@b.com>\r\nTo: c@d.com, Dan <d@e.com>\r\nCc: x@y\r\n\
Message-ID: <m1@host>\r\nIn-Reply-To: <m0@host> <m2@host>\r\nSubject: s\r\n\r\nbody\r\n";
    let p = parse(raw);
    assert_eq!(p.header_from.as_deref(), Some("Ann <a@b.com>"));
    assert_eq!(p.header_to.as_deref(), Some("c@d.com, Dan <d@e.com>"));
    assert_eq!(p.header_cc.as_deref(), Some("x@y"));
    assert_eq!(p.message_id.as_deref(), Some("m1@host"));
    assert_eq!(p.in_reply_to.as_deref(), Some("m0@host"));
    assert_eq!(member(&p.headers_json, "Subject").as_str(), Some("s"));
}

#[test]
fn repeated_headers_make_an_array() {
    let raw = b"X-A: one\r\nSubject: s\r\nX-A: two\r\nX-A: three\r\n\r\nbody\r\n";
    let p = parse(raw);
    match member(&p.headers_json, "X-A") {
        Json::Array(v) => {
            let texts: Vec<&str> = v.iter().map(|j| j.as_str().unwrap()).collect();
            assert_eq!(texts, vec!["one", "two", "three"]);
        }
        other => panic!("got {:?}", other),
    }
}

#[test]
fn attachments_are_kept() {
    let raw = b"Subject: s\r\nMIME-Version: 1.0\r\n\
Content-Type: multipart/mixed; boundary=\"b\"\r\n\r\n\
--b\r\nContent-Type: text/plain\r\n\r\nhello\r\n\
--b\r\nContent-Type: application/pdf; name=\"n.pdf\"\r\nContent-ID: <c1>\r\n\
Content-Disposition: attachment; filename=\"f.pdf\"\r\n\r\nDATA\r\n--b--\r\n";
    let p = parse(raw);
    assert_eq!(p.attachments.len(), 1);
    let a = &p.attachments[0];
    assert_eq!(a.filename.as_deref(), Some("f.pdf"));
    assert_eq!(a.content_type.as_deref(), Some("application/pdf"));
    assert_eq!(a.content_id.as_deref(), Some("c1"));
    assert_eq!(a.data, b"DATA".to_vec());
}

#[test]
fn dates_and_types_are_written_out() {
    let raw = b"Date: Tue, 01 Jul 2003 10:52:37 +0200\r\nContent-Type: text/plain; charset=utf-8\r\n\r\nx\r\n";
    let p = parse(raw);
    assert_eq!(
        member(&p.headers_json, "Date").as_str(),
        Some("Tue, 1 Jul 2003 10:52:37 +0200")
    );
    assert_eq!(member(&p.headers_json, "Content-Type").as_str(), Some("text/plain"));
}

#[test]
fn unrecognised_input_gives_an_empty_result() {
    let p = parse(b"");
    assert!(p.header_from.is_none() && p.text_body.is_none() && !p.has_text && !p.has_html);
    assert!(p.attachments.is_empty());
    assert!(matches!(&p.headers_json, Json::Object(m) if m.is_empty()));
    fuzz::parse_mail(b"");
    fuzz::parse_mail(&[0xff, 0x00, b':', b'\n']);
}

fn message(attachments: Vec<Option<Part>>, in_reply_to: FieldValue) -> ParsedMessage {
    ParsedMessage {
        envelope: Envelope {
            from: Some(Recipients::List(Vec::new())),
            to: None,
            cc: None,
            subject: None,
            message_id: None,
            in_reply_to,
        },
        headers: vec![
            Field { name: "R".to_string(), value: FieldValue::Received },
            Field {
                name: "L".to_string(),
                value: FieldValue::TextList(vec!["a".to_string(), "b".to_string()]),
            },
            Field { name: "L".to_string(), value: FieldValue::Text("c".to_string()) },
        ],
        bodies: Bodies { text: None, html: text("<p>a</p>b"), text_count: 0, html_count: 1 },
        attachments,
    }
}

#[test]
fn parts_that_are_missing_are_skipped() {
    let part = Part {
        name: None,
        content_type: Some(MimeType { ctype: "image".to_string(), subtype: None, name: text("n") }),
        content_id: None,
        contents: vec![1, 2],
    };
    let p = project(Some(message(vec![None, Some(part), None], FieldValue::Empty)));
    assert_eq!(p.attachments.len(), 1);
    assert_eq!(p.attachments[0].filename.as_deref(), Some("n"));
    assert_eq!(p.attachments[0].content_type.as_deref(), Some("image"));
    assert_eq!(p.attachments[0].data, vec![1, 2]);
    assert_eq!(p.header_from, None);
    assert_eq!(p.in_reply_to, None);
    assert!(p.has_html && !p.has_text);
    assert_eq!(fts_body(&p), "ab");
}

#[test]
fn first_identifier_is_replied_to() {
    let list = FieldValue::TextList(vec!["m0".to_string(), "m1".to_string()]);
    assert_eq!(project(Some(message(Vec::new(), list))).in_reply_to.as_deref(), Some("m0"));
    let none = FieldValue::TextList(Vec::new());
    assert_eq!(project(Some(message(Vec::new(), none))).in_reply_to, None);
}

#[test]
fn a_list_takes_further_values_in() {
    let j = headers_to_json(&message(Vec::new(), FieldValue::Empty));
    assert!(matches!(member(&j, "R"), Json::Null));
    match member(&j, "L") {
        Json::Array(v) => {
            let texts: Vec<&str> = v.iter().map(|x| x.as_str().unwrap()).collect();
            assert_eq!(texts, vec!["a", "b", "c"]);
        }
        other => panic!("got {:?}", other),
    }
}

#[test]
fn addresses_are_rendered() {
    let list = Recipients::List(vec![
        Recipient { name: text("Ann"), address: text("a@b") },
        Recipient { name: None, address: None },
        Recipient { name: None, address: text("c@d") },
        Recipient { name: text("Eve"), address: None },
    ]);
    assert_eq!(render_address(&list), "Ann <a@b>, c@d, Eve ");
    let group = Recipients::Group(vec![
        RecipientGroup {
            name: text("Team"),
            addresses: vec![
                Recipient { name: text("Ann"), address: text("a@b") },
                Recipient { name: text("No"), address: None },
                Recipient { name: None, address: text("c@d") },
            ],
        },
        RecipientGroup { name: None, addresses: Vec::new() },
    ]);
    assert_eq!(render_address(&group), "Team: a@b, c@d, ");
}

#[test]
fn index_prefers_the_text() {
    let raw = b"Content-Type: text/plain\r\n\r\nplain <b>text</b>\r\n";
    let p = parse(raw);
    assert_eq!(Some(fts_body(&p)), p.text_body);
}

#[test]
fn tags_are_stripped_once_and_for_all() {
    let mut p = parse(b"Subject: x\r\n\r\ny\r\n");
    p.text_body = None;
    p.html_body = Some("a<b <i>c</b>> d<e".to_string());
    let once = fts_body(&p);
    assert_eq!(once, "ac d");
    p.html_body = Some(once.clone());
    assert_eq!(fts_body(&p), once);
    assert_eq!(strip_html("a<b <i>c</b>> d<e"), once);
    assert_eq!(strip_html(&once), once);
    assert_eq!(strip_html("plain & simple"), "plain & simple");
}
