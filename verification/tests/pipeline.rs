use postcrate_core::db::emails::{get_detail, DetailRow, EmailDetail, StoredEmail, SummaryRow};
use postcrate_core::db::forwarding::{insert_as, CreateForwardingRule};
use postcrate_core::db::settings::{BackendSettings, InboxPrefs};
use postcrate_core::db::webhooks::Webhook;
use postcrate_core::error::Error;
use postcrate_core::events::CoreEvent;
use postcrate_core::json::Json;
use postcrate_core::mail::parse::parse;
use postcrate_core::pipeline::forwarding;
use postcrate_core::pipeline::ingest::{
    announce, attachment_insert, blob_id, ingest_one, parsed_to_json, retention_cap,
    CapturedEnvelope,
};
use postcrate_core::pipeline::retention::{cap_per_mailbox, clear, purge, run_once, run_once_at};
use postcrate_core::pipeline::webhooks::{dispatch, payload, request_for, Delivery};

fn s(t: &str) -> String {
    t.to_string()
}

const RAW: &[u8] = b"From: a@b.com\r\nTo: c@d.com\r\nSubject: hi\r\nX-A: 1\r\nX-A: 2\r\n\r\nhello\r\n";

fn envelope() -> CapturedEnvelope {
    CapturedEnvelope {
        mailbox_id: s("mb"),
        received_at: 11,
        mail_from: s("a@b.com"),
        rcpt_to: vec![s("c@d.com")],
        ext_smtputf8: false,
        ext_8bitmime: true,
    }
}

fn row(parsed: Json) -> DetailRow {
    DetailRow {
        summary: SummaryRow {
            id: None,
            mailbox_id: None,
            received_at: None,
            smtp_from: Some(s("x@y")),
            smtp_to_json: None,
            header_subject: None,
            has_html: None,
            has_text: None,
            size_bytes: None,
            read_flag: None,
            pinned: None,
            starred: None,
            tag: None,
        },
        parsed,
        message_id: None,
        in_reply_to: None,
        ext_smtputf8: None,
        ext_8bitmime: None,
        note: None,
    }
}

fn detail(from: &str) -> EmailDetail {
    let mut d = get_detail("i", Some(row(Json::Null)), Vec::new()).unwrap();
    d.from = s(from);
    d
}

#[test]
fn a_message_is_stored_as_parsed() {
    let (e, plan) = ingest_one(&envelope(), &parse(RAW), RAW.len(), s("/raw/1"), &Vec::new()).unwrap();
    assert_eq!((e.mailbox_id.as_str(), e.received_at, e.smtp_from.as_str()), ("mb", 11, "a@b.com"));
    assert_eq!(e.header_from.as_deref(), Some("a@b.com"));
    assert_eq!(e.header_subject.as_deref(), Some("hi"));
    assert_eq!(e.size_bytes, RAW.len() as i64);
    assert_eq!(e.raw_path, "/raw/1");
    assert!(e.ext_8bitmime && !e.ext_smtputf8 && e.has_text && e.tag.is_none());
    assert!(e.fts_body.contains("hello"));
    assert_eq!(plan.outcome.summary.subject.as_deref(), Some("hi"));
    match announce(envelope(), plan) {
        CoreEvent::NewEmail { mailbox_id, email } => {
            assert_eq!((mailbox_id.as_str(), email.from.as_str()), ("mb", "a@b.com"))
        }
        other => panic!("got {:?}", other),
    }
}

#[test]
fn details_show_what_was_parsed() {
    let p = parse(RAW);
    let d = get_detail("i", Some(row(parsed_to_json(&p))), Vec::new()).unwrap();
    assert_eq!(d.text_body, p.text_body);
    assert_eq!(d.html_body, p.html_body);
    assert_eq!(d.headers.get("Subject").unwrap().as_str(), Some("hi"));
    assert!(matches!(d.headers.get("X-A"), Some(Json::Array(v)) if v.len() == 2));
}

#[test]
fn stored_json_has_all_parts() {
    let j = parsed_to_json(&parse(RAW));
    assert_eq!(j.get("from").unwrap().as_str(), Some("a@b.com"));
    assert_eq!(j.get("to").unwrap().as_str(), Some("c@d.com"));
    assert!(matches!(j.get("cc"), Some(Json::Null)));
    assert!(matches!(j.get("has_text"), Some(Json::Bool(true))));
    assert!(matches!(&j, Json::Object(m) if m.len() == 11));
}

#[test]
fn attachments_take_their_size() {
    let p = parse(
        b"Content-Type: application/pdf; name=\"n.pdf\"\r\n\
Content-Disposition: attachment\r\n\r\nDATA",
    );
    let a = attachment_insert(&p.attachments[0], "i", "/att/i");
    assert_eq!((a.id.as_str(), a.size_bytes, a.blob_path.as_str()), ("i", 4, "/att/i"));
    assert_eq!(a.filename.as_deref(), Some("n.pdf"));
    assert_eq!(blob_id().len(), 36);
    let (e, plan) =
        ingest_one(&envelope(), &p, 9, s("/raw/2"), &vec![(s("i"), s("/att/i"))]).unwrap();
    assert_eq!(plan.attachments.len(), 1);
    let row = &plan.attachments[0];
    assert_eq!((row.id.as_str(), row.blob_path.as_str(), row.size_bytes), ("i", "/att/i", 4));
    assert_eq!(row.email_id, plan.outcome.id);
    assert_eq!((&row.filename, &row.content_type), (&a.filename, &a.content_type));
    assert_eq!((e.size_bytes, e.attachments.len()), (9, 1));
    assert_eq!(e.attachments[0].blob_path, "/att/i");
}

#[test]
fn caps_apply_where_positive() {
    let prefs = |n| InboxPrefs { max_retained_emails: n, ..InboxPrefs::default() };
    assert_eq!(retention_cap(&prefs(0)), None);
    assert_eq!(retention_cap(&prefs(7)), Some(7));
    let rows = || {
        vec![
            StoredEmail { id: s("a"), raw_path: s("/a"), received_at: Some(1), pinned: false },
            StoredEmail { id: s("b"), raw_path: s("/b"), received_at: Some(2), pinned: false },
            StoredEmail { id: s("c"), raw_path: s("/c"), received_at: Some(0), pinned: true },
        ]
    };
    let r = cap_per_mailbox(rows(), 1);
    assert_eq!((r.ids, r.files), (vec![s("a")], vec![s("/a")]));
    assert!(cap_per_mailbox(rows(), 0).ids.is_empty());
    assert!(cap_per_mailbox(rows(), -1).ids.is_empty());
    let r = clear(rows(), true);
    assert_eq!((r.ids, r.files), (vec![s("a"), s("b")], vec![s("/a"), s("/b")]));
    assert_eq!(purge(rows(), 2).ids, vec![s("a"), s("c")]);
}

#[test]
fn sweeps_follow_the_settings() {
    let mut st = BackendSettings::default();
    let sw = run_once_at(&st, 14 * 86_400_000 + 5);
    assert_eq!((sw.emails_before, sw.audit_days), (Some(5), Some(90)));
    st.inbox.auto_clear_after_days = 0;
    st.advanced.audit_retain_days = 0;
    let sw = run_once_at(&st, 5);
    assert_eq!((sw.emails_before, sw.audit_days), (None, None));
    assert!(run_once(&BackendSettings::default()).emails_before.unwrap() > 1_500_000_000_000);
}

#[test]
fn forwarded_mail_has_a_sender() {
    assert_eq!(forwarding::envelope_sender(Ok(detail("x@y"))), "x@y");
    assert_eq!(forwarding::envelope_sender(Ok(detail(""))), "postcrate@localhost");
    assert_eq!(forwarding::envelope_sender(Err(Error::Db(s("x")))), "postcrate@localhost");
}

#[test]
fn failed_forwarding_is_logged() {
    let (rule, _) = insert_as(
        CreateForwardingRule {
            mailbox_id: None,
            target_addresses: vec![s("t@t")],
            relay: 0u8,
            enabled: None,
        },
        s("r1"),
        0,
    )
    .unwrap();
    assert!(forwarding::dispatch(&rule, "e1", Ok(())).is_none());
    let a = forwarding::dispatch(&rule, "e1", Err(Error::Io(s("down")))).unwrap();
    assert_eq!((a.action.as_str(), a.target_id.as_deref()), ("forwarding.failed", Some("r1")));
    let m = a.metadata.unwrap();
    assert_eq!(m.get("emailId").unwrap().as_str(), Some("e1"));
    assert_eq!(m.get("error").unwrap().as_str(), Some("io error: down"));
}

fn hook() -> Webhook {
    Webhook {
        id: s("w1"),
        mailbox_id: None,
        url: s("http://x"),
        auth_header: Some(s("Bearer t")),
        enabled: true,
        created_at: 0,
    }
}

#[test]
fn deliveries_are_logged_unless_they_succeed() {
    assert!(dispatch(&hook(), Delivery::Answered(200)).is_none());
    assert!(dispatch(&hook(), Delivery::Answered(299)).is_none());
    for status in [199u16, 300, 404, 500] {
        let a = dispatch(&hook(), Delivery::Answered(status)).unwrap();
        assert_eq!((a.action.as_str(), a.target_id.as_deref()), ("webhook.failed", Some("w1")));
        let m = a.metadata.unwrap();
        assert!(matches!(m.get("status"), Some(Json::Int(n)) if *n == i64::from(status)));
        assert_eq!(m.get("url").unwrap().as_str(), Some("http://x"));
    }
    let a = dispatch(&hook(), Delivery::Failed(s("timeout"))).unwrap();
    assert_eq!(a.metadata.unwrap().get("error").unwrap().as_str(), Some("timeout"));
    let r = request_for(&hook());
    assert_eq!((r.url.as_str(), r.authorization.as_deref()), ("http://x", Some("Bearer t")));
}

#[test]
fn payloads_carry_the_summary() {
    let (_, plan) = ingest_one(&envelope(), &parse(RAW), RAW.len(), s("/raw/1"), &Vec::new()).unwrap();
    let j = payload("mb", &plan.outcome.summary);
    assert_eq!(j.get("event").unwrap().as_str(), Some("new_email"));
    assert_eq!(j.get("mailboxId").unwrap().as_str(), Some("mb"));
    let e = j.get("email").unwrap();
    assert_eq!(e.get("subject").unwrap().as_str(), Some("hi"));
    assert!(matches!(e.get("receivedAt"), Some(Json::Int(11))));
    assert!(matches!(e.get("to"), Some(Json::Array(v)) if v[0].as_str() == Some("c@d.com")));
    assert!(matches!(e.get("hasText"), Some(Json::Bool(true))));
    assert!(matches!(e.get("tag"), Some(Json::Null)));
}
