use postcrate_core::config::{BindHost, CoreConfig};
use postcrate_core::db::audit::AuditEntry;
use postcrate_core::db::bounce_rules::BounceRule;
use postcrate_core::db::emails::{AttachmentMeta, EmailDetail, EmailSummary};
use postcrate_core::db::mailboxes::Mailbox;
use postcrate_core::db::settings::{NetworkPrefs, SettingsSection};
use postcrate_core::error::Error;
use postcrate_core::events::{BounceKind, CoreEvent, MailboxStateChange, ServerStatus};
use postcrate_core::http::auth::{constant_time_eq, require_bearer};
use postcrate_core::http::dto::{ListMessagesQuery, SearchBody};
use postcrate_core::http::routes::{audit, bounces, emails, events, health, mailtrap, wait};
use postcrate_core::http::server;
use postcrate_core::json::Json;
use postcrate_core::mailbox::kinds::MailboxKind;
use postcrate_core::mailbox::service::ListenFailure;
use postcrate_core::matcher::EmailPredicate;

fn s(t: &str) -> String {
    t.to_string()
}

fn summary(id: &str, read: bool) -> EmailSummary {
    EmailSummary {
        id: s(id),
        mailbox_id: s("mb"),
        received_at: 5,
        from: s("a@b"),
        to: vec![s("c@d"), s("e@f")],
        subject: Some(s("hi")),
        has_html: false,
        has_text: true,
        size_bytes: 1,
        read,
        pinned: false,
        starred: false,
        tag: None,
    }
}

fn detail() -> EmailDetail {
    EmailDetail {
        id: s("e1"),
        mailbox_id: s("mb"),
        received_at: 5,
        from: s("a@b"),
        to: Vec::new(),
        subject: None,
        has_html: false,
        has_text: true,
        size_bytes: 1,
        read: true,
        pinned: false,
        starred: false,
        note: None,
        tag: None,
        headers: Json::Object(Vec::new()),
        text_body: Some(s("t")),
        html_body: None,
        attachments: vec![AttachmentMeta {
            id: s("att1"),
            filename: Some(s("f")),
            content_type: None,
            content_id: None,
            size_bytes: 3,
        }],
        message_id: None,
        in_reply_to: None,
        ext_smtputf8: false,
        ext_8bitmime: false,
    }
}

#[test]
fn tokens_are_required() {
    assert!(require_bearer("tok", "/api/v1/x", Some("Bearer tok")).is_none());
    assert!(require_bearer("tok", "/api/v1/x", Some("bearer tok")).is_none());
    assert!(require_bearer("tok", "/healthz", None).is_none());
    assert!(require_bearer("tok", "/info", Some("Bearer no")).is_none());
    for header in [None, Some("tok"), Some("Bearer toK"), Some("BEARER tok"), Some("Bearer  tok")] {
        let r = require_bearer("tok", "/api/v1/x", header).unwrap();
        assert_eq!((r.status, r.www_authenticate), (401, "Bearer realm=\"postcrate\""));
        assert_eq!(r.body.get("error").unwrap().as_str(), Some("unauthorized"));
        assert_eq!(
            r.body.get("message").unwrap().as_str(),
            Some("Authorization: Bearer <token> required")
        );
    }
}

#[test]
fn comparison_is_equality() {
    assert!(constant_time_eq(b"", b""));
    assert!(constant_time_eq(b"abc", b"abc"));
    assert!(!constant_time_eq(b"abc", b"abd"));
    assert!(!constant_time_eq(b"abc", b"ab"));
    assert!(!constant_time_eq(b"a\0", b"a"));
}

#[test]
fn the_port_of_the_api() {
    let mut cfg = CoreConfig::for_data_dir(s("/tmp/x")).unwrap();
    let mut net = NetworkPrefs::default();
    net.http_api_port = 9000;
    let b = server::start(&cfg, &net);
    assert_eq!((b.port, b.host), (9000, BindHost::Loopback));
    net.http_api_port = 0;
    assert_eq!(server::start(&cfg, &net).port, 1080);
    cfg.http_port = 0;
    net.http_api_port = 9000;
    net.expose_on_lan = true;
    let b = server::start(&cfg, &net);
    assert_eq!((b.port, b.host), (0, BindHost::AllInterfaces));
    assert!(matches!(server::bind_error(ListenFailure::AddrInUse(s("x")), 5), Error::PortInUse(5)));
    let other = ListenFailure::Other(Error::Io(s("x")));
    assert!(matches!(server::bind_error(other, 5), Error::Io(_)));
}

#[test]
fn lists_are_bounded() {
    let q = |mb: Option<&str>, limit, offset| ListMessagesQuery {
        mailbox_id: mb.map(|m| m.to_string()),
        limit,
        offset,
    };
    assert_eq!(emails::list(q(Some("m"), None, None)).unwrap(), (s("m"), 100, 0));
    assert_eq!(emails::list(q(Some("m"), Some(5000), Some(3))).unwrap(), (s("m"), 1000, 3));
    match emails::list(q(None, None, None)) {
        Err(Error::Invalid(m)) => assert_eq!(m, "mailboxId query param required"),
        other => panic!("got {:?}", other),
    }
    let body = |limit| SearchBody { q: s("x"), mailbox_id: None, limit };
    assert_eq!(emails::search(&body(None)), 50);
    assert_eq!(emails::search(&body(Some(501))), 500);
    assert_eq!(emails::search(&body(Some(0))), 0);
    assert_eq!(audit::list(None, None), (100, 0));
    assert_eq!(audit::list(Some(1001), Some(2)), (1000, 2));
}

#[test]
fn waits_are_clamped() {
    let w = |timeout_seconds| wait::WaitBody { predicate: EmailPredicate::default(), timeout_seconds };
    assert_eq!(wait::wait(&w(None)), 30);
    assert_eq!(wait::wait(&w(Some(0))), 1);
    assert_eq!(wait::wait(&w(Some(77))), 77);
    assert_eq!(wait::wait(&w(Some(301))), 300);
}

#[test]
fn attachments_belong_to_their_email() {
    assert!(emails::check_attachment(&detail(), "att1").is_ok());
    match emails::check_attachment(&detail(), "att2") {
        Err(Error::AttachmentNotFound(i)) => assert_eq!(i, "att2"),
        other => panic!("got {:?}", other),
    }
}

#[test]
fn attachment_names_fit_in_headers() {
    assert_eq!(emails::sanitize("a\"b\\c\nd\u{85}\u{e4}"), "a_b_c_d_\u{e4}");
    let h = emails::attachment_headers(Some("a\r\n\".pdf"), Some("image/png"));
    assert_eq!(h.content_type.as_deref(), Some("image/png"));
    assert_eq!(h.content_disposition.as_deref(), Some("attachment; filename=\"a___.pdf\""));
    let h = emails::attachment_headers(None, Some("x\ny"));
    assert_eq!((h.content_type, h.content_disposition), (None, None));
    let h = emails::attachment_headers(None, None);
    assert_eq!(h.content_type.as_deref(), Some("application/octet-stream"));
    let h = emails::attachment_headers(None, Some("t\tx \u{e4}"));
    assert_eq!(h.content_type.as_deref(), Some("t\tx \u{e4}"));
}

#[test]
fn events_have_names_and_data() {
    let e = CoreEvent::NewEmail { mailbox_id: s("mb"), email: summary("e1", false) };
    let j = events::event_to_json(&e);
    assert_eq!((events::kind(&e), j.get("kind").unwrap().as_str()), ("newEmail", Some("newEmail")));
    assert_eq!(j.get("mailboxId").unwrap().as_str(), Some("mb"));
    assert_eq!(j.get("email").unwrap().get("id").unwrap().as_str(), Some("e1"));
    let e = CoreEvent::MailboxStateChanged {
        mailbox_id: s("mb"),
        change: MailboxStateChange::Failed { error: s("x") },
    };
    let j = events::event_to_json(&e);
    assert_eq!(events::kind(&e), "mailboxStateChanged");
    let c = j.get("change").unwrap();
    assert_eq!(c.get("kind").unwrap().as_str(), Some("failed"));
    assert_eq!(c.get("error").unwrap().as_str(), Some("x"));
    let e = CoreEvent::ServerStatusChanged {
        status: ServerStatus { running_mailboxes: 2, http_running: true, errors: vec![s("e")] },
    };
    let j = events::event_to_json(&e);
    assert!(matches!(j.get("status").unwrap().get("runningMailboxes"), Some(Json::Int(2))));
    assert_eq!(events::kind(&e), "serverStatusChanged");
    let e = CoreEvent::SettingsChanged { section: SettingsSection::Agents };
    assert_eq!(events::event_to_json(&e).get("section").unwrap().as_str(), Some("agents"));
    assert_eq!(events::kind(&e), "settingsChanged");
    let e = CoreEvent::AuditAppended {
        entry: AuditEntry {
            id: 1,
            at: 2,
            actor: s("a"),
            action: s("b"),
            target_kind: None,
            target_id: Some(s("t")),
            metadata: None,
        },
    };
    let j = events::event_to_json(&e);
    assert_eq!(j.get("entry").unwrap().get("targetId").unwrap().as_str(), Some("t"));
    assert_eq!(events::kind(&e), "auditAppended");
    assert_eq!(events::lagged(12), ("lagged", s("12")));
}

#[test]
fn health_and_info() {
    assert_eq!(health::healthz(), "ok");
    let mut cfg = CoreConfig::for_data_dir(s("/tmp/x")).unwrap();
    cfg.bind_host = BindHost::AllInterfaces;
    let i = health::info("1.2.3", &cfg, 4);
    assert_eq!((i.version, i.uptime_sec, i.running_mailboxes), ("1.2.3", 0, 4));
    assert_eq!((i.bind_host.as_str(), i.http_port), ("0.0.0.0", 1080));
    cfg.bind_host = BindHost::Loopback;
    assert_eq!(health::info("1", &cfg, 0).bind_host, "127.0.0.1");
}

#[test]
fn rules_are_stored_for_the_mailbox_of_the_path() {
    let r = bounces::upsert(
        s("mb"),
        BounceRule {
            id: s("i"),
            mailbox_id: s("other"),
            address_pattern: s("*"),
            bounce_kind: BounceKind::Hard,
            smtp_code: 550,
            smtp_message: s("m"),
            enabled: false,
            created_at: 9,
        },
    );
    assert_eq!((r.mailbox_id.as_str(), r.id.as_str(), r.created_at), ("mb", "i", 9));
}

#[test]
fn inboxes_count_what_is_unread() {
    let cfg = CoreConfig::for_data_dir(s("/tmp/x")).unwrap();
    let mb = || Mailbox {
        id: s("mb"),
        project_id: s("p"),
        name: s("n"),
        port: 2525,
        kind: MailboxKind::Primary,
        ttl_seconds: None,
        expires_at: None,
        failed: false,
        fail_reason: None,
        created_at: 0,
        count: 3,
    };
    let recent = vec![summary("a", false), summary("b", true), summary("c", false)];
    let i = mailtrap::inbox(mb(), &cfg, Some(recent), Some(vec![summary("a", false)]));
    assert_eq!((i.emails_count, i.emails_unread_count, i.last_message_sent_at), (3, 2, Some(5)));
    assert_eq!((i.smtp_ports, i.pop3_ports), (vec![2525], Vec::<u16>::new()));
    assert_eq!((i.domain.as_str(), i.pop3_domain, i.status), ("postcrate.local", "unsupported", "active"));
    assert_eq!((i.email_username.as_str(), i.max_size), ("n", 52_428_800));
    let i = mailtrap::inbox(mb(), &cfg, None, Some(Vec::new()));
    assert_eq!((i.emails_unread_count, i.last_message_sent_at), (0, None));
}

#[test]
fn messages_link_to_their_bodies() {
    let m = mailtrap::message("acc", "mb", summary("e1", true));
    assert_eq!(m.download_url, "/api/accounts/acc/inboxes/mb/messages/e1/body.eml");
    assert_eq!(m.txt_url, "/api/accounts/acc/inboxes/mb/messages/e1/body.txt");
    assert_eq!(m.html_url, "/api/accounts/acc/inboxes/mb/messages/e1/body.html");
    assert_eq!((m.to_email.as_deref(), m.is_read, m.sent_at), (Some("c@d"), true, 5));
}

#[test]
fn messages_of_other_inboxes_are_not_found() {
    let j = mailtrap::get_message("acc", "mb", "e1", detail()).unwrap();
    assert_eq!(j.get("id").unwrap().as_str(), Some("e1"));
    assert!(matches!(j.get("to_email"), Some(Json::Null)));
    assert!(matches!(j.get("attachments"), Some(Json::Array(v)) if v.len() == 1));
    assert_eq!(
        j.get("download_url").unwrap().as_str(),
        Some("/api/accounts/acc/inboxes/mb/messages/e1/body.eml")
    );
    match mailtrap::get_message("acc", "other", "e1", detail()) {
        Err(Error::EmailNotFound(i)) => assert_eq!(i, "e1"),
        other => panic!("got {:?}", other),
    }
    assert_eq!(mailtrap::get_text(detail()), "t");
    assert_eq!(mailtrap::get_html(detail()), "");
}
