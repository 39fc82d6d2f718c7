use postcrate_core::db::attachments::{get_blob_path, row_to_meta, AttachmentRow, BlobRow};
use postcrate_core::db::audit::{append, append_time, prune_older_than, row_to_entry, AuditAppend, AuditRow};
use postcrate_core::db::bounce_rules::{
    default_enabled, row_to_rule, upsert, upsert_as, BounceRule, RuleRow,
};
use postcrate_core::db::emails::{
    build_fts_query, clear_mailbox, delete, get_detail, get_raw_path, insert, insert_as, list,
    list_older_than, list_recent_across, require_changed, row_to_stored, row_to_summary,
    sanitize_fts, search, trim_mailbox, DetailRow, EmailInsert, EmailSummary, StoredEmail,
    StoredRow, SummaryRow,
};
use postcrate_core::db::forwarding::{self, CreateForwardingRule, ForwardingRow};
use postcrate_core::db::settings::{
    apply_patch, get_section_raw, load_all, save_section, BackendSettings, InboxPrefs, SettingRow,
    SettingsPatch, SettingsSection,
};
use postcrate_core::db::webhooks::{self, CreateWebhook, WebhookRow};
use postcrate_core::db::{audit, bounce_rules, mailboxes};
use postcrate_core::error::Error;
use postcrate_core::events::BounceKind;
use postcrate_core::json::Json;

fn s(t: &str) -> String {
    t.to_string()
}

fn email() -> EmailInsert {
    EmailInsert {
        mailbox_id: s("mb"),
        received_at: 5,
        smtp_from: s("a@b"),
        smtp_to: vec![s("c@d"), s("e\"f\n")],
        header_from: None,
        header_to: None,
        header_cc: None,
        header_subject: Some(s("hi")),
        message_id: None,
        in_reply_to: None,
        size_bytes: 7,
        has_html: false,
        has_text: true,
        raw_path: s("/raw"),
        parsed_json: Json::Null,
        ext_smtputf8: true,
        ext_8bitmime: false,
        attachments: Vec::new(),
        fts_body: s("body"),
        tag: None,
    }
}

fn empty_row() -> SummaryRow {
    SummaryRow {
        id: None,
        mailbox_id: None,
        received_at: None,
        smtp_from: None,
        smtp_to_json: None,
        header_subject: None,
        has_html: None,
        has_text: None,
        size_bytes: None,
        read_flag: None,
        pinned: None,
        starred: None,
        tag: None,
    }
}

#[test]
fn stored_emails_are_listed_as_reported() {
    let e = email();
    let p = insert_as(&e, s("id1")).unwrap();
    assert_eq!(p.record.smtp_to_json, "[\"c@d\",\"e\\\"f\\n\"]");
    assert_eq!((p.record.has_html, p.record.has_text, p.record.read_flag), (0, 1, 0));
    assert_eq!((p.record.ext_smtputf8, p.record.ext_8bitmime), (1, 0));
    assert_eq!(p.index.recipients, "c@d e\"f\n");
    assert_eq!((p.index.subject.as_str(), p.index.sender.as_str()), ("hi", "a@b"));
    assert_eq!((p.index.body.as_str(), p.index.email_id.as_str()), ("body", "id1"));
    let r = row_to_summary(SummaryRow {
        id: Some(p.record.id.clone()),
        mailbox_id: Some(e.mailbox_id.clone()),
        received_at: Some(e.received_at),
        smtp_from: Some(e.smtp_from.clone()),
        smtp_to_json: Some(p.record.smtp_to_json.clone()),
        header_subject: e.header_subject.clone(),
        has_html: Some(p.record.has_html),
        has_text: Some(p.record.has_text),
        size_bytes: Some(e.size_bytes),
        read_flag: Some(p.record.read_flag),
        pinned: Some(0),
        starred: Some(0),
        tag: None,
    });
    let want = p.outcome.summary;
    assert_eq!((r.id, r.mailbox_id, r.from, r.to), (want.id, want.mailbox_id, want.from, want.to));
    assert_eq!((r.subject, r.received_at, r.size_bytes), (want.subject, 5, 7));
    assert_eq!((r.has_html, r.has_text, r.read), (false, true, false));
}

#[test]
fn ids_of_stored_emails_are_fresh() {
    let a = insert(&email()).unwrap();
    let b = insert(&email()).unwrap();
    assert_ne!(a.outcome.id, b.outcome.id);
    assert_eq!(a.outcome.id.len(), 36);
}

#[test]
fn rows_without_columns_have_defaults() {
    let r = row_to_summary(empty_row());
    assert_eq!((r.id.as_str(), r.from.as_str(), r.received_at), ("", "", 0));
    assert!(r.to.is_empty() && r.subject.is_none() && !r.read && !r.pinned && !r.starred);
    let mut bad = empty_row();
    bad.smtp_to_json = Some(s("{not a list"));
    assert!(row_to_summary(bad).to.is_empty());
}

#[test]
fn details_read_the_parsed_message() {
    let parsed = Json::Object(vec![
        (s("headers"), Json::Object(vec![(s("A"), Json::Text(s("b")))])),
        (s("text_body"), Json::Text(s("t"))),
        (s("html_body"), Json::Null),
    ]);
    let row = DetailRow {
        summary: empty_row(),
        parsed,
        message_id: Some(s("m")),
        in_reply_to: None,
        ext_smtputf8: Some(1),
        ext_8bitmime: None,
        note: Some(s("n")),
    };
    let d = get_detail("x", Some(row), Vec::new()).unwrap();
    assert_eq!(d.headers.get("A").unwrap().as_str(), Some("b"));
    assert_eq!((d.text_body.as_deref(), d.html_body), (Some("t"), None));
    assert!(d.ext_smtputf8 && !d.ext_8bitmime);
    assert_eq!((d.note.as_deref(), d.message_id.as_deref()), (Some("n"), Some("m")));
    match get_detail("x", None, Vec::new()) {
        Err(Error::EmailNotFound(i)) => assert_eq!(i, "x"),
        other => panic!("got {:?}", other),
    }
}

#[test]
fn missing_emails_are_reported() {
    assert_eq!(get_raw_path("x", Some(Some(s("p")))).unwrap(), "p");
    assert_eq!(get_raw_path("x", Some(None)).unwrap(), "");
    assert!(matches!(get_raw_path("x", None), Err(Error::EmailNotFound(_))));
    assert_eq!(delete("x", Some(Some(s("p")))).unwrap(), "p");
    assert!(matches!(delete("x", Some(None)), Err(Error::EmailNotFound(_))));
    assert!(require_changed("x", 1).is_ok());
    assert!(matches!(require_changed("x", 0), Err(Error::EmailNotFound(_))));
    assert!(matches!(mailboxes::delete("x", 0), Err(Error::MailboxNotFound(_))));
    assert!(matches!(mailboxes::get("x", None), Err(Error::MailboxNotFound(_))));
}

fn stored(id: &str, received_at: i64, pinned: bool) -> StoredEmail {
    row_to_stored(StoredRow {
        id: Some(s(id)),
        raw_path: Some(format!("/raw/{}", id)),
        received_at: Some(received_at),
        pinned: Some(i64::from(pinned)),
    })
}

fn inbox() -> Vec<StoredEmail> {
    vec![
        stored("a", 10, false),
        stored("b", 40, false),
        stored("c", 5, true),
        stored("d", 30, false),
        stored("e", 20, false),
    ]
}

fn ids(v: Vec<StoredEmail>) -> Vec<String> {
    v.into_iter().map(|e| e.id).collect()
}

#[test]
fn clearing_spares_pinned_emails() {
    assert_eq!(ids(clear_mailbox(inbox(), true)), vec!["a", "b", "d", "e"]);
    assert_eq!(ids(clear_mailbox(inbox(), false)), vec!["a", "b", "c", "d", "e"]);
    assert!(clear_mailbox(Vec::new(), true).is_empty());
}

#[test]
fn trimming_removes_the_oldest_unpinned_emails() {
    assert_eq!(ids(trim_mailbox(inbox(), 2)), vec!["e", "a"]);
    assert_eq!(ids(trim_mailbox(inbox(), 0)), vec!["b", "d", "e", "a"]);
    assert!(trim_mailbox(inbox(), 4).is_empty());
    assert!(trim_mailbox(inbox(), i64::MAX).is_empty());
    assert!(trim_mailbox(inbox(), -1).is_empty());
}

#[test]
fn old_emails_are_those_before_a_time() {
    assert_eq!(ids(list_older_than(inbox(), 20)), vec!["a", "c"]);
    assert!(list_older_than(inbox(), 5).is_empty());
    let row = StoredRow { id: None, raw_path: None, received_at: None, pinned: None };
    let e = row_to_stored(row);
    assert_eq!((e.id.as_str(), e.raw_path.as_str(), e.received_at, e.pinned), ("", "", None, true));
    let undated = || StoredEmail {
        id: s("u"),
        raw_path: s("/raw/u"),
        received_at: None,
        pinned: false,
    };
    assert!(list_older_than(vec![undated()], i64::MAX).is_empty());
    assert_eq!(ids(trim_mailbox(vec![undated(), stored("a", i64::MIN, false)], 1)), vec!["u"]);
}

fn shown(id: &str, received_at: i64, pinned: bool) -> EmailSummary {
    let mut row = empty_row();
    row.id = Some(s(id));
    row.received_at = Some(received_at);
    row.pinned = Some(i64::from(pinned));
    row_to_summary(row)
}

fn shelf() -> Vec<EmailSummary> {
    vec![
        shown("a", 10, false),
        shown("b", 40, false),
        shown("c", 5, true),
        shown("d", 40, false),
        shown("e", 7, true),
    ]
}

fn names(v: Vec<EmailSummary>) -> Vec<String> {
    v.into_iter().map(|e| e.id).collect()
}

#[test]
fn pinned_emails_are_listed_first() {
    assert_eq!(names(list(shelf(), 10, 0)), vec!["e", "c", "b", "d", "a"]);
    assert_eq!(names(list(shelf(), 2, 1)), vec!["c", "b"]);
    assert!(list(shelf(), 2, 5).is_empty());
    assert!(list(shelf(), 0, 0).is_empty());
    assert_eq!(names(list(shelf(), u32::MAX, 4)), vec!["a"]);
    assert!(list(shelf(), u32::MAX, u32::MAX).is_empty());
}

#[test]
fn recent_emails_are_listed_newest_first() {
    assert_eq!(names(list_recent_across(shelf(), 3)), vec!["b", "d", "a"]);
    assert_eq!(names(list_recent_across(shelf(), 9)), vec!["b", "d", "a", "e", "c"]);
    let extremes = vec![shown("x", i64::MIN, false), shown("y", i64::MAX, false)];
    assert_eq!(names(list_recent_across(extremes, 2)), vec!["y", "x"]);
}

#[test]
fn searches_have_no_syntax() {
    assert_eq!(sanitize_fts("  password-reset \"x\" (a OR b)* "), "passwordreset x a OR b");
    assert_eq!(sanitize_fts("a.b@c_d \u{e4}\u{1f600}"), "a.b@c_d \u{e4}");
    assert_eq!(build_fts_query("alic  bob"), "alic* bob*");
    assert_eq!(search("alic-e bob"), Some(s("alice* bob*")));
    assert_eq!(search(" -\"()* "), None);
    assert_eq!(search(""), None);
}

#[test]
fn attachments_of_rows() {
    let m = row_to_meta(AttachmentRow {
        id: Some(s("i")),
        filename: None,
        content_type: Some(s("t")),
        content_id: None,
        size_bytes: None,
    });
    assert_eq!((m.id.as_str(), m.content_type.as_deref(), m.size_bytes), ("i", Some("t"), 0));
    let b = BlobRow { blob_path: Some(s("p")), filename: Some(s("f")), content_type: None };
    assert_eq!(get_blob_path("a", Some(b)).unwrap(), (s("p"), Some(s("f")), None));
    assert!(matches!(get_blob_path("a", None), Err(Error::AttachmentNotFound(_))));
}

#[test]
fn audit_entries_are_appended_and_read() {
    let e = append(
        AuditAppend {
            actor: s("system"),
            action: s("x"),
            target_kind: None,
            target_id: Some(s("t")),
            metadata: Some(Json::Int(1)),
        },
        9,
        5,
    );
    assert_eq!((e.id, e.at, e.actor.as_str(), e.action.as_str()), (9, 5, "system", "x"));
    assert!(matches!(e.metadata, Some(Json::Int(1))));
    let r = row_to_entry(AuditRow {
        id: None,
        at: Some(3),
        actor: None,
        action: Some(s("a")),
        target_kind: None,
        target_id: None,
        metadata: None,
    });
    assert_eq!((r.id, r.at, r.actor.as_str(), r.action.as_str()), (0, 3, "", "a"));
    let now = append_time();
    let cut = prune_older_than(90);
    assert!(cut >= now - 90 * 86_400_000 && cut <= now - 90 * 86_400_000 + 60_000);
}

#[test]
fn the_log_is_listed_newest_first() {
    let entry = |id, at| {
        row_to_entry(AuditRow {
            id: Some(id),
            at: Some(at),
            actor: None,
            action: None,
            target_kind: None,
            target_id: None,
            metadata: None,
        })
    };
    let page = audit::list(vec![entry(1, 5), entry(2, 9), entry(3, 7)], 2, 0);
    assert_eq!(page.iter().map(|e| e.id).collect::<Vec<i64>>(), vec![2, 3]);
    let page = audit::list(vec![entry(1, 5), entry(2, 9), entry(3, 7)], 2, 2);
    assert_eq!(page.iter().map(|e| e.id).collect::<Vec<i64>>(), vec![1]);
}

fn rule(id: &str, code: u16, created_at: i64) -> BounceRule {
    BounceRule {
        id: s(id),
        mailbox_id: s("mb"),
        address_pattern: s("*@x"),
        bounce_kind: BounceKind::Soft,
        smtp_code: code,
        smtp_message: s("no"),
        enabled: true,
        created_at,
    }
}

#[test]
fn bounce_rules_are_completed_once() {
    let a = upsert_as(rule("", 450, 0), s("new"), 7).unwrap();
    assert_eq!((a.id.as_str(), a.created_at), ("new", 7));
    let b = upsert_as(a, s("other"), 8).unwrap();
    assert_eq!((b.id.as_str(), b.created_at), ("new", 7));
    let c = upsert(rule("", 599, 0)).unwrap();
    assert!(c.id.len() == 36 && c.created_at > 0);
    assert!(default_enabled());
}

#[test]
fn bounce_rules_are_listed_oldest_first() {
    let rules = || vec![rule("a", 450, 3), rule("b", 450, 1), rule("c", 450, 2)];
    let listed = bounce_rules::list(rules());
    let found: Vec<String> = listed.into_iter().map(|r| r.id).collect();
    assert_eq!(found, vec!["b", "c", "a"]);
    let row = |id: &str, enabled| RuleRow {
        id: Some(s(id)),
        mailbox_id: None,
        address_pattern: None,
        bounce_kind: None,
        smtp_code: None,
        smtp_message: None,
        enabled,
        created_at: None,
    };
    let rows = vec![row("a", Some(1)), row("b", Some(0)), row("c", Some(2)), row("d", None), row("e", Some(1))];
    let on: Vec<String> = bounce_rules::list_enabled(rows).into_iter().map(|r| r.id).collect();
    assert_eq!(on, vec!["a", "e"]);
}

#[test]
fn bounce_codes_have_to_refuse() {
    for code in [0, 399, 600, 65535] {
        match upsert_as(rule("", code, 0), s("i"), 1) {
            Err(Error::Invalid(m)) => {
                assert_eq!(m, format!("smtp_code {} must be 4xx or 5xx", code))
            }
            other => panic!("got {:?}", other),
        }
    }
    assert!(upsert_as(rule("", 400, 0), s("i"), 1).is_ok());
    assert!(matches!(bounce_rules::delete("r", 0), Err(Error::BounceRuleNotFound(_))));
    assert!(bounce_rules::delete("r", 1).is_ok());
}

#[test]
fn bounce_rules_of_rows() {
    let r = row_to_rule(RuleRow {
        id: None,
        mailbox_id: None,
        address_pattern: None,
        bounce_kind: None,
        smtp_code: None,
        smtp_message: None,
        enabled: None,
        created_at: None,
    });
    assert_eq!((r.smtp_code, r.enabled, r.bounce_kind), (550, true, BounceKind::Hard));
    assert_eq!(BounceKind::from_str("SOFT"), BounceKind::Soft);
    assert_eq!(BounceKind::from_str("x"), BounceKind::Hard);
    assert_eq!(BounceKind::from_str(BounceKind::Soft.as_str()), BounceKind::Soft);
    assert_eq!(BounceKind::from_str(BounceKind::Hard.as_str()), BounceKind::Hard);
}

fn forward(targets: &[&str]) -> CreateForwardingRule<u8> {
    CreateForwardingRule {
        mailbox_id: None,
        target_addresses: targets.iter().map(|t| t.to_string()).collect(),
        relay: 3,
        enabled: None,
    }
}

#[test]
fn forwarding_needs_a_target() {
    match forwarding::insert(forward(&[])) {
        Err(Error::Invalid(m)) => assert_eq!(m, "forwarding rule needs at least one target"),
        other => panic!("got {:?}", other),
    }
    let (f, text) = forwarding::insert_as(forward(&["a@b"]), s("i"), 4).unwrap();
    assert_eq!((f.id.as_str(), f.enabled, f.relay, f.created_at), ("i", true, 3, 4));
    assert_eq!(text, "[\"a@b\"]");
    let back = forwarding::row_to_rule(ForwardingRow {
        id: Some(s("i")),
        mailbox_id: None,
        target_addresses: Some(text),
        relay: Ok(3u8),
        enabled: Some(1),
        created_at: Some(4),
    })
    .unwrap();
    assert_eq!(back.target_addresses, vec!["a@b"]);
    let broken: ForwardingRow<u8> = ForwardingRow {
        id: None,
        mailbox_id: None,
        target_addresses: None,
        relay: Err(s("bad")),
        enabled: None,
        created_at: None,
    };
    assert!(matches!(forwarding::row_to_rule(broken), Err(Error::Json(m)) if m == "bad"));
    match forwarding::delete("r", 0) {
        Err(Error::Invalid(m)) => assert_eq!(m, "forwarding rule r not found"),
        other => panic!("got {:?}", other),
    }
}

fn forwarding_row(
    id: &str,
    mailbox_id: Option<&str>,
    enabled: i64,
    relay: Result<u8, String>,
) -> ForwardingRow<u8> {
    ForwardingRow {
        id: Some(s(id)),
        mailbox_id: mailbox_id.map(s),
        target_addresses: None,
        relay,
        enabled: Some(enabled),
        created_at: None,
    }
}

#[test]
fn forwarding_rules_apply_to_their_mailbox() {
    let rows = || {
        vec![
            forwarding_row("a", None, 1, Ok(1)),
            forwarding_row("b", Some("x"), 1, Ok(2)),
            forwarding_row("c", Some("y"), 1, Err(s("first"))),
            forwarding_row("d", Some("x"), 0, Err(s("second"))),
        ]
    };
    let found = forwarding::list_for_mailbox(rows(), "x").unwrap();
    assert_eq!(found.iter().map(|f| f.relay).collect::<Vec<u8>>(), vec![1, 2]);
    assert!(matches!(forwarding::list_for_mailbox(rows(), "y"), Err(Error::Json(m)) if m == "first"));
    assert_eq!(forwarding::list_for_mailbox(rows(), "z").unwrap().len(), 1);
    assert!(matches!(forwarding::list(rows()), Err(Error::Json(m)) if m == "first"));
    let good = vec![forwarding_row("a", None, 0, Ok(7)), forwarding_row("b", None, 1, Ok(8))];
    let all = forwarding::list(good).unwrap();
    assert_eq!((all[0].relay, all[1].relay, all[0].enabled), (7, 8, false));
}

#[test]
fn webhooks_fire_for_their_mailbox() {
    let hook = |id: &str, mailbox_id: Option<&str>, enabled| WebhookRow {
        id: Some(s(id)),
        mailbox_id: mailbox_id.map(s),
        url: None,
        auth_header: None,
        enabled,
        created_at: None,
    };
    let hooks = || {
        vec![
            hook("a", None, Some(1)),
            hook("b", Some("x"), Some(1)),
            hook("c", Some("y"), Some(1)),
            hook("d", None, Some(0)),
            hook("e", None, Some(2)),
            hook("f", None, None),
        ]
    };
    let all = webhooks::list(hooks());
    assert_eq!(all.iter().map(|w| w.enabled).collect::<Vec<bool>>(), [true, true, true, false, true, false]);
    let fired = |mb: &str| -> Vec<String> {
        webhooks::list_for_mailbox(hooks(), mb).into_iter().map(|w| w.id).collect()
    };
    assert_eq!(fired("x"), vec!["a", "b"]);
    assert_eq!(fired("z"), vec!["a"]);
}

#[test]
fn webhooks_are_enabled_by_default() {
    let input = |enabled| CreateWebhook { mailbox_id: None, url: s("u"), auth_header: None, enabled };
    assert!(webhooks::insert_as(input(None), s("i"), 1).enabled);
    assert!(!webhooks::insert_as(input(Some(false)), s("i"), 1).enabled);
    assert_eq!(webhooks::insert(input(None)).id.len(), 36);
    let w = webhooks::row_to_webhook(WebhookRow {
        id: Some(s("i")),
        mailbox_id: None,
        url: None,
        auth_header: Some(s("h")),
        enabled: None,
        created_at: None,
    });
    assert!(!w.enabled && w.url.is_empty() && w.auth_header.as_deref() == Some("h"));
    match webhooks::delete("w", 0) {
        Err(Error::Invalid(m)) => assert_eq!(m, "webhook w not found"),
        other => panic!("got {:?}", other),
    }
}

#[test]
fn settings_have_defaults() {
    let d = BackendSettings::default();
    assert_eq!((d.network.smtp_port, d.network.http_api_port, d.network.mcp_port), (1025, 1080, 1081));
    assert!(d.network.mcp_enabled && !d.network.expose_on_lan && !d.network.api_tls);
    assert_eq!(d.agents.default_wait_timeout_seconds, 30);
    assert_eq!((d.inbox.max_retained_emails, d.inbox.auto_clear_after_days), (5000, 14));
    assert_eq!(d.advanced.audit_retain_days, 90);
    let some = InboxPrefs { max_retained_emails: 1, ..InboxPrefs::default() };
    let l = load_all(None, None, Some(some), None);
    assert_eq!((l.inbox.max_retained_emails, l.network.smtp_port), (1, 1025));
}

#[test]
fn patches_change_one_section() {
    let p = SettingsPatch::Inbox(InboxPrefs { auto_tag: false, ..InboxPrefs::default() });
    assert_eq!(p.section(), SettingsSection::Inbox);
    assert_eq!(SettingsSection::Inbox.as_str(), "inbox");
    assert_eq!(SettingsSection::Network.as_str(), "network");
    let s1 = apply_patch(BackendSettings::default(), p);
    assert!(!s1.inbox.auto_tag && s1.network.smtp_port == 1025);
}

#[test]
fn sections_survive_saving() {
    let rows = save_section(Json::Object(vec![(s("a"), Json::Int(1)), (s("b"), Json::Bool(true))]));
    let back = get_section_raw(
        rows.into_iter()
            .map(|(k, v)| SettingRow { key: Some(k), value: None, parsed: Some(v) })
            .collect(),
    );
    assert!(matches!(back.get("a"), Some(Json::Int(1))));
    assert!(matches!(back.get("b"), Some(Json::Bool(true))));
    let rows = save_section(Json::Int(5));
    assert_eq!(rows.len(), 1);
    assert_eq!(rows[0].0, "_value");
    let text = get_section_raw(vec![SettingRow {
        key: Some(s("k")),
        value: Some(s("not json")),
        parsed: None,
    }]);
    assert_eq!(text.get("k").unwrap().as_str(), Some("not json"));
}
