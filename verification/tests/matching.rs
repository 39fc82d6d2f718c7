use postcrate_core::db::emails::{AttachmentMeta, EmailDetail, EmailSummary};
use postcrate_core::json::Json;
use postcrate_core::matcher::{
    regex_line, EmailPredicate, HeaderPredicate, MatchResult, WaitOutcome,
};

fn summary(id: &str, from: &str, to: &[&str], subject: &str) -> EmailSummary {
    EmailSummary {
        id: id.into(),
        mailbox_id: "mb".into(),
        received_at: 0,
        from: from.into(),
        to: to.iter().map(|s| s.to_string()).collect(),
        subject: Some(subject.into()),
        has_html: false,
        has_text: true,
        size_bytes: 0,
        read: false,
        pinned: false,
        starred: false,
        tag: None,
    }
}

fn detail(s: &EmailSummary, body: &str) -> EmailDetail {
    EmailDetail {
        id: s.id.clone(),
        mailbox_id: s.mailbox_id.clone(),
        received_at: s.received_at,
        from: s.from.clone(),
        to: s.to.clone(),
        subject: s.subject.clone(),
        has_html: s.has_html,
        has_text: s.has_text,
        size_bytes: s.size_bytes,
        read: s.read,
        pinned: false,
        starred: false,
        note: None,
        tag: None,
        headers: Json::Object(vec![(
            "X-Mailer".to_string(),
            Json::Text("Postcrate-test".to_string()),
        )]),
        text_body: Some(body.into()),
        html_body: None,
        attachments: Vec::new(),
        message_id: None,
        in_reply_to: None,
        ext_smtputf8: false,
        ext_8bitmime: false,
    }
}

#[test]
fn summary_filter_case_insensitive() {
    let s = summary("1", "Alice@Example.com", &["Bob@example.com"], "Welcome!");
    let mut p = EmailPredicate::default();
    p.from = Some("alice".into());
    assert!(p.matches_summary(&s));
    p.to = Some("BOB".into());
    assert!(p.matches_summary(&s));
    p.subject = Some("welc".into());
    assert!(p.matches_summary(&s));
}

#[test]
fn detail_check_reports_each_mismatch() {
    let s = summary("1", "a@b", &["c@d"], "Order shipped");
    let d = detail(&s, "Your package is en route.");
    let p = EmailPredicate {
        from: Some("nobody".into()),
        subject_regex: Some(r"^Refund".into()),
        body_contains: Some("expired".into()),
        has_attachment: Some(true),
        ..Default::default()
    };
    let r = p.check(&d);
    assert!(!r.matched);
    assert_eq!(r.mismatches.len(), 4, "got {:?}", r.mismatches);
}

#[test]
fn detail_check_passes() {
    let s = summary("1", "alerts@bank.example", &["user@example.com"], "Password Reset");
    let d = detail(&s, "Click here to reset: https://bank.example/reset?t=abc");
    let p = EmailPredicate {
        from: Some("bank.example".into()),
        subject_regex: Some(r"(?i)password\s+reset".into()),
        body_regex: Some(r"https://\S+/reset\?t=\w+".into()),
        ..Default::default()
    };
    assert!(p.check(&d).matched, "{:?}", p.check(&d).mismatches);
}

#[test]
fn header_predicate() {
    let s = summary("1", "a@b", &["c@d"], "hi");
    let d = detail(&s, "body");
    let mut p = EmailPredicate::default();
    p.headers.push(HeaderPredicate {
        name: "X-Mailer".into(),
        contains: Some("postcrate".into()),
        regex: None,
    });
    assert!(p.check(&d).matched);
}

#[test]
fn every_line_is_worded_as_documented() {
    let s = summary("1", "a@b", &["c@d", "e\"f"], "hi");
    let d = detail(&s, "body");
    let p = EmailPredicate {
        mailbox_id: Some("other".into()),
        from: Some("X".into()),
        from_regex: Some("^z".into()),
        to: Some("q".into()),
        subject: Some("s".into()),
        subject_regex: Some("(".into()),
        body_contains: Some("BODY".into()),
        body_regex: Some("^x".into()),
        has_attachment: Some(true),
        headers: vec![HeaderPredicate {
            name: "X-None".into(),
            contains: Some("v".into()),
            regex: Some("w".into()),
        }],
    };
    let r = p.check(&d);
    assert!(!r.matched);
    assert_eq!(r.mismatches[0], "mailboxId: expected \"other\", got \"mb\"");
    assert_eq!(r.mismatches[1], "from: expected to contain \"X\", got \"a@b\"");
    assert_eq!(r.mismatches[2], "from: regex \"^z\" did not match \"a@b\"");
    assert_eq!(
        r.mismatches[3],
        "to: expected one of [\"c@d\", \"e\\\"f\"] to contain \"q\""
    );
    assert_eq!(r.mismatches[4], "subject: expected to contain \"s\", got \"hi\"");
    assert!(r.mismatches[5].starts_with("subject: invalid regex \"(\": regex parse error"));
    assert_eq!(r.mismatches[6], "bodyContains: \"BODY\" not found in textBody");
    assert_eq!(r.mismatches[7], "bodyRegex: regex \"^x\" did not match \"body\"");
    assert_eq!(r.mismatches[8], "hasAttachment: expected true, got false");
    assert_eq!(
        r.mismatches[9],
        "header \"X-None\": expected to contain \"v\", got \"\""
    );
    assert_eq!(r.mismatches[10], "header \"X-None\": regex \"w\" did not match \"\"");
    assert_eq!(r.mismatches.len(), 11);
}

#[test]
fn filter_refuses_what_the_check_refuses() {
    let s = summary("1", "a@b", &["c@d"], "hi");
    let p = EmailPredicate { mailbox_id: Some("other".into()), ..Default::default() };
    assert!(!p.matches_summary(&s));
    let p = EmailPredicate { to: Some("zz".into()), ..Default::default() };
    assert!(!p.matches_summary(&s));
    assert!(!p.check(&detail(&s, "")).matched);
    let p = EmailPredicate { subject: Some("zz".into()), ..Default::default() };
    assert!(!p.matches_summary(&s));
    let p = EmailPredicate { from: Some("zz".into()), ..Default::default() };
    assert!(!p.matches_summary(&s));
    for from in ["A@", "zz"] {
        let p = EmailPredicate { from: Some(from.into()), ..Default::default() };
        assert_eq!(p.matches_summary(&s), p.check(&detail(&s, "")).matched);
    }
}

#[test]
fn empty_predicate_accepts() {
    let s = summary("1", "a@b", &[], "");
    let p = EmailPredicate::default();
    assert!(p.matches_summary(&s));
    assert!(p.check(&detail(&s, "")).matched);
    let r = MatchResult::ok();
    assert!(r.matched && r.mismatches.is_empty());
}

#[test]
fn attachments_can_be_forbidden() {
    let s = summary("1", "a@b", &[], "");
    let mut d = detail(&s, "");
    let p = EmailPredicate { has_attachment: Some(false), ..Default::default() };
    assert!(p.check(&d).matched);
    d.attachments.push(AttachmentMeta {
        id: "x".into(),
        filename: None,
        content_type: None,
        content_id: None,
        size_bytes: 0,
    });
    assert_eq!(p.check(&d).mismatches, vec!["hasAttachment: expected false, got true"]);
}

#[test]
fn regex_lines_follow_the_outcome() {
    assert_eq!(regex_line("f", "\"p\"", "\"t\"", Ok(true)), None);
    assert_eq!(
        regex_line("f", "\"p\"", "\"t\"", Ok(false)),
        Some("f: regex \"p\" did not match \"t\"".to_string())
    );
    assert_eq!(
        regex_line("f", "\"p\"", "\"t\"", Err("bad".to_string())),
        Some("f: invalid regex \"p\": bad".to_string())
    );
}

#[test]
fn unicode_case_is_ignored() {
    let s = summary("1", "\u{c4}rger@x", &["c@d"], "hi");
    let p = EmailPredicate { from: Some("\u{e4}RGER".into()), ..Default::default() };
    assert!(p.matches_summary(&s));
}

#[test]
fn waits_end_with_the_first_match() {
    let p = EmailPredicate {
        from: Some("alice".into()),
        body_contains: Some("code".into()),
        ..Default::default()
    };
    let other = summary("1", "bob@x", &["c@d"], "hi");
    let early = summary("2", "alice@x", &["c@d"], "hi");
    let first = summary("3", "alice@x", &["c@d"], "hi");
    let second = summary("4", "alice@x", &["c@d"], "hi");
    let mut w = WaitOutcome::start();
    let d = detail(&other, "the code");
    w.look(&p, &other, Some(d.clone()));
    w.observe(&p, other, Some(d));
    let d = detail(&early, "nothing");
    w.observe(&p, early.clone(), Some(d));
    w.observe(&p, early, None);
    assert!(w.matched.is_none());
    let d = detail(&first, "the code");
    w.observe(&p, first, Some(d));
    let d = detail(&second, "the code");
    w.observe(&p, second, Some(d));
    assert_eq!(w.matched.map(|d| d.id), Some("3".to_string()));
    let seen: Vec<String> = w.seen_during_wait.into_iter().map(|e| e.id).collect();
    assert_eq!(seen, vec!["1", "2", "2", "3", "4"]);
}
