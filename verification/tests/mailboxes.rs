use std::collections::HashSet;

use postcrate_core::config::CoreConfig;
use postcrate_core::db::mailboxes::{
    insert, insert_at, inserted, list_all_ports, list, list_expiring, row_to_mailbox_row,
    store_error, sweep_expired_ephemerals, update, MailboxColumns, MailboxRow, StoreFailure, UpdateMailboxInput,
};
use postcrate_core::error::Error;
use postcrate_core::events::{CoreEvent, MailboxStateChange};
use postcrate_core::json::Json;
use postcrate_core::mailbox::kinds::MailboxKind;
use postcrate_core::mailbox::lifecycle::{sleep_until_or_forever, ExpiryMsg, Schedule};
use postcrate_core::mailbox::ports::{find_free_port, PortAllocator};
use postcrate_core::mailbox::service::{
    audit_failed, expire, expiry_message, is_orphan, is_orphan_given, plan_listener, port_for_new,
    start_failed, ListenFailure, MailboxService,
};

fn s(t: &str) -> String {
    t.to_string()
}

fn row(kind: MailboxKind, ttl: Option<u64>) -> MailboxRow {
    insert_at("p", "n", 2525, kind, ttl, 1_000, s("id1")).unwrap()
}

#[test]
fn kinds_round_trip() {
    for k in [MailboxKind::Primary, MailboxKind::Shared, MailboxKind::Ephemeral] {
        assert_eq!(MailboxKind::from_str(k.as_str()), Some(k));
    }
    assert_eq!(MailboxKind::Ephemeral.as_str(), "ephemeral");
    assert_eq!(MailboxKind::from_str("Primary"), None);
}

#[test]
fn new_mailboxes_expire_after_their_ttl() {
    let r = row(MailboxKind::Ephemeral, Some(60));
    assert_eq!(r.expires_at, Some(61_000));
    assert_eq!(r.created_at, 1_000);
    assert!(!r.failed);
    assert_eq!(expire(Ok(r), 60_999).unwrap(), false);
    assert_eq!(expire(Ok(row(MailboxKind::Ephemeral, Some(60))), 61_000).unwrap(), true);
    assert_eq!(row(MailboxKind::Primary, None).expires_at, None);
    assert_eq!(expire(Ok(row(MailboxKind::Primary, None)), i64::MAX).unwrap(), false);
}

#[test]
fn an_expiry_that_does_not_fit_is_refused() {
    assert!(insert_at("p", "n", 1, MailboxKind::Ephemeral, Some(u64::MAX / 4), 0, s("i")).is_none());
    let wrapped = insert_at("p", "n", 1, MailboxKind::Ephemeral, Some(u64::MAX), 5_000, s("i"));
    assert_eq!(wrapped.unwrap().expires_at, Some(4_000));
}

#[test]
fn fresh_mailboxes_have_fresh_ids() {
    let a = insert("p", "n", 1, MailboxKind::Shared, Some(10)).unwrap();
    let b = insert("p", "n", 1, MailboxKind::Shared, None).unwrap();
    assert_ne!(a.id, b.id);
    assert_eq!(a.id.len(), 36);
    assert_eq!(a.id.as_bytes()[14], b'4');
    assert_eq!(a.expires_at, Some(a.created_at + 10_000));
}

#[test]
fn collisions_are_told_apart() {
    let port = StoreFailure::Unique(s("UNIQUE constraint failed: Mailboxes.Port"));
    assert!(matches!(store_error(port, "n", 7), Error::PortInUse(7)));
    let name = StoreFailure::Unique(s("UNIQUE constraint failed: mailboxes.name"));
    match store_error(name, "n", 7) {
        Error::DuplicateMailbox(n) => assert_eq!(n, "n"),
        other => panic!("got {:?}", other),
    }
    match inserted(row(MailboxKind::Primary, None), Err(StoreFailure::Other(s("disk")))) {
        Err(Error::Db(m)) => assert_eq!(m, "disk"),
        other => panic!("got {:?}", other),
    }
    assert!(inserted(row(MailboxKind::Primary, None), Ok(())).is_ok());
}

#[test]
fn patches_change_what_they_name() {
    let r = row(MailboxKind::Ephemeral, Some(60));
    let c = update(&r, &UpdateMailboxInput::default());
    assert_eq!((c.name.as_str(), c.port, c.ttl_seconds, c.ttl_column), ("n", 2525, Some(60), Some(60)));
    let c = update(
        &r,
        &UpdateMailboxInput { name: Some(s("m")), port: Some(1), ttl_seconds: Some(None) },
    );
    assert_eq!((c.name.as_str(), c.port, c.ttl_seconds, c.ttl_column), ("m", 1, None, None));
    let p = UpdateMailboxInput { name: None, port: None, ttl_seconds: Some(Some(5)) };
    assert_eq!(update(&r, &p).ttl_seconds, Some(5));
}

#[test]
fn rows_are_read_with_defaults() {
    let r = row_to_mailbox_row(MailboxColumns {
        id: None,
        project_id: None,
        name: None,
        port: None,
        kind: Some(s("odd")),
        ttl_seconds: None,
        expires_at: None,
        failed: None,
        fail_reason: None,
        created_at: None,
    });
    assert_eq!((r.id.as_str(), r.port, r.kind, r.failed), ("", 0, MailboxKind::Primary, false));
    let r = row_to_mailbox_row(MailboxColumns {
        id: Some(s("i")),
        project_id: Some(s("p")),
        name: Some(s("n")),
        port: Some(65536 + 25),
        kind: Some(s("shared")),
        ttl_seconds: Some(-1),
        expires_at: Some(3),
        failed: Some(1),
        fail_reason: Some(s("why")),
        created_at: Some(9),
    });
    assert_eq!((r.port, r.kind, r.ttl_seconds), (25, MailboxKind::Shared, Some(u64::MAX)));
    assert!(r.failed && r.fail_reason.as_deref() == Some("why"));
    let m = r.with_count(4);
    assert_eq!((m.count, m.created_at, m.expires_at), (4, 9, Some(3)));
}

#[test]
fn lists_of_ports_and_expiries() {
    assert_eq!(list_all_ports(&vec![Some(1), None, Some(-1)]), vec![1, 65535]);
    let rows = boarders();
    assert_eq!(list_expiring(&rows), vec![(s("b"), 500), (s("c"), 900)]);
}

fn boarder(id: &str, kind: MailboxKind, expires_at: Option<i64>) -> MailboxRow {
    let mut r = row(kind, None);
    r.id = s(id);
    r.expires_at = expires_at;
    r
}

fn boarders() -> Vec<MailboxRow> {
    vec![
        boarder("a", MailboxKind::Primary, Some(1)),
        boarder("b", MailboxKind::Ephemeral, Some(500)),
        boarder("c", MailboxKind::Ephemeral, Some(900)),
        boarder("d", MailboxKind::Ephemeral, None),
    ]
}

#[test]
fn the_sweep_drops_ephemerals_whose_time_is_over() {
    assert_eq!(sweep_expired_ephemerals(&boarders(), 500), vec!["d"]);
    assert_eq!(sweep_expired_ephemerals(&boarders(), 501), vec!["b", "d"]);
    assert_eq!(sweep_expired_ephemerals(&boarders(), i64::MAX), vec!["b", "c", "d"]);
}

#[test]
fn mailboxes_are_listed_by_age_and_project() {
    let make = |id: &str, project: &str, at: i64| {
        insert_at(project, id, 1, MailboxKind::Primary, None, at, s(id)).unwrap().with_count(0)
    };
    let all = || vec![make("a", "p", 30), make("b", "q", 20), make("c", "p", 10)];
    let names = |v: Vec<postcrate_core::Mailbox>| -> Vec<String> {
        v.into_iter().map(|m| m.id).collect()
    };
    assert_eq!(names(list(all(), None)), vec!["c", "b", "a"]);
    assert_eq!(names(list(all(), Some("p"))), vec!["c", "a"]);
    assert!(list(all(), Some("none")).is_empty());
}

#[test]
fn reservations_go_upwards_past_what_is_taken() {
    let mut a = PortAllocator::new(1105, 1100);
    let db: HashSet<u16> = [1100].into_iter().collect();
    let p = a.reserve(&db, None).unwrap();
    assert_eq!(p, 1101);
    assert_eq!(a.reserve(&db, Some(1101)).unwrap(), 1102);
    a.mark_reserved(1102);
    assert_eq!(a.reserve(&db, Some(1101)).unwrap(), 1103);
    a.release(1102);
    assert_eq!(a.reserve(&db, Some(1101)).unwrap(), 1102);
    assert!(matches!(a.reserve(&db, Some(1105)), Err(Error::PortRangeExhausted)));
}

#[test]
fn whole_range_can_be_exhausted() {
    let mut a = PortAllocator::new(5, 6);
    a.mark_reserved(5);
    a.mark_reserved(6);
    assert!(matches!(a.reserve(&HashSet::new(), None), Err(Error::PortRangeExhausted)));
}

#[test]
fn suggestions_start_above_the_privileged_ports() {
    let none = HashSet::new();
    assert_eq!(find_free_port(0, &none, None).unwrap(), 1025);
    assert_eq!(find_free_port(3000, &none, None).unwrap(), 3000);
    assert_eq!(find_free_port(3000, &none, Some(3000)).unwrap(), 3001);
    assert_eq!(find_free_port(65535, &none, None).unwrap(), 65535);
    let taken: HashSet<u16> = [65535].into_iter().collect();
    assert!(matches!(find_free_port(65535, &taken, None), Err(Error::PortRangeExhausted)));
    assert!(matches!(find_free_port(1, &none, Some(65535)), Err(Error::PortRangeExhausted)));
}

#[test]
fn expiries_come_in_order() {
    let mut q = Schedule::new(vec![(s("b"), 20), (s("a"), 20), (s("c"), 10)]);
    q.apply(ExpiryMsg::Add { mailbox_id: s("d"), expires_at: 30 });
    q.apply(ExpiryMsg::Remove { mailbox_id: s("a") });
    assert_eq!(q.next(), Some(10));
    assert_eq!(q.pop_due(9), None);
    assert_eq!(q.pop_due(25).as_deref(), Some("c"));
    assert_eq!(q.pop_due(25).as_deref(), Some("a"));
    assert_eq!(q.pop_due(25).as_deref(), Some("b"));
    assert_eq!(q.pop_due(25), None);
    assert_eq!(q.pop_due(30).as_deref(), Some("d"));
    assert_eq!(q.next(), None);
}

#[test]
fn sleeping_ends_at_the_expiry() {
    assert_eq!(sleep_until_or_forever(Some(15), 5), Some(10));
    assert_eq!(sleep_until_or_forever(Some(5), 15), Some(0));
    assert_eq!(sleep_until_or_forever(None, 15), None);
}

#[test]
fn only_ephemeral_mailboxes_are_scheduled() {
    match expiry_message(&row(MailboxKind::Ephemeral, Some(1))) {
        Some(ExpiryMsg::Add { mailbox_id, expires_at }) => {
            assert_eq!((mailbox_id.as_str(), expires_at), ("id1", 2_000))
        }
        other => panic!("got {:?}", other),
    }
    assert!(expiry_message(&row(MailboxKind::Shared, Some(1))).is_none());
    assert!(expiry_message(&row(MailboxKind::Ephemeral, None)).is_none());
}

#[test]
fn expiring_what_is_gone_is_no_error() {
    assert_eq!(expire(Err(Error::MailboxNotFound(s("x"))), 0).unwrap(), false);
    assert!(matches!(expire(Err(Error::Db(s("x"))), 0), Err(Error::Db(_))));
}

#[test]
fn ports_of_new_mailboxes() {
    assert_eq!(port_for_new(Some(5), MailboxKind::Primary).unwrap(), Some(5));
    assert_eq!(port_for_new(None, MailboxKind::Ephemeral).unwrap(), None);
    match port_for_new(None, MailboxKind::Shared) {
        Err(Error::Invalid(m)) => assert_eq!(m, "port required for non-ephemeral mailbox"),
        other => panic!("got {:?}", other),
    }
}

fn service() -> MailboxService {
    MailboxService::new(&CoreConfig::for_data_dir(s("/tmp/x")).unwrap())
}

fn is_change(e: &CoreEvent, id: &str, f: fn(&MailboxStateChange) -> bool) -> bool {
    matches!(e, CoreEvent::MailboxStateChanged { mailbox_id, change } if mailbox_id == id && f(change))
}

#[test]
fn starting_and_stopping_are_idempotent() {
    let mut m = service();
    assert!(m.start("a"));
    assert_eq!(m.running_count(), 0);
    let e = m.started("a", 1101);
    assert!(is_change(&e, "a", |c| matches!(c, MailboxStateChange::Started)));
    assert!(!m.start("a"));
    assert_eq!(m.running_count(), 1);
    assert_eq!(m.listener_addr("a"), Some(1101));
    assert_eq!(m.listener_addr("b"), None);
    m.ports.mark_reserved(1101);
    let (port, e) = m.stop("a").unwrap();
    assert_eq!(port, 1101);
    assert!(is_change(&e, "a", |c| matches!(c, MailboxStateChange::Stopped)));
    assert!(m.ports.reserved.is_empty());
    assert!(m.stop("a").is_none());
    assert!(m.start("a"));
}

#[test]
fn stopping_all_leaves_nothing() {
    let mut m = service();
    m.started("a", 1101);
    m.started("b", 1102);
    m.ports.mark_reserved(1101);
    m.ports.mark_reserved(1150);
    let mut out = m.stop_all();
    out.sort();
    assert_eq!(out, vec![(s("a"), 1101), (s("b"), 1102)]);
    assert_eq!(m.running_count(), 0);
    assert_eq!(m.ports.reserved.iter().copied().collect::<Vec<u16>>(), vec![1150]);
}

#[test]
fn transcripts_are_switched_without_a_restart() {
    let mut m = service();
    assert!(!m.preserve_transcript);
    m.started("a", 1101);
    m.set_preserve_transcript(true);
    assert!(m.preserve_transcript);
    assert_eq!(m.listener_addr("a"), Some(1101));
}

#[test]
fn boot_skips_failed_paused_and_running() {
    let mut m = service();
    let mut r = row(MailboxKind::Primary, None);
    assert!(m.boot(&r, false));
    assert!(!m.boot(&r, true));
    m.started("id1", 2525);
    assert!(!m.boot(&r, false));
    m.stop("id1");
    r.failed = true;
    assert!(!m.boot(&r, false));
}

#[test]
fn listeners_move_only_when_running() {
    let mut m = service();
    assert!(!m.update("a", 1, 2));
    assert!(!m.refresh_chaos("a"));
    m.started("a", 1);
    assert!(m.update("a", 1, 2));
    assert!(!m.update("a", 1, 1));
    assert!(m.refresh_chaos("a"));
}

#[test]
fn listener_plans() {
    let c = CoreConfig::for_data_dir(s("/tmp/x")).unwrap();
    let p = plan_listener(&c, "id", 25, true, true);
    assert!(p.implicit_tls && !p.starttls_enabled && p.auth_enabled);
    let p = plan_listener(&c, "id", 25, false, true);
    assert!(!p.implicit_tls && p.starttls_enabled);
    let p = plan_listener(&c, "id", 25, true, false);
    assert!(!p.implicit_tls && !p.starttls_enabled);
    assert_eq!((p.bind_ip, p.bind_port, p.chaos_seed), ([127, 0, 0, 1], 25, 25));
    assert_eq!(p.incoming_dir, "/tmp/x/blobs/raw/incoming");
    assert_eq!((p.max_line, p.max_bytes, p.spill_at), (1000, 52_428_800, 262_144));
    assert_eq!((p.mailbox_id.as_str(), p.hostname.as_str()), ("id", "postcrate.local"));
}

#[test]
fn failed_starts_are_reported() {
    let f = start_failed("id", 25, ListenFailure::AddrInUse(s("os")));
    assert!(matches!(f.error, Error::PortInUse(25)));
    assert_eq!(f.message, "port 25 is already in use");
    assert_eq!(f.audit.action, "mailbox.failed");
    let text = f.audit.metadata.as_ref().unwrap().get("error").unwrap().as_str();
    assert_eq!(text, Some("port 25 is already in use"));
    assert!(is_change(&f.event, "id", |c| matches!(c, MailboxStateChange::Failed { error } if error == "port 25 is already in use")));
    let f = start_failed("id", 25, ListenFailure::Other(Error::Io(s("x"))));
    assert!(matches!(f.error, Error::Io(_)));
    let a = audit_failed("id", "m");
    assert_eq!((a.actor.as_str(), a.target_kind.as_deref()), ("system", Some("mailbox")));
    assert!(matches!(a.metadata, Some(Json::Object(_))));
}

#[test]
fn orphans_are_told_from_messages_and_transcripts() {
    let known = vec![s("/raw/a"), s("b")];
    assert!(!is_orphan("/raw/a", &known));
    assert!(!is_orphan("/raw/a.smtp.log", &known));
    assert!(!is_orphan("/raw/b", &known));
    assert!(is_orphan("/raw/xb", &known));
    assert!(!is_orphan("/data/raw/b", &vec![s("raw/b")]));
    assert!(is_orphan("/data/raw/b", &vec![s("other/b")]));
    assert!(is_orphan("/raw/c", &known));
    assert!(is_orphan("/raw/c.smtp.log", &known));
    assert!(!is_orphan_given("/raw/c", &known, true));
}
