//! Retention: how many emails a mailbox keeps, and for how long emails and log
//! entries are kept.

use vstd::prelude::*;
use vstd::string::*;

use crate::clock;
use crate::db::emails;
use crate::db::emails::StoredEmail;
use crate::db::settings::BackendSettings;

verus! {

/// The identifiers and files of the emails that go.
#[derive(Debug)]
pub struct Removal {
    pub ids: Vec<String>,
    pub files: Vec<String>,
}

/// `r` holds the identifiers and the files of `victims`.
pub open spec fn removes(r: Removal, victims: Seq<StoredEmail>) -> bool {
    &&& r.ids@ == victims.map_values(|e: StoredEmail| e.id)
    &&& r.files@ == victims.map_values(|e: StoredEmail| e.raw_path)
}

/// What goes with some emails.
pub fn removal(victims: &Vec<StoredEmail>) -> (r: Removal)
    ensures
        removes(r, victims@),
{
    let mut ids: Vec<String> = Vec::new();
    let mut files: Vec<String> = Vec::new();
    let mut i: usize = 0;
    while i < victims.len()
        invariant
            i <= victims@.len(),
            ids@.len() == i,
            files@.len() == i,
            forall|j: int| 0 <= j < i ==> #[trigger] ids@[j] == victims@[j].id,
            forall|j: int| 0 <= j < i ==> #[trigger] files@[j] == victims@[j].raw_path,
        decreases victims@.len() - i,
    {
        ids.push(victims[i].id.clone());
        files.push(victims[i].raw_path.clone());
        i = i + 1;
    }
    assert(ids@ =~= victims@.map_values(|e: StoredEmail| e.id));
    assert(files@ =~= victims@.map_values(|e: StoredEmail| e.raw_path));
    Removal { ids, files }
}

/// What goes when a mailbox keeps at most `keep_max` emails that are not pinned. One
/// that keeps none, or fewer, is not trimmed.
pub open spec fn caps(r: Removal, rows: Seq<StoredEmail>, keep_max: i64) -> bool {
    if keep_max <= 0 {
        removes(r, Seq::empty())
    } else {
        exists|victims: Seq<StoredEmail>| #[trigger]
            emails::is_trimmed(victims, rows, keep_max) && removes(r, victims)
    }
}

/// What goes, out of the emails of a mailbox, to keep the `keep_max` newest ones.
pub fn cap_per_mailbox(rows: Vec<StoredEmail>, keep_max: i64) -> (r: Removal)
    ensures
        caps(r, rows@, keep_max),
{
    if keep_max <= 0 {
        let none: Vec<StoredEmail> = Vec::new();
        let r: Removal = removal(&none);
        assert(none@ =~= Seq::empty());
        return r;
    }
    let victims: Vec<StoredEmail> = emails::trim_mailbox(rows, keep_max);
    removal(&victims)
}

/// What goes when a mailbox is cleared.
pub fn clear(rows: Vec<StoredEmail>, preserve_pinned: bool) -> (r: Removal)
    ensures
        removes(r, emails::cleared(rows@, preserve_pinned)),
{
    let victims: Vec<StoredEmail> = emails::clear_mailbox(rows, preserve_pinned);
    removal(&victims)
}

/// What goes of the emails that were received before `cutoff_ms`.
pub fn purge(rows: Vec<StoredEmail>, cutoff_ms: i64) -> (r: Removal)
    ensures
        removes(r, emails::older_than(rows@, cutoff_ms)),
{
    let victims: Vec<StoredEmail> = emails::list_older_than(rows, cutoff_ms);
    removal(&victims)
}

/// What a periodic sweep does.
#[derive(Debug)]
pub struct Sweep {
    /// Emails received before this time go.
    pub emails_before: Option<i64>,
    /// For how many days log entries are kept.
    pub audit_days: Option<u32>,
}

/// The sweep that the settings ask for at `now`. Zero days keep everything.
pub open spec fn is_sweep(s: Sweep, auto_clear_days: u32, audit_days: u32, now: i64) -> bool {
    &&& match s.emails_before {
        Some(t) => auto_clear_days > 0 && t == now - auto_clear_days * 86_400_000,
        None => auto_clear_days == 0,
    }
    &&& s.audit_days == if audit_days > 0 {
        Some(audit_days)
    } else {
        None
    }
}

/// The sweep that the settings ask for now.
pub fn run_once(settings: &BackendSettings) -> (r: Sweep)
    ensures
        exists|now: i64|
            0 <= now <= clock::LAST_MILLI && #[trigger] is_sweep(
                r,
                settings.inbox.auto_clear_after_days,
                settings.advanced.audit_retain_days,
                now,
            ),
{
    run_once_at(settings, clock::now_millis())
}

/// The sweep that the settings ask for at `now`.
pub fn run_once_at(settings: &BackendSettings, now: i64) -> (r: Sweep)
    requires
        0 <= now,
    ensures
        is_sweep(
            r,
            settings.inbox.auto_clear_after_days,
            settings.advanced.audit_retain_days,
            now,
        ),
{
    Sweep {
        emails_before: if settings.inbox.auto_clear_after_days > 0 {
            Some(clock::days_before(now, settings.inbox.auto_clear_after_days))
        } else {
            None
        },
        audit_days: if settings.advanced.audit_retain_days > 0 {
            Some(settings.advanced.audit_retain_days)
        } else {
            None
        },
    }
}

/// A sweep takes the emails that are known to be older than the days that are kept, and
/// spares all others.
pub proof fn law_young_emails_are_kept(
    s: Sweep,
    auto_clear_days: u32,
    audit_days: u32,
    now: i64,
    rows: Seq<StoredEmail>,
    e: StoredEmail,
)
    requires
        is_sweep(s, auto_clear_days, audit_days, now),
        auto_clear_days > 0,
        rows.contains(e),
    ensures
        s.emails_before matches Some(t) && emails::older_than(rows, t).contains(e) == (
        e.received_at matches Some(at) && now - at > auto_clear_days * 86_400_000),
{
    let t = s.emails_before->0;
    let p = |x: StoredEmail| emails::is_older(x, t);
    rows.filter_lemma(p);
    let i = rows.index_of(e);
    if p(rows[i]) {
        assert(rows.filter(p).contains(rows[i]));
    }
}

/// What a sweep does: it looks back as many days as emails are kept, and as many as log
/// entries are kept, and leaves out what is kept for ever.
pub proof fn law_sweep(s: Sweep, auto_clear_days: u32, audit_days: u32, now: i64)
    requires
        is_sweep(s, auto_clear_days, audit_days, now),
    ensures
        auto_clear_days == 0 <==> s.emails_before is None,
        auto_clear_days > 0 ==> s.emails_before->0 == now - auto_clear_days * 24 * 60 * 60 * 1000,
        audit_days == 0 <==> s.audit_days is None,
        audit_days > 0 ==> s.audit_days == Some(audit_days),
{
}

/// What is removed are the identifiers and the files of the same emails, in their order.
pub proof fn law_removal(r: Removal, victims: Seq<StoredEmail>, i: int)
    requires
        removes(r, victims),
    ensures
        r.ids@.len() == victims.len(),
        r.files@.len() == victims.len(),
        0 <= i < victims.len() ==> r.ids@[i] == victims[i].id && r.files@[i] == victims[i].raw_path,
{
}

/// A mailbox that is to keep none, or fewer, is not trimmed. Otherwise no pinned email
/// goes, and as many others stay as are to be kept, or all where there are no more.
pub proof fn law_cap(r: Removal, rows: Seq<StoredEmail>, keep_max: i64)
    requires
        caps(r, rows, keep_max),
    ensures
        keep_max <= 0 ==> r.ids@.len() == 0 && r.files@.len() == 0,
        keep_max > 0 ==> ({
            let others = rows.filter(|e: StoredEmail| !e.pinned).len();
            r.ids@.len() == if others <= keep_max {
                0
            } else {
                others - keep_max
            }
        }),
{
    if keep_max > 0 {
        let victims = choose|victims: Seq<StoredEmail>| #[trigger]
            emails::is_trimmed(victims, rows, keep_max) && removes(r, victims);
        emails::law_pins_survive_trimming(victims, rows, keep_max, 0);
        emails::law_removed_rows(rows, 0);
        assert(emails::unpinned(rows) == rows.filter(|e: StoredEmail| !e.pinned));
    }
}

} // verus!
