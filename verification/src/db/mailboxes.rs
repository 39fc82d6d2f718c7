//! Mailbox rows.

use vstd::prelude::*;
use vstd::string::*;

use crate::clock;
use crate::db::columns;
use crate::db::listing;
use crate::db::listing::Rank;
use crate::error::Error;
use crate::ident;
use crate::mailbox::kinds;
use crate::mailbox::kinds::MailboxKind;
use crate::text::chars;
use crate::text::search;
use crate::text::unicode;

verus! {

/// A mailbox with the number of emails in it.
#[derive(Debug, Clone)]
pub struct Mailbox {
    pub id: String,
    pub project_id: String,
    pub name: String,
    pub port: u16,
    pub kind: MailboxKind,
    pub ttl_seconds: Option<u64>,
    pub expires_at: Option<i64>,
    pub failed: bool,
    pub fail_reason: Option<String>,
    pub created_at: i64,
    pub count: i64,
}

/// What a mailbox is created from.
#[derive(Debug, Clone)]
pub struct CreateMailboxInput {
    pub project_id: String,
    pub name: String,
    pub kind: MailboxKind,
    pub port: Option<u16>,
    pub ttl_seconds: Option<u64>,
}

/// A change of a mailbox. What is absent stays as it is.
#[derive(Debug, Clone)]
pub struct UpdateMailboxInput {
    pub name: Option<String>,
    pub port: Option<u16>,
    /// Nothing leaves the lifetime alone; nothing inside of something clears it.
    pub ttl_seconds: Option<Option<u64>>,
}

impl Default for UpdateMailboxInput {
    fn default() -> (r: Self)
        ensures
            r.name is None,
            r.port is None,
            r.ttl_seconds is None,
    {
        UpdateMailboxInput { name: None, port: None, ttl_seconds: None }
    }
}

/// What an ephemeral mailbox is created from.
#[derive(Debug, Clone)]
pub struct CreateEphemeralInput {
    pub project_id: String,
    pub name: Option<String>,
    pub ttl_seconds: u64,
}

/// How an ephemeral mailbox is reached.
#[derive(Debug, Clone)]
pub struct EphemeralHandle {
    pub id: String,
    pub host: String,
    pub port: u16,
    pub expires_at: i64,
}

/// A mailbox as it is stored.
#[derive(Debug, Clone)]
pub struct MailboxRow {
    pub id: String,
    pub project_id: String,
    pub name: String,
    pub port: u16,
    pub kind: MailboxKind,
    pub ttl_seconds: Option<u64>,
    pub expires_at: Option<i64>,
    pub failed: bool,
    pub fail_reason: Option<String>,
    pub created_at: i64,
}

/// A stored mailbox as a mathematical value.
#[verifier::ext_equal]
pub struct MailboxModel {
    pub id: Seq<char>,
    pub project_id: Seq<char>,
    pub name: Seq<char>,
    pub port: u16,
    pub kind: MailboxKind,
    pub ttl_seconds: Option<u64>,
    pub expires_at: Option<i64>,
    pub failed: bool,
    pub fail_reason: Option<Seq<char>>,
    pub created_at: i64,
}

impl View for MailboxRow {
    type V = MailboxModel;

    open spec fn view(&self) -> MailboxModel {
        MailboxModel {
            id: self.id@,
            project_id: self.project_id@,
            name: self.name@,
            port: self.port,
            kind: self.kind,
            ttl_seconds: self.ttl_seconds,
            expires_at: self.expires_at,
            failed: self.failed,
            fail_reason: chars::opt_view(self.fail_reason),
            created_at: self.created_at,
        }
    }
}

impl Mailbox {
    /// The stored part of the mailbox.
    pub open spec fn stored(&self) -> MailboxModel {
        MailboxModel {
            id: self.id@,
            project_id: self.project_id@,
            name: self.name@,
            port: self.port,
            kind: self.kind,
            ttl_seconds: self.ttl_seconds,
            expires_at: self.expires_at,
            failed: self.failed,
            fail_reason: chars::opt_view(self.fail_reason),
            created_at: self.created_at,
        }
    }
}

impl MailboxRow {
    /// The mailbox with the number of emails in it.
    pub fn with_count(self, count: i64) -> (r: Mailbox)
        ensures
            r.stored() == self@,
            r.count == count,
    {
        Mailbox {
            id: self.id,
            project_id: self.project_id,
            name: self.name,
            port: self.port,
            kind: self.kind,
            ttl_seconds: self.ttl_seconds,
            expires_at: self.expires_at,
            failed: self.failed,
            fail_reason: self.fail_reason,
            created_at: self.created_at,
            count,
        }
    }
}

/// How a statement on the mailboxes failed.
#[derive(Debug)]
pub enum StoreFailure {
    /// Two rows would have had the same name or the same port; with the message of
    /// the store.
    Unique(String),
    /// Anything else, with its message.
    Other(String),
}

/// The time at which a mailbox made at `now` expires.
pub open spec fn expiry(ttl_seconds: u64, now: i64) -> int {
    now + columns::wrapped(ttl_seconds) * 1000
}

/// The expiry can be stored.
pub open spec fn expiry_fits(ttl_seconds: Option<u64>, now: i64) -> bool {
    ttl_seconds matches Some(t) ==> {
        &&& i64::MIN <= columns::wrapped(t) * 1000 <= i64::MAX
        &&& i64::MIN <= expiry(t, now) <= i64::MAX
    }
}

/// `r` is a mailbox made at `now` under the identifier `id`.
pub open spec fn is_new(
    r: MailboxModel,
    project_id: Seq<char>,
    name: Seq<char>,
    port: u16,
    kind: MailboxKind,
    ttl_seconds: Option<u64>,
    now: i64,
    id: Seq<char>,
) -> bool {
    &&& r.id == id
    &&& r.project_id == project_id
    &&& r.name == name
    &&& r.port == port
    &&& r.kind == kind
    &&& r.ttl_seconds == ttl_seconds
    &&& match ttl_seconds {
        Some(t) => r.expires_at matches Some(at) && at == expiry(t, now),
        None => r.expires_at is None,
    }
    &&& !r.failed
    &&& r.fail_reason is None
    &&& r.created_at == now
}

/// A new mailbox, made now under a fresh identifier; nothing where its expiry is
/// too far away to be stored.
pub fn insert(
    project_id: &str,
    name: &str,
    port: u16,
    kind: MailboxKind,
    ttl_seconds: Option<u64>,
) -> (r: Option<MailboxRow>)
    ensures
        r matches Some(row) ==> {
            &&& ident::is_random_uuid(row.id@)
            &&& 0 <= row.created_at <= clock::LAST_MILLI
            &&& is_new(
                row@,
                project_id@,
                name@,
                port,
                kind,
                ttl_seconds,
                row.created_at,
                row.id@,
            )
        },
        r is None ==> ttl_seconds is Some,
        ttl_seconds matches Some(t) ==> (-9_000_000_000_000_000 <= columns::wrapped(t)
            <= 9_000_000_000_000_000 ==> r is Some),
{
    insert_at(project_id, name, port, kind, ttl_seconds, clock::now_millis(), ident::fresh_id())
}

/// A new mailbox, made at `now` under the identifier `id`; nothing where its expiry
/// is too far away to be stored.
pub fn insert_at(
    project_id: &str,
    name: &str,
    port: u16,
    kind: MailboxKind,
    ttl_seconds: Option<u64>,
    now: i64,
    id: String,
) -> (r: Option<MailboxRow>)
    ensures
        r is Some == expiry_fits(ttl_seconds, now),
        r matches Some(row) ==> is_new(
            row@,
            project_id@,
            name@,
            port,
            kind,
            ttl_seconds,
            now,
            id@,
        ),
{
    let expires_at: Option<i64> = match ttl_seconds {
        Some(t) => match columns::wrap(t).checked_mul(1000) {
            Some(ms) => match now.checked_add(ms) {
                Some(at) => Some(at),
                None => {
                    return None;
                },
            },
            None => {
                return None;
            },
        },
        None => None,
    };
    Some(
        MailboxRow {
            id,
            project_id: project_id.to_owned(),
            name: name.to_owned(),
            port,
            kind,
            ttl_seconds,
            expires_at,
            failed: false,
            fail_reason: None,
            created_at: now,
        },
    )
}

/// A message of the store, in small letters, speaks of the port column.
pub open spec fn blames_port(lower_message: Seq<char>) -> bool {
    search::contains_seq(lower_message, "mailboxes.port"@)
}

/// What it means that two rows would be the same.
pub open spec fn means_collision(
    e: Error,
    lower_message: Seq<char>,
    name: Seq<char>,
    port: u16,
) -> bool {
    if blames_port(lower_message) {
        e == Error::PortInUse(port)
    } else {
        e matches Error::DuplicateMailbox(n) && n@ == name
    }
}

/// What a failed statement on a mailbox means: of two rows that would be the same,
/// the message tells whether in their ports; else it is in their names.
pub open spec fn means(e: Error, failure: StoreFailure, name: Seq<char>, port: u16) -> bool {
    match failure {
        StoreFailure::Unique(m) => means_collision(e, unicode::lowercase(m@), name, port),
        StoreFailure::Other(m) => e matches Error::Db(t) && t@ == m@,
    }
}

/// The error that two rows that would be the same are reported as, by the message of
/// the store in small letters.
pub fn collision(lower_message: &str, name: &str, port: u16) -> (r: Error)
    ensures
        means_collision(r, lower_message@, name@, port),
{
    if search::text_contains(lower_message, "mailboxes.port") {
        Error::PortInUse(port)
    } else {
        Error::DuplicateMailbox(name.to_owned())
    }
}

/// The error that a failed statement on a mailbox is reported as.
pub fn store_error(failure: StoreFailure, name: &str, port: u16) -> (r: Error)
    ensures
        means(r, failure, name@, port),
{
    match failure {
        StoreFailure::Unique(m) => collision(m.as_str().to_lowercase().as_str(), name, port),
        StoreFailure::Other(m) => Error::Db(m),
    }
}

/// What comes of writing a new mailbox.
pub fn inserted(row: MailboxRow, written: Result<(), StoreFailure>) -> (r: Result<
    MailboxRow,
    Error,
>)
    ensures
        match written {
            Ok(_) => r == Ok::<MailboxRow, Error>(row),
            Err(f) => r matches Err(e) && means(e, f, row.name@, row.port),
        },
{
    match written {
        Ok(_) => Ok(row),
        Err(f) => Err(store_error(f, row.name.as_str(), row.port)),
    }
}

/// The columns of a mailbox that a change writes.
#[derive(Debug)]
pub struct MailboxChange {
    pub name: String,
    pub port: u16,
    pub ttl_seconds: Option<u64>,
    /// The lifetime as the column holds it.
    pub ttl_column: Option<i64>,
}

/// A mailbox after a patch.
pub open spec fn patched(m: MailboxModel, patch: UpdateMailboxInput) -> MailboxModel {
    MailboxModel {
        name: match patch.name {
            Some(n) => n@,
            None => m.name,
        },
        port: match patch.port {
            Some(p) => p,
            None => m.port,
        },
        ttl_seconds: match patch.ttl_seconds {
            Some(t) => t,
            None => m.ttl_seconds,
        },
        ..m
    }
}

/// The columns that a patch of a mailbox writes.
pub fn update(current: &MailboxRow, patch: &UpdateMailboxInput) -> (r: MailboxChange)
    ensures
        r.name@ == patched(current@, *patch).name,
        r.port == patched(current@, *patch).port,
        r.ttl_seconds == patched(current@, *patch).ttl_seconds,
        match r.ttl_seconds {
            Some(t) => r.ttl_column matches Some(c) && c == columns::wrapped(t),
            None => r.ttl_column is None,
        },
{
    let ttl_seconds: Option<u64> = match patch.ttl_seconds {
        Some(t) => t,
        None => current.ttl_seconds,
    };
    MailboxChange {
        name: match &patch.name {
            Some(n) => n.clone(),
            None => current.name.clone(),
        },
        port: match patch.port {
            Some(p) => p,
            None => current.port,
        },
        ttl_seconds,
        ttl_column: match ttl_seconds {
            Some(t) => Some(columns::wrap(t)),
            None => None,
        },
    }
}

/// A mailbox that has to be there.
pub fn get(id: &str, row: Option<MailboxRow>) -> (r: Result<MailboxRow, Error>)
    ensures
        match row {
            Some(m) => r == Ok::<MailboxRow, Error>(m),
            None => r matches Err(Error::MailboxNotFound(i)) && i@ == id@,
        },
{
    match row {
        Some(m) => Ok(m),
        None => Err(Error::MailboxNotFound(id.to_owned())),
    }
}

/// What deleting a mailbox comes to: there has to have been a row.
pub fn delete(id: &str, rows_affected: u64) -> (r: Result<(), Error>)
    ensures
        r is Ok == (rows_affected != 0),
        r matches Err(e) ==> (e matches Error::MailboxNotFound(i) && i@ == id@),
{
    if rows_affected == 0 {
        return Err(Error::MailboxNotFound(id.to_owned()));
    }
    Ok(())
}

/// The columns of a mailbox.
#[derive(Debug)]
pub struct MailboxColumns {
    pub id: Option<String>,
    pub project_id: Option<String>,
    pub name: Option<String>,
    pub port: Option<i64>,
    pub kind: Option<String>,
    pub ttl_seconds: Option<i64>,
    pub expires_at: Option<i64>,
    pub failed: Option<i64>,
    pub fail_reason: Option<String>,
    pub created_at: Option<i64>,
}

/// The kind that a column names; anything unknown is a primary mailbox.
pub open spec fn kind_or_primary(c: Option<Seq<char>>) -> MailboxKind {
    match c {
        Some(s) => match kinds::kind_named(s) {
            Some(k) => k,
            None => MailboxKind::Primary,
        },
        None => MailboxKind::Primary,
    }
}

/// `m` is what the columns of a mailbox say.
pub open spec fn is_read(m: MailboxModel, row: MailboxColumns) -> bool {
    &&& m.id == chars::or_empty(chars::opt_view(row.id))
    &&& m.project_id == chars::or_empty(chars::opt_view(row.project_id))
    &&& m.name == chars::or_empty(chars::opt_view(row.name))
    &&& m.port == columns::low_bits(columns::number_or(row.port, 0))
    &&& m.kind == kind_or_primary(chars::opt_view(row.kind))
    &&& match row.ttl_seconds {
        Some(t) => m.ttl_seconds matches Some(u) && u == columns::unwrapped(t),
        None => m.ttl_seconds is None,
    }
    &&& m.expires_at == row.expires_at
    &&& m.failed == (columns::number_or(row.failed, 0) != 0)
    &&& m.fail_reason == chars::opt_view(row.fail_reason)
    &&& m.created_at == columns::number_or(row.created_at, 0)
}

/// A mailbox out of its columns.
pub fn row_to_mailbox_row(row: MailboxColumns) -> (r: MailboxRow)
    ensures
        is_read(r@, row),
{
    let kind: MailboxKind = match row.kind {
        Some(s) => match MailboxKind::from_str(s.as_str()) {
            Some(k) => k,
            None => MailboxKind::Primary,
        },
        None => MailboxKind::Primary,
    };
    MailboxRow {
        id: columns::text(row.id),
        project_id: columns::text(row.project_id),
        name: columns::text(row.name),
        port: columns::port_number(columns::number(row.port, 0)),
        kind,
        ttl_seconds: match row.ttl_seconds {
            Some(t) => Some(columns::unwrap_number(t)),
            None => None,
        },
        expires_at: row.expires_at,
        failed: columns::flag(row.failed, 0),
        fail_reason: row.fail_reason,
        created_at: columns::number(row.created_at, 0),
    }
}

/// The columns hold the mailbox `m`.
pub open spec fn holds(row: MailboxColumns, m: MailboxModel) -> bool {
    &&& chars::opt_view(row.id) == Some(m.id)
    &&& chars::opt_view(row.project_id) == Some(m.project_id)
    &&& chars::opt_view(row.name) == Some(m.name)
    &&& row.port == Some(m.port as i64)
    &&& chars::opt_view(row.kind) == Some(kinds::name_of(m.kind))
    &&& match m.ttl_seconds {
        Some(t) => row.ttl_seconds matches Some(c) && c == columns::wrapped(t),
        None => row.ttl_seconds is None,
    }
    &&& row.expires_at == m.expires_at
    &&& row.failed == Some(columns::flag_number(m.failed))
    &&& chars::opt_view(row.fail_reason) == m.fail_reason
    &&& row.created_at == Some(m.created_at)
}

/// A mailbox is read as it was written.
pub proof fn law_mailbox_survives(row: MailboxColumns, m: MailboxModel, r: MailboxModel)
    requires
        holds(row, m),
        is_read(r, row),
    ensures
        r == m,
{
    kinds::law_kind_names_round_trip(m.kind, kinds::name_of(m.kind));
    assert(r =~= m);
}

/// A patch without parts changes nothing, and a second patch with the same parts
/// changes nothing more.
pub proof fn law_patching_twice(m: MailboxModel, patch: UpdateMailboxInput)
    ensures
        patched(patched(m, patch), patch) == patched(m, patch),
        patch.name is None && patch.port is None && patch.ttl_seconds is None ==> patched(m, patch)
            == m,
{
}

/// The mailboxes of a project, or all of them.
pub open spec fn of_project(shown: Seq<Mailbox>, project_id: Option<Seq<char>>) -> Seq<Mailbox> {
    shown.filter(|m: Mailbox| project_id matches Some(p) ==> m.project_id@ == p)
}

/// The ranks of mailboxes: the oldest comes first.
pub open spec fn age_ranks(shown: Seq<Mailbox>) -> Seq<Rank> {
    shown.map_values(|m: Mailbox| Rank { group: 0u8, place: m.created_at })
}

/// The characters of a text that may be absent.
pub open spec fn opt_str(s: Option<&str>) -> Option<Seq<char>> {
    match s {
        Some(t) => Some(t@),
        None => None,
    }
}

/// Lists the mailboxes of a project, or all of them, the oldest first.
pub fn list(shown: Vec<Mailbox>, project_id: Option<&str>) -> (r: Vec<Mailbox>)
    ensures
        ({
            let own = of_project(shown@, opt_str(project_id));
            listing::is_part(r@, own, age_ranks(own), 0, own.len() as int)
        }),
{
    let ghost wanted = opt_str(project_id);
    let mut own: Vec<bool> = Vec::new();
    let mut i: usize = 0;
    while i < shown.len()
        invariant
            i <= shown@.len(),
            own@.len() == i,
            wanted == opt_str(project_id),
            forall|k: int|
                0 <= k < i ==> #[trigger] own@[k] == (wanted matches Some(p)
                    ==> shown@[k].project_id@ == p),
        decreases shown@.len() - i,
    {
        let of_it: bool = match project_id {
            Some(p) => chars::str_eq(shown[i].project_id.as_str(), p),
            None => true,
        };
        own.push(of_it);
        i = i + 1;
    }
    proof {
        listing::lemma_selected_by(
            shown@,
            own@,
            |m: Mailbox| wanted matches Some(p) ==> m.project_id@ == p,
        );
    }
    let found: Vec<Mailbox> = listing::select(shown, &own);
    let mut ranks: Vec<Rank> = Vec::new();
    let mut k: usize = 0;
    while k < found.len()
        invariant
            k <= found@.len(),
            ranks@.len() == k,
            forall|l: int| 0 <= l < k ==> #[trigger] ranks@[l] == age_ranks(found@)[l],
        decreases found@.len() - k,
    {
        ranks.push(Rank { group: 0, place: found[k].created_at });
        k = k + 1;
    }
    assert(ranks@ =~= age_ranks(found@));
    let n: usize = found.len();
    listing::part(found, &ranks, 0, n)
}

/// Of the listed mailboxes, an older one never stands behind a younger one, and all
/// are of the project that was asked for.
pub proof fn law_oldest_mailboxes_come_first(
    r: Seq<Mailbox>,
    shown: Seq<Mailbox>,
    project_id: Option<Seq<char>>,
    k: int,
    l: int,
)
    requires
        ({
            let own = of_project(shown, project_id);
            listing::is_part(r, own, age_ranks(own), 0, own.len() as int)
        }),
        0 <= k < l < r.len(),
    ensures
        r.len() == of_project(shown, project_id).len(),
        r[k].created_at <= r[l].created_at,
        project_id matches Some(p) ==> r[k].project_id@ == p && r[l].project_id@ == p,
{
    let own = of_project(shown, project_id);
    let n = own.len() as int;
    let i = listing::lemma_place_in_part(r, own, age_ranks(own), 0, n, k);
    let at = listing::lemma_places_in_part(r, own, age_ranks(own), 0, n, k, l);
    let p = |m: Mailbox| project_id matches Some(p) ==> m.project_id@ == p;
    listing::lemma_filtered(shown, p, at.0);
    listing::lemma_filtered(shown, p, at.1);
}

/// The ports that the mailboxes claim, in the order of the rows; a row without a
/// port claims none.
pub open spec fn claimed(rows: Seq<Option<i64>>) -> Seq<int>
    decreases rows.len(),
{
    if rows.len() == 0 {
        Seq::empty()
    } else {
        match rows.last() {
            Some(n) => claimed(rows.drop_last()).push(columns::low_bits(n)),
            None => claimed(rows.drop_last()),
        }
    }
}

/// The ports that the mailboxes claim.
pub fn list_all_ports(rows: &Vec<Option<i64>>) -> (r: Vec<u16>)
    ensures
        r@.map_values(|p: u16| p as int) == claimed(rows@),
{
    let mut out: Vec<u16> = Vec::new();
    let mut i: usize = 0;
    assert(out@.map_values(|p: u16| p as int) =~= claimed(rows@.take(0)));
    while i < rows.len()
        invariant
            i <= rows@.len(),
            out@.map_values(|p: u16| p as int) == claimed(rows@.take(i as int)),
        decreases rows@.len() - i,
    {
        assert(rows@.take(i + 1).drop_last() =~= rows@.take(i as int));
        if let Some(n) = rows[i] {
            let ghost before = out@;
            let p: u16 = columns::port_number(n);
            out.push(p);
            assert(out@.map_values(|p: u16| p as int) =~= before.map_values(
                |p: u16| p as int,
            ).push(p as int));
        }
        i = i + 1;
    }
    assert(rows@.take(i as int) =~= rows@);
    out
}

/// The mailbox is ephemeral and its time is over at `now`. One without a time has none
/// left.
pub open spec fn is_expired(m: MailboxModel, now: i64) -> bool {
    m.kind == MailboxKind::Ephemeral && match m.expires_at {
        Some(at) => at < now,
        None => true,
    }
}

/// The identifiers of the mailboxes that are expired at `now`.
pub open spec fn expired_ids(rows: Seq<MailboxModel>, now: i64) -> Seq<Seq<char>> {
    rows.filter(|m: MailboxModel| is_expired(m, now)).map_values(|m: MailboxModel| m.id)
}

/// The mailboxes as mathematical values.
pub open spec fn models(rows: Seq<MailboxRow>) -> Seq<MailboxModel> {
    rows.map_values(|m: MailboxRow| m@)
}

/// The mailboxes that are dropped when the engine starts at `now`: the ephemeral ones
/// whose time is over.
pub fn sweep_expired_ephemerals(rows: &Vec<MailboxRow>, now: i64) -> (r: Vec<String>)
    ensures
        chars::seq_views(r@) == expired_ids(models(rows@), now),
{
    let mut ids: Vec<String> = Vec::new();
    let mut i: usize = 0;
    let ghost all = models(rows@);
    proof {
        reveal(Seq::filter);
        assert(chars::seq_views(ids@) =~= expired_ids(all.take(0), now));
    }
    while i < rows.len()
        invariant
            i <= rows@.len(),
            all == models(rows@),
            chars::seq_views(ids@) == expired_ids(all.take(i as int), now),
        decreases rows@.len() - i,
    {
        let over: bool = match rows[i].kind {
            MailboxKind::Ephemeral => match rows[i].expires_at {
                Some(at) => at < now,
                None => true,
            },
            _ => false,
        };
        let ghost found = ids@;
        if over {
            ids.push(rows[i].id.clone());
        }
        proof {
            reveal(Seq::filter);
            let p = |m: MailboxModel| is_expired(m, now);
            assert(all.take(i + 1).drop_last() =~= all.take(i as int));
            assert(all.take(i + 1).last() == rows@[i as int]@);
            if over {
                assert(chars::seq_views(ids@) =~= chars::seq_views(found).push(rows@[i as int].id@));
                assert(expired_ids(all.take(i + 1), now) =~= expired_ids(
                    all.take(i as int),
                    now,
                ).push(rows@[i as int].id@));
            }
        }
        i = i + 1;
    }
    assert(all.take(i as int) =~= all);
    ids
}

/// The mailbox expires at a known time.
pub open spec fn is_expiring(m: MailboxModel) -> bool {
    m.kind == MailboxKind::Ephemeral && m.expires_at is Some
}

/// The mailboxes that expire, with the times when they do.
pub open spec fn expiring(rows: Seq<MailboxModel>) -> Seq<(Seq<char>, i64)> {
    rows.filter(|m: MailboxModel| is_expiring(m)).map_values(
        |m: MailboxModel| (m.id, m.expires_at->0),
    )
}

/// The mailboxes that expire, with the times when they do.
pub fn list_expiring(rows: &Vec<MailboxRow>) -> (r: Vec<(String, i64)>)
    ensures
        r@.map_values(|e: (String, i64)| (e.0@, e.1)) == expiring(models(rows@)),
{
    let mut out: Vec<(String, i64)> = Vec::new();
    let mut i: usize = 0;
    let ghost all = models(rows@);
    proof {
        reveal(Seq::filter);
        assert(out@.map_values(|e: (String, i64)| (e.0@, e.1)) =~= expiring(all.take(0)));
    }
    while i < rows.len()
        invariant
            i <= rows@.len(),
            all == models(rows@),
            out@.map_values(|e: (String, i64)| (e.0@, e.1)) == expiring(all.take(i as int)),
        decreases rows@.len() - i,
    {
        let ghost found = out@;
        let at: Option<i64> = match rows[i].kind {
            MailboxKind::Ephemeral => rows[i].expires_at,
            _ => None,
        };
        if let Some(t) = at {
            out.push((rows[i].id.clone(), t));
        }
        proof {
            reveal(Seq::filter);
            assert(all.take(i + 1).drop_last() =~= all.take(i as int));
            assert(all.take(i + 1).last() == rows@[i as int]@);
            if at is Some {
                let e = (rows@[i as int].id@, at->0);
                assert(out@.map_values(|e: (String, i64)| (e.0@, e.1)) =~= found.map_values(
                    |e: (String, i64)| (e.0@, e.1),
                ).push(e));
                assert(expiring(all.take(i + 1)) =~= expiring(all.take(i as int)).push(e));
            }
        }
        i = i + 1;
    }
    assert(all.take(i as int) =~= all);
    out
}

/// The sweep at the start drops no primary and no shared mailbox, and every ephemeral
/// mailbox that it leaves has a time that is still to come or just there.
pub proof fn law_sweep_leaves_the_living(rows: Seq<MailboxModel>, now: i64, m: MailboxModel)
    requires
        rows.contains(m),
    ensures
        !rows.filter(|x: MailboxModel| is_expired(x, now)).contains(m) <==> (m.kind
            != MailboxKind::Ephemeral || (m.expires_at matches Some(at) && at >= now)),
{
    let p = |x: MailboxModel| is_expired(x, now);
    rows.filter_lemma(p);
    let i = rows.index_of(m);
    if p(rows[i]) {
        assert(rows.filter(p).contains(rows[i]));
    }
}

/// A mailbox that lives for a number of seconds expires so many thousand milliseconds
/// after it was made; one without a lifetime does not expire. All else is as asked, and
/// it has not failed.
pub proof fn law_new_mailbox(
    r: MailboxModel,
    project_id: Seq<char>,
    name: Seq<char>,
    port: u16,
    kind: MailboxKind,
    ttl_seconds: Option<u64>,
    now: i64,
    id: Seq<char>,
)
    requires
        is_new(r, project_id, name, port, kind, ttl_seconds, now, id),
    ensures
        r.id == id && r.project_id == project_id && r.name == name && r.port == port,
        r.kind == kind && r.ttl_seconds == ttl_seconds && r.created_at == now,
        !r.failed && r.fail_reason is None,
        ttl_seconds is None ==> r.expires_at is None,
        ttl_seconds matches Some(t) ==> (t <= i64::MAX ==> r.expires_at is Some && r.expires_at->0
            == now + t * 1000),
{
}

/// A lifetime is refused only where its end cannot be stored: any up to a million years
/// is taken as long as the present is a time of the calendar.
pub proof fn law_usual_lifetimes_fit(ttl_seconds: u64, now: i64)
    requires
        0 <= now <= clock::LAST_MILLI,
        ttl_seconds <= 31_536_000_000_000,
    ensures
        expiry_fits(Some(ttl_seconds), now),
        expiry_fits(None, now),
{
}

/// A patch replaces what it names and nothing else; a lifetime can be taken away.
pub proof fn law_patch(m: MailboxModel, patch: UpdateMailboxInput)
    ensures
        patch.name matches Some(n) ==> patched(m, patch).name == n@,
        patch.name is None ==> patched(m, patch).name == m.name,
        patch.port matches Some(p) ==> patched(m, patch).port == p,
        patch.port is None ==> patched(m, patch).port == m.port,
        patch.ttl_seconds matches Some(t) ==> patched(m, patch).ttl_seconds == t,
        patch.ttl_seconds is None ==> patched(m, patch).ttl_seconds == m.ttl_seconds,
        patched(m, patch).id == m.id && patched(m, patch).project_id == m.project_id,
        patched(m, patch).kind == m.kind && patched(m, patch).expires_at == m.expires_at,
        patched(m, patch).failed == m.failed && patched(m, patch).fail_reason == m.fail_reason,
        patched(m, patch).created_at == m.created_at,
{
}

/// Of two rows that would be the same, a message that speaks of the port column, in any
/// case of letters, means the port, and any other the name. Other failures keep their
/// message.
pub proof fn law_collisions(e: Error, m: String, name: Seq<char>, port: u16)
    ensures
        means(e, StoreFailure::Unique(m), name, port) && search::contains_seq(
            unicode::lowercase(m@),
            "mailboxes.port"@,
        ) ==> e == Error::PortInUse(port),
        means(e, StoreFailure::Unique(m), name, port) && !search::contains_seq(
            unicode::lowercase(m@),
            "mailboxes.port"@,
        ) ==> e is DuplicateMailbox && e->DuplicateMailbox_0@ == name,
        means(e, StoreFailure::Other(m), name, port) ==> e is Db && e->Db_0@ == m@,
{
}

/// What is read of a mailbox: each column as it is, a port out of the lowest sixteen
/// bits, and a primary mailbox where the kind is unknown.
pub proof fn law_row_is_read(m: MailboxModel, row: MailboxColumns)
    requires
        is_read(m, row),
    ensures
        row.id matches Some(t) ==> m.id == t@,
        row.project_id matches Some(t) ==> m.project_id == t@,
        row.name matches Some(t) ==> m.name == t@,
        row.port matches Some(n) ==> (0 <= n <= 65535 ==> m.port == n),
        row.kind matches Some(t) ==> (t@ == "ephemeral"@ ==> m.kind == MailboxKind::Ephemeral),
        row.kind matches Some(t) ==> (t@ == "shared"@ ==> m.kind == MailboxKind::Shared),
        row.kind matches Some(t) ==> (t@ != "ephemeral"@ && t@ != "shared"@ ==> m.kind
            == MailboxKind::Primary),
        row.kind is None ==> m.kind == MailboxKind::Primary,
        row.ttl_seconds matches Some(n) ==> (n >= 0 ==> m.ttl_seconds == Some(n as u64)),
        row.ttl_seconds is None ==> m.ttl_seconds is None,
        m.expires_at == row.expires_at,
        m.failed == (row.failed is Some && row.failed != Some(0i64)),
        m.fail_reason == chars::opt_view(row.fail_reason),
        row.created_at matches Some(n) ==> m.created_at == n,
{
    reveal_strlit("ephemeral");
    reveal_strlit("shared");
    reveal_strlit("primary");
    assert("ephemeral"@.len() == 9 && "shared"@.len() == 6 && "primary"@.len() == 7);
}

/// The mailboxes that are listed are those of the project, or all, in their order.
pub proof fn law_project(shown: Seq<Mailbox>, p: Seq<char>)
    ensures
        of_project(shown, Some(p)) == shown.filter(|m: Mailbox| m.project_id@ == p),
        of_project(shown, None) == shown,
    decreases shown.len(),
{
    reveal(Seq::filter);
    let own = |m: Mailbox| m.project_id@ == p;
    if shown.len() > 0 {
        let front = shown.drop_last();
        law_project(front, p);
        assert(front.push(shown.last()) =~= shown);
        assert(front.filter(own) == of_project(front, Some(p)));
    } else {
        assert(of_project(shown, None) =~= shown);
    }
    assert(of_project(shown, Some(p)) =~= shown.filter(own));
}

/// The ports that are claimed are those of the rows that have one, in their order.
pub proof fn law_claimed_ports(rows: Seq<Option<i64>>)
    requires
        forall|i: int| 0 <= i < rows.len() ==> (#[trigger] rows[i] matches Some(n) ==> 0 <= n
            <= 65535),
    ensures
        claimed(rows) == rows.filter(|r: Option<i64>| r is Some).map_values(
            |r: Option<i64>| r->0 as int,
        ),
    decreases rows.len(),
{
    reveal(Seq::filter);
    let there = |r: Option<i64>| r is Some;
    let value = |r: Option<i64>| r->0 as int;
    if rows.len() > 0 {
        let front = rows.drop_last();
        assert forall|i: int| 0 <= i < front.len() implies (#[trigger] front[i] matches Some(n) ==> 0
            <= n <= 65535) by {
            assert(rows[i] == front[i]);
        }
        law_claimed_ports(front);
        let last = rows[rows.len() - 1];
        if let Some(n) = last {
            assert(0 <= n <= 65535);
            assert(front.filter(there).push(last).map_values(value) =~= front.filter(
                there,
            ).map_values(value).push(n as int));
        }
    }
    assert(claimed(rows) =~= rows.filter(there).map_values(value));
}

/// What expires are the ephemeral mailboxes with a time, each with its time, and what is
/// swept at the start are the ephemeral ones without a time or with one that is past.
pub proof fn law_expiring_and_expired(rows: Seq<MailboxModel>, now: i64)
    ensures
        expiring(rows) == rows.filter(
            |m: MailboxModel| m.kind == MailboxKind::Ephemeral && m.expires_at is Some,
        ).map_values(|m: MailboxModel| (m.id, m.expires_at->0)),
        expired_ids(rows, now) == rows.filter(
            |m: MailboxModel|
                m.kind == MailboxKind::Ephemeral && (m.expires_at is None || m.expires_at->0 < now),
        ).map_values(|m: MailboxModel| m.id),
{
    let a = |m: MailboxModel| m.kind == MailboxKind::Ephemeral && m.expires_at is Some;
    let b = |m: MailboxModel|
        m.kind == MailboxKind::Ephemeral && (m.expires_at is None || m.expires_at->0 < now);
    lemma_same_filter(rows, |m: MailboxModel| is_expiring(m), a);
    lemma_same_filter(rows, |m: MailboxModel| is_expired(m, now), b);
    assert(expiring(rows) =~= rows.filter(a).map_values(|m: MailboxModel| (m.id, m.expires_at->0)));
    assert(expired_ids(rows, now) =~= rows.filter(b).map_values(|m: MailboxModel| m.id));
}

proof fn lemma_same_filter(
    rows: Seq<MailboxModel>,
    p: spec_fn(MailboxModel) -> bool,
    q: spec_fn(MailboxModel) -> bool,
)
    requires
        forall|m: MailboxModel| #[trigger] p(m) == q(m),
    ensures
        rows.filter(p) == rows.filter(q),
    decreases rows.len(),
{
    reveal(Seq::filter);
    if rows.len() > 0 {
        lemma_same_filter(rows.drop_last(), p, q);
        assert(p(rows.last()) == q(rows.last()));
    }
}

/// The values of a mailbox are those of its fields, with or without the number of its
/// emails.
pub proof fn law_values_of_a_mailbox(r: MailboxRow, m: Mailbox)
    ensures
        r@.id == r.id@ && r@.project_id == r.project_id@ && r@.name == r.name@,
        r@.port == r.port && r@.kind == r.kind && r@.ttl_seconds == r.ttl_seconds,
        r@.expires_at == r.expires_at && r@.failed == r.failed && r@.created_at == r.created_at,
        r@.fail_reason == chars::opt_view(r.fail_reason),
        m.stored().id == m.id@ && m.stored().project_id == m.project_id@,
        m.stored().name == m.name@ && m.stored().port == m.port && m.stored().kind == m.kind,
        m.stored().ttl_seconds == m.ttl_seconds && m.stored().expires_at == m.expires_at,
        m.stored().failed == m.failed && m.stored().created_at == m.created_at,
        m.stored().fail_reason == chars::opt_view(m.fail_reason),
{
}

} // verus!
