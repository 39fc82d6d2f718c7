//! The audit log, to which entries are only ever appended.

use vstd::prelude::*;
use vstd::string::*;

use crate::clock;
use crate::db::columns;
use crate::db::listing;
use crate::db::listing::Rank;
use crate::json;
use crate::json::Json;
use crate::text::chars;

verus! {

/// An entry of the log.
#[derive(Debug, Clone)]
pub struct AuditEntry {
    pub id: i64,
    pub at: i64,
    pub actor: String,
    pub action: String,
    pub target_kind: Option<String>,
    pub target_id: Option<String>,
    pub metadata: Option<Json>,
}

/// An entry that is about to be appended.
#[derive(Debug, Clone)]
pub struct AuditAppend {
    pub actor: String,
    pub action: String,
    pub target_kind: Option<String>,
    pub target_id: Option<String>,
    pub metadata: Option<Json>,
}

/// An entry as a mathematical value.
#[verifier::ext_equal]
pub struct AuditModel {
    pub actor: Seq<char>,
    pub action: Seq<char>,
    pub target_kind: Option<Seq<char>>,
    pub target_id: Option<Seq<char>>,
    pub metadata: Option<json::JsonModel>,
}

/// The mathematical value of JSON that may be absent.
pub open spec fn opt_json(j: Option<Json>) -> Option<json::JsonModel> {
    match j {
        Some(v) => Some(v@),
        None => None,
    }
}

impl View for AuditAppend {
    type V = AuditModel;

    open spec fn view(&self) -> AuditModel {
        AuditModel {
            actor: self.actor@,
            action: self.action@,
            target_kind: chars::opt_view(self.target_kind),
            target_id: chars::opt_view(self.target_id),
            metadata: opt_json(self.metadata),
        }
    }
}

impl View for AuditEntry {
    type V = AuditModel;

    open spec fn view(&self) -> AuditModel {
        AuditModel {
            actor: self.actor@,
            action: self.action@,
            target_kind: chars::opt_view(self.target_kind),
            target_id: chars::opt_view(self.target_id),
            metadata: opt_json(self.metadata),
        }
    }
}

/// The time that is written with an entry.
pub fn append_time() -> (r: i64)
    ensures
        0 <= r <= clock::LAST_MILLI,
{
    clock::now_millis()
}

/// An entry that was appended at `at` as the row `id`.
pub fn append(entry: AuditAppend, id: i64, at: i64) -> (r: AuditEntry)
    ensures
        r.id == id,
        r.at == at,
        r@ == entry@,
{
    AuditEntry {
        id,
        at,
        actor: entry.actor,
        action: entry.action,
        target_kind: entry.target_kind,
        target_id: entry.target_id,
        metadata: entry.metadata,
    }
}

/// The time before which entries are pruned when the last `days` days are kept.
pub fn prune_older_than(days: u32) -> (r: i64)
    ensures
        -(days * 86_400_000) <= r <= clock::LAST_MILLI - days * 86_400_000,
{
    clock::days_before(clock::now_millis(), days)
}

/// The ranks of entries: the newest comes first.
pub open spec fn recent_ranks(entries: Seq<AuditEntry>) -> Seq<Rank> {
    entries.map_values(
        |e: AuditEntry| Rank { group: 0u8, place: listing::latest_first(e.at) },
    )
}

/// A page of the log, the newest entry first.
pub fn list(entries: Vec<AuditEntry>, limit: u32, offset: u32) -> (r: Vec<AuditEntry>)
    ensures
        listing::is_page(r@, entries@, recent_ranks(entries@), limit, offset),
{
    let mut ranks: Vec<Rank> = Vec::new();
    let mut i: usize = 0;
    while i < entries.len()
        invariant
            i <= entries@.len(),
            ranks@.len() == i,
            forall|k: int| 0 <= k < i ==> #[trigger] ranks@[k] == recent_ranks(entries@)[k],
        decreases entries@.len() - i,
    {
        ranks.push(Rank { group: 0, place: listing::place_latest_first(entries[i].at) });
        i = i + 1;
    }
    assert(ranks@ =~= recent_ranks(entries@));
    listing::page(entries, &ranks, limit, offset)
}

/// In the log, a newer entry never stands behind an older one.
pub proof fn law_newest_entries_come_first(
    r: Seq<AuditEntry>,
    entries: Seq<AuditEntry>,
    limit: u32,
    offset: u32,
    k: int,
    l: int,
)
    requires
        listing::is_page(r, entries, recent_ranks(entries), limit, offset),
        0 <= k < l < r.len(),
    ensures
        r.len() <= limit,
        r[k].at >= r[l].at,
{
    let ranks = recent_ranks(entries);
    let lo = listing::page_start(offset, entries.len());
    let hi = listing::page_end(limit, offset, entries.len());
    let i = listing::lemma_place_in_part(r, entries, ranks, lo, hi, k);
    let at = listing::lemma_places_in_part(r, entries, ranks, lo, hi, k, l);
    assert(ranks[at.0].place == -1 - r[k].at);
    assert(ranks[at.1].place == -1 - r[l].at);
}

/// The columns of an entry. The metadata is nothing where its column holds no JSON.
#[derive(Debug)]
pub struct AuditRow {
    pub id: Option<i64>,
    pub at: Option<i64>,
    pub actor: Option<String>,
    pub action: Option<String>,
    pub target_kind: Option<String>,
    pub target_id: Option<String>,
    pub metadata: Option<Json>,
}

/// An entry out of its columns.
pub fn row_to_entry(row: AuditRow) -> (r: AuditEntry)
    ensures
        r.id == columns::number_or(row.id, 0),
        r.at == columns::number_or(row.at, 0),
        r@ == (AuditModel {
            actor: chars::or_empty(chars::opt_view(row.actor)),
            action: chars::or_empty(chars::opt_view(row.action)),
            target_kind: chars::opt_view(row.target_kind),
            target_id: chars::opt_view(row.target_id),
            metadata: opt_json(row.metadata),
        }),
{
    AuditEntry {
        id: columns::number(row.id, 0),
        at: columns::number(row.at, 0),
        actor: columns::text(row.actor),
        action: columns::text(row.action),
        target_kind: row.target_kind,
        target_id: row.target_id,
        metadata: row.metadata,
    }
}

/// The values of an entry are those of its fields, before and after it is appended.
pub proof fn law_values_of_an_entry(a: AuditAppend, e: AuditEntry)
    ensures
        a@.actor == a.actor@ && a@.action == a.action@,
        a@.target_kind == chars::opt_view(a.target_kind),
        a@.target_id == chars::opt_view(a.target_id) && a@.metadata == opt_json(a.metadata),
        e@.actor == e.actor@ && e@.action == e.action@,
        e@.target_kind == chars::opt_view(e.target_kind),
        e@.target_id == chars::opt_view(e.target_id) && e@.metadata == opt_json(e.metadata),
{
}

} // verus!
