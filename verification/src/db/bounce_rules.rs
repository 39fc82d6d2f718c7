//! Bounce rules: which recipients of a mailbox are refused, and with which reply.

use vstd::prelude::*;
use vstd::string::*;

use crate::clock;
use crate::db::columns;
use crate::db::listing;
use crate::db::listing::Rank;
use crate::error::Error;
use crate::events;
use crate::events::BounceKind;
use crate::ident;
use crate::text::chars;
use crate::text::number;
use crate::text::words;

verus! {

/// A bounce rule.
#[derive(Debug, Clone)]
pub struct BounceRule {
    /// Empty for a rule that was not stored yet.
    pub id: String,
    pub mailbox_id: String,
    pub address_pattern: String,
    pub bounce_kind: BounceKind,
    pub smtp_code: u16,
    pub smtp_message: String,
    pub enabled: bool,
    /// Zero for a rule that was not stored yet.
    pub created_at: i64,
}

/// A bounce rule as a mathematical value.
#[verifier::ext_equal]
pub struct RuleModel {
    pub id: Seq<char>,
    pub mailbox_id: Seq<char>,
    pub address_pattern: Seq<char>,
    pub bounce_kind: BounceKind,
    pub smtp_code: u16,
    pub smtp_message: Seq<char>,
    pub enabled: bool,
    pub created_at: i64,
}

impl View for BounceRule {
    type V = RuleModel;

    open spec fn view(&self) -> RuleModel {
        RuleModel {
            id: self.id@,
            mailbox_id: self.mailbox_id@,
            address_pattern: self.address_pattern@,
            bounce_kind: self.bounce_kind,
            smtp_code: self.smtp_code,
            smtp_message: self.smtp_message@,
            enabled: self.enabled,
            created_at: self.created_at,
        }
    }
}

/// Whether a rule is enabled where nothing is said about it.
pub fn default_enabled() -> (r: bool)
    ensures
        r,
{
    true
}

/// A reply that refuses: a code of the four or the five hundreds.
pub open spec fn refuses(code: u16) -> bool {
    400 <= code < 600
}

/// A rule with an identifier and a time of creation, where it had none.
pub open spec fn completed(rule: RuleModel, id: Seq<char>, now: i64) -> RuleModel {
    RuleModel {
        id: if rule.id.len() == 0 {
            id
        } else {
            rule.id
        },
        created_at: if rule.created_at == 0 {
            now
        } else {
            rule.created_at
        },
        ..rule
    }
}

/// What a rule is refused with.
pub open spec fn refusal(code: u16) -> Seq<char> {
    "smtp_code "@ + number::decimal(code as nat) + " must be 4xx or 5xx"@
}

/// The rule to store, with a fresh identifier and the present time where it lacks
/// them.
pub fn upsert(rule: BounceRule) -> (r: Result<BounceRule, Error>)
    ensures
        r is Ok == refuses(rule.smtp_code),
        r matches Ok(s) ==> {
            &&& s@ == completed(rule@, s.id@, s.created_at)
            &&& rule.id@.len() == 0 ==> ident::is_random_uuid(s.id@)
            &&& rule.created_at == 0 ==> 0 <= s.created_at <= clock::LAST_MILLI
        },
        r matches Err(e) ==> (e matches Error::Invalid(m) && m@ == refusal(rule.smtp_code)),
{
    upsert_as(rule, ident::fresh_id(), clock::now_millis())
}

/// The rule to store, with the given identifier and time where it lacks them.
pub fn upsert_as(rule: BounceRule, id: String, now: i64) -> (r: Result<BounceRule, Error>)
    ensures
        r is Ok == refuses(rule.smtp_code),
        r matches Ok(s) ==> s@ == completed(rule@, id@, now),
        r matches Err(e) ==> (e matches Error::Invalid(m) && m@ == refusal(rule.smtp_code)),
{
    let mut rule = rule;
    if rule.id.as_str().is_empty() {
        rule.id = id;
    }
    if rule.created_at == 0 {
        rule.created_at = now;
    }
    if rule.smtp_code < 400 || rule.smtp_code >= 600 {
        return Err(
            Error::Invalid(
                words::cat3(
                    "smtp_code ",
                    number::to_decimal(rule.smtp_code as u64).as_str(),
                    " must be 4xx or 5xx",
                ),
            ),
        );
    }
    Ok(rule)
}

/// What deleting a rule comes to: there has to have been a row.
pub fn delete(id: &str, rows_affected: u64) -> (r: Result<(), Error>)
    ensures
        r is Ok == (rows_affected != 0),
        r matches Err(e) ==> (e matches Error::BounceRuleNotFound(i) && i@ == id@),
{
    if rows_affected == 0 {
        return Err(Error::BounceRuleNotFound(id.to_owned()));
    }
    Ok(())
}

/// The columns of a rule.
#[derive(Debug)]
pub struct RuleRow {
    pub id: Option<String>,
    pub mailbox_id: Option<String>,
    pub address_pattern: Option<String>,
    pub bounce_kind: Option<String>,
    pub smtp_code: Option<i64>,
    pub smtp_message: Option<String>,
    pub enabled: Option<i64>,
    pub created_at: Option<i64>,
}

/// `m` is what the columns of a rule say.
pub open spec fn is_read(m: RuleModel, row: RuleRow) -> bool {
    &&& m.id == chars::or_empty(chars::opt_view(row.id))
    &&& m.mailbox_id == chars::or_empty(chars::opt_view(row.mailbox_id))
    &&& m.address_pattern == chars::or_empty(chars::opt_view(row.address_pattern))
    &&& m.bounce_kind == match row.bounce_kind {
        Some(s) => events::bounce_named(s@),
        None => BounceKind::Hard,
    }
    &&& m.smtp_code == columns::low_bits(columns::number_or(row.smtp_code, 550))
    &&& m.smtp_message == chars::or_empty(chars::opt_view(row.smtp_message))
    &&& m.enabled == (columns::number_or(row.enabled, 1) != 0)
    &&& m.created_at == columns::number_or(row.created_at, 0)
}

/// A rule out of its columns.
pub fn row_to_rule(row: RuleRow) -> (r: BounceRule)
    ensures
        is_read(r@, row),
{
    let bounce_kind: BounceKind = match row.bounce_kind {
        Some(s) => BounceKind::from_str(s.as_str()),
        None => BounceKind::Hard,
    };
    BounceRule {
        id: columns::text(row.id),
        mailbox_id: columns::text(row.mailbox_id),
        address_pattern: columns::text(row.address_pattern),
        bounce_kind,
        smtp_code: columns::port_number(columns::number(row.smtp_code, 550)),
        smtp_message: columns::text(row.smtp_message),
        enabled: columns::flag(row.enabled, 1),
        created_at: columns::number(row.created_at, 0),
    }
}

/// The ranks of rules: the oldest comes first.
pub open spec fn age_ranks(rules: Seq<BounceRule>) -> Seq<Rank> {
    rules.map_values(|b: BounceRule| Rank { group: 0u8, place: b.created_at })
}

/// Lists rules, the oldest first.
pub fn list(rules: Vec<BounceRule>) -> (r: Vec<BounceRule>)
    ensures
        listing::is_part(r@, rules@, age_ranks(rules@), 0, rules@.len() as int),
{
    let mut ranks: Vec<Rank> = Vec::new();
    let mut i: usize = 0;
    while i < rules.len()
        invariant
            i <= rules@.len(),
            ranks@.len() == i,
            forall|k: int| 0 <= k < i ==> #[trigger] ranks@[k] == age_ranks(rules@)[k],
        decreases rules@.len() - i,
    {
        ranks.push(Rank { group: 0, place: rules[i].created_at });
        i = i + 1;
    }
    assert(ranks@ =~= age_ranks(rules@));
    let n: usize = rules.len();
    listing::part(rules, &ranks, 0, n)
}

/// The rows of the rules that are enabled.
pub open spec fn enabled(rows: Seq<RuleRow>) -> Seq<RuleRow> {
    rows.filter(|b: RuleRow| b.enabled == Some(1i64))
}

/// `rules` is what `rows` say, row by row.
pub open spec fn all_read(rules: Seq<BounceRule>, rows: Seq<RuleRow>) -> bool {
    &&& rules.len() == rows.len()
    &&& forall|i: int| 0 <= i < rows.len() ==> is_read((#[trigger] rules[i])@, rows[i])
}

/// The rules that are enabled, out of their columns and in their order.
pub fn list_enabled(rows: Vec<RuleRow>) -> (r: Vec<BounceRule>)
    ensures
        all_read(r@, enabled(rows@)),
{
    let mut on: Vec<bool> = Vec::new();
    let mut i: usize = 0;
    while i < rows.len()
        invariant
            i <= rows@.len(),
            on@.len() == i,
            forall|k: int| 0 <= k < i ==> #[trigger] on@[k] == (rows@[k].enabled == Some(1i64)),
        decreases rows@.len() - i,
    {
        let is_on: bool = match rows[i].enabled {
            Some(n) => n == 1,
            None => false,
        };
        on.push(is_on);
        i = i + 1;
    }
    proof {
        listing::lemma_selected_by(rows@, on@, |b: RuleRow| b.enabled == Some(1i64));
    }
    let mut rest: Vec<RuleRow> = listing::select(rows, &on);
    let ghost all = rest@;
    let mut out: Vec<BounceRule> = Vec::new();
    while rest.len() > 0
        invariant
            all == enabled(rows@),
            out@.len() + rest@.len() == all.len(),
            rest@ == all.skip(out@.len() as int),
            forall|k: int| 0 <= k < out@.len() ==> is_read((#[trigger] out@[k])@, all[k]),
        decreases rest@.len(),
    {
        let row: RuleRow = rest.remove(0);
        assert(row == all[out@.len() as int]);
        out.push(row_to_rule(row));
        assert(rest@ =~= all.skip(out@.len() as int));
    }
    out
}

/// A rule that the store does not hold as enabled is not among the enabled ones, and
/// every other one is.
pub proof fn law_only_enabled_rules_apply(rows: Seq<RuleRow>, b: RuleRow)
    requires
        rows.contains(b),
    ensures
        enabled(rows).contains(b) == (b.enabled == Some(1i64)),
{
    let p = |x: RuleRow| x.enabled == Some(1i64);
    rows.filter_lemma(p);
    let i = rows.index_of(b);
    if p(rows[i]) {
        assert(rows.filter(p).contains(rows[i]));
    }
}

/// Of the listed rules, an older one never stands behind a younger one.
pub proof fn law_oldest_rules_come_first(
    r: Seq<BounceRule>,
    rules: Seq<BounceRule>,
    k: int,
    l: int,
)
    requires
        listing::is_part(r, rules, age_ranks(rules), 0, rules.len() as int),
        0 <= k < l < r.len(),
    ensures
        r.len() == rules.len(),
        r[k].created_at <= r[l].created_at,
{
    let n = rules.len() as int;
    let i = listing::lemma_place_in_part(r, rules, age_ranks(rules), 0, n, k);
    let at = listing::lemma_places_in_part(r, rules, age_ranks(rules), 0, n, k, l);
}

/// The columns hold the rule `m`.
pub open spec fn holds(row: RuleRow, m: RuleModel) -> bool {
    &&& chars::opt_view(row.id) == Some(m.id)
    &&& chars::opt_view(row.mailbox_id) == Some(m.mailbox_id)
    &&& chars::opt_view(row.address_pattern) == Some(m.address_pattern)
    &&& chars::opt_view(row.bounce_kind) == Some(events::bounce_name(m.bounce_kind))
    &&& row.smtp_code == Some(m.smtp_code as i64)
    &&& chars::opt_view(row.smtp_message) == Some(m.smtp_message)
    &&& row.enabled == Some(columns::flag_number(m.enabled))
    &&& row.created_at == Some(m.created_at)
}

/// A rule is read as it was written.
pub proof fn law_rule_survives(row: RuleRow, m: RuleModel, r: RuleModel)
    requires
        holds(row, m),
        is_read(r, row),
    ensures
        r == m,
{
    events::law_bounce_names_round_trip(m.bounce_kind);
    assert(r =~= m);
}

/// Storing a rule again under another identifier or at another time changes neither
/// its identifier nor its time of creation.
pub proof fn law_storing_again_changes_nothing(
    rule: RuleModel,
    id: Seq<char>,
    now: i64,
    id2: Seq<char>,
    now2: i64,
)
    requires
        id.len() > 0,
        now != 0,
    ensures
        completed(completed(rule, id, now), id2, now2) == completed(rule, id, now),
{
    assert(completed(completed(rule, id, now), id2, now2) =~= completed(rule, id, now));
}

/// A rule keeps its identifier and its time where it has them, and gets them where it has
/// none; nothing else of it changes.
pub proof fn law_completed(rule: RuleModel, id: Seq<char>, now: i64)
    ensures
        ({
            let r = completed(rule, id, now);
            &&& rule.id.len() == 0 ==> r.id == id
            &&& rule.id.len() > 0 ==> r.id == rule.id
            &&& rule.created_at == 0 ==> r.created_at == now
            &&& rule.created_at != 0 ==> r.created_at == rule.created_at
            &&& r.mailbox_id == rule.mailbox_id && r.address_pattern == rule.address_pattern
            &&& r.bounce_kind == rule.bounce_kind && r.smtp_code == rule.smtp_code
            &&& r.smtp_message == rule.smtp_message && r.enabled == rule.enabled
        }),
{
}

/// The replies that refuse are those of the four and of the five hundreds. Any other is
/// turned down with a message that names it.
pub proof fn law_replies_that_refuse(code: u16)
    ensures
        refuses(code) == (code / 100 == 4 || code / 100 == 5),
        refusal(code) == "smtp_code "@ + number::decimal(code as nat) + " must be 4xx or 5xx"@,
{
}

/// What is read of a rule: each column as it is; a hard bounce with the reply 550, enabled,
/// where the columns are absent.
pub proof fn law_row_is_read(m: RuleModel, row: RuleRow)
    requires
        is_read(m, row),
    ensures
        row.id matches Some(t) ==> m.id == t@,
        row.mailbox_id matches Some(t) ==> m.mailbox_id == t@,
        row.address_pattern matches Some(t) ==> m.address_pattern == t@,
        row.smtp_message matches Some(t) ==> m.smtp_message == t@,
        row.smtp_code matches Some(n) ==> (0 <= n <= 65535 ==> m.smtp_code == n),
        row.smtp_code is None ==> m.smtp_code == 550,
        row.bounce_kind is None ==> m.bounce_kind == BounceKind::Hard,
        row.bounce_kind matches Some(t) ==> m.bounce_kind == events::bounce_named(t@),
        m.enabled == (row.enabled != Some(0i64)),
        row.created_at matches Some(n) ==> m.created_at == n,
        row.created_at is None ==> m.created_at == 0,
{
}

/// The values of a rule are those of its fields.
pub proof fn law_values_of_a_rule(b: BounceRule)
    ensures
        b@.id == b.id@ && b@.mailbox_id == b.mailbox_id@,
        b@.address_pattern == b.address_pattern@ && b@.bounce_kind == b.bounce_kind,
        b@.smtp_code == b.smtp_code && b@.smtp_message == b.smtp_message@,
        b@.enabled == b.enabled && b@.created_at == b.created_at,
{
}

} // verus!
