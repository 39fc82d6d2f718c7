//! Settings in sections. A section that was never saved, or that cannot be read, has
//! its defaults.

use vstd::prelude::*;
use vstd::string::*;

use crate::json;
use crate::json::Json;
use crate::text::chars;

verus! {

/// The sections of the settings.
#[derive(Debug, Clone, Copy, PartialEq, Eq, Structural)]
pub enum SettingsSection {
    Network,
    Agents,
    Inbox,
    Advanced,
}

/// The name of a section.
pub open spec fn section_name(s: SettingsSection) -> Seq<char> {
    match s {
        SettingsSection::Network => "network"@,
        SettingsSection::Agents => "agents"@,
        SettingsSection::Inbox => "inbox"@,
        SettingsSection::Advanced => "advanced"@,
    }
}

impl SettingsSection {
    /// The name of the section.
    pub fn as_str(self) -> (r: &'static str)
        ensures
            r@ == section_name(self),
    {
        match self {
            SettingsSection::Network => "network",
            SettingsSection::Agents => "agents",
            SettingsSection::Inbox => "inbox",
            SettingsSection::Advanced => "advanced",
        }
    }
}

/// Ports and exposure.
#[derive(Debug, Clone)]
pub struct NetworkPrefs {
    pub smtp_port: u16,
    pub http_api_port: u16,
    pub mcp_enabled: bool,
    pub mcp_port: u16,
    pub expose_on_lan: bool,
    /// Serve the HTTP API over TLS.
    pub api_tls: bool,
    /// The bearer token that requests have to carry, if any.
    pub api_auth_token: Option<String>,
}

impl Default for NetworkPrefs {
    fn default() -> (r: Self)
        ensures
            is_default_network(r),
    {
        NetworkPrefs {
            smtp_port: 1025,
            http_api_port: 1080,
            mcp_enabled: true,
            mcp_port: 1081,
            expose_on_lan: false,
            api_tls: false,
            api_auth_token: None,
        }
    }
}

/// The defaults of the network section.
pub open spec fn is_default_network(p: NetworkPrefs) -> bool {
    &&& p.smtp_port == 1025
    &&& p.http_api_port == 1080
    &&& p.mcp_enabled
    &&& p.mcp_port == 1081
    &&& !p.expose_on_lan
    &&& !p.api_tls
    &&& p.api_auth_token is None
}

/// Preferences for agents.
#[derive(Debug, Clone)]
pub struct AgentPrefs {
    pub default_wait_timeout_seconds: u32,
    pub log_agent_requests: bool,
    pub confirm_destructive_actions: bool,
}

impl Default for AgentPrefs {
    fn default() -> (r: Self)
        ensures
            is_default_agents(r),
    {
        AgentPrefs {
            default_wait_timeout_seconds: 30,
            log_agent_requests: true,
            confirm_destructive_actions: true,
        }
    }
}

/// The defaults of the agents section.
pub open spec fn is_default_agents(p: AgentPrefs) -> bool {
    p.default_wait_timeout_seconds == 30 && p.log_agent_requests && p.confirm_destructive_actions
}

/// Retention and presentation of emails.
#[derive(Debug, Clone)]
pub struct InboxPrefs {
    pub max_retained_emails: u32,
    pub auto_clear_after_days: u32,
    pub thread_related: bool,
    pub auto_tag: bool,
}

impl Default for InboxPrefs {
    fn default() -> (r: Self)
        ensures
            is_default_inbox(r),
    {
        InboxPrefs {
            max_retained_emails: 5000,
            auto_clear_after_days: 14,
            thread_related: true,
            auto_tag: true,
        }
    }
}

/// The defaults of the inbox section.
pub open spec fn is_default_inbox(p: InboxPrefs) -> bool {
    p.max_retained_emails == 5000 && p.auto_clear_after_days == 14 && p.thread_related && p.auto_tag
}

/// Diagnostics.
#[derive(Debug, Clone)]
pub struct AdvancedPrefs {
    pub debug_logging: bool,
    pub preserve_smtp_transcript: bool,
    pub audit_retain_days: u32,
}

impl Default for AdvancedPrefs {
    fn default() -> (r: Self)
        ensures
            is_default_advanced(r),
    {
        AdvancedPrefs {
            debug_logging: false,
            preserve_smtp_transcript: true,
            audit_retain_days: 90,
        }
    }
}

/// The defaults of the advanced section.
pub open spec fn is_default_advanced(p: AdvancedPrefs) -> bool {
    !p.debug_logging && p.preserve_smtp_transcript && p.audit_retain_days == 90
}

/// All sections.
#[derive(Debug, Clone)]
pub struct BackendSettings {
    pub network: NetworkPrefs,
    pub agents: AgentPrefs,
    pub inbox: InboxPrefs,
    pub advanced: AdvancedPrefs,
}

impl Default for BackendSettings {
    fn default() -> (r: Self)
        ensures
            is_default_network(r.network),
            is_default_agents(r.agents),
            is_default_inbox(r.inbox),
            is_default_advanced(r.advanced),
    {
        BackendSettings {
            network: NetworkPrefs::default(),
            agents: AgentPrefs::default(),
            inbox: InboxPrefs::default(),
            advanced: AdvancedPrefs::default(),
        }
    }
}

/// A new value for one section.
#[derive(Debug, Clone)]
pub enum SettingsPatch {
    Network(NetworkPrefs),
    Agents(AgentPrefs),
    Inbox(InboxPrefs),
    Advanced(AdvancedPrefs),
}

/// The section that a patch is for.
pub open spec fn patch_section(p: SettingsPatch) -> SettingsSection {
    match p {
        SettingsPatch::Network(_) => SettingsSection::Network,
        SettingsPatch::Agents(_) => SettingsSection::Agents,
        SettingsPatch::Inbox(_) => SettingsSection::Inbox,
        SettingsPatch::Advanced(_) => SettingsSection::Advanced,
    }
}

impl SettingsPatch {
    /// The section that the patch is for.
    pub fn section(&self) -> (r: SettingsSection)
        ensures
            r == patch_section(*self),
    {
        match self {
            SettingsPatch::Network(_) => SettingsSection::Network,
            SettingsPatch::Agents(_) => SettingsSection::Agents,
            SettingsPatch::Inbox(_) => SettingsSection::Inbox,
            SettingsPatch::Advanced(_) => SettingsSection::Advanced,
        }
    }
}

/// The settings after a patch: its section is replaced, the others stay.
pub open spec fn after_patch(s: BackendSettings, p: SettingsPatch) -> BackendSettings {
    match p {
        SettingsPatch::Network(v) => BackendSettings { network: v, ..s },
        SettingsPatch::Agents(v) => BackendSettings { agents: v, ..s },
        SettingsPatch::Inbox(v) => BackendSettings { inbox: v, ..s },
        SettingsPatch::Advanced(v) => BackendSettings { advanced: v, ..s },
    }
}

/// Applies a patch to settings.
pub fn apply_patch(s: BackendSettings, p: SettingsPatch) -> (r: BackendSettings)
    ensures
        r == after_patch(s, p),
{
    match p {
        SettingsPatch::Network(v) => BackendSettings {
            network: v,
            agents: s.agents,
            inbox: s.inbox,
            advanced: s.advanced,
        },
        SettingsPatch::Agents(v) => BackendSettings {
            network: s.network,
            agents: v,
            inbox: s.inbox,
            advanced: s.advanced,
        },
        SettingsPatch::Inbox(v) => BackendSettings {
            network: s.network,
            agents: s.agents,
            inbox: v,
            advanced: s.advanced,
        },
        SettingsPatch::Advanced(v) => BackendSettings {
            network: s.network,
            agents: s.agents,
            inbox: s.inbox,
            advanced: v,
        },
    }
}

/// The settings out of the sections that could be read. A section that was not
/// saved, or does not have the shape it should have, is nothing here.
pub fn load_all(
    network: Option<NetworkPrefs>,
    agents: Option<AgentPrefs>,
    inbox: Option<InboxPrefs>,
    advanced: Option<AdvancedPrefs>,
) -> (r: BackendSettings)
    ensures
        match network {
            Some(v) => r.network == v,
            None => is_default_network(r.network),
        },
        match agents {
            Some(v) => r.agents == v,
            None => is_default_agents(r.agents),
        },
        match inbox {
            Some(v) => r.inbox == v,
            None => is_default_inbox(r.inbox),
        },
        match advanced {
            Some(v) => r.advanced == v,
            None => is_default_advanced(r.advanced),
        },
{
    BackendSettings {
        network: match network {
            Some(v) => v,
            None => NetworkPrefs::default(),
        },
        agents: match agents {
            Some(v) => v,
            None => AgentPrefs::default(),
        },
        inbox: match inbox {
            Some(v) => v,
            None => InboxPrefs::default(),
        },
        advanced: match advanced {
            Some(v) => v,
            None => AdvancedPrefs::default(),
        },
    }
}

/// A row of a section: its key, its value as text, and the JSON in that text, if
/// there is any.
#[derive(Debug)]
pub struct SettingRow {
    pub key: Option<String>,
    pub value: Option<String>,
    pub parsed: Option<Json>,
}

/// The value of a row: its JSON, or its text where that is no JSON.
pub open spec fn row_value(r: SettingRow) -> json::JsonModel {
    match r.parsed {
        Some(j) => j@,
        None => json::JsonModel::Text(chars::or_empty(chars::opt_view(r.value))),
    }
}

/// The values of the rows by their keys. Of rows with the same key the last counts.
pub open spec fn section_map(rows: Seq<SettingRow>) -> Map<Seq<char>, json::JsonModel>
    decreases rows.len(),
{
    if rows.len() == 0 {
        Map::empty()
    } else {
        let r = rows.last();
        section_map(rows.drop_last()).insert(chars::or_empty(chars::opt_view(r.key)), row_value(r))
    }
}

/// A section out of its rows, as one JSON object.
pub fn get_section_raw(rows: Vec<SettingRow>) -> (r: Json)
    ensures
        r@ == json::JsonModel::Object(section_map(rows@)),
{
    let mut members: Vec<(String, Json)> = Vec::new();
    let mut i: usize = 0;
    while i < rows.len()
        invariant
            i <= rows@.len(),
            json::members_of(members@) == section_map(rows@.take(i as int)),
        decreases rows@.len() - i,
    {
        let row: &SettingRow = &rows[i];
        let key: String = crate::db::columns::text(chars::clone_opt(&row.key));
        let value: Json = match &row.parsed {
            Some(j) => j.copy(),
            None => Json::Text(crate::db::columns::text(chars::clone_opt(&row.value))),
        };
        proof {
            assert(rows@.take(i + 1).drop_last() =~= rows@.take(i as int));
            json::lemma_members_push(members@, (key, value));
        }
        members.push((key, value));
        i = i + 1;
    }
    assert(rows@.take(i as int) =~= rows@);
    Json::Object(members)
}

/// The keys and values that saving a section writes: the members of an object; any
/// other value goes under the key `_value`.
pub open spec fn saved_map(value: json::JsonModel) -> Map<Seq<char>, json::JsonModel> {
    match value {
        json::JsonModel::Object(m) => m,
        v => Map::empty().insert("_value"@, v),
    }
}

/// The keys and values that saving a section writes, in place of all that the
/// section held before.
pub fn save_section(value: Json) -> (r: Vec<(String, Json)>)
    ensures
        json::members_of(r@) == saved_map(value@),
{
    match value {
        Json::Object(members) => members,
        v => {
            let mut rows: Vec<(String, Json)> = Vec::new();
            let key: String = "_value".to_owned();
            proof {
                json::lemma_members_push(rows@, (key, v));
            }
            rows.push((key, v));
            rows
        },
    }
}

/// The rows hold what saving wrote: each key once, with its value as JSON.
pub open spec fn rows_hold(rows: Seq<SettingRow>, m: Map<Seq<char>, json::JsonModel>) -> bool {
    &&& forall|i: int| 0 <= i < rows.len() ==> {
        let r = #[trigger] rows[i];
        &&& r.key is Some
        &&& r.parsed is Some
        &&& m.contains_key(r.key->0@)
        &&& m[r.key->0@] == r.parsed->0@
    }
    &&& forall|k: Seq<char>| #[trigger]
        m.contains_key(k) ==> exists|i: int|
            0 <= i < rows.len() && (#[trigger] rows[i]).key is Some && rows[i].key->0@ == k
}

/// A saved section is read as it was saved.
pub proof fn law_section_survives(
    rows: Seq<SettingRow>,
    m: Map<Seq<char>, json::JsonModel>,
)
    requires
        rows_hold(rows, m),
    ensures
        section_map(rows) == m,
{
    lemma_section_values(rows, m, rows.len() as int);
    assert(rows.take(rows.len() as int) =~= rows);
    assert forall|k: Seq<char>| #[trigger] m.contains_key(k) implies section_map(rows).contains_key(
        k,
    ) by {
        let i = choose|i: int|
            0 <= i < rows.len() && (#[trigger] rows[i]).key is Some && rows[i].key->0@ == k;
        lemma_section_has(rows, i);
    }
    assert(section_map(rows) =~= m);
}

proof fn lemma_section_values(rows: Seq<SettingRow>, m: Map<Seq<char>, json::JsonModel>, n: int)
    requires
        rows_hold(rows, m),
        0 <= n <= rows.len(),
    ensures
        forall|k: Seq<char>| #[trigger]
            section_map(rows.take(n)).contains_key(k) ==> m.contains_key(k) && m[k]
                == section_map(rows.take(n))[k],
    decreases n,
{
    if n > 0 {
        lemma_section_values(rows, m, n - 1);
        assert(rows.take(n).drop_last() =~= rows.take(n - 1));
        assert(rows.take(n).last() == rows[n - 1]);
        let before = section_map(rows.take(n - 1));
        assert forall|k: Seq<char>| #[trigger]
            section_map(rows.take(n)).contains_key(k) implies m.contains_key(k) && m[k]
            == section_map(rows.take(n))[k] by {
            if k != rows[n - 1].key->0@ {
                assert(before.contains_key(k));
            }
        }
    }
}

proof fn lemma_section_has(rows: Seq<SettingRow>, i: int)
    requires
        0 <= i < rows.len(),
    ensures
        section_map(rows).contains_key(chars::or_empty(chars::opt_view(rows[i].key))),
    decreases rows.len(),
{
    if i < rows.len() - 1 {
        lemma_section_has(rows.drop_last(), i);
    }
}

/// A patch replaces its own section and leaves every other one as it was.
pub proof fn law_patch_changes_one_section(s: BackendSettings, p: SettingsPatch)
    ensures
        patch_section(p) != SettingsSection::Network ==> after_patch(s, p).network == s.network,
        patch_section(p) != SettingsSection::Agents ==> after_patch(s, p).agents == s.agents,
        patch_section(p) != SettingsSection::Inbox ==> after_patch(s, p).inbox == s.inbox,
        patch_section(p) != SettingsSection::Advanced ==> after_patch(s, p).advanced
            == s.advanced,
        after_patch(after_patch(s, p), p) == after_patch(s, p),
{
}

/// A patch puts its value in the place of its section.
pub proof fn law_patch_takes_its_value(s: BackendSettings, p: SettingsPatch)
    ensures
        p matches SettingsPatch::Network(v) ==> after_patch(s, p).network == v,
        p matches SettingsPatch::Agents(v) ==> after_patch(s, p).agents == v,
        p matches SettingsPatch::Inbox(v) ==> after_patch(s, p).inbox == v,
        p matches SettingsPatch::Advanced(v) ==> after_patch(s, p).advanced == v,
        patch_section(p) == (match p {
            SettingsPatch::Network(_) => SettingsSection::Network,
            SettingsPatch::Agents(_) => SettingsSection::Agents,
            SettingsPatch::Inbox(_) => SettingsSection::Inbox,
            SettingsPatch::Advanced(_) => SettingsSection::Advanced,
        }),
{
}

/// Saving an object writes its members; saving anything else writes it under one key.
pub proof fn law_saved(value: json::JsonModel, key: Seq<char>)
    ensures
        value is Object ==> (saved_map(value).contains_key(key) <==> json::member(value, key)
            is Some),
        value is Object && saved_map(value).contains_key(key) ==> json::member(value, key) == Some(
            saved_map(value)[key],
        ),
        !(value is Object) ==> (saved_map(value).contains_key(key) <==> key == "_value"@),
        !(value is Object) ==> saved_map(value)["_value"@] == value,
{
}

/// A row gives its JSON, or its text where that is no JSON, and the row that comes last
/// counts.
pub proof fn law_last_row_counts(rows: Seq<SettingRow>, row: SettingRow, key: String)
    requires
        row.key == Some(key),
    ensures
        section_map(rows.push(row))[key@] == (match row.parsed {
            Some(j) => j@,
            None => json::JsonModel::Text(
                match row.value {
                    Some(t) => t@,
                    None => Seq::empty(),
                },
            ),
        }),
        section_map(rows.push(row)).contains_key(key@),
        forall|k: Seq<char>|
            k != key@ ==> (#[trigger] section_map(rows.push(row)).contains_key(k) <==> section_map(
                rows,
            ).contains_key(k)),
{
    assert(rows.push(row).drop_last() =~= rows);
}

/// What holds where nothing was saved.
pub proof fn law_defaults(n: NetworkPrefs, a: AgentPrefs, i: InboxPrefs, d: AdvancedPrefs)
    ensures
        is_default_network(n) <==> n.smtp_port == 1025 && n.http_api_port == 1080 && n.mcp_enabled
            && n.mcp_port == 1081 && !n.expose_on_lan && !n.api_tls && n.api_auth_token is None,
        is_default_agents(a) <==> a.default_wait_timeout_seconds == 30 && a.log_agent_requests
            && a.confirm_destructive_actions,
        is_default_inbox(i) <==> i.max_retained_emails == 5000 && i.auto_clear_after_days == 14
            && i.thread_related && i.auto_tag,
        is_default_advanced(d) <==> !d.debug_logging && d.preserve_smtp_transcript
            && d.audit_retain_days == 90,
{
}

/// The names of the sections.
pub proof fn law_section_names(s: SettingsSection)
    ensures
        section_name(s) == (match s {
            SettingsSection::Network => "network"@,
            SettingsSection::Agents => "agents"@,
            SettingsSection::Inbox => "inbox"@,
            SettingsSection::Advanced => "advanced"@,
        }),
{
}

} // verus!
