//! The decisions of the mailbox service: which listeners are started and stopped, on
//! which ports, and what is reported of it. Binding sockets and running sessions is
//! left to the caller.

use vstd::prelude::*;
use vstd::string::*;

use crate::config;
use crate::config::CoreConfig;
use crate::db::audit;
use crate::db::audit::AuditAppend;
use crate::db::columns;
use crate::db::mailboxes;
use crate::db::mailboxes::MailboxRow;
use crate::error;
use crate::error::Error;
use crate::events::{CoreEvent, MailboxStateChange};
use crate::json;
use crate::json::Json;
use crate::mailbox::kinds::MailboxKind;
use crate::mailbox::lifecycle::ExpiryMsg;
use crate::mailbox::listeners;
use crate::mailbox::listeners::Listeners;
use crate::mailbox::ports::PortAllocator;
use crate::text::chars;
use crate::text::search;

verus! {

/// The running listeners, the ports that are claimed, and whether sessions keep a
/// transcript.
#[derive(Debug)]
pub struct MailboxService {
    pub listeners: Listeners,
    pub ports: PortAllocator,
    pub preserve_transcript: bool,
}

/// How starting a listener failed.
#[derive(Debug)]
pub enum ListenFailure {
    /// Something else is bound to the address; with the system's message.
    AddrInUse(String),
    /// Anything else.
    Other(Error),
}

/// What is done about a listener that could not be started.
#[derive(Debug)]
pub struct StartFailure {
    pub error: Error,
    /// The message of the error, with which the mailbox is marked as failed.
    pub message: String,
    pub audit: AuditAppend,
    pub event: CoreEvent,
}

/// What a listener is started with.
#[derive(Debug)]
pub struct ListenerPlan {
    pub mailbox_id: String,
    pub bind_ip: [u8; 4],
    pub bind_port: u16,
    pub hostname: String,
    pub starttls_enabled: bool,
    pub auth_enabled: bool,
    pub implicit_tls: bool,
    pub max_line: usize,
    pub max_bytes: u64,
    pub spill_at: usize,
    pub incoming_dir: String,
    pub chaos_seed: u64,
}

/// The event says that `change` happened to the mailbox `id`.
pub open spec fn tells(e: CoreEvent, id: Seq<char>, change: MailboxStateChange) -> bool {
    e matches CoreEvent::MailboxStateChanged { mailbox_id, change: c } && mailbox_id@ == id && c
        == change
}

/// The event that `change` happened to the mailbox `id`.
pub fn changed(id: &str, change: MailboxStateChange) -> (r: CoreEvent)
    ensures
        tells(r, id@, change),
{
    CoreEvent::MailboxStateChanged { mailbox_id: id.to_owned(), change }
}

/// How the transcript of a session is named, behind the name of its raw message.
pub const TRANSCRIPT_SUFFIX: &'static str = ".smtp.log";

/// The raw message that a transcript belongs to.
pub open spec fn transcript_of(path: Seq<char>) -> Option<Seq<char>> {
    let n = path.len() - TRANSCRIPT_SUFFIX@.len();
    if n >= 0 && path.skip(n) == TRANSCRIPT_SUFFIX@ {
        Some(path.take(n))
    } else {
        None
    }
}

/// A file that the store knows: it is a raw message of the list, or the transcript
/// of one.
pub open spec fn is_referenced(path: Seq<char>, referenced: Seq<Seq<char>>) -> bool {
    referenced.contains(path) || (transcript_of(path) matches Some(raw) && referenced.contains(raw))
}

fn contains_text(v: &Vec<String>, s: &str) -> (r: bool)
    ensures
        r == chars::seq_views(v@).contains(s@),
{
    let ghost m = chars::seq_views(v@);
    let mut i: usize = 0;
    while i < v.len()
        invariant
            i <= v@.len(),
            m == chars::seq_views(v@),
            forall|j: int| 0 <= j < i ==> #[trigger] m[j] != s@,
        decreases v@.len() - i,
    {
        if chars::str_eq(v[i].as_str(), s) {
            assert(m[i as int] == s@);
            return true;
        }
        i = i + 1;
    }
    false
}

fn strip_transcript(path: &str) -> (r: Option<String>)
    ensures
        chars::opt_view(r) == transcript_of(path@),
{
    let v: Vec<char> = chars::chars_of(path);
    let suffix: Vec<char> = chars::chars_of(TRANSCRIPT_SUFFIX);
    if v.len() < suffix.len() {
        return None;
    }
    let n: usize = v.len() - suffix.len();
    if search::chars_occur_at(v.as_slice(), suffix.as_slice(), n) {
        assert(path@.skip(n as int) =~= TRANSCRIPT_SUFFIX@);
        let raw: String = chars::string_of(v.as_slice(), 0, n);
        assert(raw@ =~= path@.take(n as int));
        Some(raw)
    } else {
        None
    }
}

/// A character that separates the components of a path, or the drive from them, on
/// one system or another.
pub open spec fn is_separator(c: char) -> bool {
    c == '/' || c == '\\' || c == ':'
}

/// The end of a path: what stands behind its last separator.
pub open spec fn path_end(path: Seq<char>) -> Seq<char>
    decreases path.len(),
{
    if path.len() == 0 || is_separator(path.last()) {
        Seq::empty()
    } else {
        path_end(path.drop_last()).push(path.last())
    }
}

/// The end of a path names something: it is not empty, and not the dot that stands
/// for the directory itself.
pub open spec fn has_name(path: Seq<char>) -> bool {
    path_end(path).len() > 0 && path_end(path) != seq!['.']
}

/// Two paths end in different names, whatever the system takes for a separator.
pub open spec fn tells_apart(a: Seq<char>, b: Seq<char>) -> bool {
    has_name(a) && has_name(b) && path_end(a) != path_end(b)
}

/// `path` ends in the relative path `child`, behind a `/`. Paths that begin with two
/// separators are left out: Windows takes what follows for the name of a server.
pub open spec fn ends_in(path: Seq<char>, child: Seq<char>) -> bool {
    &&& config::is_relative(child)
    &&& child[0] != '.'
    &&& path.len() > child.len()
    &&& !(is_separator(path[0]) && is_separator(path[1]))
    &&& path.skip(path.len() - child.len()) == child
    &&& path[path.len() - child.len() - 1] == '/'
}

/// `Path::ends_with`: whether the components of `child` are the last ones of
/// `path`. Only whole components match, so that paths which end in different names
/// do not. A relative path behind a `/`, which separates components on Unix and on
/// Windows, does match. Of other endings nothing is claimed: what else separates
/// components is the system's.
#[verifier::external_body]
fn path_ends_with(path: &str, child: &str) -> (r: bool)
    ensures
        tells_apart(path@, child@) ==> !r,
        ends_in(path@, child@) ==> r,
{
    std::path::Path::new(path).ends_with(child)
}

/// Whether a file among the raw messages is left over: the store does not know it,
/// and no path of the store is its ending. A file that ends in a relative path of the
/// store is kept. Where all paths of the store end in other names, that the store does
/// not know the file is enough.
pub fn is_orphan(path: &str, referenced: &Vec<String>) -> (r: bool)
    ensures
        r ==> !is_referenced(path@, chars::seq_views(referenced@)),
        !is_referenced(path@, chars::seq_views(referenced@)) && (forall|k: int|
            0 <= k < referenced@.len() ==> tells_apart(path@, (#[trigger] referenced@[k])@))
            ==> r,
        (exists|k: int|
            0 <= k < referenced@.len() && ends_in(path@, (#[trigger] referenced@[k])@)) ==> !r,
{
    let mut ends: bool = false;
    let mut i: usize = 0;
    while i < referenced.len()
        invariant
            i <= referenced@.len(),
            ends ==> exists|k: int|
                0 <= k < referenced@.len() && !tells_apart(path@, (#[trigger] referenced@[k])@),
            forall|k: int|
                0 <= k < i && ends_in(path@, (#[trigger] referenced@[k])@) ==> ends,
        decreases referenced@.len() - i,
    {
        if path_ends_with(path, referenced[i].as_str()) {
            ends = true;
        }
        i = i + 1;
    }
    is_orphan_given(path, referenced, ends)
}

/// Whether a file among the raw messages is left over, given whether some path of
/// the store is its ending.
pub fn is_orphan_given(path: &str, referenced: &Vec<String>, ends_with_one: bool) -> (r: bool)
    ensures
        r == (!is_referenced(path@, chars::seq_views(referenced@)) && !ends_with_one),
{
    if let Some(raw) = strip_transcript(path) {
        if contains_text(referenced, raw.as_str()) {
            return false;
        }
    }
    !contains_text(referenced, path) && !ends_with_one
}

/// The port that a new mailbox is to have: the one that was asked for, or one that
/// has to be allocated, which only ephemeral mailboxes get.
pub fn port_for_new(port: Option<u16>, kind: MailboxKind) -> (r: Result<Option<u16>, Error>)
    ensures
        match (port, kind) {
            (Some(p), _) => r == Ok::<Option<u16>, Error>(Some(p)),
            (None, MailboxKind::Ephemeral) => r == Ok::<Option<u16>, Error>(None),
            (None, _) => r matches Err(Error::Invalid(m)) && m@
                == "port required for non-ephemeral mailbox"@,
        },
{
    match (port, kind) {
        (Some(p), _) => Ok(Some(p)),
        (None, MailboxKind::Ephemeral) => Ok(None),
        (None, _) => Err(Error::Invalid("port required for non-ephemeral mailbox".to_owned())),
    }
}

/// What the scheduler is told of a new mailbox: the expiry of an ephemeral one.
pub fn expiry_message(row: &MailboxRow) -> (r: Option<ExpiryMsg>)
    ensures
        match (row.kind, row.expires_at) {
            (MailboxKind::Ephemeral, Some(at)) => r matches Some(
                ExpiryMsg::Add { mailbox_id, expires_at },
            ) && mailbox_id@ == row.id@ && expires_at == at,
            _ => r is None,
        },
{
    match (row.kind, row.expires_at) {
        (MailboxKind::Ephemeral, Some(at)) => Some(
            ExpiryMsg::Add { mailbox_id: row.id.clone(), expires_at: at },
        ),
        _ => None,
    }
}

/// A mailbox with this expiry is expired at `now`.
pub open spec fn is_expired(expires_at: Option<i64>, now: i64) -> bool {
    expires_at matches Some(at) && at <= now
}

/// Whether a mailbox whose expiry came up is taken down: not where it is gone, and
/// not where it expires later or never.
pub fn expire(found: Result<MailboxRow, Error>, now: i64) -> (r: Result<bool, Error>)
    ensures
        match found {
            Ok(row) => r == Ok::<bool, Error>(is_expired(row.expires_at, now)),
            Err(Error::MailboxNotFound(_)) => r == Ok::<bool, Error>(false),
            Err(e) => r == Err::<bool, Error>(e),
        },
{
    match found {
        Ok(row) => match row.expires_at {
            Some(at) => Ok(at <= now),
            None => Ok(false),
        },
        Err(Error::MailboxNotFound(_)) => Ok(false),
        Err(e) => Err(e),
    }
}

/// What a listener for a mailbox is started with. TLS from the first byte needs an
/// acceptor; without one the listener falls back to plain text. Upgrading to TLS is
/// offered on plain-text listeners where there is an acceptor. Authentication is
/// always offered, since many clients insist on it.
pub fn plan_listener(
    config: &CoreConfig,
    id: &str,
    port: u16,
    wants_implicit_tls: bool,
    has_acceptor: bool,
) -> (r: ListenerPlan)
    ensures
        r.mailbox_id@ == id@,
        r.bind_ip@ == bind_octets(*config),
        r.bind_port == port,
        r.hostname@ == config.ehlo_hostname@,
        r.implicit_tls == (wants_implicit_tls && has_acceptor),
        r.starttls_enabled == (has_acceptor && !wants_implicit_tls),
        !(r.implicit_tls && r.starttls_enabled),
        r.auth_enabled,
        r.max_line == config.smtp_max_line_bytes,
        r.max_bytes == config.max_message_bytes,
        r.spill_at == config.data_spill_bytes,
        exists|raw: Seq<char>| #[trigger]
            crate::config::joined_path(raw, config.blobs_dir@, "raw"@)
                && crate::config::joined_path(r.incoming_dir@, raw, "incoming"@),
        r.chaos_seed == port,
{
    let implicit_tls: bool = wants_implicit_tls && has_acceptor;
    ListenerPlan {
        mailbox_id: id.to_owned(),
        bind_ip: config.bind_host.as_ip(),
        bind_port: port,
        hostname: config.ehlo_hostname.clone(),
        starttls_enabled: has_acceptor && !implicit_tls,
        auth_enabled: true,
        implicit_tls,
        max_line: config.smtp_max_line_bytes,
        max_bytes: config.max_message_bytes,
        spill_at: config.data_spill_bytes,
        incoming_dir: config.incoming_dir(),
        chaos_seed: port as u64,
    }
}

/// The octets of the address that the configuration binds to.
pub open spec fn bind_octets(config: CoreConfig) -> Seq<u8> {
    match config.bind_host {
        crate::config::BindHost::Loopback => seq![127u8, 0u8, 0u8, 1u8],
        crate::config::BindHost::AllInterfaces => seq![0u8, 0u8, 0u8, 0u8],
    }
}

/// The error that a failed start is reported as: an address in use is a port in use.
pub open spec fn listen_error(f: ListenFailure, port: u16) -> Error {
    match f {
        ListenFailure::AddrInUse(_) => Error::PortInUse(port),
        ListenFailure::Other(e) => e,
    }
}

/// The log entry on a mailbox that failed.
pub open spec fn failure_entry(id: Seq<char>, message: Seq<char>) -> audit::AuditModel {
    audit::AuditModel {
        actor: "system"@,
        action: "mailbox.failed"@,
        target_kind: Some("mailbox"@),
        target_id: Some(id),
        metadata: Some(
            json::JsonModel::Object(
                Map::empty().insert("error"@, json::JsonModel::Text(message)),
            ),
        ),
    }
}

/// The log entry on a mailbox that could not be started. The system wrote it, not a
/// user.
pub fn audit_failed(id: &str, message: &str) -> (r: AuditAppend)
    ensures
        r@ == failure_entry(id@, message@),
{
    let mut members: Vec<(String, Json)> = json::no_members();
    json::put(&mut members, "error", Json::Text(message.to_owned()));
    AuditAppend {
        actor: "system".to_owned(),
        action: "mailbox.failed".to_owned(),
        target_kind: Some("mailbox".to_owned()),
        target_id: Some(id.to_owned()),
        metadata: Some(Json::Object(members)),
    }
}

/// What is done about a listener that could not be started.
pub fn start_failed(id: &str, port: u16, failure: ListenFailure) -> (r: StartFailure)
    ensures
        r.error == listen_error(failure, port),
        r.message@ == error::message_of(r.error),
        r.audit@ == failure_entry(id@, r.message@),
        r.event matches CoreEvent::MailboxStateChanged {
            mailbox_id,
            change: MailboxStateChange::Failed { error: m },
        } && mailbox_id@ == id@ && m@ == r.message@,
{
    let error: Error = match failure {
        ListenFailure::AddrInUse(_) => Error::PortInUse(port),
        ListenFailure::Other(e) => e,
    };
    let message: String = error.message();
    let audit: AuditAppend = audit_failed(id, message.as_str());
    let event: CoreEvent = changed(id, MailboxStateChange::Failed { error: message.clone() });
    StartFailure { error, message, audit, event }
}

/// The ports of a list of listeners.
pub open spec fn ports_in(v: Seq<(String, u16)>) -> Set<u16> {
    v.map_values(|e: (String, u16)| e.1).to_set()
}

impl MailboxService {
    /// No listeners, and an allocator for the configured range.
    pub fn new(config: &CoreConfig) -> (r: Self)
        ensures
            r.listeners@ == listeners::no_entries(),
            r.ports.reserved@ == Set::<u16>::empty(),
            !r.preserve_transcript,
            r.ports.range_lo <= r.ports.range_hi,
            ({
                let (lo, hi) = config.ephemeral_port_range;
                (r.ports.range_lo == lo && r.ports.range_hi == hi) || (r.ports.range_lo == hi
                    && r.ports.range_hi == lo)
            }),
    {
        MailboxService {
            listeners: Listeners::new(),
            ports: PortAllocator::new(
                config.ephemeral_port_range.0,
                config.ephemeral_port_range.1,
            ),
            preserve_transcript: false,
        }
    }

    /// Says whether the sessions from now on keep a transcript. No listener has to be
    /// restarted for it.
    pub fn set_preserve_transcript(&mut self, enabled: bool)
        ensures
            final(self).preserve_transcript == enabled,
            final(self).listeners@ == old(self).listeners@,
            final(self).ports == old(self).ports,
    {
        self.preserve_transcript = enabled;
    }

    /// Whether a mailbox is started at boot: not one that failed, that the user
    /// stopped, or that runs already.
    pub fn boot(&self, row: &MailboxRow, paused: bool) -> (r: bool)
        ensures
            r == (!row.failed && !paused && !self.listeners@.contains_key(row.id@)),
    {
        !(row.failed || paused || self.listeners.contains(row.id.as_str()))
    }

    /// Whether starting a mailbox has anything to do.
    pub fn start(&self, id: &str) -> (r: bool)
        ensures
            r == !self.listeners@.contains_key(id@),
    {
        !self.listeners.contains(id)
    }

    /// Takes note of a listener that was started.
    pub fn started(&mut self, id: &str, port: u16) -> (r: CoreEvent)
        ensures
            final(self).listeners@ == old(self).listeners@.insert(id@, port),
            final(self).ports == old(self).ports,
            final(self).preserve_transcript == old(self).preserve_transcript,
            tells(r, id@, MailboxStateChange::Started),
    {
        self.listeners.add_listener(id.to_owned(), port);
        changed(id, MailboxStateChange::Started)
    }

    /// Takes a listener down: it leaves the table, its port is released, and an event
    /// tells of it. Where the mailbox does not listen, nothing happens.
    pub fn stop(&mut self, id: &str) -> (r: Option<(u16, CoreEvent)>)
        ensures
            match r {
                Some((port, event)) => {
                    &&& old(self).listeners@.contains_key(id@)
                    &&& port == old(self).listeners@[id@]
                    &&& final(self).listeners@ == old(self).listeners@.remove(id@)
                    &&& final(self).ports.reserved@ == old(self).ports.reserved@.remove(port)
                    &&& tells(event, id@, MailboxStateChange::Stopped)
                },
                None => {
                    &&& !old(self).listeners@.contains_key(id@)
                    &&& final(self).listeners@ == old(self).listeners@
                    &&& final(self).ports.reserved@ == old(self).ports.reserved@
                },
            },
            final(self).ports.range_lo == old(self).ports.range_lo,
            final(self).ports.range_hi == old(self).ports.range_hi,
            final(self).preserve_transcript == old(self).preserve_transcript,
    {
        match self.listeners.take_listener(id) {
            Some(port) => {
                self.ports.release(port);
                Some((port, changed(id, MailboxStateChange::Stopped)))
            },
            None => {
                assert(self.listeners@ =~= old(self).listeners@);
                None
            },
        }
    }

    /// Takes all listeners down, and gives each mailbox once, with its port.
    pub fn stop_all(&mut self) -> (r: Vec<(String, u16)>)
        ensures
            final(self).listeners@ == listeners::no_entries(),
            final(self).ports.reserved@ == old(self).ports.reserved@.difference(ports_in(r@)),
            final(self).ports.range_lo == old(self).ports.range_lo,
            final(self).ports.range_hi == old(self).ports.range_hi,
            final(self).preserve_transcript == old(self).preserve_transcript,
            forall|k: int, l: int|
                0 <= k < l < r@.len() ==> (#[trigger] r@[k]).0@ != (#[trigger] r@[l]).0@,
            forall|k: int|
                0 <= k < r@.len() ==> old(self).listeners@.contains_pair(
                    (#[trigger] r@[k]).0@,
                    r@[k].1,
                ),
            forall|id: Seq<char>| #[trigger]
                old(self).listeners@.contains_key(id) ==> exists|k: int|
                    0 <= k < r@.len() && (#[trigger] r@[k]).0@ == id,
    {
        let ids: Vec<String> = self.listeners.ids();
        let ghost m = chars::seq_views(ids@);
        let ghost before = self.listeners@;
        let mut out: Vec<(String, u16)> = Vec::new();
        let mut i: usize = 0;
        assert(self.ports.reserved@ =~= old(self).ports.reserved@.difference(ports_in(out@))) by {
            assert(out@.map_values(|e: (String, u16)| e.1) =~= Seq::empty());
        }
        while i < ids.len()
            invariant
                i <= ids@.len(),
                m == chars::seq_views(ids@),
                m.no_duplicates(),
                m.to_set() == before.dom(),
                before == old(self).listeners@,
                out@.len() == i,
                forall|k: int|
                    0 <= k < i ==> (#[trigger] out@[k]).0@ == m[k] && before.contains_pair(
                        m[k],
                        out@[k].1,
                    ),
                forall|id: Seq<char>| #[trigger]
                    self.listeners@.contains_key(id) <==> (before.contains_key(id) && !m.take(
                        i as int,
                    ).contains(id)),
                forall|id: Seq<char>| #[trigger]
                    self.listeners@.contains_key(id) ==> self.listeners@[id] == before[id],
                self.ports.reserved@ == old(self).ports.reserved@.difference(ports_in(out@)),
                self.ports.range_lo == old(self).ports.range_lo,
                self.ports.range_hi == old(self).ports.range_hi,
                self.preserve_transcript == old(self).preserve_transcript,
            decreases ids@.len() - i,
        {
            let ghost id = ids@[i as int]@;
            let ghost table = self.listeners@;
            let ghost done = out@;
            proof {
                assert(m[i as int] == id);
                assert(m.to_set().contains(id));
                assert(!m.take(i as int).contains(id));
                assert(table.contains_key(id));
            }
            if let Some((port, _)) = self.stop(ids[i].as_str()) {
                out.push((ids[i].clone(), port));
                proof {
                    lemma_ports_push(done, out@[i as int]);
                    assert(out@ =~= done.push(out@[i as int]));
                    assert(self.ports.reserved@ =~= old(self).ports.reserved@.difference(
                        ports_in(out@),
                    ));
                    assert forall|q: Seq<char>| #[trigger]
                        self.listeners@.contains_key(q) <==> (before.contains_key(q) && !m.take(
                            i + 1,
                        ).contains(q)) by {
                        lemma_taken(m, i as int, q);
                    }
                }
            }
            i = i + 1;
        }
        proof {
            assert(m.take(i as int) =~= m);
            assert forall|id: Seq<char>| !self.listeners@.contains_key(id) by {
                if self.listeners@.contains_key(id) {
                    assert(m.to_set().contains(id));
                }
            }
            assert(self.listeners@ =~= listeners::no_entries());
            assert forall|id: Seq<char>| #[trigger] before.contains_key(id) implies exists|k: int|
                0 <= k < out@.len() && (#[trigger] out@[k]).0@ == id by {
                assert(m.to_set().contains(id));
                let k = choose|k: int| 0 <= k < m.len() && m[k] == id;
                assert(out@[k].0@ == id);
            }
        }
        out
    }

    /// How many mailboxes listen.
    pub fn running_count(&self) -> (r: u32)
        ensures
            r == self.listeners@.dom().len() % 0x1_0000_0000,
    {
        let n: u64 = self.listeners.count() as u64;
        (n % 0x1_0000_0000) as u32
    }

    /// Whether a change of a mailbox has to move its listener: the port changed, and
    /// the mailbox was listening before.
    pub fn update(&self, id: &str, old_port: u16, new_port: u16) -> (r: bool)
        ensures
            r == (old_port != new_port && self.listeners@.contains_key(id@)),
    {
        new_port != old_port && self.listeners.contains(id)
    }

    /// Whether new chaos settings need the listener to be restarted.
    pub fn refresh_chaos(&self, id: &str) -> (r: bool)
        ensures
            r == self.listeners@.contains_key(id@),
    {
        self.listeners.contains(id)
    }

    /// The port on which a mailbox listens.
    pub fn listener_addr(&self, id: &str) -> (r: Option<u16>)
        ensures
            r == if self.listeners@.contains_key(id@) {
                Some(self.listeners@[id@])
            } else {
                None
            },
    {
        self.listeners.port_of(id)
    }
}

proof fn lemma_taken(m: Seq<Seq<char>>, i: int, q: Seq<char>)
    requires
        0 <= i < m.len(),
    ensures
        m.take(i + 1).contains(q) == (m.take(i).contains(q) || q == m[i]),
{
    let a = m.take(i);
    let b = m.take(i + 1);
    if a.contains(q) {
        let k = choose|k: int| 0 <= k < a.len() && a[k] == q;
        assert(b[k] == q);
    }
    if q == m[i] {
        assert(b[i] == q);
    }
    if b.contains(q) {
        let k = choose|k: int| 0 <= k < b.len() && b[k] == q;
        if k < i {
            assert(a[k] == q);
        }
    }
}

proof fn lemma_ports_push(v: Seq<(String, u16)>, x: (String, u16))
    ensures
        ports_in(v.push(x)) == ports_in(v).insert(x.1),
{
    let a = v.map_values(|e: (String, u16)| e.1);
    let b = v.push(x).map_values(|e: (String, u16)| e.1);
    assert(b =~= a.push(x.1));
    assert forall|p: u16| b.to_set().contains(p) == a.to_set().insert(x.1).contains(p) by {
        if a.contains(p) {
            let k = choose|k: int| 0 <= k < a.len() && a[k] == p;
            assert(b[k] == p);
        }
        if p == x.1 {
            assert(b[a.len() as int] == p);
        }
    }
    assert(ports_in(v.push(x)) =~= ports_in(v).insert(x.1));
}

/// Stopping and starting can be repeated: a mailbox that was taken down is not taken
/// down again, and one that was started is not started again. Neither touches the
/// other mailboxes.
pub proof fn law_start_and_stop_are_idempotent(
    table: Map<Seq<char>, u16>,
    id: Seq<char>,
    port: u16,
    other: Seq<char>,
)
    requires
        other != id,
    ensures
        !table.remove(id).contains_key(id),
        table.remove(id).remove(id) == table.remove(id),
        table.insert(id, port).contains_key(id),
        table.remove(id).contains_key(other) == table.contains_key(other),
        table.insert(id, port).contains_key(other) == table.contains_key(other),
{
    assert(table.remove(id).remove(id) =~= table.remove(id));
}

/// An entry of the schedule that is due takes its mailbox down as long as the
/// mailbox still has that expiry; where the expiry was moved behind the present or
/// taken away, the entry is stale and does nothing.
pub proof fn law_stale_expiries_do_nothing(entry_at: i64, expires_at: Option<i64>, now: i64)
    requires
        entry_at <= now,
    ensures
        expires_at == Some(entry_at) ==> is_expired(expires_at, now),
        expires_at is None ==> !is_expired(expires_at, now),
        expires_at matches Some(at) ==> (at > now ==> !is_expired(expires_at, now)),
{
}

/// A mailbox lives for its lifetime and no longer: made at `now` for `ttl` seconds, it
/// is expired at `later` exactly where that many seconds have passed.
pub proof fn law_mailbox_lives_its_ttl(
    m: mailboxes::MailboxModel,
    project_id: Seq<char>,
    name: Seq<char>,
    port: u16,
    kind: MailboxKind,
    ttl: u64,
    now: i64,
    id: Seq<char>,
    later: i64,
)
    requires
        mailboxes::is_new(m, project_id, name, port, kind, Some(ttl), now, id),
    ensures
        is_expired(m.expires_at, later) <==> later - now >= columns::wrapped(ttl) * 1000,
{
}

/// The transcript of a message that the store knows is no orphan, and neither is the
/// message.
pub proof fn law_transcripts_are_kept(raw: Seq<char>, referenced: Seq<Seq<char>>)
    requires
        referenced.contains(raw),
    ensures
        is_referenced(raw, referenced),
        is_referenced(raw + TRANSCRIPT_SUFFIX@, referenced),
{
    let path = raw + TRANSCRIPT_SUFFIX@;
    let n = path.len() - TRANSCRIPT_SUFFIX@.len();
    assert(path.skip(n) =~= TRANSCRIPT_SUFFIX@);
    assert(path.take(n) =~= raw);
}

/// The log says of a mailbox that could not be started which one it was and why, and that
/// the system wrote it.
pub proof fn law_failed_start_is_logged(id: Seq<char>, message: Seq<char>)
    ensures
        ({
            let e = failure_entry(id, message);
            &&& e.actor == "system"@
            &&& e.action == "mailbox.failed"@
            &&& e.target_kind == Some("mailbox"@)
            &&& e.target_id == Some(id)
            &&& e.metadata matches Some(m) && json::member(m, "error"@) == Some(
                json::JsonModel::Text(message),
            )
        }),
{
}

/// The store knows a file exactly where it lists it, or lists the file of which it is the
/// transcript.
pub proof fn law_known_files(path: Seq<char>, referenced: Seq<Seq<char>>)
    ensures
        is_referenced(path, referenced) <==> (referenced.contains(path) || exists|raw: Seq<char>|
            #[trigger] referenced.contains(raw) && path == raw + ".smtp.log"@),
{
    if is_referenced(path, referenced) && !referenced.contains(path) {
        let raw = transcript_of(path)->0;
        let n = path.len() - TRANSCRIPT_SUFFIX@.len();
        assert(path =~= path.take(n) + path.skip(n));
        assert(path == raw + ".smtp.log"@);
    }
    if exists|raw: Seq<char>| #[trigger] referenced.contains(raw) && path == raw + ".smtp.log"@ {
        let raw = choose|raw: Seq<char>| #[trigger]
            referenced.contains(raw) && path == raw + ".smtp.log"@;
        law_transcripts_are_kept(raw, referenced);
    }
}

/// A mailbox is expired from its expiry on, and one without an expiry never is.
pub proof fn law_expired_from_the_expiry_on(at: i64, now: i64)
    ensures
        is_expired(Some(at), now) == (now >= at),
        !is_expired(None, now),
{
}

/// The end of a path has no separator in it, and what is before it, if anything, ends in
/// one.
pub proof fn law_path_end(path: Seq<char>) -> (front: Seq<char>)
    ensures
        path == front + path_end(path),
        forall|i: int|
            0 <= i < path_end(path).len() ==> (#[trigger] path_end(path)[i]) != '/' && path_end(
                path,
            )[i] != '\\' && path_end(path)[i] != ':',
        front.len() > 0 ==> front.last() == '/' || front.last() == '\\' || front.last() == ':',
    decreases path.len(),
{
    if path.len() == 0 || is_separator(path.last()) {
        assert(path =~= path + Seq::empty());
        path
    } else {
        let front = law_path_end(path.drop_last());
        let end = path_end(path.drop_last());
        assert(path =~= path.drop_last().push(path.last()));
        assert(path_end(path) == end.push(path.last()));
        assert((front + end).push(path.last()) =~= front + path_end(path));
        front
    }
}

} // verus!
