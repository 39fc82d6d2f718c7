//! The table of the running listeners: the port of each mailbox that listens.

use dashmap::DashMap;
use vstd::prelude::*;
use vstd::string::*;

use crate::text::chars;

verus! {

/// `dashmap::DashMap`, opaque.
#[verifier::external_type_specification]
#[verifier::external_body]
#[verifier::reject_recursive_types(K)]
#[verifier::reject_recursive_types(V)]
#[verifier::reject_recursive_types(S)]
pub struct ExDashMap<K, V, S>(dashmap::DashMap<K, V, S>);

/// The keys and values that a map of the `dashmap` crate holds.
pub uninterp spec fn entries(m: DashMap<String, u16, std::hash::RandomState>) -> Map<
    Seq<char>,
    u16,
>;

/// The map without entries.
pub open spec fn no_entries() -> Map<Seq<char>, u16> {
    Map::empty()
}

/// `DashMap::new`: an empty map.
#[verifier::external_body]
fn new_map() -> (r: DashMap<String, u16, std::hash::RandomState>)
    ensures
        entries(r) == no_entries(),
{
    DashMap::new()
}

/// `DashMap::contains_key`.
#[verifier::external_body]
fn map_contains(m: &DashMap<String, u16, std::hash::RandomState>, id: &str) -> (r: bool)
    ensures
        r == entries(*m).contains_key(id@),
{
    m.contains_key(id)
}

/// `DashMap::get`, as a copy of the value.
#[verifier::external_body]
fn map_get(m: &DashMap<String, u16, std::hash::RandomState>, id: &str) -> (r: Option<u16>)
    ensures
        r == if entries(*m).contains_key(id@) {
            Some(entries(*m)[id@])
        } else {
            None
        },
{
    m.get(id).map(|e| *e.value())
}

/// `DashMap::insert`: the key has the new value, whatever it had before.
#[verifier::external_body]
fn map_insert(m: &mut DashMap<String, u16, std::hash::RandomState>, id: String, port: u16)
    ensures
        entries(*final(m)) == entries(*old(m)).insert(id@, port),
{
    m.insert(id, port);
}

/// `DashMap::remove`: the key is gone, and its value comes back.
#[verifier::external_body]
fn map_remove(m: &mut DashMap<String, u16, std::hash::RandomState>, id: &str) -> (r: Option<u16>)
    ensures
        entries(*final(m)) == entries(*old(m)).remove(id@),
        r == if entries(*old(m)).contains_key(id@) {
            Some(entries(*old(m))[id@])
        } else {
            None
        },
{
    m.remove(id).map(|e| e.1)
}

/// `DashMap::len`: the number of keys, of which there are only ever finitely many.
#[verifier::external_body]
fn map_len(m: &DashMap<String, u16, std::hash::RandomState>) -> (r: usize)
    ensures
        r == entries(*m).dom().len(),
{
    m.len()
}

/// `DashMap::iter`, as the keys: each of them once, in an order that is left open.
#[verifier::external_body]
fn map_keys(m: &DashMap<String, u16, std::hash::RandomState>) -> (r: Vec<String>)
    ensures
        chars::seq_views(r@).no_duplicates(),
        chars::seq_views(r@).to_set() == entries(*m).dom(),
{
    m.iter().map(|e| e.key().clone()).collect()
}

/// The running listeners.
#[derive(Debug)]
pub struct Listeners {
    map: DashMap<String, u16, std::hash::RandomState>,
}

impl View for Listeners {
    type V = Map<Seq<char>, u16>;

    closed spec fn view(&self) -> Map<Seq<char>, u16> {
        entries(self.map)
    }
}

impl Listeners {
    /// No listeners.
    pub fn new() -> (r: Self)
        ensures
            r@ == no_entries(),
    {
        Listeners { map: new_map() }
    }

    /// Whether the mailbox listens.
    pub fn contains(&self, id: &str) -> (r: bool)
        ensures
            r == self@.contains_key(id@),
    {
        map_contains(&self.map, id)
    }

    /// The port on which the mailbox listens.
    pub fn port_of(&self, id: &str) -> (r: Option<u16>)
        ensures
            r == if self@.contains_key(id@) {
                Some(self@[id@])
            } else {
                None
            },
    {
        map_get(&self.map, id)
    }

    /// Enters a listener.
    pub fn add_listener(&mut self, id: String, port: u16)
        ensures
            final(self)@ == old(self)@.insert(id@, port),
    {
        map_insert(&mut self.map, id, port);
    }

    /// Strikes a listener out, and gives its port.
    pub fn take_listener(&mut self, id: &str) -> (r: Option<u16>)
        ensures
            final(self)@ == old(self)@.remove(id@),
            r == if old(self)@.contains_key(id@) {
                Some(old(self)@[id@])
            } else {
                None
            },
    {
        map_remove(&mut self.map, id)
    }

    /// How many mailboxes listen.
    pub fn count(&self) -> (r: usize)
        ensures
            r == self@.dom().len(),
    {
        map_len(&self.map)
    }

    /// The mailboxes that listen, each once.
    pub fn ids(&self) -> (r: Vec<String>)
        ensures
            chars::seq_views(r@).no_duplicates(),
            chars::seq_views(r@).to_set() == self@.dom(),
    {
        map_keys(&self.map)
    }
}

} // verus!
