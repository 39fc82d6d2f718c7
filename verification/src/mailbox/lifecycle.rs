//! The schedule of the mailboxes that expire. The scheduler sleeps until the
//! earliest expiry and then expires what is due, in the order of the expiries.

use vstd::multiset::Multiset;
use vstd::prelude::*;
use vstd::string::*;
use vstd::utf8::*;

verus! {

/// What the scheduler is told.
#[derive(Debug)]
pub enum ExpiryMsg {
    /// A mailbox expires at a time. An earlier entry of the same mailbox stays; it
    /// is recognised as stale when it is due.
    Add { mailbox_id: String, expires_at: i64 },
    /// A mailbox is gone. Its entries are recognised as stale when they are due.
    Remove { mailbox_id: String },
}

/// The expiries that are scheduled, in no particular order.
#[derive(Debug)]
pub struct Schedule {
    pub entries: Vec<(i64, String)>,
}

/// The entries as characters.
pub open spec fn entry_views(v: Seq<(i64, String)>) -> Seq<(i64, Seq<char>)> {
    v.map_values(|e: (i64, String)| (e.0, e.1@))
}

impl View for Schedule {
    type V = Multiset<(i64, Seq<char>)>;

    open spec fn view(&self) -> Multiset<(i64, Seq<char>)> {
        entry_views(self.entries@).to_multiset()
    }
}

/// `a` comes before `b` in the order of bytes.
pub open spec fn bytes_before(a: Seq<u8>, b: Seq<u8>) -> bool
    decreases a.len(),
{
    if b.len() == 0 {
        false
    } else if a.len() == 0 {
        true
    } else if a[0] != b[0] {
        a[0] < b[0]
    } else {
        bytes_before(a.drop_first(), b.drop_first())
    }
}

/// The earlier entry goes first, and of two at the same time the one with the
/// lower mailbox id.
pub open spec fn entry_before(a: (i64, Seq<char>), b: (i64, Seq<char>)) -> bool {
    a.0 < b.0 || (a.0 == b.0 && bytes_before(encode_utf8(a.1), encode_utf8(b.1)))
}

/// `e` is scheduled, and nothing that is scheduled goes before it.
pub open spec fn is_first(e: (i64, Seq<char>), s: Multiset<(i64, Seq<char>)>) -> bool {
    s.contains(e) && forall|f: (i64, Seq<char>)| #[trigger] s.contains(f) ==> !entry_before(f, e)
}

/// Something is scheduled at `at`, and nothing earlier.
pub open spec fn is_earliest(at: i64, s: Multiset<(i64, Seq<char>)>) -> bool {
    &&& exists|id: Seq<char>| s.contains((at, id))
    &&& forall|f: (i64, Seq<char>)| #[trigger] s.contains(f) ==> at <= f.0
}

/// The entry that goes first in `s` is due and is that of the mailbox `id`, and
/// `t` is what is left without it.
pub open spec fn is_popped(
    id: Seq<char>,
    now: i64,
    s: Multiset<(i64, Seq<char>)>,
    t: Multiset<(i64, Seq<char>)>,
) -> bool {
    exists|at: i64| #[trigger] is_first((at, id), s) && at <= now && t == s.remove((at, id))
}

fn bytes_lower(a: &[u8], b: &[u8]) -> (r: bool)
    ensures
        r == bytes_before(a@, b@),
{
    let mut i: usize = 0;
    assert(a@.skip(0) =~= a@);
    assert(b@.skip(0) =~= b@);
    while i < a.len() && i < b.len()
        invariant
            i <= a@.len(),
            i <= b@.len(),
            bytes_before(a@, b@) == bytes_before(a@.skip(i as int), b@.skip(i as int)),
        decreases a@.len() - i,
    {
        if a[i] != b[i] {
            return a[i] < b[i];
        }
        assert(a@.skip(i as int).drop_first() =~= a@.skip(i + 1));
        assert(b@.skip(i as int).drop_first() =~= b@.skip(i + 1));
        i = i + 1;
    }
    i < b.len()
}

fn entry_lower(a: &(i64, String), b: &(i64, String)) -> (r: bool)
    ensures
        r == entry_before((a.0, a.1@), (b.0, b.1@)),
{
    a.0 < b.0 || (a.0 == b.0 && bytes_lower(a.1.as_str().as_bytes(), b.1.as_str().as_bytes()))
}

/// The order of bytes is strict and carries over.
proof fn lemma_bytes_order(a: Seq<u8>, b: Seq<u8>, c: Seq<u8>)
    ensures
        !bytes_before(a, a),
        bytes_before(a, b) && bytes_before(b, c) ==> bytes_before(a, c),
    decreases a.len(),
{
    if a.len() > 0 {
        lemma_bytes_order(a.drop_first(), b.drop_first(), c.drop_first());
    }
}

/// The order of entries is strict and carries over.
proof fn lemma_entry_order(a: (i64, Seq<char>), b: (i64, Seq<char>), c: (i64, Seq<char>))
    ensures
        !entry_before(a, a),
        entry_before(a, b) && entry_before(b, c) ==> entry_before(a, c),
{
    lemma_bytes_order(encode_utf8(a.1), encode_utf8(b.1), encode_utf8(c.1));
}

/// How long to sleep until `at`: not at all once it has passed.
pub open spec fn delay(at: int, now: int) -> int {
    if at > now {
        at - now
    } else {
        0
    }
}

impl Schedule {
    /// A schedule of the given mailboxes and expiries.
    pub fn new(initial: Vec<(String, i64)>) -> (r: Self)
        ensures
            r@ == initial@.map_values(|e: (String, i64)| (e.1, e.0@)).to_multiset(),
    {
        let mut entries: Vec<(i64, String)> = Vec::new();
        let mut i: usize = 0;
        while i < initial.len()
            invariant
                i <= initial@.len(),
                entries@.len() == i,
                forall|j: int|
                    0 <= j < i ==> (#[trigger] entries@[j]).0 == initial@[j].1 && entries@[j].1@
                        == initial@[j].0@,
            decreases initial@.len() - i,
        {
            entries.push((initial[i].1, initial[i].0.clone()));
            i = i + 1;
        }
        assert(entry_views(entries@) =~= initial@.map_values(|e: (String, i64)| (e.1, e.0@)));
        Schedule { entries }
    }

    /// Takes a message in. Removal is left to the time when the entry is due.
    pub fn apply(&mut self, msg: ExpiryMsg)
        ensures
            match msg {
                ExpiryMsg::Add { mailbox_id, expires_at } => final(self)@ == old(self)@.insert(
                    (expires_at, mailbox_id@),
                ),
                ExpiryMsg::Remove { .. } => final(self)@ == old(self)@,
            },
    {
        match msg {
            ExpiryMsg::Add { mailbox_id, expires_at } => {
                let ghost before = entry_views(self.entries@);
                let ghost e = (expires_at, mailbox_id@);
                self.entries.push((expires_at, mailbox_id));
                assert(entry_views(self.entries@) =~= before.push(e));
                proof {
                    before.to_multiset_ensures();
                }
            },
            ExpiryMsg::Remove { .. } => {},
        }
    }

    /// The place of the entry that goes first.
    fn first(&self) -> (r: Option<usize>)
        ensures
            match r {
                Some(i) => i < self.entries@.len() && is_first(
                    entry_views(self.entries@)[i as int],
                    self@,
                ),
                None => self.entries@.len() == 0 && self@ =~= Multiset::empty(),
            },
    {
        let ghost m = entry_views(self.entries@);
        proof {
            m.to_multiset_ensures();
        }
        if self.entries.len() == 0 {
            assert(self@ =~= Multiset::empty()) by {
                assert(m =~= Seq::empty());
                assert forall|e: (i64, Seq<char>)| self@.count(e) == 0 by {
                    if self@.count(e) > 0 {
                        assert(m.contains(e));
                    }
                }
            }
            return None;
        }
        let mut best: usize = 0;
        let mut i: usize = 1;
        proof {
            lemma_entry_order(m[0], m[0], m[0]);
        }
        while i < self.entries.len()
            invariant
                best < i <= self.entries@.len(),
                m == entry_views(self.entries@),
                forall|j: int| 0 <= j < i ==> !entry_before(#[trigger] m[j], m[best as int]),
            decreases self.entries@.len() - i,
        {
            if entry_lower(&self.entries[i], &self.entries[best]) {
                proof {
                    assert forall|j: int| 0 <= j < i + 1 implies !entry_before(
                        #[trigger] m[j],
                        m[i as int],
                    ) by {
                        lemma_entry_order(m[j], m[i as int], m[best as int]);
                    }
                }
                best = i;
            }
            i = i + 1;
        }
        proof {
            assert(m.contains(m[best as int]));
            assert forall|f: (i64, Seq<char>)| #[trigger] self@.contains(f) implies !entry_before(
                f,
                m[best as int],
            ) by {
                assert(m.contains(f));
                let j = choose|j: int| 0 <= j < m.len() && m[j] == f;
                assert(!entry_before(m[j], m[best as int]));
            }
        }
        Some(best)
    }

    /// The time of the earliest expiry.
    pub fn next(&self) -> (r: Option<i64>)
        ensures
            match r {
                Some(at) => is_earliest(at, self@),
                None => self@ == Multiset::<(i64, Seq<char>)>::empty(),
            },
    {
        match self.first() {
            Some(i) => {
                let at: i64 = self.entries[i].0;
                proof {
                    let e = entry_views(self.entries@)[i as int];
                    assert(self@.contains((at, e.1)));
                    assert forall|f: (i64, Seq<char>)| #[trigger] self@.contains(f) implies at
                        <= f.0 by {
                        assert(!entry_before(f, e));
                    }
                }
                Some(at)
            },
            None => None,
        }
    }

    /// Takes the entry that goes first out, if it is due, and gives its mailbox.
    pub fn pop_due(&mut self, now: i64) -> (r: Option<String>)
        ensures
            match r {
                Some(id) => is_popped(id@, now, old(self)@, final(self)@),
                None => final(self)@ == old(self)@ && forall|f: (i64, Seq<char>)| #[trigger]
                    old(self)@.contains(f) ==> f.0 > now,
            },
    {
        match self.first() {
            Some(i) => {
                if self.entries[i].0 > now {
                    return None;
                }
                let ghost m = entry_views(self.entries@);
                let (at, id) = self.entries.remove(i);
                proof {
                    m.to_multiset_ensures();
                    assert(entry_views(self.entries@) =~= m.remove(i as int));
                    assert(m[i as int] == (at, id@));
                    assert(is_first((at, id@), old(self)@));
                }
                Some(id)
            },
            None => None,
        }
    }
}

/// The milliseconds to sleep until the earliest expiry; nothing where none is
/// scheduled and the scheduler only waits for messages.
pub fn sleep_until_or_forever(next: Option<i64>, now: i64) -> (r: Option<u64>)
    requires
        next matches Some(at) ==> i64::MIN <= at - now <= i64::MAX,
    ensures
        match next {
            Some(at) => r matches Some(ms) && ms == delay(at as int, now as int),
            None => r is None,
        },
{
    match next {
        Some(at) => {
            let d: i64 = at - now;
            if d > 0 {
                Some(d as u64)
            } else {
                Some(0)
            }
        },
        None => None,
    }
}

/// What is taken out of a schedule comes in its order: an entry that goes first
/// after another was taken out does not go before that other.
pub proof fn law_expiries_come_in_order(
    s: Multiset<(i64, Seq<char>)>,
    e: (i64, Seq<char>),
    f: (i64, Seq<char>),
)
    requires
        is_first(e, s),
        is_first(f, s.remove(e)),
    ensures
        !entry_before(f, e),
        e.0 <= f.0,
{
    assert(s.contains(f));
}

/// After sleeping as long as the schedule says, the entry that goes first is due.
pub proof fn law_waking_finds_work(s: Multiset<(i64, Seq<char>)>, e: (i64, Seq<char>), now: i64)
    requires
        is_first(e, s),
    ensures
        e.0 <= now + delay(e.0 as int, now as int),
{
}

/// How long the scheduler sleeps: until the time, and not at all where it is past.
pub proof fn law_delay(at: int, now: int)
    ensures
        at >= now ==> now + delay(at, now) == at,
        at < now ==> delay(at, now) == 0,
{
}

/// The order of bytes: the first difference decides, and a text comes before every longer
/// one that begins with it.
pub proof fn law_byte_order(p: Seq<u8>, x: u8, a: Seq<u8>, y: u8, b: Seq<u8>)
    ensures
        x < y ==> bytes_before(p + seq![x] + a, p + seq![y] + b),
        x < y ==> !bytes_before(p + seq![y] + b, p + seq![x] + a),
        bytes_before(p, p + seq![x] + a),
        !bytes_before(p + seq![x] + a, p),
        !bytes_before(p, p),
    decreases p.len(),
{
    let s = p + seq![x] + a;
    let t = p + seq![y] + b;
    if p.len() > 0 {
        let q = p.drop_first();
        law_byte_order(q, x, a, y, b);
        assert(s.drop_first() =~= q + seq![x] + a);
        assert(t.drop_first() =~= q + seq![y] + b);
        assert(s[0] == p[0] && t[0] == p[0]);
    } else {
        assert(s[0] == x && t[0] == y);
    }
}

/// What goes first is decided by the time, and at the same time by the bytes of the
/// mailbox id.
pub proof fn law_entry_order(s: i64, a: Seq<char>, t: i64, b: Seq<char>)
    ensures
        s < t ==> entry_before((s, a), (t, b)) && !entry_before((t, b), (s, a)),
        entry_before((s, a), (s, b)) == bytes_before(encode_utf8(a), encode_utf8(b)),
{
}

/// What is taken out of the schedule is due, was in it, and nothing in it is earlier; the
/// rest stays.
pub proof fn law_popped(
    id: Seq<char>,
    now: i64,
    s: Multiset<(i64, Seq<char>)>,
    t: Multiset<(i64, Seq<char>)>,
)
    requires
        is_popped(id, now, s, t),
    ensures
        exists|at: i64|
            s.contains((at, id)) && at <= now && (forall|f: (i64, Seq<char>)| #[trigger]
                s.contains(f) ==> at <= f.0) && s == #[trigger] t.insert((at, id)),
        t.len() == s.len() - 1,
{
    let at = choose|at: i64| #[trigger]
        is_first((at, id), s) && at <= now && t == s.remove((at, id));
    assert forall|f: (i64, Seq<char>)| #[trigger] s.contains(f) implies at <= f.0 by {
        assert(!entry_before(f, (at, id)));
    }
    assert(s =~= t.insert((at, id)));
}

} // verus!
