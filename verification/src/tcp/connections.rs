//! The table of TCP connections, keyed by their 4-tuple.

use vstd::prelude::*;

use crate::addr_pairs::Ipv4Addr;
use crate::error::Error;
use crate::addr_pairs::{Ipv4AddrPair, PortPair};
use crate::tcp::flags::TcpFlags;
use crate::tcp::pending_segment::{spec_new_pending, spec_time_due, PendingSegment, PendingView};
use crate::tcp::segment::{SegmentView, TcpSegment};
use crate::tcp::send_info::SendInfo;
use crate::tcp::seq_space::SeqDist;
use crate::tcp::state::{pending_views, ConnState, ConnView, TcpState};
use crate::tcp::timers::{
    spec_close_entry, spec_fin_ack, spec_gives_up, spec_has_due, spec_is_closing, spec_is_due,
    spec_is_established, spec_refresh, spec_retransmit_all, spec_retransmit_entry,
    spec_retransmitted, spec_server_segment,
};

verus! {

/// Key identifying a TCP connection.
#[derive(Clone, Copy, Debug, PartialEq, Eq, Structural)]
pub struct ConnKey {
    pub client_ip: Ipv4Addr,
    pub client_port: u16,
    pub server_ip: Ipv4Addr,
    pub server_port: u16,
}

/// One connection of the table.
#[derive(Debug)]
pub struct ConnEntry {
    pub key: ConnKey,
    pub conn: ConnState,
}

/// The entries of a table, in the order in which the table walks them.
pub type Entries = Seq<(ConnKey, ConnView)>;

/// The connections of `entries` as a map from key to state. A later entry for a key overrides an
/// earlier one (which never happens in a table, whose keys are distinct).
pub open spec fn table_of(entries: Entries) -> Map<ConnKey, ConnView>
    decreases entries.len(),
{
    if entries.len() == 0 {
        Map::empty()
    } else {
        table_of(entries.drop_last()).insert(entries.last().0, entries.last().1)
    }
}

/// No two entries have the same key.
pub open spec fn keys_distinct(entries: Entries) -> bool {
    forall|i: int, j: int|
        0 <= i < entries.len() && 0 <= j < entries.len() && i != j ==> #[trigger] entries[i].0
            != #[trigger] entries[j].0
}

/// The mathematical model of a `TcpConnections`.
pub struct TcpConnectionsView {
    pub entries: Entries,
    /// The initial retransmission timeout in milliseconds.
    pub initial_rto: u64,
    /// The number of retransmissions of a segment before giving up on its connection.
    pub max_retries: u8,
}

impl TcpConnectionsView {
    /// The connections as a map from key to state.
    pub open spec fn table(self) -> Map<ConnKey, ConnView> {
        table_of(self.entries)
    }
}

/// The model of the entries of a table.
pub open spec fn entries_view(v: Seq<ConnEntry>) -> Entries {
    v.map_values(|e: ConnEntry| (e.key, e.conn@))
}

/// Tracks per-connection state keyed by the 4-tuple.
#[derive(Debug)]
pub struct TcpConnections {
    entries: Vec<ConnEntry>,
    initial_rto: u64,
    max_retries: u8,
}

impl View for TcpConnections {
    type V = TcpConnectionsView;

    closed spec fn view(&self) -> TcpConnectionsView {
        TcpConnectionsView {
            entries: entries_view(self.entries@),
            initial_rto: self.initial_rto,
            max_retries: self.max_retries,
        }
    }
}

/// A key is in the table exactly when some entry holds it.
pub proof fn lemma_table_contains(entries: Entries, k: ConnKey)
    ensures
        table_of(entries).contains_key(k) <==> exists|i: int|
            0 <= i < entries.len() && #[trigger] entries[i].0 == k,
    decreases entries.len(),
{
    if entries.len() > 0 {
        lemma_table_contains(entries.drop_last(), k);
        if table_of(entries.drop_last()).contains_key(k) {
            let i = choose|i: int| 0 <= i < entries.drop_last().len() && #[trigger] entries.drop_last()[i].0 == k;
            assert(entries[i].0 == k);
        }
        if exists|i: int| 0 <= i < entries.len() && #[trigger] entries[i].0 == k {
            let i = choose|i: int| 0 <= i < entries.len() && #[trigger] entries[i].0 == k;
            if i < entries.len() - 1 {
                assert(entries.drop_last()[i].0 == k);
            }
        }
    }
}

/// With distinct keys, the table maps the key of each entry to that entry's connection.
pub proof fn lemma_table_index(entries: Entries, i: int)
    requires
        keys_distinct(entries),
        0 <= i < entries.len(),
    ensures
        table_of(entries).contains_key(entries[i].0),
        table_of(entries)[entries[i].0] == entries[i].1,
    decreases entries.len(),
{
    if i < entries.len() - 1 {
        lemma_table_index(entries.drop_last(), i);
        assert(entries.drop_last()[i] == entries[i]);
    }
}

/// Removing an entry with distinct keys removes its key from the table.
pub proof fn lemma_table_remove(entries: Entries, i: int)
    requires
        keys_distinct(entries),
        0 <= i < entries.len(),
    ensures
        table_of(entries.remove(i)) =~= table_of(entries).remove(entries[i].0),
        keys_distinct(entries.remove(i)),
    decreases entries.len(),
{
    let k = entries[i].0;
    if i == entries.len() - 1 {
        assert(entries.remove(i) =~= entries.drop_last());
        lemma_table_contains(entries.drop_last(), k);
        if table_of(entries.drop_last()).contains_key(k) {
            let j = choose|j: int| 0 <= j < entries.drop_last().len() && #[trigger] entries.drop_last()[j].0 == k;
            assert(entries[j].0 == k);
        }
    } else {
        let d = entries.drop_last();
        lemma_table_remove(d, i);
        assert(entries.remove(i) =~= d.remove(i).push(entries.last()));
        assert(entries.remove(i).drop_last() =~= d.remove(i));
        assert(entries.last().0 != k);
    }
}

/// Replacing the connection of an entry with distinct keys updates its key in the table.
pub proof fn lemma_table_update(entries: Entries, i: int, v: ConnView)
    requires
        keys_distinct(entries),
        0 <= i < entries.len(),
    ensures
        table_of(entries.update(i, (entries[i].0, v))) =~= table_of(entries).insert(entries[i].0, v),
        keys_distinct(entries.update(i, (entries[i].0, v))),
    decreases entries.len(),
{
    let k = entries[i].0;
    let u = entries.update(i, (k, v));
    if i == entries.len() - 1 {
        assert(u.drop_last() =~= entries.drop_last());
    } else {
        let d = entries.drop_last();
        lemma_table_update(d, i, v);
        assert(u.drop_last() =~= d.update(i, (k, v)));
        assert(entries.last().0 != k);
    }
}

/// Appending an entry with a new key inserts it into the table.
pub proof fn lemma_table_push(entries: Entries, k: ConnKey, v: ConnView)
    requires
        keys_distinct(entries),
        !table_of(entries).contains_key(k),
    ensures
        table_of(entries.push((k, v))) =~= table_of(entries).insert(k, v),
        keys_distinct(entries.push((k, v))),
{
    assert(entries.push((k, v)).drop_last() =~= entries);
    lemma_table_contains(entries, k);
    assert forall|i: int, j: int|
        0 <= i < entries.push((k, v)).len() && 0 <= j < entries.push((k, v)).len() && i != j
        implies #[trigger] entries.push((k, v))[i].0 != #[trigger] entries.push((k, v))[j].0 by {
        if i < entries.len() && j < entries.len() {
            assert(entries[i].0 != entries[j].0);
        } else if i < entries.len() {
            assert(entries[i].0 != k);
        } else if j < entries.len() {
            assert(entries[j].0 != k);
        }
    }
}

impl TcpConnections {
    #[verifier::type_invariant]
    spec fn inv(self) -> bool {
        keys_distinct(entries_view(self.entries@))
    }

    /// The keys of the table are distinct.
    pub fn keys_are_distinct(&self)
        ensures
            keys_distinct(self@.entries),
    {
        proof {
            use_type_invariant(self);
        }
    }

    /// An empty table whose segments are first retransmitted after `initial_rto` milliseconds and
    /// given up on after `max_retries` retransmissions.
    pub fn new(initial_rto: u64, max_retries: u8) -> (r: Self)
        ensures
            r@.entries == Seq::<(ConnKey, ConnView)>::empty(),
            r@.initial_rto == initial_rto,
            r@.max_retries == max_retries,
    {
        let r = Self { entries: Vec::new(), initial_rto, max_retries };
        assert(r@.entries =~= Seq::<(ConnKey, ConnView)>::empty());
        r
    }

    /// The number of connections.
    pub fn len(&self) -> (n: usize)
        ensures
            n == self@.entries.len(),
    {
        self.entries.len()
    }

    /// The position of the connection with key `key` in the table, if any.
    pub fn find(&self, key: ConnKey) -> (r: Option<usize>)
        ensures
            match r {
                Some(i) => i < self@.entries.len() && self@.entries[i as int].0 == key,
                None => !self@.table().contains_key(key),
            },
    {
        let n = self.entries.len();
        let mut i: usize = 0;
        while i < n
            invariant
                n == self.entries@.len(),
                i <= n,
                forall|j: int| 0 <= j < i ==> self@.entries[j].0 != key,
            decreases n - i,
        {
            if self.entries[i].key == key {
                return Some(i);
            }
            i = i + 1;
        }
        proof {
            lemma_table_contains(self@.entries, key);
        }
        None
    }

    /// The connection with key `key`, if any.
    pub fn get(&self, key: ConnKey) -> (r: Option<&ConnState>)
        ensures
            match r {
                Some(c) => self@.table().contains_key(key) && self@.table()[key] == c@,
                None => !self@.table().contains_key(key),
            },
    {
        proof {
            use_type_invariant(self);
        }
        match self.find(key) {
            Some(i) => {
                proof {
                    lemma_table_index(self@.entries, i as int);
                }
                Some(&self.entries[i].conn)
            },
            None => None,
        }
    }

    /// Removes and returns the connection at position `i`, to be put back with `restore`.
    pub(crate) fn take(&mut self, i: usize) -> (conn: ConnState)
        requires
            i < old(self)@.entries.len(),
        ensures
            final(self)@.entries == old(self)@.entries.remove(i as int),
            final(self)@.initial_rto == old(self)@.initial_rto,
            final(self)@.max_retries == old(self)@.max_retries,
            conn@ == old(self)@.entries[i as int].1,
            final(self)@.table() == old(self)@.table().remove(old(self)@.entries[i as int].0),
    {
        proof {
            use_type_invariant(&*self);
            lemma_table_remove(self@.entries, i as int);
        }
        let mut entries: Vec<ConnEntry> = Vec::new();
        std::mem::swap(&mut entries, &mut self.entries);
        let entry = entries.remove(i);
        proof {
            assert(entries_view(entries@) =~= old(self)@.entries.remove(i as int));
        }
        self.entries = entries;
        entry.conn
    }

    /// Puts back at position `i` the connection taken from there, in the state `conn`.
    pub(crate) fn restore(&mut self, i: usize, key: ConnKey, conn: ConnState)
        requires
            i <= old(self)@.entries.len(),
            !old(self)@.table().contains_key(key),
        ensures
            final(self)@.entries == old(self)@.entries.insert(i as int, (key, conn@)),
            final(self)@.initial_rto == old(self)@.initial_rto,
            final(self)@.max_retries == old(self)@.max_retries,
            final(self)@.table() == old(self)@.table().insert(key, conn@),
    {
        proof {
            use_type_invariant(&*self);
        }
        let ghost old_entries = self@.entries;
        let ghost v = conn@;
        let mut entries: Vec<ConnEntry> = Vec::new();
        std::mem::swap(&mut entries, &mut self.entries);
        entries.insert(i, ConnEntry { key, conn });
        proof {
            assert(entries_view(entries@) =~= old_entries.insert(i as int, (key, v)));
            lemma_table_insert_at(old_entries, i as int, key, v);
        }
        self.entries = entries;
    }

    /// Removes the connection with key `key`, if any.
    pub fn remove(&mut self, key: ConnKey)
        ensures
            final(self)@.table() == old(self)@.table().remove(key),
            final(self)@.initial_rto == old(self)@.initial_rto,
            final(self)@.max_retries == old(self)@.max_retries,
    {
        match self.find(key) {
            Some(i) => {
                self.take(i);
            },
            None => {
                assert(self@.table() =~= old(self)@.table().remove(key));
            },
        }
    }

    /// Adds `conn` under `key`, replacing any connection already there.
    pub fn insert(&mut self, key: ConnKey, conn: ConnState)
        ensures
            final(self)@.table() == old(self)@.table().insert(key, conn@),
            final(self)@.initial_rto == old(self)@.initial_rto,
            final(self)@.max_retries == old(self)@.max_retries,
    {
        self.remove(key);
        let n = self.entries.len();
        proof {
            use_type_invariant(&*self);
        }
        self.restore(n, key, conn);
    }

    /// Adds a new SYN-RECEIVED connection to the table. Fails if the connection's TCP state is
    /// not SYN-RECEIVED.
    pub fn insert_syn_rcv(&mut self, key: ConnKey, conn: ConnState) -> (r: Result<(), Error>)
        ensures
            conn@.tcp_state is SynReceived ==> r is Ok && final(self)@.table() == old(
                self,
            )@.table().insert(key, conn@),
            !(conn@.tcp_state is SynReceived) ==> r == Err::<(), Error>(Error::NotSynReceived)
                && final(self)@ == old(self)@,
            final(self)@.initial_rto == old(self)@.initial_rto,
            final(self)@.max_retries == old(self)@.max_retries,
    {
        if let TcpState::SynReceived(_) = conn.tcp_state {
            self.insert(key, conn);
            Ok(())
        } else {
            Err(Error::NotSynReceived)
        }
    }

    /// The initial retransmission timeout in milliseconds.
    pub fn initial_rto(&self) -> (r: u64)
        ensures
            r == self@.initial_rto,
    {
        self.initial_rto
    }

    /// The number of retransmissions before giving up on a connection.
    pub fn max_retries(&self) -> (r: u8)
        ensures
            r == self@.max_retries,
    {
        self.max_retries
    }
}

/// The models of a sequence of segments.
pub open spec fn segments_view(v: Seq<TcpSegment>) -> Seq<SegmentView> {
    v.map_values(|s: TcpSegment| s@)
}

proof fn lemma_retransmit_keys(s: Entries, initial_rto: u64, max_retries: u8, now: u64)
    requires
        keys_distinct(s),
    ensures
        keys_distinct(spec_retransmit_all(s, initial_rto, max_retries, now).0),
        forall|i: int|
            0 <= i < spec_retransmit_all(s, initial_rto, max_retries, now).0.len() ==> exists|
                j: int,
            |
                0 <= j < s.len() && #[trigger] s[j].0 == (#[trigger] spec_retransmit_all(
                    s,
                    initial_rto,
                    max_retries,
                    now,
                ).0[i]).0,
    decreases s.len(),
{
    if s.len() > 0 {
        let d = s.drop_first();
        assert forall|a: int, b: int| 0 <= a < d.len() && 0 <= b < d.len() && a != b implies #[trigger] d[a].0
            != #[trigger] d[b].0 by {
            assert(d[a] == s[a + 1] && d[b] == s[b + 1]);
        }
        lemma_retransmit_keys(d, initial_rto, max_retries, now);
        let rest = spec_retransmit_all(d, initial_rto, max_retries, now).0;
        let r = spec_retransmit_all(s, initial_rto, max_retries, now).0;
        let (c, segs) = spec_retransmit_entry(s[0].0, s[0].1, initial_rto, max_retries, now);
        assert forall|i: int| 0 <= i < rest.len() implies (#[trigger] rest[i]).0 != s[0].0 by {
            let j = choose|j: int| 0 <= j < d.len() && #[trigger] d[j].0 == rest[i].0;
            assert(s[j + 1].0 == rest[i].0);
        }
        if c is Some {
            assert(r =~= seq![(s[0].0, c.unwrap())] + rest);
            assert forall|i: int| 0 <= i < r.len() implies exists|j: int|
                0 <= j < s.len() && #[trigger] s[j].0 == (#[trigger] r[i]).0 by {
                if i == 0 {
                    assert(s[0].0 == r[0].0);
                } else {
                    assert(r[i] == rest[i - 1]);
                    let j = choose|j: int| 0 <= j < d.len() && #[trigger] d[j].0 == rest[i - 1].0;
                    assert(s[j + 1].0 == r[i].0);
                }
            }
            assert forall|a: int, b: int| 0 <= a < r.len() && 0 <= b < r.len() && a != b implies #[trigger] r[a].0
                != #[trigger] r[b].0 by {
                if a > 0 && b > 0 {
                    assert(r[a] == rest[a - 1] && r[b] == rest[b - 1]);
                } else if a == 0 {
                    assert(r[b] == rest[b - 1]);
                } else {
                    assert(r[a] == rest[a - 1]);
                }
            }
        } else {
            assert(r == rest);
            assert forall|i: int| 0 <= i < r.len() implies exists|j: int|
                0 <= j < s.len() && #[trigger] s[j].0 == (#[trigger] r[i]).0 by {
                let j = choose|j: int| 0 <= j < d.len() && #[trigger] d[j].0 == rest[i].0;
                assert(s[j + 1].0 == r[i].0);
            }
        }
    }
}

/// Whether some pending segment of `c` is due, and whether a due one has exhausted its retries.
fn scan_due(conn: &ConnState, initial_rto: u64, max_retries: u8, now: u64) -> (r: (bool, bool))
    ensures
        r.0 == spec_has_due(conn@, initial_rto, now),
        r.1 == spec_gives_up(conn@, initial_rto, max_retries, now),
{
    let n = conn.pending.len();
    let mut has_due = false;
    let mut gives_up = false;
    let mut j: usize = 0;
    while j < n
        invariant
            n == conn.pending@.len(),
            j <= n,
            has_due == exists|k: int| 0 <= k < j && spec_is_due(#[trigger] conn@.pending[k], initial_rto, now),
            gives_up == exists|k: int|
                0 <= k < j && spec_is_due(#[trigger] conn@.pending[k], initial_rto, now)
                    && conn@.pending[k].retries >= max_retries,
        decreases n - j,
    {
        let due = conn.pending[j].time_due(initial_rto, now) <= now;
        assert(conn@.pending[j as int] == conn.pending@[j as int]@);
        if due {
            has_due = true;
            if conn.pending[j].exhausted_retries(max_retries) {
                gives_up = true;
            }
        }
        j = j + 1;
    }
    (has_due, gives_up)
}

/// The retransmission round at `now` for one connection.
fn retransmit_entry(entry: ConnEntry, initial_rto: u64, max_retries: u8, now: u64) -> (r: (
    Option<ConnEntry>,
    Vec<TcpSegment>,
))
    ensures
        match spec_retransmit_entry(entry.key, entry.conn@, initial_rto, max_retries, now).0 {
            Some(c) => r.0 matches Some(e) && e.key == entry.key && e.conn@ == c,
            None => r.0 is None,
        },
        segments_view(r.1@) == spec_retransmit_entry(
            entry.key,
            entry.conn@,
            initial_rto,
            max_retries,
            now,
        ).1,
{
    let (has_due, gives_up) = scan_due(&entry.conn, initial_rto, max_retries, now);
    if !has_due {
        return (Some(entry), Vec::new());
    }
    if gives_up {
        return (None, Vec::new());
    }
    let key = entry.key;
    let mut conn = entry.conn;
    let ghost orig = conn@.pending;
    let ghost pred = |p: PendingView| spec_is_due(p, initial_rto, now);
    let ghost refresh = |p: PendingView| spec_refresh(p, initial_rto, now);
    let ghost to_seg = |p: PendingView| spec_server_segment(key, p.send_info);
    let mut remaining: Vec<PendingSegment> = Vec::new();
    std::mem::swap(&mut remaining, &mut conn.pending);
    let mut refreshed: Vec<PendingSegment> = Vec::new();
    let mut out: Vec<TcpSegment> = Vec::new();
    let ghost mut j: int = 0;
    while remaining.len() > 0
        invariant
            pred == (|p: PendingView| spec_is_due(p, initial_rto, now)),
            refresh == (|p: PendingView| spec_refresh(p, initial_rto, now)),
            to_seg == (|p: PendingView| spec_server_segment(key, p.send_info)),
            0 <= j <= orig.len(),
            pending_views(remaining@) == orig.skip(j),
            pending_views(refreshed@) == orig.take(j).map_values(refresh),
            segments_view(out@) == orig.take(j).filter(pred).map_values(to_seg),
        decreases remaining.len(),
    {
        let ghost before = remaining@;
        let mut seg = remaining.remove(0);
        proof {
            assert(before.len() > 0);
            assert(pending_views(before).len() == before.len());
            assert(j < orig.len());
            assert(pending_views(before)[0] == seg@);
            assert(pending_views(before)[0] == orig.skip(j)[0]);
            assert(orig[j] == seg@);
            assert(pending_views(before).drop_first() =~= pending_views(remaining@));
            assert(orig.skip(j).drop_first() =~= orig.skip(j + 1));
            assert(orig.take(j + 1).drop_last() =~= orig.take(j));
            reveal_with_fuel(Seq::<_>::filter, 1);
        }
        let ghost sv = seg@;
        if seg.time_due(initial_rto, now) <= now {
            let info = seg.retransmit_info(now);
            let ghost iv = info@;
            let ghost out_before = out@;
            out.push(
                TcpSegment::from_pairs_and_info(
                    Ipv4AddrPair { src: key.server_ip, dst: key.client_ip },
                    PortPair { src: key.server_port, dst: key.client_port },
                    info,
                ),
            );
            proof {
                assert(seg@ == refresh(sv));
                assert(orig.take(j + 1).filter(pred) =~= orig.take(j).filter(pred).push(sv));
                assert(segments_view(out@) =~= segments_view(out_before).push(to_seg(sv)));
                assert(segments_view(out@) =~= orig.take(j + 1).filter(pred).map_values(to_seg));
            }
        } else {
            proof {
                assert(seg@ == refresh(sv));
                assert(orig.take(j + 1).filter(pred) =~= orig.take(j).filter(pred));
            }
        }
        let ghost refreshed_before = refreshed@;
        refreshed.push(seg);
        proof {
            assert(pending_views(refreshed@) =~= pending_views(refreshed_before).push(refresh(sv)));
            j = j + 1;
            assert(pending_views(refreshed@) =~= orig.take(j).map_values(refresh));
        }
    }
    proof {
        assert(orig.skip(j).len() == 0);
        assert(orig.take(j) =~= orig);
    }
    conn.pending = refreshed;
    proof {
        assert(conn@.pending =~= orig.map_values(refresh));
    }
    (Some(ConnEntry { key, conn }), out)
}

impl TcpConnections {
    /// Returns whether any connection is currently mid-close (FIN-WAIT-1, FIN-WAIT-2, CLOSING,
    /// or LAST-ACK), i.e. has sent or received a FIN but not yet completed teardown.
    pub fn closing_in_progress(&self) -> (b: bool)
        ensures
            b == exists|i: int|
                0 <= i < self@.entries.len() && spec_is_closing(#[trigger] self@.entries[i].1),
    {
        let n = self.entries.len();
        let mut i: usize = 0;
        while i < n
            invariant
                n == self@.entries.len(),
                i <= n,
                forall|k: int| 0 <= k < i ==> !spec_is_closing(#[trigger] self@.entries[k].1),
            decreases n - i,
        {
            assert(self@.entries[i as int].1 == self.entries@[i as int].conn@);
            match self.entries[i].conn.tcp_state {
                TcpState::FinWait1(_) | TcpState::FinWait2(_) | TcpState::Closing(_)
                | TcpState::LastAck(_) => {
                    return true;
                },
                _ => {},
            }
            i = i + 1;
        }
        false
    }

    /// Returns the earliest time at which a pending segment of any connection becomes due for
    /// retransmission, or `None` if no connection has any pending segments.
    pub fn next_retransmit_deadline(&self, now: u64) -> (r: Option<u64>)
        ensures
            r is None <==> forall|i: int|
                0 <= i < self@.entries.len() ==> (#[trigger] self@.entries[i]).1.pending.len() == 0,
            r matches Some(t) ==> (exists|i: int, j: int|
                0 <= i < self@.entries.len() && 0 <= j < self@.entries[i].1.pending.len() && t
                    == spec_time_due(#[trigger] self@.entries[i].1.pending[j], self@.initial_rto, now)),
            r matches Some(t) ==> (forall|i: int, j: int|
                0 <= i < self@.entries.len() && 0 <= j < self@.entries[i].1.pending.len() ==> t
                    <= spec_time_due(#[trigger] self@.entries[i].1.pending[j], self@.initial_rto, now)),
    {
        let n = self.entries.len();
        let mut best: Option<u64> = None;
        let mut i: usize = 0;
        while i < n
            invariant
                n == self@.entries.len(),
                i <= n,
                best is None <==> forall|a: int| 0 <= a < i ==> (#[trigger] self@.entries[a]).1.pending.len() == 0,
                best matches Some(t) ==> (exists|a: int, b: int|
                    0 <= a < i && 0 <= b < self@.entries[a].1.pending.len() && t == spec_time_due(
                        #[trigger] self@.entries[a].1.pending[b],
                        self@.initial_rto,
                        now,
                    )),
                best matches Some(t) ==> (forall|a: int, b: int|
                    0 <= a < i && 0 <= b < self@.entries[a].1.pending.len() ==> t <= spec_time_due(
                        #[trigger] self@.entries[a].1.pending[b],
                        self@.initial_rto,
                        now,
                    )),
            decreases n - i,
        {
            let conn = &self.entries[i].conn;
            assert(self@.entries[i as int].1 == conn@);
            let m = conn.pending.len();
            let mut j: usize = 0;
            while j < m
                invariant
                    n == self@.entries.len(),
                    i < n,
                    self@.entries[i as int].1 == conn@,
                    m == conn@.pending.len(),
                    j <= m,
                    best is None <==> (forall|a: int| 0 <= a < i ==> (#[trigger] self@.entries[a]).1.pending.len() == 0) && j == 0,
                    best matches Some(t) ==> (exists|a: int, b: int|
                        ((0 <= a < i && 0 <= b < self@.entries[a].1.pending.len()) || (a == i && 0 <= b < j)) && t == spec_time_due(
                            #[trigger] self@.entries[a].1.pending[b],
                            self@.initial_rto,
                            now,
                        )),
                    best matches Some(t) ==> (forall|a: int, b: int|
                        ((0 <= a < i && 0 <= b < self@.entries[a].1.pending.len()) || (a == i && 0 <= b < j)) ==> t <= spec_time_due(
                            #[trigger] self@.entries[a].1.pending[b],
                            self@.initial_rto,
                            now,
                        )),
                decreases m - j,
            {
                let due = conn.pending[j].time_due(self.initial_rto, now);
                assert(conn@.pending[j as int] == conn.pending@[j as int]@);
                best = match best {
                    None => Some(due),
                    Some(t) => if due < t {
                        Some(due)
                    } else {
                        Some(t)
                    },
                };
                j = j + 1;
            }
            i = i + 1;
        }
        best
    }

    /// Reproduces every pending unacked segment that is due for retransmission at `now`. If any
    /// connection has a due segment that has already been retried `max_retries` times, gives up
    /// and removes that connection entirely.
    pub fn make_retransmissions(&mut self, now: u64) -> (out: Vec<TcpSegment>)
        ensures
            final(self)@.entries == spec_retransmit_all(
                old(self)@.entries,
                old(self)@.initial_rto,
                old(self)@.max_retries,
                now,
            ).0,
            segments_view(out@) == spec_retransmit_all(
                old(self)@.entries,
                old(self)@.initial_rto,
                old(self)@.max_retries,
                now,
            ).1,
            final(self)@.initial_rto == old(self)@.initial_rto,
            final(self)@.max_retries == old(self)@.max_retries,
    {
        proof {
            use_type_invariant(&*self);
            lemma_retransmit_keys(self@.entries, self.initial_rto, self.max_retries, now);
        }
        let rto = self.initial_rto;
        let max = self.max_retries;
        let ghost orig = self@.entries;
        let mut remaining: Vec<ConnEntry> = Vec::new();
        std::mem::swap(&mut remaining, &mut self.entries);
        let mut kept: Vec<ConnEntry> = Vec::new();
        let mut out: Vec<TcpSegment> = Vec::new();
        while remaining.len() > 0
            invariant
                spec_retransmit_all(orig, rto, max, now).0 == entries_view(kept@)
                    + spec_retransmit_all(entries_view(remaining@), rto, max, now).0,
                spec_retransmit_all(orig, rto, max, now).1 == segments_view(out@)
                    + spec_retransmit_all(entries_view(remaining@), rto, max, now).1,
            decreases remaining.len(),
        {
            let ghost before = entries_view(remaining@);
            let entry = remaining.remove(0);
            proof {
                assert(before[0] == (entry.key, entry.conn@));
                assert(before.drop_first() =~= entries_view(remaining@));
            }
            let (e, mut segs) = retransmit_entry(entry, rto, max, now);
            let ghost out_before = out@;
            let ghost segs_v = segments_view(segs@);
            out.append(&mut segs);
            proof {
                assert(segments_view(out@) =~= segments_view(out_before) + segs_v);
            }
            match e {
                Some(e) => {
                    let ghost kept_before = kept@;
                    kept.push(e);
                    proof {
                        assert(entries_view(kept@) =~= entries_view(kept_before).push((e.key, e.conn@)));
                    }
                },
                None => {},
            }
        }
        proof {
            assert(entries_view(remaining@) =~= Seq::<(ConnKey, ConnView)>::empty());
            assert(entries_view(kept@) =~= spec_retransmit_all(orig, rto, max, now).0);
            assert(segments_view(out@) =~= spec_retransmit_all(orig, rto, max, now).1);
        }
        self.entries = kept;
        out
    }

    /// Initiates active close (RFC 9293 "CLOSE" call) at `now` for every connection currently
    /// ESTABLISHED, transitioning each to FIN-WAIT-1 and returning a FIN-ACK for it, in the order
    /// in which the table walks its connections.
    pub fn close_established(&mut self, now: u64) -> (out: Vec<TcpSegment>)
        ensures
            final(self)@.entries == old(self)@.entries.map_values(
                |e: (ConnKey, ConnView)| (e.0, spec_close_entry(e.1, now)),
            ),
            segments_view(out@) == old(self)@.entries.filter(|e: (ConnKey, ConnView)| spec_is_established(e)).map_values(
                |e: (ConnKey, ConnView)| spec_server_segment(e.0, spec_fin_ack(e.1)),
            ),
            final(self)@.initial_rto == old(self)@.initial_rto,
            final(self)@.max_retries == old(self)@.max_retries,
    {
        proof {
            use_type_invariant(&*self);
        }
        let ghost orig = self@.entries;
        let ghost close = |e: (ConnKey, ConnView)| (e.0, spec_close_entry(e.1, now));
        let ghost pred = |e: (ConnKey, ConnView)| spec_is_established(e);
        let ghost to_seg = |e: (ConnKey, ConnView)| spec_server_segment(e.0, spec_fin_ack(e.1));
        let mut remaining: Vec<ConnEntry> = Vec::new();
        std::mem::swap(&mut remaining, &mut self.entries);
        let mut done: Vec<ConnEntry> = Vec::new();
        let mut out: Vec<TcpSegment> = Vec::new();
        let ghost mut j: int = 0;
        while remaining.len() > 0
            invariant
                close == (|e: (ConnKey, ConnView)| (e.0, spec_close_entry(e.1, now))),
                pred == (|e: (ConnKey, ConnView)| spec_is_established(e)),
                to_seg == (|e: (ConnKey, ConnView)| spec_server_segment(e.0, spec_fin_ack(e.1))),
                0 <= j <= orig.len(),
                entries_view(remaining@) == orig.skip(j),
                entries_view(done@) == orig.take(j).map_values(close),
                segments_view(out@) == orig.take(j).filter(pred).map_values(to_seg),
            decreases remaining.len(),
        {
            let ghost before = entries_view(remaining@);
            let entry = remaining.remove(0);
            let ghost ev = (entry.key, entry.conn@);
            proof {
                assert(before.len() == remaining@.len() + 1);
                assert(j < orig.len());
                assert(before[0] == ev);
                assert(before[0] == orig.skip(j)[0]);
                assert(orig[j] == ev);
                assert(before.drop_first() =~= entries_view(remaining@));
                assert(orig.skip(j).drop_first() =~= orig.skip(j + 1));
                assert(orig.take(j + 1).drop_last() =~= orig.take(j));
                reveal_with_fuel(Seq::<_>::filter, 1);
            }
            let key = entry.key;
            let mut conn = entry.conn;
            match conn.tcp_state {
                TcpState::Established(est) => {
                    let info = SendInfo {
                        seq_num: conn.snd_nxt,
                        ack_num: conn.rcv_nxt,
                        flags: TcpFlags::FinAck,
                        payload: None,
                    };
                    conn.tcp_state = TcpState::FinWait1(est.close());
                    // Consume one sequence number in SND.NXT for the FIN about to be sent
                    conn.snd_nxt.add_assign(SeqDist::new(1));
                    let ghost old_pending = conn.pending@;
                    conn.pending.push(PendingSegment::new(info.duplicate(), now));
                    proof {
                        assert(pending_views(conn.pending@) =~= pending_views(old_pending).push(
                            spec_new_pending(info@, now),
                        ));
                    }
                    let ghost out_before = out@;
                    let ghost iv = info@;
                    out.push(
                        TcpSegment::from_pairs_and_info(
                            Ipv4AddrPair { src: key.server_ip, dst: key.client_ip },
                            PortPair { src: key.server_port, dst: key.client_port },
                            info,
                        ),
                    );
                    proof {
                        assert(iv == spec_fin_ack(ev.1));
                        assert(segments_view(out@) =~= segments_view(out_before).push(to_seg(ev)));
                        assert(orig.take(j + 1).filter(pred) =~= orig.take(j).filter(pred).push(ev));
                        assert(segments_view(out@) =~= orig.take(j + 1).filter(pred).map_values(to_seg));
                    }
                },
                _ => {
                    proof {
                        assert(orig.take(j + 1).filter(pred) =~= orig.take(j).filter(pred));
                    }
                },
            }
            let ghost cv = conn@;
            let ghost done_before = done@;
            done.push(ConnEntry { key, conn });
            proof {
                assert(cv == spec_close_entry(ev.1, now));
                assert(entries_view(done@) =~= entries_view(done_before).push(close(ev)));
                j = j + 1;
                assert(entries_view(done@) =~= orig.take(j).map_values(close));
            }
        }
        proof {
            assert(orig.skip(j).len() == 0);
            assert(orig.take(j) =~= orig);
            assert(entries_view(done@) =~= orig.map_values(close));
            assert forall|a: int, b: int|
                0 <= a < entries_view(done@).len() && 0 <= b < entries_view(done@).len() && a != b
                implies #[trigger] entries_view(done@)[a].0 != #[trigger] entries_view(done@)[b].0 by {
                assert(entries_view(done@)[a].0 == orig[a].0);
                assert(entries_view(done@)[b].0 == orig[b].0);
            }
        }
        self.entries = done;
        out
    }
}

/// Inserting an entry with a new key at any position inserts it into the table.
pub proof fn lemma_table_insert_at(entries: Entries, i: int, k: ConnKey, v: ConnView)
    requires
        keys_distinct(entries),
        0 <= i <= entries.len(),
        !table_of(entries).contains_key(k),
    ensures
        table_of(entries.insert(i, (k, v))) =~= table_of(entries).insert(k, v),
        keys_distinct(entries.insert(i, (k, v))),
    decreases entries.len(),
{
    lemma_table_contains(entries, k);
    if i == entries.len() {
        assert(entries.insert(i, (k, v)) =~= entries.push((k, v)));
        lemma_table_push(entries, k, v);
    } else {
        let d = entries.drop_last();
        lemma_table_contains(d, k);
        assert forall|a: int, b: int|
            0 <= a < d.len() && 0 <= b < d.len() && a != b implies #[trigger] d[a].0
            != #[trigger] d[b].0 by {
            assert(d[a] == entries[a] && d[b] == entries[b]);
        }
        if table_of(d).contains_key(k) {
            let j = choose|j: int| 0 <= j < d.len() && #[trigger] d[j].0 == k;
            assert(entries[j].0 == k);
        }
        lemma_table_insert_at(d, i, k, v);
        let u = entries.insert(i, (k, v));
        assert(u.drop_last() =~= d.insert(i, (k, v)));
        assert(u.last() == entries.last());
        assert(entries.last().0 != k);
        assert forall|a: int, b: int|
            0 <= a < u.len() && 0 <= b < u.len() && a != b implies #[trigger] u[a].0
            != #[trigger] u[b].0 by {
            if a != u.len() - 1 && b != u.len() - 1 {
                assert(u[a] == u.drop_last()[a] && u[b] == u.drop_last()[b]);
            } else if a == u.len() - 1 {
                if b == i {
                } else if b < i {
                    assert(u[b] == entries[b]);
                } else {
                    assert(u[b] == entries[b - 1]);
                }
            } else {
                if a == i {
                } else if a < i {
                    assert(u[a] == entries[a]);
                } else {
                    assert(u[a] == entries[a - 1]);
                }
            }
        }
    }
}

} // verus!
