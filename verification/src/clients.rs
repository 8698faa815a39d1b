//! Tracking the browser tabs connected to the web server, and deciding when
//! the server should shut down.
//!
//! Each tab sends a heartbeat (`keep_alive`); when it closes it announces
//! its departure (`last_rites`), which takes effect after a grace period
//! unless the tab checks in again (as a reload does). Once some client has
//! connected, the server shuts down when none remains, either because the
//! last one left or because every remaining one went silent for longer than
//! the timeout. The timers themselves belong to the caller: this type
//! decides, the caller sleeps, spawns and sends.
use vstd::prelude::*;

use crate::config::ClientTimeout;
use crate::keyed::{key_index, lemma_key_index, lemma_key_index_shape};

verus! {

/// A span of time in nanoseconds.
pub open spec fn timeout_nanos(t: ClientTimeout) -> int {
    t.secs * 1_000_000_000 + t.nanos
}

/// Whether a client last seen at `last` is stale at `now` (both in
/// milliseconds of a monotonic clock): it has been silent for longer than
/// the client timeout `timeout`.
pub open spec fn is_stale(now: u64, last: u64, timeout: ClientTimeout) -> bool {
    now > last && (now - last) * 1_000_000 > timeout_nanos(timeout)
}

/// The abstract state of a [`ClientTracker`].
pub struct TrackerView {
    /// Connected clients with the time each was last seen, in connection order.
    pub clients: Seq<(Seq<char>, u64)>,
    /// Clients whose departure is scheduled, in the order announced.
    pub pending: Seq<Seq<char>>,
    /// Whether any client has ever connected.
    pub has_ever_connected: bool,
    /// Whether the shutdown signal has yet to be sent.
    pub shutdown_available: bool,
    /// How long a client may stay silent before it is dropped.
    pub timeout: ClientTimeout,
}

/// The predicate that holds of every id but `id`.
pub open spec fn other_id(id: Seq<char>) -> spec_fn(Seq<char>) -> bool {
    |p: Seq<char>| p != id
}

/// The predicate that holds of every client but `id`.
pub open spec fn other_client(id: Seq<char>) -> spec_fn((Seq<char>, u64)) -> bool {
    |c: (Seq<char>, u64)| c.0 != id
}

/// The predicate that holds of the clients not stale at `now` under the
/// client timeout `timeout`.
pub open spec fn fresh_at(now: u64, timeout: ClientTimeout) -> spec_fn((Seq<char>, u64)) -> bool {
    |c: (Seq<char>, u64)| !is_stale(now, c.1, timeout)
}

/// Whether `id` is a connected client.
pub open spec fn is_connected(s: TrackerView, id: Seq<char>) -> bool {
    0 <= key_index(s.clients, id) < s.clients.len()
}

/// The initial state under the client timeout `timeout`: no client,
/// shutdown signal held.
pub open spec fn initial_tracker(timeout: ClientTimeout) -> TrackerView {
    TrackerView {
        clients: seq![],
        pending: seq![],
        has_ever_connected: false,
        shutdown_available: true,
        timeout,
    }
}

/// A client checked in at `now`: its pending departure (if any) is
/// cancelled, it is recorded as seen at `now`, and reference counting
/// begins. Returns the new state, whether a departure was cancelled and
/// whether the client is new.
pub open spec fn keep_alive_spec(s: TrackerView, id: Seq<char>, now: u64) -> (TrackerView, bool, bool) {
    let i = key_index(s.clients, id);
    let clients = if 0 <= i < s.clients.len() {
        s.clients.update(i, (id, now))
    } else {
        s.clients.push((id, now))
    };
    (
        TrackerView {
            clients,
            pending: s.pending.filter(other_id(id)),
            has_ever_connected: true,
            shutdown_available: s.shutdown_available,
            timeout: s.timeout,
        },
        s.pending.contains(id),
        !(0 <= i < s.clients.len()),
    )
}

/// A client announced its departure: it is scheduled to leave.
pub open spec fn last_rites_spec(s: TrackerView, id: Seq<char>) -> TrackerView {
    TrackerView {
        pending: if s.pending.contains(id) {
            s.pending
        } else {
            s.pending.push(id)
        },
        ..s
    }
}

/// The grace period of a departure ran out: the client is no longer
/// pending nor connected. Returns the new state and whether the shutdown
/// signal is to be sent now (no client remains and it was not sent yet).
pub open spec fn depart_spec(s: TrackerView, id: Seq<char>) -> (TrackerView, bool) {
    let clients = s.clients.filter(other_client(id));
    let send = clients.len() == 0 && s.shutdown_available;
    (
        TrackerView {
            clients,
            pending: s.pending.filter(other_id(id)),
            has_ever_connected: s.has_ever_connected,
            shutdown_available: s.shutdown_available && !send,
            timeout: s.timeout,
        },
        send,
    )
}

/// The periodic death check at `now`: before any client connected, nothing
/// happens and the server lives; afterwards the clients silent for longer
/// than the client timeout are dropped and the server is dead when none
/// remains. Returns the new state, whether the
/// server is dead and whether the shutdown signal is to be sent now.
pub open spec fn is_dead_spec(s: TrackerView, now: u64) -> (TrackerView, bool, bool) {
    if !s.has_ever_connected {
        (s, false, false)
    } else {
        let clients = s.clients.filter(fresh_at(now, s.timeout));
        let dead = clients.len() == 0;
        let send = dead && s.shutdown_available;
        (
            TrackerView { clients, shutdown_available: s.shutdown_available && !send, ..s },
            dead,
            send,
        )
    }
}

/// What a check-in changed.
#[derive(Clone, Copy, Debug)]
pub struct KeepAlive {
    /// A scheduled departure of this client was cancelled.
    pub cancelled_departure: bool,
    /// The client was not connected before.
    pub is_new: bool,
}

/// The outcome of a death check.
#[derive(Clone, Copy, Debug)]
pub struct DeathCheck {
    /// No client remains.
    pub is_dead: bool,
    /// The shutdown signal is to be sent now.
    pub send_shutdown: bool,
}

/// The connected web clients and the shutdown decision.
pub struct ClientTracker {
    clients: Vec<(String, u64)>,
    pending: Vec<String>,
    has_ever_connected: bool,
    shutdown_available: bool,
    timeout: ClientTimeout,
}

impl View for ClientTracker {
    type V = TrackerView;

    closed spec fn view(&self) -> TrackerView {
        TrackerView {
            clients: self.clients@.map_values(|c: (String, u64)| (c.0@, c.1)),
            pending: self.pending@.map_values(|p: String| p@),
            has_ever_connected: self.has_ever_connected,
            shutdown_available: self.shutdown_available,
            timeout: self.timeout,
        }
    }
}

/// One more element of a prefix passes through `filter` or not.
pub proof fn lemma_filter_step<A>(s: Seq<A>, p: spec_fn(A) -> bool, i: int)
    requires
        0 <= i < s.len(),
    ensures
        s.subrange(0, i + 1).filter(p) == (if p(s[i]) {
            s.subrange(0, i).filter(p).push(s[i])
        } else {
            s.subrange(0, i).filter(p)
        }),
{
    reveal(Seq::filter);
    assert(s.subrange(0, i + 1).drop_last() == s.subrange(0, i));
}

/// Nothing passes through `filter` from an empty prefix.
pub proof fn lemma_filter_empty<A>(s: Seq<A>, p: spec_fn(A) -> bool)
    ensures
        s.subrange(0, 0).filter(p) == Seq::<A>::empty(),
{
    reveal(Seq::filter);
    assert(s.subrange(0, 0) =~= Seq::<A>::empty());
}

impl ClientTracker {
    /// No client has connected yet; the shutdown signal is held. A client
    /// silent for longer than `client_timeout` will be dropped.
    pub fn new(client_timeout: ClientTimeout) -> (r: Self)
        ensures
            r@ == initial_tracker(client_timeout),
    {
        let r = ClientTracker {
            clients: Vec::new(),
            pending: Vec::new(),
            has_ever_connected: false,
            shutdown_available: true,
            timeout: client_timeout,
        };
        assert(r@.clients =~= Seq::<(Seq<char>, u64)>::empty());
        assert(r@.pending =~= Seq::<Seq<char>>::empty());
        r
    }

    /// The number of connected clients.
    pub fn client_count(&self) -> (r: usize)
        ensures
            r == self@.clients.len(),
    {
        self.clients.len()
    }

    /// Whether any client has ever connected.
    pub fn has_ever_connected(&self) -> (r: bool)
        ensures
            r == self@.has_ever_connected,
    {
        self.has_ever_connected
    }

    /// Whether `id` is pending departure.
    fn pending_contains(&self, id: &String) -> (r: bool)
        ensures
            r == self@.pending.contains(id@),
    {
        let mut i: usize = 0;
        while i < self.pending.len()
            invariant
                i <= self.pending.len(),
                forall|j: int| 0 <= j < i ==> self@.pending[j] != id@,
            decreases self.pending.len() - i,
        {
            if self.pending[i] == *id {
                assert(self@.pending[i as int] == id@);
                return true;
            }
            i = i + 1;
        }
        false
    }

    /// The position of client `id`, if connected.
    fn client_position(&self, id: &String) -> (r: Option<usize>)
        ensures
            match r {
                Some(i) => key_index(self@.clients, id@) == i && i < self@.clients.len(),
                None => key_index(self@.clients, id@) == -1,
            },
    {
        let mut i: usize = 0;
        while i < self.clients.len()
            invariant
                i <= self.clients.len(),
                forall|j: int| 0 <= j < i ==> (#[trigger] self@.clients[j]).0 != id@,
            decreases self.clients.len() - i,
        {
            if self.clients[i].0 == *id {
                proof {
                    lemma_key_index(self@.clients, id@, i as int);
                }
                return Some(i);
            }
            i = i + 1;
        }
        proof {
            lemma_key_index(self@.clients, id@, self@.clients.len() as int);
        }
        None
    }

    /// Removes `id` from the pending departures.
    fn remove_pending(&mut self, id: &String)
        ensures
            final(self)@ == (TrackerView {
                pending: old(self)@.pending.filter(other_id(id@)),
                ..old(self)@
            }),
    {
        let ghost all = self@.pending;
        let mut kept: Vec<String> = Vec::new();
        let mut i: usize = 0;
        proof {
            lemma_filter_empty(all, other_id(id@));
        }
        assert(kept@.map_values(|p: String| p@) =~= Seq::<Seq<char>>::empty());
        while i < self.pending.len()
            invariant
                i <= self.pending.len(),
                all == self.pending@.map_values(|p: String| p@),
                kept@.map_values(|p: String| p@) == all.subrange(0, i as int).filter(other_id(id@)),
            decreases self.pending.len() - i,
        {
            proof {
                lemma_filter_step(all, other_id(id@), i as int);
            }
            let ghost before = kept@.map_values(|p: String| p@);
            if self.pending[i] != *id {
                kept.push(self.pending[i].clone());
                assert(kept@.map_values(|p: String| p@) =~= before.push(all[i as int]));
            }
            i = i + 1;
        }
        assert(all.subrange(0, all.len() as int) == all);
        self.pending = kept;
    }

    /// Removes the connected clients that fail `keep`, which is either
    /// "not `id`" or "fresh at `now`".
    fn retain_clients(&mut self, drop_id: Option<&String>, now: u64)
        ensures
            final(self)@ == (TrackerView {
                clients: match drop_id {
                    Some(id) => old(self)@.clients.filter(other_client(id@)),
                    None => old(self)@.clients.filter(fresh_at(now, old(self)@.timeout)),
                },
                ..old(self)@
            }),
    {
        let ghost all = self@.clients;
        let ghost p = match drop_id {
            Some(id) => other_client(id@),
            None => fresh_at(now, self@.timeout),
        };
        let limit: u128 = (self.timeout.secs as u128) * 1_000_000_000u128 + (self.timeout.nanos as u128);
        let mut kept: Vec<(String, u64)> = Vec::new();
        let mut i: usize = 0;
        proof {
            lemma_filter_empty(all, p);
        }
        assert(kept@.map_values(|c: (String, u64)| (c.0@, c.1)) =~= Seq::<(Seq<char>, u64)>::empty());
        while i < self.clients.len()
            invariant
                i <= self.clients.len(),
                all == self.clients@.map_values(|c: (String, u64)| (c.0@, c.1)),
                limit == timeout_nanos(self@.timeout),
                p == match drop_id {
                    Some(id) => other_client(id@),
                    None => fresh_at(now, self@.timeout),
                },
                kept@.map_values(|c: (String, u64)| (c.0@, c.1)) == all.subrange(0, i as int).filter(p),
            decreases self.clients.len() - i,
        {
            proof {
                lemma_filter_step(all, p, i as int);
            }
            let ghost before = kept@.map_values(|c: (String, u64)| (c.0@, c.1));
            let last = self.clients[i].1;
            let keep = match drop_id {
                Some(id) => self.clients[i].0 != *id,
                None => !(now > last && ((now - last) as u128) * 1_000_000u128 > limit),
            };
            assert(keep == p(all[i as int]));
            if keep {
                kept.push((self.clients[i].0.clone(), last));
                assert(kept@.map_values(|c: (String, u64)| (c.0@, c.1)) =~= before.push(all[i as int]));
            }
            i = i + 1;
        }
        assert(all.subrange(0, all.len() as int) == all);
        self.clients = kept;
    }

    /// A client checked in at `now` (milliseconds of a monotonic clock):
    /// cancels its pending departure and makes sure it is tracked.
    pub fn keep_alive(&mut self, client_id: String, now: u64) -> (r: KeepAlive)
        ensures
            (final(self)@, r.cancelled_departure, r.is_new) == keep_alive_spec(old(self)@, client_id@, now),
    {
        let cancelled = self.pending_contains(&client_id);
        self.remove_pending(&client_id);
        let found = self.client_position(&client_id);
        let is_new = match found {
            Some(k) => {
                self.clients.set(k, (client_id, now));
                false
            },
            None => {
                self.clients.push((client_id, now));
                true
            },
        };
        self.has_ever_connected = true;
        assert(self@.clients =~= keep_alive_spec(old(self)@, client_id@, now).0.clients);
        KeepAlive { cancelled_departure: cancelled, is_new }
    }

    /// A client announced its departure; the caller starts the grace period
    /// and calls [`ClientTracker::depart`] when it runs out.
    pub fn last_rites(&mut self, client_id: String)
        ensures
            final(self)@ == last_rites_spec(old(self)@, client_id@),
    {
        if !self.pending_contains(&client_id) {
            self.pending.push(client_id);
        }
        assert(self@.pending =~= last_rites_spec(old(self)@, client_id@).pending);
    }

    /// The grace period of a departure ran out. Returns whether the
    /// shutdown signal is to be sent now.
    pub fn depart(&mut self, client_id: &String) -> (send_shutdown: bool)
        ensures
            (final(self)@, send_shutdown) == depart_spec(old(self)@, client_id@),
    {
        self.remove_pending(client_id);
        self.retain_clients(Some(client_id), 0);
        let send = self.clients.len() == 0 && self.shutdown_available;
        if send {
            self.shutdown_available = false;
        }
        send
    }

    /// The periodic death check at `now`: once the heartbeat has started, it
    /// must not stop.
    pub fn is_dead(&mut self, now: u64) -> (r: DeathCheck)
        ensures
            (final(self)@, r.is_dead, r.send_shutdown) == is_dead_spec(old(self)@, now),
    {
        if !self.has_ever_connected {
            return DeathCheck { is_dead: false, send_shutdown: false };
        }
        self.retain_clients(None, now);
        let dead = self.clients.len() == 0;
        let send = dead && self.shutdown_available;
        if send {
            self.shutdown_available = false;
        }
        DeathCheck { is_dead: dead, send_shutdown: send }
    }
}

// ---------------------------------------------------------------------------
// Laws
// ---------------------------------------------------------------------------

/// Until some client has connected, the server is alive and the death
/// check changes nothing.
pub proof fn law_alive_until_first_connection(s: TrackerView, now: u64)
    requires
        !s.has_ever_connected,
    ensures
        is_dead_spec(s, now) == (s, false, false),
{
}

/// A client that checked in at `seen` keeps the server alive at any `now`
/// within the client timeout of `seen`.
pub proof fn law_fresh_client_keeps_server_alive(s: TrackerView, id: Seq<char>, seen: u64, now: u64)
    requires
        now <= seen || (now - seen) * 1_000_000 <= timeout_nanos(s.timeout),
    ensures
        !is_dead_spec(keep_alive_spec(s, id, seen).0, now).1,
{
    let s2 = keep_alive_spec(s, id, seen).0;
    lemma_key_index_shape(s.clients, id);
    let i = key_index(s.clients, id);
    let k = if 0 <= i < s.clients.len() { i } else { s.clients.len() as int };
    assert(s2.clients[k] == (id, seen));
    assert(fresh_at(now, s.timeout)(s2.clients[k]));
    s2.clients.lemma_filter_contains(fresh_at(now, s.timeout), k);
}

/// Once some client has connected, when every connected client has been
/// silent for longer than the client timeout the death check finds the
/// server dead, and sends the shutdown signal unless it was sent before.
pub proof fn law_silent_clients_shut_down(s: TrackerView, now: u64)
    requires
        s.has_ever_connected,
        forall|j: int| 0 <= j < s.clients.len() ==> is_stale(now, (#[trigger] s.clients[j]).1, s.timeout),
    ensures
        is_dead_spec(s, now).1,
        is_dead_spec(s, now).2 == s.shutdown_available,
{
    assert(s.clients.all(|x: (Seq<char>, u64)| !fresh_at(now, s.timeout)(x)));
    s.clients.lemma_all_neg_filter_empty(fresh_at(now, s.timeout));
}

/// The shutdown signal is sent at most once: once sent, no departure and no
/// death check sends it again, nor does any step take it back.
pub proof fn law_shutdown_sent_once(s: TrackerView, id: Seq<char>, now: u64)
    requires
        !s.shutdown_available,
    ensures
        !depart_spec(s, id).1,
        !depart_spec(s, id).0.shutdown_available,
        !is_dead_spec(s, now).2,
        !is_dead_spec(s, now).0.shutdown_available,
        !keep_alive_spec(s, id, now).0.shutdown_available,
        !last_rites_spec(s, id).shutdown_available,
{
}

/// A client that announced its departure and then checks in again (as a
/// reload does) cancels that departure and stays connected.
pub proof fn law_return_cancels_departure(s: TrackerView, id: Seq<char>, now: u64)
    ensures
        keep_alive_spec(last_rites_spec(s, id), id, now).1,
        !keep_alive_spec(last_rites_spec(s, id), id, now).0.pending.contains(id),
        is_connected(keep_alive_spec(last_rites_spec(s, id), id, now).0, id),
{
    let s1 = last_rites_spec(s, id);
    if !s.pending.contains(id) {
        assert(s1.pending[s.pending.len() as int] == id);
    }
    let s2 = keep_alive_spec(s1, id, now).0;
    broadcast use vstd::seq_lib::group_filter_ensures;
    if s2.pending.contains(id) {
        let j = choose|j: int| 0 <= j < s2.pending.len() && s2.pending[j] == id;
        s1.pending.lemma_filter_pred(other_id(id), j);
    }
    lemma_key_index_shape(s1.clients, id);
    let i = key_index(s1.clients, id);
    if 0 <= i < s1.clients.len() {
        lemma_key_index(s2.clients, id, i);
    } else {
        assert forall|j: int| 0 <= j < s1.clients.len() implies (#[trigger] s2.clients[j]).0
            != id by {
            assert(s2.clients[j] == s1.clients[j]);
        }
        lemma_key_index(s2.clients, id, s1.clients.len() as int);
    }
}

/// Once its grace period runs out, a departed client is neither connected
/// nor pending.
pub proof fn law_departed_client_gone(s: TrackerView, id: Seq<char>)
    ensures
        !is_connected(depart_spec(s, id).0, id),
        !depart_spec(s, id).0.pending.contains(id),
{
    let s2 = depart_spec(s, id).0;
    broadcast use vstd::seq_lib::group_filter_ensures;
    assert forall|j: int| 0 <= j < s2.clients.len() implies (#[trigger] s2.clients[j]).0 != id by {
        s.clients.lemma_filter_pred(other_client(id), j);
    }
    lemma_key_index(s2.clients, id, s2.clients.len() as int);
    if s2.pending.contains(id) {
        let j = choose|j: int| 0 <= j < s2.pending.len() && s2.pending[j] == id;
        s.pending.lemma_filter_pred(other_id(id), j);
    }
}

/// When the last connected client leaves, the shutdown signal is sent,
/// unless it was sent before.
pub proof fn law_last_departure_shuts_down(s: TrackerView, id: Seq<char>)
    requires
        forall|j: int| 0 <= j < s.clients.len() ==> (#[trigger] s.clients[j]).0 == id,
    ensures
        depart_spec(s, id).1 == s.shutdown_available,
{
    assert(s.clients.all(|x: (Seq<char>, u64)| !other_client(id)(x)));
    s.clients.lemma_all_neg_filter_empty(other_client(id));
}

}
