//! Store of active signal-to-slot connections, indexed by receiver and by signal.
use std::collections::HashMap;

use vstd::prelude::*;

use crate::ids::{ConnectionId, ObjectId};
use crate::seq_util::{lemma_without_absent, lemma_without_excludes, without};

verus! {

broadcast use vstd::std_specs::hash::group_hash_axioms;

/// Record of one active signal-to-slot connection.
#[derive(Clone, Copy, Debug, PartialEq, Eq, Structural)]
pub struct ConnectionRecord {
    /// Object that owns the signal.
    pub sender_id: ObjectId,
    /// Index of the signal in the sender's signal list.
    pub signal_index: usize,
    /// Object that owns the slot.
    pub receiver_id: ObjectId,
}

/// Key of the by-signal index: the sender id in the high 64 bits, the signal index below.
pub open spec fn signal_key(sender: u64, signal_index: usize) -> u128 {
    (sender as int * 0x1_0000_0000_0000_0000 + signal_index as int) as u128
}

/// Abstract state of a [`ConnectionTable`].
///
/// - `connections`: raw connection id to record.
/// - `by_receiver`: the connection ids recorded under each receiver (empty when none).
/// - `by_signal`: the connection ids recorded under each (sender, signal index).
/// - `next_id`: the raw id the next registration receives.
#[verifier::ext_equal]
pub struct ConnModel {
    pub connections: Map<u64, ConnectionRecord>,
    pub by_receiver: spec_fn(u64) -> Seq<ConnectionId>,
    pub by_signal: spec_fn(u64, usize) -> Seq<ConnectionId>,
    pub next_id: u64,
}

/// The connection ids recorded under `receiver`.
pub open spec fn receiver_ids(m: ConnModel, receiver: u64) -> Seq<ConnectionId> {
    (m.by_receiver)(receiver)
}

/// The connection ids recorded under the signal `(sender, signal_index)`.
pub open spec fn signal_ids(m: ConnModel, sender: u64, signal_index: usize) -> Seq<ConnectionId> {
    (m.by_signal)(sender, signal_index)
}

/// Every live connection has a smaller raw id than `next_id` and is listed both under
/// its receiver and under its signal.
pub open spec fn consistent(m: ConnModel) -> bool {
    forall|c: u64|
        #[trigger] m.connections.contains_key(c) ==> {
            &&& c < m.next_id
            &&& receiver_ids(m, m.connections[c].receiver_id.0).contains(ConnectionId(c))
            &&& signal_ids(m, m.connections[c].sender_id.0, m.connections[c].signal_index).contains(
                ConnectionId(c),
            )
        }
}

/// Every id listed under a receiver is a live connection of that receiver.
pub open spec fn receivers_sound(m: ConnModel) -> bool {
    forall|x: u64, k: int|
        0 <= k < receiver_ids(m, x).len() ==> {
            &&& m.connections.contains_key((#[trigger] receiver_ids(m, x)[k]).0)
            &&& m.connections[receiver_ids(m, x)[k].0].receiver_id.0 == x
        }
}

/// Every id listed under a signal is a live connection of that signal.
pub open spec fn signals_sound(m: ConnModel) -> bool {
    forall|s: u64, i: usize, k: int|
        0 <= k < signal_ids(m, s, i).len() ==> {
            &&& m.connections.contains_key((#[trigger] signal_ids(m, s, i)[k]).0)
            &&& m.connections[signal_ids(m, s, i)[k].0].sender_id.0 == s
            &&& m.connections[signal_ids(m, s, i)[k].0].signal_index == i
        }
}

/// Effect of `register`.
pub open spec fn model_register(m: ConnModel, rec: ConnectionRecord) -> ConnModel {
    let id = ConnectionId(m.next_id);
    ConnModel {
        connections: m.connections.insert(m.next_id, rec),
        by_receiver: |x: u64|
            if x == rec.receiver_id.0 {
                (m.by_receiver)(x).push(id)
            } else {
                (m.by_receiver)(x)
            },
        by_signal: |s: u64, i: usize|
            if s == rec.sender_id.0 && i == rec.signal_index {
                (m.by_signal)(s, i).push(id)
            } else {
                (m.by_signal)(s, i)
            },
        next_id: (m.next_id + 1) as u64,
    }
}

/// Drops the connection `id` from the record map and from the signal list of `rec`.
pub open spec fn model_drop_from_signal(m: ConnModel, id: u64, rec: ConnectionRecord) -> ConnModel {
    ConnModel {
        connections: m.connections.remove(id),
        by_receiver: m.by_receiver,
        by_signal: |s: u64, i: usize|
            if s == rec.sender_id.0 && i == rec.signal_index {
                without((m.by_signal)(s, i), ConnectionId(id))
            } else {
                (m.by_signal)(s, i)
            },
        next_id: m.next_id,
    }
}

/// Effect of `remove`.
pub open spec fn model_remove(m: ConnModel, id: u64) -> ConnModel {
    if m.connections.contains_key(id) {
        let rec = m.connections[id];
        let d = model_drop_from_signal(m, id, rec);
        ConnModel {
            connections: d.connections,
            by_receiver: |x: u64|
                if x == rec.receiver_id.0 {
                    without((m.by_receiver)(x), ConnectionId(id))
                } else {
                    (m.by_receiver)(x)
                },
            by_signal: d.by_signal,
            next_id: d.next_id,
        }
    } else {
        m
    }
}

/// Drops each listed connection that is still present (from the record map and its
/// signal list), in order.
pub open spec fn model_drop_all(m: ConnModel, ids: Seq<ConnectionId>) -> ConnModel
    decreases ids.len(),
{
    if ids.len() == 0 {
        m
    } else {
        let prev = model_drop_all(m, ids.drop_last());
        let c = ids.last().0;
        if prev.connections.contains_key(c) {
            model_drop_from_signal(prev, c, prev.connections[c])
        } else {
            prev
        }
    }
}

/// The receiver list of `receiver` emptied.
pub open spec fn model_clear_receiver(m: ConnModel, receiver: u64) -> ConnModel {
    ConnModel {
        connections: m.connections,
        by_receiver: |x: u64|
            if x == receiver {
                Seq::<ConnectionId>::empty()
            } else {
                (m.by_receiver)(x)
            },
        by_signal: m.by_signal,
        next_id: m.next_id,
    }
}

/// Effect of `remove_by_receiver`.
pub open spec fn model_remove_by_receiver(m: ConnModel, receiver: u64) -> ConnModel {
    model_drop_all(model_clear_receiver(m, receiver), (m.by_receiver)(receiver))
}

/// Store of active connections with two secondary indices (by receiver and by
/// signal) for cleanup and dispatch.
pub struct ConnectionTable {
    connections: HashMap<u64, ConnectionRecord>,
    by_receiver: HashMap<u64, Vec<ConnectionId>>,
    by_signal: HashMap<u128, Vec<ConnectionId>>,
    next_id: u64,
}

impl View for ConnectionTable {
    type V = ConnModel;

    closed spec fn view(&self) -> ConnModel {
        ConnModel {
            connections: self.connections@,
            by_receiver: |x: u64|
                if self.by_receiver@.contains_key(x) {
                    self.by_receiver@[x]@
                } else {
                    Seq::<ConnectionId>::empty()
                },
            by_signal: |s: u64, i: usize|
                if self.by_signal@.contains_key(signal_key(s, i)) {
                    self.by_signal@[signal_key(s, i)]@
                } else {
                    Seq::<ConnectionId>::empty()
                },
            next_id: self.next_id,
        }
    }
}

proof fn lemma_signal_key_injective(s1: u64, i1: usize, s2: u64, i2: usize)
    ensures
        signal_key(s1, i1) == signal_key(s2, i2) ==> s1 == s2 && i1 == i2,
{
    assert(i1 < 0x1_0000_0000_0000_0000 && i2 < 0x1_0000_0000_0000_0000);
    if signal_key(s1, i1) == signal_key(s2, i2) {
        assert(s1 as int * 0x1_0000_0000_0000_0000 + i1 as int == s2 as int * 0x1_0000_0000_0000_0000 + i2 as int);
        if s1 < s2 {
            assert(s1 as int * 0x1_0000_0000_0000_0000 + 0x1_0000_0000_0000_0000 <= s2 as int * 0x1_0000_0000_0000_0000);
        } else if s2 < s1 {
            assert(s2 as int * 0x1_0000_0000_0000_0000 + 0x1_0000_0000_0000_0000 <= s1 as int * 0x1_0000_0000_0000_0000);
        }
    }
}

impl ConnectionTable {
    /// The table satisfies [`consistent`], [`receivers_sound`] and [`signals_sound`].
    pub open spec fn wf(&self) -> bool {
        consistent(self@) && receivers_sound(self@) && signals_sound(self@)
    }

    /// True while another registration can mint a fresh id.
    pub open spec fn can_register(&self) -> bool {
        self@.next_id < u64::MAX
    }

    /// Creates an empty table; the first registration gets raw id 1.
    pub fn new() -> (r: ConnectionTable)
        ensures
            r.wf(),
            r@.connections == Map::<u64, ConnectionRecord>::empty(),
            forall|x: u64| #[trigger] receiver_ids(r@, x) == Seq::<ConnectionId>::empty(),
            forall|s: u64, i: usize| #[trigger] signal_ids(r@, s, i) == Seq::<ConnectionId>::empty(),
            r@.next_id == 1,
    {
        ConnectionTable {
            connections: HashMap::new(),
            by_receiver: HashMap::new(),
            by_signal: HashMap::new(),
            next_id: 1,
        }
    }

    /// Whether another registration can mint a fresh id.
    pub fn has_free_id(&self) -> (r: bool)
        ensures
            r == self.can_register(),
    {
        self.next_id < u64::MAX
    }

    fn key_of(sender: ObjectId, signal_index: usize) -> (r: u128)
        ensures
            r == signal_key(sender.0, signal_index),
    {
        assert(signal_index < 0x1_0000_0000_0000_0000);
        (sender.0 as u128) * 0x1_0000_0000_0000_0000u128 + (signal_index as u128)
    }

    /// Registers a connection and returns its fresh id.
    pub fn register(&mut self, sender_id: ObjectId, signal_index: usize, receiver_id: ObjectId) -> (r:
        ConnectionId)
        requires
            old(self).wf(),
            old(self).can_register(),
        ensures
            final(self).wf(),
            r == ConnectionId(old(self)@.next_id),
            !old(self)@.connections.contains_key(r.0),
            final(self)@ == model_register(
                old(self)@,
                ConnectionRecord { sender_id, signal_index, receiver_id },
            ),
    {
        let ghost old_model = self@;
        let id = ConnectionId(self.next_id);
        let record = ConnectionRecord { sender_id, signal_index, receiver_id };
        self.connections.insert(id.0, record);
        let mut v = match self.by_receiver.remove(&receiver_id.0) {
            Some(v) => v,
            None => Vec::new(),
        };
        v.push(id);
        self.by_receiver.insert(receiver_id.0, v);
        let key = Self::key_of(sender_id, signal_index);
        let mut w = match self.by_signal.remove(&key) {
            Some(w) => w,
            None => Vec::new(),
        };
        w.push(id);
        self.by_signal.insert(key, w);
        self.next_id = self.next_id + 1;
        proof {
            assert forall|s: u64, i: usize| #![trigger signal_ids(self@, s, i)]
                signal_ids(self@, s, i) == signal_ids(model_register(old_model, record), s, i) by {
                lemma_signal_key_injective(s, i, sender_id.0, signal_index);
            }
        }
        assert(self@ =~= model_register(old_model, record));
        proof {
            lemma_register_sound(old_model, record);
            lemma_register_signals_sound(old_model, record);
            let m = self@;
            assert forall|c: u64| #[trigger] m.connections.contains_key(c) implies {
                &&& c < m.next_id
                &&& receiver_ids(m, m.connections[c].receiver_id.0).contains(ConnectionId(c))
                &&& signal_ids(m, m.connections[c].sender_id.0, m.connections[c].signal_index).contains(
                    ConnectionId(c),
                )
            } by {
                if c != id.0 {
                    let rec = old_model.connections[c];
                    let rs = receiver_ids(old_model, rec.receiver_id.0);
                    let ss = signal_ids(old_model, rec.sender_id.0, rec.signal_index);
                    let k1 = choose|k: int| 0 <= k < rs.len() && rs[k] == ConnectionId(c);
                    let k2 = choose|k: int| 0 <= k < ss.len() && ss[k] == ConnectionId(c);
                    if rec.receiver_id.0 == receiver_id.0 {
                        assert(rs.push(id)[k1] == ConnectionId(c));
                    }
                    if rec.sender_id.0 == sender_id.0 && rec.signal_index == signal_index {
                        assert(ss.push(id)[k2] == ConnectionId(c));
                    }
                } else {
                    let rs = receiver_ids(old_model, receiver_id.0);
                    let ss = signal_ids(old_model, sender_id.0, signal_index);
                    assert(rs.push(id)[rs.len() as int] == id);
                    assert(ss.push(id)[ss.len() as int] == id);
                }
            }
        }
        id
    }

    /// `v` with every occurrence of `id` removed, order kept.
    fn without_id(v: &Vec<ConnectionId>, id: ConnectionId) -> (r: Vec<ConnectionId>)
        ensures
            r@ == without(v@, id),
    {
        let mut r: Vec<ConnectionId> = Vec::new();
        let mut i: usize = 0;
        while i < v.len()
            invariant
                i <= v@.len(),
                r@ == without(v@.take(i as int), id),
            decreases v@.len() - i,
        {
            assert(v@.take(i as int + 1).drop_last() =~= v@.take(i as int));
            if v[i] != id {
                r.push(v[i]);
            }
            i = i + 1;
        }
        assert(v@.take(v@.len() as int) =~= v@);
        r
    }

    /// Removes `id` from the signal list of `rec` and from the record map.
    fn drop_from_signal(&mut self, id: ConnectionId, rec: ConnectionRecord)
        ensures
            final(self)@ == model_drop_from_signal(old(self)@, id.0, rec),
            final(self).by_receiver@ == old(self).by_receiver@,
    {
        let ghost old_model = self@;
        self.connections.remove(&id.0);
        let key = Self::key_of(rec.sender_id, rec.signal_index);
        match self.by_signal.remove(&key) {
            Some(w) => {
                let nw = Self::without_id(&w, id);
                self.by_signal.insert(key, nw);
            },
            None => {},
        }
        proof {
            assert forall|s: u64, i: usize| #![trigger signal_ids(self@, s, i)]
                signal_ids(self@, s, i) == signal_ids(model_drop_from_signal(old_model, id.0, rec), s, i) by {
                lemma_signal_key_injective(s, i, rec.sender_id.0, rec.signal_index);
            }
        }
        assert(self@ =~= model_drop_from_signal(old_model, id.0, rec));
    }

    /// Removes the connection `id`; no effect when it is not registered.
    pub fn remove(&mut self, id: ConnectionId)
        requires
            old(self).wf(),
        ensures
            final(self).wf(),
            final(self)@ == model_remove(old(self)@, id.0),
    {
        let ghost old_model = self@;
        match self.connections.get(&id.0) {
            Some(r) => {
                let rec = *r;
                self.drop_from_signal(id, rec);
                match self.by_receiver.remove(&rec.receiver_id.0) {
                    Some(v) => {
                        let nv = Self::without_id(&v, id);
                        self.by_receiver.insert(rec.receiver_id.0, nv);
                    },
                    None => {},
                }
                assert(self@ =~= model_remove(old_model, id.0));
                proof {
                    lemma_remove_sound(old_model, id.0);
                    lemma_remove_signals_sound(old_model, id.0);
                    let m = self@;
                    assert forall|c: u64| #[trigger] m.connections.contains_key(c) implies {
                        &&& c < m.next_id
                        &&& receiver_ids(m, m.connections[c].receiver_id.0).contains(ConnectionId(c))
                        &&& signal_ids(m, m.connections[c].sender_id.0, m.connections[c].signal_index).contains(
                            ConnectionId(c),
                        )
                    } by {
                        let crec = old_model.connections[c];
                        lemma_without_excludes(receiver_ids(old_model, crec.receiver_id.0), id);
                        lemma_without_excludes(signal_ids(old_model, crec.sender_id.0, crec.signal_index), id);
                    }
                }
            },
            None => {
                assert(self@ =~= model_remove(old_model, id.0));
            },
        }
    }

    /// Removes every connection whose receiver is `receiver` (called when that object
    /// is destroyed).
    pub fn remove_by_receiver(&mut self, receiver: ObjectId)
        requires
            old(self).wf(),
        ensures
            final(self).wf(),
            final(self)@ == model_remove_by_receiver(old(self)@, receiver.0),
    {
        let ghost old_model = self@;
        let ids: Vec<ConnectionId> = match self.by_receiver.remove(&receiver.0) {
            Some(v) => v,
            None => Vec::new(),
        };
        let ghost cleared = self@;
        assert(cleared =~= model_clear_receiver(old_model, receiver.0));
        assert(ids@ == receiver_ids(old_model, receiver.0));
        let mut i: usize = 0;
        while i < ids.len()
            invariant
                i <= ids@.len(),
                self@ == model_drop_all(cleared, ids@.take(i as int)),
            decreases ids@.len() - i,
        {
            let cid = ids[i];
            assert(ids@.take(i as int + 1).drop_last() =~= ids@.take(i as int));
            match self.connections.get(&cid.0) {
                Some(r) => {
                    let rec = *r;
                    self.drop_from_signal(cid, rec);
                },
                None => {},
            }
            i = i + 1;
        }
        assert(ids@.take(ids@.len() as int) =~= ids@);
        proof {
            lemma_drop_all_keeps(cleared, ids@);
            lemma_remove_by_receiver_sound(old_model, receiver.0);
            lemma_remove_by_receiver_signals_sound(old_model, receiver.0);
            let m = self@;
            assert forall|c: u64| #[trigger] m.connections.contains_key(c) implies {
                &&& c < m.next_id
                &&& receiver_ids(m, m.connections[c].receiver_id.0).contains(ConnectionId(c))
                &&& signal_ids(m, m.connections[c].sender_id.0, m.connections[c].signal_index).contains(
                    ConnectionId(c),
                )
            } by {
                let crec = old_model.connections[c];
                assert(cleared.connections.contains_key(c));
                if crec.receiver_id.0 == receiver.0 {
                    assert(receiver_ids(old_model, receiver.0).contains(ConnectionId(c)));
                    assert(!m.connections.contains_key(c));
                }
            }
        }
    }

    /// Returns the connection ids recorded for `(sender_id, signal_index)`, in
    /// registration order.
    pub fn receivers_for_signal(&self, sender_id: ObjectId, signal_index: usize) -> (r: Vec<
        ConnectionId,
    >)
        ensures
            r@ == signal_ids(self@, sender_id.0, signal_index),
    {
        let key = Self::key_of(sender_id, signal_index);
        match self.by_signal.get(&key) {
            Some(w) => {
                let mut r: Vec<ConnectionId> = Vec::new();
                let mut i: usize = 0;
                while i < w.len()
                    invariant
                        i <= w@.len(),
                        r@ == w@.take(i as int),
                    decreases w@.len() - i,
                {
                    r.push(w[i]);
                    assert(w@.take(i as int + 1) =~= w@.take(i as int).push(w@[i as int]));
                    i = i + 1;
                }
                assert(w@.take(w@.len() as int) =~= w@);
                r
            },
            None => Vec::new(),
        }
    }
}

/// Dropping a list of connections removes exactly the listed ones that were present,
/// keeps the other records unchanged, and keeps every remaining connection in its
/// signal list and receiver list.
pub proof fn lemma_drop_all_keeps(m: ConnModel, ids: Seq<ConnectionId>)
    ensures
        forall|c: u64| #[trigger] model_drop_all(m, ids).connections.contains_key(c)
            <==> m.connections.contains_key(c) && !ids.contains(ConnectionId(c)),
        forall|c: u64| #[trigger] model_drop_all(m, ids).connections.contains_key(c)
            ==> model_drop_all(m, ids).connections[c] == m.connections[c],
        model_drop_all(m, ids).by_receiver == m.by_receiver,
        model_drop_all(m, ids).next_id == m.next_id,
        forall|c: u64|
            #[trigger] model_drop_all(m, ids).connections.contains_key(c)
                && signal_ids(m, m.connections[c].sender_id.0, m.connections[c].signal_index).contains(ConnectionId(c))
                ==> signal_ids(model_drop_all(m, ids), m.connections[c].sender_id.0, m.connections[c].signal_index).contains(ConnectionId(c)),
    decreases ids.len(),
{
    if ids.len() > 0 {
        lemma_drop_all_keeps(m, ids.drop_last());
        let prev = model_drop_all(m, ids.drop_last());
        let last = ids.last();
        let cur = model_drop_all(m, ids);
        assert forall|c: u64| #[trigger] cur.connections.contains_key(c)
            <==> m.connections.contains_key(c) && !ids.contains(ConnectionId(c)) by {
            if ids.contains(ConnectionId(c)) {
                let k = choose|k: int| 0 <= k < ids.len() && ids[k] == ConnectionId(c);
                if k < ids.len() - 1 {
                    assert(ids.drop_last()[k] == ConnectionId(c));
                }
            }
            if ids.drop_last().contains(ConnectionId(c)) {
                let k = choose|k: int| 0 <= k < ids.drop_last().len() && ids.drop_last()[k] == ConnectionId(c);
                assert(ids[k] == ConnectionId(c));
            }
        }
        if prev.connections.contains_key(last.0) {
            let rec = prev.connections[last.0];
            assert forall|c: u64|
                #[trigger] cur.connections.contains_key(c)
                    && signal_ids(m, m.connections[c].sender_id.0, m.connections[c].signal_index).contains(ConnectionId(c))
                    implies signal_ids(cur, m.connections[c].sender_id.0, m.connections[c].signal_index).contains(ConnectionId(c)) by {
                assert(prev.connections.contains_key(c));
                let crec = m.connections[c];
                lemma_without_excludes(signal_ids(prev, crec.sender_id.0, crec.signal_index), last);
            }
        }
    }
}

proof fn lemma_register_sound(m: ConnModel, rec: ConnectionRecord)
    requires
        consistent(m),
        receivers_sound(m),
    ensures
        receivers_sound(model_register(m, rec)),
{
    let m1 = model_register(m, rec);
    let id = ConnectionId(m.next_id);
    assert forall|x: u64, k: int| 0 <= k < receiver_ids(m1, x).len() implies {
        &&& m1.connections.contains_key((#[trigger] receiver_ids(m1, x)[k]).0)
        &&& m1.connections[receiver_ids(m1, x)[k].0].receiver_id.0 == x
    } by {
        let rs = receiver_ids(m, x);
        if k < rs.len() {
            if x == rec.receiver_id.0 {
                assert(receiver_ids(m1, x)[k] == rs[k]);
            }
            assert(m.connections.contains_key(rs[k].0));
            assert(rs[k].0 != m.next_id);
        } else {
            assert(x == rec.receiver_id.0);
            assert(receiver_ids(m1, x)[k] == id);
        }
    }
}

proof fn lemma_remove_sound(m: ConnModel, id: u64)
    requires
        receivers_sound(m),
    ensures
        receivers_sound(model_remove(m, id)),
{
    if m.connections.contains_key(id) {
        let rec = m.connections[id];
        let m1 = model_remove(m, id);
        assert forall|x: u64, k: int| 0 <= k < receiver_ids(m1, x).len() implies {
            &&& m1.connections.contains_key((#[trigger] receiver_ids(m1, x)[k]).0)
            &&& m1.connections[receiver_ids(m1, x)[k].0].receiver_id.0 == x
        } by {
            let rs = receiver_ids(m, x);
            let c = receiver_ids(m1, x)[k];
            if x == rec.receiver_id.0 {
                lemma_without_excludes(rs, ConnectionId(id));
                assert(without(rs, ConnectionId(id)).contains(c));
                assert(c != ConnectionId(id));
                assert(rs.contains(c));
                let j = choose|j: int| 0 <= j < rs.len() && rs[j] == c;
                assert(m.connections.contains_key(rs[j].0));
            } else {
                assert(c == rs[k]);
                assert(m.connections.contains_key(rs[k].0));
                if c.0 == id {
                    assert(m.connections[rs[k].0].receiver_id.0 == x);
                }
            }
        }
    }
}

proof fn lemma_remove_by_receiver_sound(m: ConnModel, receiver: u64)
    requires
        receivers_sound(m),
    ensures
        receivers_sound(model_remove_by_receiver(m, receiver)),
{
    let cleared = model_clear_receiver(m, receiver);
    let ids = (m.by_receiver)(receiver);
    let m1 = model_remove_by_receiver(m, receiver);
    lemma_drop_all_keeps(cleared, ids);
    assert forall|x: u64, k: int| 0 <= k < receiver_ids(m1, x).len() implies {
        &&& m1.connections.contains_key((#[trigger] receiver_ids(m1, x)[k]).0)
        &&& m1.connections[receiver_ids(m1, x)[k].0].receiver_id.0 == x
    } by {
        assert(x != receiver);
        let c = receiver_ids(m, x)[k];
        assert(receiver_ids(m1, x)[k] == c);
        assert(m.connections.contains_key(c.0));
        if ids.contains(ConnectionId(c.0)) {
            let j = choose|j: int| 0 <= j < ids.len() && ids[j] == ConnectionId(c.0);
            assert(receiver_ids(m, receiver)[j] == ConnectionId(c.0));
            assert(m.connections[c.0].receiver_id.0 == receiver);
        }
        assert(cleared.connections.contains_key(c.0));
    }
}

proof fn lemma_without_push_last(s: Seq<ConnectionId>, x: ConnectionId)
    ensures
        without(s.push(x), x) == without(s, x),
{
    assert(s.push(x).drop_last() =~= s);
}

proof fn lemma_register_signals_sound(m: ConnModel, rec: ConnectionRecord)
    requires
        consistent(m),
        signals_sound(m),
    ensures
        signals_sound(model_register(m, rec)),
{
    let m1 = model_register(m, rec);
    let id = ConnectionId(m.next_id);
    assert forall|s: u64, i: usize, k: int| 0 <= k < signal_ids(m1, s, i).len() implies {
        &&& m1.connections.contains_key((#[trigger] signal_ids(m1, s, i)[k]).0)
        &&& m1.connections[signal_ids(m1, s, i)[k].0].sender_id.0 == s
        &&& m1.connections[signal_ids(m1, s, i)[k].0].signal_index == i
    } by {
        let ss = signal_ids(m, s, i);
        if k < ss.len() {
            if s == rec.sender_id.0 && i == rec.signal_index {
                assert(signal_ids(m1, s, i)[k] == ss[k]);
            }
            assert(m.connections.contains_key(ss[k].0));
            assert(ss[k].0 != m.next_id);
        } else {
            assert(signal_ids(m1, s, i)[k] == id);
        }
    }
}

proof fn lemma_drop_signals_sound(m: ConnModel, id: u64)
    requires
        signals_sound(m),
        m.connections.contains_key(id),
    ensures
        signals_sound(model_drop_from_signal(m, id, m.connections[id])),
{
    let rec = m.connections[id];
    let m1 = model_drop_from_signal(m, id, rec);
    assert forall|s: u64, i: usize, k: int| 0 <= k < signal_ids(m1, s, i).len() implies {
        &&& m1.connections.contains_key((#[trigger] signal_ids(m1, s, i)[k]).0)
        &&& m1.connections[signal_ids(m1, s, i)[k].0].sender_id.0 == s
        &&& m1.connections[signal_ids(m1, s, i)[k].0].signal_index == i
    } by {
        let ss = signal_ids(m, s, i);
        let c = signal_ids(m1, s, i)[k];
        if s == rec.sender_id.0 && i == rec.signal_index {
            lemma_without_excludes(ss, ConnectionId(id));
            assert(without(ss, ConnectionId(id)).contains(c));
            assert(c != ConnectionId(id));
            assert(ss.contains(c));
            let j = choose|j: int| 0 <= j < ss.len() && ss[j] == c;
            assert(m.connections.contains_key(ss[j].0));
        } else {
            assert(c == ss[k]);
            assert(m.connections.contains_key(ss[k].0));
        }
    }
}

proof fn lemma_remove_signals_sound(m: ConnModel, id: u64)
    requires
        signals_sound(m),
    ensures
        signals_sound(model_remove(m, id)),
{
    if m.connections.contains_key(id) {
        lemma_drop_signals_sound(m, id);
        let d = model_drop_from_signal(m, id, m.connections[id]);
        let m1 = model_remove(m, id);
        assert forall|s: u64, i: usize, k: int| 0 <= k < signal_ids(m1, s, i).len() implies {
            &&& m1.connections.contains_key((#[trigger] signal_ids(m1, s, i)[k]).0)
            &&& m1.connections[signal_ids(m1, s, i)[k].0].sender_id.0 == s
            &&& m1.connections[signal_ids(m1, s, i)[k].0].signal_index == i
        } by {
            assert(signal_ids(m1, s, i) == signal_ids(d, s, i));
        }
    }
}

proof fn lemma_drop_all_signals_sound(m: ConnModel, ids: Seq<ConnectionId>)
    requires
        signals_sound(m),
    ensures
        signals_sound(model_drop_all(m, ids)),
    decreases ids.len(),
{
    if ids.len() > 0 {
        lemma_drop_all_signals_sound(m, ids.drop_last());
        let prev = model_drop_all(m, ids.drop_last());
        if prev.connections.contains_key(ids.last().0) {
            lemma_drop_signals_sound(prev, ids.last().0);
        }
    }
}

proof fn lemma_remove_by_receiver_signals_sound(m: ConnModel, receiver: u64)
    requires
        signals_sound(m),
    ensures
        signals_sound(model_remove_by_receiver(m, receiver)),
{
    let cleared = model_clear_receiver(m, receiver);
    assert forall|s: u64, i: usize, k: int| 0 <= k < signal_ids(cleared, s, i).len() implies {
        &&& cleared.connections.contains_key((#[trigger] signal_ids(cleared, s, i)[k]).0)
        &&& cleared.connections[signal_ids(cleared, s, i)[k].0].sender_id.0 == s
        &&& cleared.connections[signal_ids(cleared, s, i)[k].0].signal_index == i
    } by {
        assert(signal_ids(cleared, s, i) == signal_ids(m, s, i));
    }
    lemma_drop_all_signals_sound(cleared, (m.by_receiver)(receiver));
}

/// After `remove_by_receiver(r)` no removed connection is listed under any signal or
/// any receiver: every listed id is a live connection of that signal and receiver.
pub proof fn law_remove_by_receiver_unlists(m: ConnModel, receiver: u64)
    requires
        consistent(m),
        receivers_sound(m),
        signals_sound(m),
    ensures
        signals_sound(model_remove_by_receiver(m, receiver)),
        receivers_sound(model_remove_by_receiver(m, receiver)),
        forall|c: u64, s: u64, i: usize|
            !model_remove_by_receiver(m, receiver).connections.contains_key(c) ==> !(#[trigger] signal_ids(
                model_remove_by_receiver(m, receiver),
                s,
                i,
            ).contains(ConnectionId(c))),
{
    let m1 = model_remove_by_receiver(m, receiver);
    lemma_remove_by_receiver_signals_sound(m, receiver);
    lemma_remove_by_receiver_sound(m, receiver);
    assert forall|c: u64, s: u64, i: usize| !m1.connections.contains_key(c) implies !(#[trigger] signal_ids(
        m1,
        s,
        i,
    ).contains(ConnectionId(c))) by {
        if signal_ids(m1, s, i).contains(ConnectionId(c)) {
            let k = choose|k: int| 0 <= k < signal_ids(m1, s, i).len() && signal_ids(m1, s, i)[k] == ConnectionId(c);
            assert(m1.connections.contains_key(signal_ids(m1, s, i)[k].0));
        }
    }
}

/// Removing the connections of a receiver removes exactly those: every other
/// connection stays with its record.
pub proof fn law_remove_by_receiver_exact(m: ConnModel, receiver: u64, c: u64)
    requires
        consistent(m),
        receivers_sound(m),
    ensures
        model_remove_by_receiver(m, receiver).connections.contains_key(c) <==> (m.connections.contains_key(c)
            && m.connections[c].receiver_id.0 != receiver),
        model_remove_by_receiver(m, receiver).connections.contains_key(c) ==> model_remove_by_receiver(
            m,
            receiver,
        ).connections[c] == m.connections[c],
{
    let cleared = model_clear_receiver(m, receiver);
    let ids = (m.by_receiver)(receiver);
    lemma_drop_all_keeps(cleared, ids);
    law_remove_by_receiver_clears(m, receiver);
    if m.connections.contains_key(c) && m.connections[c].receiver_id.0 != receiver {
        if ids.contains(ConnectionId(c)) {
            let j = choose|j: int| 0 <= j < ids.len() && ids[j] == ConnectionId(c);
            assert(receiver_ids(m, receiver)[j] == ConnectionId(c));
        }
        assert(cleared.connections.contains_key(c));
    }
}

/// After `remove_by_receiver(r)` no connection with receiver `r` remains and nothing
/// is listed under `r`.
pub proof fn law_remove_by_receiver_clears(m: ConnModel, receiver: u64)
    requires
        consistent(m),
    ensures
        forall|c: u64| #[trigger] model_remove_by_receiver(m, receiver).connections.contains_key(c)
            ==> model_remove_by_receiver(m, receiver).connections[c].receiver_id.0 != receiver,
        receiver_ids(model_remove_by_receiver(m, receiver), receiver) == Seq::<ConnectionId>::empty(),
{
    let cleared = model_clear_receiver(m, receiver);
    let ids = (m.by_receiver)(receiver);
    lemma_drop_all_keeps(cleared, ids);
    assert forall|c: u64| #[trigger] model_remove_by_receiver(m, receiver).connections.contains_key(c)
        implies model_remove_by_receiver(m, receiver).connections[c].receiver_id.0 != receiver by {
        assert(m.connections.contains_key(c));
        if m.connections[c].receiver_id.0 == receiver {
            assert(ids.contains(ConnectionId(c)));
        }
    }
}

/// A registration mints an unused id and lists it last under its signal and its
/// receiver; removing that id again drops its record and unlists it from both lists,
/// leaving the other records as they were.
pub proof fn law_register_then_remove(m: ConnModel, rec: ConnectionRecord)
    requires
        consistent(m),
        receivers_sound(m),
        signals_sound(m),
        m.next_id < u64::MAX,
    ensures
        forall|s: u64, i: usize|
            #[trigger] signal_ids(model_remove(model_register(m, rec), m.next_id), s, i) == signal_ids(m, s, i),
        forall|x: u64| #[trigger] receiver_ids(model_remove(model_register(m, rec), m.next_id), x) == receiver_ids(m, x),
        !m.connections.contains_key(m.next_id),
        signal_ids(model_register(m, rec), rec.sender_id.0, rec.signal_index).last() == ConnectionId(m.next_id),
        receiver_ids(model_register(m, rec), rec.receiver_id.0).last() == ConnectionId(m.next_id),
        consistent(model_register(m, rec)),
        model_remove(model_register(m, rec), m.next_id).connections == m.connections,
        !signal_ids(model_remove(model_register(m, rec), m.next_id), rec.sender_id.0, rec.signal_index).contains(
            ConnectionId(m.next_id),
        ),
        !receiver_ids(model_remove(model_register(m, rec), m.next_id), rec.receiver_id.0).contains(
            ConnectionId(m.next_id),
        ),
{
    let m1 = model_register(m, rec);
    let id = ConnectionId(m.next_id);
    assert(m1.connections.remove(m.next_id) =~= m.connections);
    let m2 = model_remove(m1, m.next_id);
    assert(!signal_ids(m, rec.sender_id.0, rec.signal_index).contains(id)) by {
        let ss = signal_ids(m, rec.sender_id.0, rec.signal_index);
        if ss.contains(id) {
            let k = choose|k: int| 0 <= k < ss.len() && ss[k] == id;
            assert(m.connections.contains_key(ss[k].0));
        }
    }
    assert(!receiver_ids(m, rec.receiver_id.0).contains(id)) by {
        let rs = receiver_ids(m, rec.receiver_id.0);
        if rs.contains(id) {
            let k = choose|k: int| 0 <= k < rs.len() && rs[k] == id;
            assert(m.connections.contains_key(rs[k].0));
        }
    }
    let ss0 = signal_ids(m, rec.sender_id.0, rec.signal_index);
    let rs0 = receiver_ids(m, rec.receiver_id.0);
    lemma_without_absent(ss0, id);
    lemma_without_absent(rs0, id);
    lemma_without_push_last(ss0, id);
    lemma_without_push_last(rs0, id);
    assert forall|s: u64, i: usize| #[trigger] signal_ids(m2, s, i) == signal_ids(m, s, i) by {}
    assert forall|x: u64| #[trigger] receiver_ids(m2, x) == receiver_ids(m, x) by {}
    lemma_without_excludes(signal_ids(m1, rec.sender_id.0, rec.signal_index), id);
    lemma_without_excludes(receiver_ids(m1, rec.receiver_id.0), id);
    assert forall|c: u64| #[trigger] m1.connections.contains_key(c) implies {
        &&& c < m1.next_id
        &&& receiver_ids(m1, m1.connections[c].receiver_id.0).contains(ConnectionId(c))
        &&& signal_ids(m1, m1.connections[c].sender_id.0, m1.connections[c].signal_index).contains(ConnectionId(c))
    } by {
        if c != m.next_id {
            let crec = m.connections[c];
            let rs = receiver_ids(m, crec.receiver_id.0);
            let ss = signal_ids(m, crec.sender_id.0, crec.signal_index);
            let k1 = choose|k: int| 0 <= k < rs.len() && rs[k] == ConnectionId(c);
            let k2 = choose|k: int| 0 <= k < ss.len() && ss[k] == ConnectionId(c);
            if crec.receiver_id.0 == rec.receiver_id.0 {
                assert(rs.push(id)[k1] == ConnectionId(c));
            }
            if crec.sender_id.0 == rec.sender_id.0 && crec.signal_index == rec.signal_index {
                assert(ss.push(id)[k2] == ConnectionId(c));
            }
        } else {
            let rs = receiver_ids(m, rec.receiver_id.0);
            let ss = signal_ids(m, rec.sender_id.0, rec.signal_index);
            assert(rs.push(id)[rs.len() as int] == id);
            assert(ss.push(id)[ss.len() as int] == id);
        }
    }
}

} // verus!
