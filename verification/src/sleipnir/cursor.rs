//! The semantic cursor over one HID stream: the newest controller state
//! wins by (epoch, sequence), and button edges are released strictly in
//! sequence order, each once.
use vstd::prelude::*;
use std::collections::{BTreeMap, HashSet};

verus! {

broadcast use {vstd::std_specs::btree::group_btree_axioms, vstd::std_specs::hash::group_hash_axioms};

/// One button press or release, numbered within its stream epoch.
#[derive(Clone, Debug, PartialEq, Eq)]
pub struct HidButtonEdge {
    pub epoch: u64,
    pub device_id: String,
    pub edge_sequence: u64,
    pub button: String,
    pub pressed: bool,
}

/// Where a HID stream stands: its current epoch, the last state and edge
/// sequence taken, edges that arrived ahead of their turn, and the epochs
/// that have been left behind.
pub struct HidSemanticCursor {
    epoch: u64,
    state_sequence: u64,
    edge_sequence: u64,
    pending_edges: BTreeMap<u64, HidButtonEdge>,
    retired_epochs: HashSet<u64>,
}

pub ghost struct CursorView {
    pub epoch: u64,
    pub state_sequence: u64,
    pub edge_sequence: u64,
    pub pending: Map<u64, HidButtonEdge>,
    pub retired: Set<u64>,
}

impl View for HidSemanticCursor {
    type V = CursorView;

    closed spec fn view(&self) -> CursorView {
        CursorView {
            epoch: self.epoch,
            state_sequence: self.state_sequence,
            edge_sequence: self.edge_sequence,
            pending: self.pending_edges@,
            retired: self.retired_epochs@,
        }
    }
}

/// A state `(epoch, sequence)` is taken unless it comes from epoch zero
/// after a real epoch, from a retired epoch, or is not newer than the
/// current state of the current epoch. A new epoch retires the old one
/// (unless it was zero) and starts over with no pending edges.
pub open spec fn accept_state_spec(c: CursorView, epoch: u64, sequence: u64) -> (CursorView, bool) {
    if epoch == 0 && c.epoch != 0 {
        (c, false)
    } else if c.retired.contains(epoch) || (epoch == c.epoch && sequence <= c.state_sequence) {
        (c, false)
    } else if epoch != c.epoch {
        (
            CursorView {
                epoch,
                state_sequence: sequence,
                edge_sequence: 0,
                pending: Map::empty(),
                retired: if c.epoch != 0 {
                    c.retired.insert(c.epoch)
                } else {
                    c.retired
                },
            },
            true,
        )
    } else {
        (CursorView { state_sequence: sequence, ..c }, true)
    }
}

/// Releases the pending edges that follow `seq` without a gap: the new
/// last sequence, what stays pending, and the released edges in order.
pub open spec fn drain_spec(seq: u64, pending: Map<u64, HidButtonEdge>) -> (
    u64,
    Map<u64, HidButtonEdge>,
    Seq<HidButtonEdge>,
)
    decreases u64::MAX - seq,
{
    if seq < u64::MAX && pending.contains_key((seq + 1) as u64) {
        let next = (seq + 1) as u64;
        let rest = drain_spec(next, pending.remove(next));
        (rest.0, rest.1, seq![pending[next]] + rest.2)
    } else {
        (seq, pending, Seq::empty())
    }
}

/// An edge of another epoch, or at or before the last released sequence,
/// is dropped; otherwise it waits (the first copy of a sequence wins) and
/// every edge that is now next in line is released.
pub open spec fn push_edge_spec(c: CursorView, edge: HidButtonEdge) -> (CursorView, Seq<HidButtonEdge>) {
    if edge.epoch != c.epoch || edge.edge_sequence <= c.edge_sequence {
        (c, Seq::empty())
    } else {
        let pending = if c.pending.contains_key(edge.edge_sequence) {
            c.pending
        } else {
            c.pending.insert(edge.edge_sequence, edge)
        };
        let d = drain_spec(c.edge_sequence, pending);
        (CursorView { edge_sequence: d.0, pending: d.1, ..c }, d.2)
    }
}

/// Every pending edge is filed under its own sequence number and belongs
/// to the current epoch.
pub open spec fn pending_keyed(c: CursorView) -> bool {
    forall|k: u64|
        #[trigger] c.pending.contains_key(k) ==> c.pending[k].edge_sequence == k
            && c.pending[k].epoch == c.epoch
}

proof fn lemma_drain_in_sequence(seq: u64, pending: Map<u64, HidButtonEdge>, epoch: u64)
    requires
        forall|k: u64|
            #[trigger] pending.contains_key(k) ==> pending[k].edge_sequence == k
                && pending[k].epoch == epoch,
    ensures
        ({
            let d = drain_spec(seq, pending);
            &&& d.0 == seq + d.2.len()
            &&& forall|i: int|
                0 <= i < d.2.len() ==> (#[trigger] d.2[i]).edge_sequence == seq + 1 + i
                    && d.2[i].epoch == epoch
            &&& forall|k: u64|
                #[trigger] d.1.contains_key(k) ==> d.1[k].edge_sequence == k && d.1[k].epoch == epoch
        }),
    decreases u64::MAX - seq,
{
    if seq < u64::MAX && pending.contains_key((seq + 1) as u64) {
        let next = (seq + 1) as u64;
        lemma_drain_in_sequence(next, pending.remove(next), epoch);
        let rest = drain_spec(next, pending.remove(next));
        let d = drain_spec(seq, pending);
        assert(d.2 == seq![pending[next]] + rest.2);
        assert forall|i: int| 0 <= i < d.2.len() implies (#[trigger] d.2[i]).edge_sequence == seq + 1
            + i && d.2[i].epoch == epoch by {
            if i > 0 {
                assert(d.2[i] == rest.2[i - 1]);
            }
        }
    }
}

/// Button edges leave the cursor strictly in sequence: the edges one push
/// releases carry the numbers right after the last one released, each
/// once, and the cursor moves past exactly them. Accepting a state keeps
/// every pending edge filed under its own number.
pub proof fn law_edges_released_in_sequence(c: CursorView, edge: HidButtonEdge, epoch: u64, sequence: u64)
    requires
        pending_keyed(c),
    ensures
        ({
            let (c2, out) = push_edge_spec(c, edge);
            &&& pending_keyed(c2)
            &&& c2.edge_sequence == c.edge_sequence + out.len()
            &&& forall|i: int|
                0 <= i < out.len() ==> (#[trigger] out[i]).edge_sequence == c.edge_sequence + 1 + i
                    && out[i].epoch == c.epoch
        }),
        pending_keyed(accept_state_spec(c, epoch, sequence).0),
{
    if !(edge.epoch != c.epoch || edge.edge_sequence <= c.edge_sequence) {
        let pending = if c.pending.contains_key(edge.edge_sequence) {
            c.pending
        } else {
            c.pending.insert(edge.edge_sequence, edge)
        };
        assert forall|k: u64| #[trigger] pending.contains_key(k) implies pending[k].edge_sequence == k
            && pending[k].epoch == c.epoch by {
            if k != edge.edge_sequence {
                assert(c.pending.contains_key(k));
            }
        }
        lemma_drain_in_sequence(c.edge_sequence, pending, c.epoch);
    }
}

/// The newest state wins: a state is taken only if it is newer than the
/// current one within the current epoch, or opens an epoch that was never
/// left; a refused state changes nothing; and no epoch the cursor has left
/// is ever taken again.
pub proof fn law_states_only_move_forward(c: CursorView, epoch: u64, sequence: u64, later: u64)
    ensures
        ({
            let (c2, taken) = accept_state_spec(c, epoch, sequence);
            &&& taken ==> c2.epoch == epoch && c2.state_sequence == sequence
            &&& taken && epoch == c.epoch ==> sequence > c.state_sequence
            &&& taken ==> !c.retired.contains(epoch)
            &&& !taken ==> c2 == c
            &&& c.retired.subset_of(c2.retired)
            &&& taken && epoch != c.epoch && c.epoch != 0 ==> !accept_state_spec(
                c2,
                c.epoch,
                later,
            ).1
        }),
{
}

impl Default for HidSemanticCursor {
    fn default() -> (r: Self)
        ensures
            r@ == (CursorView {
                epoch: 0,
                state_sequence: 0,
                edge_sequence: 0,
                pending: Map::empty(),
                retired: Set::empty(),
            }),
    {
        HidSemanticCursor {
            epoch: 0,
            state_sequence: 0,
            edge_sequence: 0,
            pending_edges: BTreeMap::new(),
            retired_epochs: HashSet::new(),
        }
    }
}

impl HidSemanticCursor {
    /// Whether a controller state is newer than anything taken so far.
    pub fn accept_state(&mut self, epoch: u64, sequence: u64) -> (r: bool)
        ensures
            (final(self)@, r) == accept_state_spec(old(self)@, epoch, sequence),
    {
        if epoch == 0 && self.epoch != 0 {
            return false;
        }
        if self.retired_epochs.contains(&epoch) || (epoch == self.epoch && sequence
            <= self.state_sequence) {
            return false;
        }
        if epoch != self.epoch {
            if self.epoch != 0 {
                self.retired_epochs.insert(self.epoch);
            }
            self.epoch = epoch;
            self.state_sequence = 0;
            self.edge_sequence = 0;
            self.pending_edges.clear();
        }
        self.state_sequence = sequence;
        proof {
            assert(self@.pending =~= accept_state_spec(old(self)@, epoch, sequence).0.pending);
        }
        true
    }

    /// Takes one button edge and returns the edges now released, in order.
    pub fn push_edge(&mut self, edge: HidButtonEdge) -> (r: Vec<HidButtonEdge>)
        ensures
            (final(self)@, r@) == push_edge_spec(old(self)@, edge),
    {
        if edge.epoch != self.epoch || edge.edge_sequence <= self.edge_sequence {
            return Vec::new();
        }
        let key = edge.edge_sequence;
        if !self.pending_edges.contains_key(&key) {
            self.pending_edges.insert(key, edge);
        }
        let ghost start_seq = self.edge_sequence;
        let ghost start_pending = self.pending_edges@;
        let mut ready: Vec<HidButtonEdge> = Vec::new();
        loop
            invariant
                self.epoch == old(self).epoch,
                self.state_sequence == old(self).state_sequence,
                self.retired_epochs@ == old(self).retired_epochs@,
                drain_spec(start_seq, start_pending) == (
                    drain_spec(self.edge_sequence, self.pending_edges@).0,
                    drain_spec(self.edge_sequence, self.pending_edges@).1,
                    ready@ + drain_spec(self.edge_sequence, self.pending_edges@).2,
                ),
            ensures
                drain_spec(start_seq, start_pending) == (
                    self.edge_sequence,
                    self.pending_edges@,
                    ready@,
                ),
            decreases u64::MAX - self.edge_sequence,
        {
            if self.edge_sequence == u64::MAX {
                assert(ready@ + Seq::<HidButtonEdge>::empty() =~= ready@);
                break;
            }
            let next = self.edge_sequence + 1;
            let ghost old_pending = self.pending_edges@;
            match self.pending_edges.remove(&next) {
                Some(e) => {
                    let ghost before = ready@;
                    self.edge_sequence = next;
                    ready.push(e);
                    proof {
                        assert(ready@ == before.push(e));
                        assert(seq![e] + drain_spec(next, self.pending_edges@).2 =~= drain_spec(
                            (next - 1) as u64,
                            self.pending_edges@.insert(next, e),
                        ).2) by {
                            assert(self.pending_edges@.insert(next, e).remove(next)
                                =~= self.pending_edges@);
                        }
                        assert(before + (seq![e] + drain_spec(next, self.pending_edges@).2)
                            =~= ready@ + drain_spec(next, self.pending_edges@).2);
                    }
                },
                None => {
                    proof {
                        assert(self.pending_edges@ =~= old_pending);
                        assert(ready@ + Seq::<HidButtonEdge>::empty() =~= ready@);
                    }
                    break;
                },
            }
        }
        ready
    }
}


/// A stream that restarts in a new epoch numbers its edges from the start
/// again: once a state of a new epoch is taken, nothing of the old epoch's
/// edges is pending, the released count is back to zero, and the new
/// epoch's first edge is released by the next push.
pub proof fn law_new_epoch_restarts_edge_numbering(c: CursorView, epoch: u64, sequence: u64, edge: HidButtonEdge)
    requires
        accept_state_spec(c, epoch, sequence).1,
        epoch != c.epoch,
        edge.epoch == epoch,
        edge.edge_sequence == 1,
    ensures
        accept_state_spec(c, epoch, sequence).0.edge_sequence == 0,
        accept_state_spec(c, epoch, sequence).0.pending.dom().len() == 0,
        push_edge_spec(accept_state_spec(c, epoch, sequence).0, edge).1 == seq![edge],
        push_edge_spec(accept_state_spec(c, epoch, sequence).0, edge).0.edge_sequence == 1,
{
    let c2 = accept_state_spec(c, epoch, sequence).0;
    assert(c2.pending =~= Map::<u64, HidButtonEdge>::empty());
    let pending = c2.pending.insert(1, edge);
    assert(pending.contains_key(1));
    assert(pending.remove(1) =~= Map::<u64, HidButtonEdge>::empty());
    let d = drain_spec(0, pending);
    let rest = drain_spec(1, pending.remove(1));
    assert(!pending.remove(1).contains_key(2));
    assert(rest.2 =~= Seq::<HidButtonEdge>::empty());
    assert(d.2 =~= seq![edge]);
}

} // verus!
