//! The directory of routing gates: one gate per room or player, kept only while
//! somebody holds it.

use std::collections::HashMap;

use vstd::prelude::*;

verus! {

broadcast use vstd::std_specs::hash::group_hash_axioms;

/// The identity of one gate. A key that is asked for again after its gate was
/// let go of gets another one.
pub type GateId = u64;

/// One entry of the directory.
#[derive(Clone, Copy, Debug, PartialEq, Eq, Structural)]
pub struct RoutingGate {
    pub id: GateId,
    /// How many guards and active rooms hold the routing gate.
    pub holders: u64,
}

/// The mathematical view of [`RoutingGateRegistry`].
#[verifier::ext_equal]
pub ghost struct GatesView {
    pub gates: Map<u128, RoutingGate>,
    /// The gates the registry holds itself, because their room is active.
    pub active: Map<u128, GateId>,
    /// The identity the next gate gets.
    pub next: GateId,
}

impl GatesView {
    /// What the registry holds itself is held, and under the identity the
    /// directory has; no identity is given out twice.
    pub open spec fn wf(self) -> bool {
        &&& forall|key: u128| #[trigger]
            self.active.contains_key(key) ==> self.holds(key, self.active[key])
        &&& forall|key: u128| #[trigger] self.gates.contains_key(key) ==> self.gates[key].id < self.next
    }

    /// Whether `id` is the routing gate of `key`, and somebody holds it.
    pub open spec fn holds(self, key: u128, id: GateId) -> bool {
        self.gates.contains_key(key) && self.gates[key].id == id && self.gates[key].holders > 0
    }

    /// Whether somebody holds a gate of `key`.
    pub open spec fn held(self, key: u128) -> bool {
        self.gates.contains_key(key) && self.gates[key].holders > 0
    }

    /// The routing gate of `key` that is handed out next.
    pub open spec fn gate(self, key: u128) -> GateId {
        if self.held(key) {
            self.gates[key].id
        } else {
            self.next
        }
    }

    /// The directory after the routing gate of `key` is handed out.
    pub open spec fn acquired(self, key: u128) -> GatesView {
        if self.held(key) {
            self.with_holders(key, self.gates[key].holders + 1)
        } else {
            GatesView {
                gates: self.gates.insert(key, RoutingGate { id: self.next, holders: 1 }),
                next: (self.next + 1) as u64,
                ..self
            }
        }
    }

    /// The directory with another number of holders of `key`'s gate.
    pub open spec fn with_holders(self, key: u128, holders: int) -> GatesView {
        GatesView {
            gates: self.gates.insert(
                key,
                RoutingGate { id: self.gates[key].id, holders: holders as u64 },
            ),
            ..self
        }
    }

    /// The directory after the entry of `key` is cleaned up on behalf of `id`:
    /// it stays if a later gate has replaced it.
    pub open spec fn dropped(self, key: u128, id: GateId) -> GatesView {
        if self.gates.contains_key(key) && self.gates[key].id == id {
            GatesView { gates: self.gates.remove(key), ..self }
        } else {
            self
        }
    }
}

/// The directory of routing gates.
#[derive(Debug)]
pub struct RoutingGateRegistry {
    gates: HashMap<u128, RoutingGate>,
    active: HashMap<u128, GateId>,
    next: GateId,
}

impl View for RoutingGateRegistry {
    type V = GatesView;

    closed spec fn view(&self) -> GatesView {
        GatesView { gates: self.gates@, active: self.active@, next: self.next }
    }
}

impl RoutingGateRegistry {
    /// An empty directory.
    pub fn new() -> (registry: Self)
        ensures
            registry@ == (GatesView { gates: Map::empty(), active: Map::empty(), next: 0 }),
            registry@.wf(),
    {
        RoutingGateRegistry { gates: HashMap::new(), active: HashMap::new(), next: 0 }
    }

    /// The number of entries.
    pub fn len(&self) -> (count: usize)
        ensures
            count == self@.gates.dom().len(),
    {
        self.gates.len()
    }

    /// Hands the routing gate of `key` out: the same one as long as somebody
    /// holds it.
    pub fn gate(&mut self, key: u128) -> (id: GateId)
        requires
            old(self)@.wf(),
            old(self)@.next < u64::MAX,
            old(self)@.held(key) ==> old(self)@.gates[key].holders < u64::MAX,
        ensures
            final(self)@.wf(),
            id == old(self)@.gate(key),
            final(self)@ == old(self)@.acquired(key),
            final(self)@.holds(key, id),
    {
        let held = match self.gates.get(&key) {
            Some(gate) => if gate.holders > 0 {
                Some(*gate)
            } else {
                None
            },
            None => None,
        };
        let id = match held {
            Some(gate) => {
                let _ = self.gates.insert(
                    key,
                    RoutingGate { id: gate.id, holders: gate.holders + 1 },
                );
                gate.id
            },
            None => {
                let id = self.next;
                let _ = self.gates.insert(key, RoutingGate { id, holders: 1 });
                self.next = self.next + 1;
                id
            },
        };
        assert(self@ =~= old(self)@.acquired(key));
        id
    }

    /// Lets go of the routing gate of `key`. Returns whether nobody holds it any
    /// more, in which case the caller cleans the entry up.
    pub fn release(&mut self, key: u128, id: GateId) -> (last: bool)
        requires
            old(self)@.wf(),
            old(self)@.holds(key, id),
            old(self)@.active.contains_key(key) ==> old(self)@.gates[key].holders > 1,
        ensures
            final(self)@.wf(),
            final(self)@ == old(self)@.with_holders(key, old(self)@.gates[key].holders - 1),
            last == (old(self)@.gates[key].holders == 1),
    {
        match self.gates.get(&key) {
            Some(gate) => {
                let holders: u64 = gate.holders - 1;
                let _ = self.gates.insert(key, RoutingGate { id, holders });
                assert(self@ =~= old(self)@.with_holders(
                    key,
                    old(self)@.gates[key].holders - 1,
                ));
                holders == 0
            },
            None => false,
        }
    }

    /// Cleans the entry of a gate up that nobody holds any more. It may come
    /// late: an entry that a later gate has taken stays.
    pub fn drop_gate(&mut self, key: u128, id: GateId)
        requires
            old(self)@.wf(),
            !old(self)@.holds(key, id),
        ensures
            final(self)@.wf(),
            final(self)@ == old(self)@.dropped(key, id),
    {
        let current = match self.gates.get(&key) {
            Some(gate) => gate.id == id,
            None => false,
        };
        if current {
            let _ = self.gates.remove(&key);
        }
        assert(self@ =~= old(self)@.dropped(key, id));
    }

    /// Keeps a gate that the caller holds for as long as its room is active.
    pub fn mark_active(&mut self, key: u128, id: GateId)
        requires
            old(self)@.wf(),
            old(self)@.holds(key, id),
            old(self)@.gates[key].holders < u64::MAX,
        ensures
            final(self)@.wf(),
            final(self)@ == (if old(self)@.active.contains_key(key) {
                old(self)@
            } else {
                GatesView {
                    active: old(self)@.active.insert(key, id),
                    ..old(self)@.with_holders(key, old(self)@.gates[key].holders + 1)
                }
            }),
    {
        if !self.active.contains_key(&key) {
            if let Some(gate) = self.gates.get(&key) {
                let holders: u64 = gate.holders + 1;
                let _ = self.gates.insert(key, RoutingGate { id, holders });
                let _ = self.active.insert(key, id);
            }
            assert(self@ =~= GatesView {
                active: old(self)@.active.insert(key, id),
                ..old(self)@.with_holders(key, old(self)@.gates[key].holders + 1)
            });
        }
    }

    /// Stops keeping the routing gate of a room that is not active any more.
    /// Returns its identity if nobody else holds it, in which case the caller
    /// cleans the entry up.
    pub fn mark_inactive(&mut self, key: u128) -> (last: Option<GateId>)
        requires
            old(self)@.wf(),
        ensures
            final(self)@.wf(),
            final(self)@ == (if old(self)@.active.contains_key(key) {
                GatesView {
                    active: old(self)@.active.remove(key),
                    ..old(self)@.with_holders(key, old(self)@.gates[key].holders - 1)
                }
            } else {
                old(self)@
            }),
            last == (if old(self)@.active.contains_key(key) && old(self)@.gates[key].holders == 1 {
                Some(old(self)@.active[key])
            } else {
                None
            }),
    {
        let kept = match self.active.get(&key) {
            Some(id) => Some(*id),
            None => None,
        };
        match kept {
            None => None,
            Some(id) => {
                assert(self@.active.contains_key(key) && self@.active[key] == id);
                let _ = self.active.remove(&key);
                let holders: u64 = match self.gates.get(&key) {
                    Some(gate) => gate.holders - 1,
                    None => 0,
                };
                let _ = self.gates.insert(key, RoutingGate { id, holders });
                assert(self@ =~= GatesView {
                    active: old(self)@.active.remove(key),
                    ..old(self)@.with_holders(key, old(self)@.gates[key].holders - 1)
                });
                if holders == 0 {
                    Some(id)
                } else {
                    None
                }
            },
        }
    }
}

/// Everybody who asks for a held gate gets the same one: two guards of one key
/// never fence each other off with different locks.
pub proof fn law_held_gates_are_shared(view: GatesView, key: u128)
    requires
        view.wf(),
        view.held(key) ==> view.gates[key].holders < u64::MAX,
    ensures
        view.acquired(key).gate(key) == view.gate(key),
        view.held(key) ==> view.gate(key) == view.gates[key].id,
        !view.held(key) ==> !(view.gates.contains_key(key) && view.gates[key].id == view.gate(key)),
{
}

/// Cleaning up late on behalf of a gate that was let go of leaves alone what
/// replaced it.
pub proof fn law_late_cleanup_spares_a_replacement(view: GatesView, key: u128, id: GateId)
    requires
        view.wf(),
        id < view.next,
        !view.held(key),
    ensures
        view.acquired(key).dropped(key, id) == view.acquired(key),
{
}

/// A gate that is handed out, let go of, and cleaned up leaves no entry behind.
pub proof fn law_idle_gates_leave_no_entry(view: GatesView, key: u128)
    requires
        view.wf(),
        !view.gates.contains_key(key),
    ensures
        view.acquired(key).with_holders(key, 0).dropped(key, view.gate(key)).gates == view.gates,
{
    assert(view.acquired(key).with_holders(key, 0).dropped(key, view.gate(key)).gates
        =~= view.gates);
}

/// A gate somebody holds is handed out again, with one more holder; otherwise a
/// new one is, which nobody had before. No other gate is touched.
pub proof fn law_gates_are_new_unless_held(view: GatesView, key: u128, other: u128)
    requires
        view.wf(),
        view.next < u64::MAX,
        view.held(key) ==> view.gates[key].holders < u64::MAX,
        other != key,
    ensures
        ({
            let after = view.acquired(key);
            let held = view.gates.contains_key(key) && view.gates[key].holders > 0;
            &&& after.gates.contains_key(key)
            &&& after.gates[key].id == view.gate(key)
            &&& held ==> view.gate(key) == view.gates[key].id && after.gates[key].holders
                == view.gates[key].holders + 1 && after.next == view.next
            &&& !held ==> view.gate(key) == view.next && after.gates[key].holders == 1 && after.next
                == view.next + 1
            &&& after.gates.contains_key(other) == view.gates.contains_key(other)
            &&& view.gates.contains_key(other) ==> after.gates[other] == view.gates[other]
                && after.gates[other].id != view.next
            &&& after.active == view.active
        }),
{
}

/// A cleanup drops exactly the one gate it is on behalf of, and no other one.
pub proof fn law_cleanups_drop_their_own_gate(view: GatesView, key: u128, id: GateId, other: u128)
    ensures
        ({
            let after = view.dropped(key, id);
            &&& after.gates.contains_key(other) <==> view.gates.contains_key(other) && !(other
                == key && view.gates[other].id == id)
            &&& after.gates.contains_key(other) ==> after.gates[other] == view.gates[other]
            &&& after.active == view.active
            &&& after.next == view.next
        }),
{
}

/// One gate of a key is held at a time, and the one handed out is that one.
pub proof fn law_one_gate_of_a_key_is_held(view: GatesView, key: u128, one: GateId, other: GateId)
    ensures
        view.holds(key, one) && view.holds(key, other) ==> one == other,
        view.holds(key, one) ==> view.gates.contains_key(key) && view.gates[key].holders > 0
            && view.gate(key) == one,
        view.gates.contains_key(key) && view.gates[key].holders > 0 ==> view.holds(
            key,
            view.gates[key].id,
        ),
        !view.gates.contains_key(key) || view.gates[key].holders < u64::MAX ==> view.acquired(
            key,
        ).holds(key, view.gate(key)),
{
}

} // verus!
