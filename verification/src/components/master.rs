//! The master component: the registry of running controllers and the
//! packets that stop every board.
use vstd::prelude::*;

use crate::components::controller::{
    group_children, stop_packet, Controller, ControllerChild, ControllerGroup,
};
use crate::protocol::Packet;

verus! {

/// The master component.
#[derive(Clone, Copy, Debug, PartialEq, Eq, Structural)]
pub struct Master;

/// Whether no two controllers share an id.
pub open spec fn distinct_ids(s: Seq<Controller>) -> bool {
    forall|i: int, j: int| 0 <= i < s.len() && 0 <= j < s.len() && i != j ==> s[i].id@ != s[j].id@
}

/// The controllers of a sequence, by id.
pub open spec fn by_id(s: Seq<Controller>) -> Map<Seq<char>, Controller> {
    Map::new(
        |k: Seq<char>| exists|i: int| 0 <= i < s.len() && s[i].id@ == k,
        |k: Seq<char>| s[choose|i: int| 0 <= i < s.len() && s[i].id@ == k],
    )
}

/// The stop packets of every component of every controller, in order, each
/// with the id of the controller to send it through.
pub open spec fn stop_plan(s: Seq<Controller>) -> Seq<(Seq<char>, Packet)>
    decreases s.len(),
{
    if s.len() == 0 {
        seq![]
    } else {
        stop_plan(s.drop_last()) + child_stops(s.last().id@, s.last().group)
    }
}

/// The stop packets of the components of a group, with a controller id.
pub open spec fn child_stops(id: Seq<char>, g: ControllerGroup) -> Seq<(Seq<char>, Packet)> {
    group_children(g).map_values(|c: ControllerChild| (id, stop_packet(c)))
}

/// Stop packets with the ids they go through as plain values.
pub open spec fn plan_view(s: Seq<(String, Packet)>) -> Seq<(Seq<char>, Packet)> {
    s.map_values(|e: (String, Packet)| (e.0@, e.1))
}

/// A registered controller is found under its id.
pub proof fn lemma_by_id_at(s: Seq<Controller>, i: int)
    requires
        distinct_ids(s),
        0 <= i < s.len(),
    ensures
        by_id(s).dom().contains(s[i].id@),
        by_id(s)[s[i].id@] == s[i],
{
    let k = s[i].id@;
    assert(by_id(s).dom().contains(k));
    let j = choose|j: int| 0 <= j < s.len() && s[j].id@ == k;
    assert(j == i);
}

/// Every component of every running controller gets its stop packet in a
/// system stop, through that controller.
pub proof fn lemma_stop_plan_covers(s: Seq<Controller>, i: int, j: int)
    requires
        0 <= i < s.len(),
        0 <= j < group_children(s[i].group).len(),
    ensures
        stop_plan(s).contains((s[i].id@, stop_packet(group_children(s[i].group)[j]))),
    decreases s.len(),
{
    let e = (s[i].id@, stop_packet(group_children(s[i].group)[j]));
    let front = stop_plan(s.drop_last());
    let back = child_stops(s.last().id@, s.last().group);
    if i == s.len() - 1 {
        assert(back[j] == e);
        assert((front + back)[front.len() + j] == e);
    } else {
        lemma_stop_plan_covers(s.drop_last(), i, j);
        let k = choose|k: int| 0 <= k < front.len() && front[k] == e;
        assert((front + back)[k] == e);
    }
}

/// A system stop sends nothing but stop packets of components of running
/// controllers, each through its own controller.
pub proof fn lemma_stop_plan_sound(s: Seq<Controller>, k: int)
    requires
        0 <= k < stop_plan(s).len(),
    ensures
        exists|i: int, j: int|
            0 <= i < s.len() && 0 <= j < group_children(s[i].group).len() && stop_plan(s)[k] == (
                s[i].id@,
                stop_packet(group_children(s[i].group)[j]),
            ),
    decreases s.len(),
{
    let front = stop_plan(s.drop_last());
    let i = s.len() - 1;
    if k < front.len() {
        lemma_stop_plan_sound(s.drop_last(), k);
        let (a, b) = choose|a: int, b: int|
            0 <= a < s.drop_last().len() && 0 <= b < group_children(s.drop_last()[a].group).len()
                && front[k] == (
                s.drop_last()[a].id@,
                stop_packet(group_children(s.drop_last()[a].group)[b]),
            );
        assert(s[a] == s.drop_last()[a]);
        assert(stop_plan(s)[k] == front[k]);
    } else {
        let j = k - front.len();
        assert(stop_plan(s)[k] == (s[i].id@, stop_packet(group_children(s[i].group)[j])));
    }
}


/// The controllers that run, keyed by id.
pub struct MasterState {
    controllers: Vec<Controller>,
}

impl MasterState {
    #[verifier::type_invariant]
    spec fn inv(self) -> bool {
        distinct_ids(self.controllers@)
    }

    /// The running controllers by id.
    pub closed spec fn view(&self) -> Map<Seq<char>, Controller> {
        by_id(self.controllers@)
    }

    /// The running controllers, in the order they were first registered.
    pub closed spec fn entries(&self) -> Seq<Controller> {
        self.controllers@
    }

    /// No controller is registered.
    pub fn new() -> (r: MasterState)
        ensures
            r@ == Map::<Seq<char>, Controller>::empty(),
            r.entries() == Seq::<Controller>::empty(),
            r@ == by_id(r.entries()),
    {
        let r = MasterState { controllers: Vec::new() };
        assert(r@ =~= Map::<Seq<char>, Controller>::empty());
        r
    }

    fn find(&self, id: &String) -> (r: Option<usize>)
        ensures
            match r {
                Some(i) => i < self.controllers@.len() && self.controllers@[i as int].id@ == id@,
                None => forall|i: int|
                    0 <= i < self.controllers@.len() ==> self.controllers@[i].id@ != id@,
            },
    {
        let n = self.controllers.len();
        for i in 0..n
            invariant
                n == self.controllers@.len(),
                forall|j: int| 0 <= j < i ==> self.controllers@[j].id@ != id@,
        {
            if self.controllers[i].id == *id {
                return Some(i);
            }
        }
        None
    }

    /// Registers a controller that was started, in place of one with the
    /// same id.
    pub fn insert(&mut self, controller: Controller)
        ensures
            final(self)@ == old(self)@.insert(controller.id@, controller),
            final(self)@ == by_id(final(self).entries()),
            distinct_ids(final(self).entries()),
    {
        proof {
            use_type_invariant(&*self);
        }
        let ghost old_s = self.controllers@;
        let ghost c = controller;
        match self.find(&controller.id) {
            Some(i) => {
                let mut controllers: Vec<Controller> = Vec::new();
                std::mem::swap(&mut controllers, &mut self.controllers);
                controllers.set(i, controller);
                proof {
                    let s = controllers@;
                    assert(s == old_s.update(i as int, c));
                    assert(distinct_ids(s)) by {
                        assert forall|a: int, b: int|
                            0 <= a < s.len() && 0 <= b < s.len() && a != b implies s[a].id@
                            != s[b].id@ by {
                            if a != i && b != i {
                                assert(s[a] == old_s[a] && s[b] == old_s[b]);
                            } else if a == i {
                                assert(old_s[b].id@ != old_s[a].id@);
                            } else {
                                assert(old_s[a].id@ != old_s[b].id@);
                            }
                        }
                    }
                    assert forall|k: Seq<char>| #[trigger] by_id(s).dom().contains(k) <==> by_id(
                        old_s,
                    ).insert(c.id@, c).dom().contains(k) by {
                        if by_id(old_s).dom().contains(k) {
                            let j = choose|j: int| 0 <= j < old_s.len() && old_s[j].id@ == k;
                            assert(s[j].id@ == k);
                        }
                        if by_id(s).dom().contains(k) {
                            let j = choose|j: int| 0 <= j < s.len() && s[j].id@ == k;
                            assert(old_s[j].id@ == k);
                        }
                    }
                    assert forall|k: Seq<char>| #[trigger]
                        by_id(s).dom().contains(k) implies by_id(s)[k] == by_id(old_s).insert(
                        c.id@,
                        c,
                    )[k] by {
                        let j = choose|j: int| 0 <= j < s.len() && s[j].id@ == k;
                        lemma_by_id_at(s, j);
                        if j != i {
                            lemma_by_id_at(old_s, j);
                        }
                    }
                    assert(by_id(s) =~= by_id(old_s).insert(c.id@, c));
                }
                self.controllers = controllers;
            },
            None => {
                let mut controllers: Vec<Controller> = Vec::new();
                std::mem::swap(&mut controllers, &mut self.controllers);
                controllers.push(controller);
                proof {
                    let s = controllers@;
                    assert(s == old_s.push(c));
                    assert(distinct_ids(s)) by {
                        assert forall|a: int, b: int|
                            0 <= a < s.len() && 0 <= b < s.len() && a != b implies s[a].id@
                            != s[b].id@ by {
                            if a < old_s.len() && b < old_s.len() {
                                assert(s[a] == old_s[a] && s[b] == old_s[b]);
                            }
                        }
                    }
                    assert forall|k: Seq<char>| #[trigger] by_id(s).dom().contains(k) <==> by_id(
                        old_s,
                    ).insert(c.id@, c).dom().contains(k) by {
                        if by_id(old_s).dom().contains(k) {
                            let j = choose|j: int| 0 <= j < old_s.len() && old_s[j].id@ == k;
                            assert(s[j].id@ == k);
                        }
                        if k == c.id@ {
                            assert(s[old_s.len() as int].id@ == k);
                        }
                        if by_id(s).dom().contains(k) && k != c.id@ {
                            let j = choose|j: int| 0 <= j < s.len() && s[j].id@ == k;
                            assert(old_s[j].id@ == k);
                        }
                    }
                    assert forall|k: Seq<char>| #[trigger]
                        by_id(s).dom().contains(k) implies by_id(s)[k] == by_id(old_s).insert(
                        c.id@,
                        c,
                    )[k] by {
                        let j = choose|j: int| 0 <= j < s.len() && s[j].id@ == k;
                        lemma_by_id_at(s, j);
                        if j < old_s.len() {
                            lemma_by_id_at(old_s, j);
                        }
                    }
                    assert(by_id(s) =~= by_id(old_s).insert(c.id@, c));
                }
                self.controllers = controllers;
            },
        }
    }

    /// Takes the controller with this id out of the registry, if it is there.
    pub fn remove(&mut self, id: &String) -> (r: Option<Controller>)
        ensures
            old(self)@.dom().contains(id@) ==> r == Some(old(self)@[id@]) && final(self)@ == old(
                self,
            )@.remove(id@),
            !old(self)@.dom().contains(id@) ==> r is None && final(self)@ == old(self)@,
            final(self)@ == by_id(final(self).entries()),
            distinct_ids(final(self).entries()),
    {
        proof {
            use_type_invariant(&*self);
        }
        let ghost old_s = self.controllers@;
        match self.find(id) {
            Some(i) => {
                let mut controllers: Vec<Controller> = Vec::new();
                std::mem::swap(&mut controllers, &mut self.controllers);
                let removed = controllers.remove(i);
                proof {
                    let s = controllers@;
                    assert(s == old_s.remove(i as int));
                    lemma_by_id_at(old_s, i as int);
                    assert(distinct_ids(s)) by {
                        assert forall|a: int, b: int|
                            0 <= a < s.len() && 0 <= b < s.len() && a != b implies s[a].id@
                            != s[b].id@ by {
                            let oa = if a < i {
                                a
                            } else {
                                a + 1
                            };
                            let ob = if b < i {
                                b
                            } else {
                                b + 1
                            };
                            assert(s[a] == old_s[oa] && s[b] == old_s[ob]);
                        }
                    }
                    assert forall|k: Seq<char>| #[trigger] by_id(s).dom().contains(k) <==> by_id(
                        old_s,
                    ).remove(id@).dom().contains(k) by {
                        if by_id(old_s).dom().contains(k) && k != id@ {
                            let j = choose|j: int| 0 <= j < old_s.len() && old_s[j].id@ == k;
                            if j < i {
                                assert(s[j].id@ == k);
                            } else {
                                assert(j != i);
                                assert(s[j - 1].id@ == k);
                            }
                        }
                        if by_id(s).dom().contains(k) {
                            let j = choose|j: int| 0 <= j < s.len() && s[j].id@ == k;
                            if j < i {
                                assert(old_s[j].id@ == k);
                                assert(k != id@);
                            } else {
                                assert(old_s[j + 1].id@ == k);
                                assert(k != id@);
                            }
                        }
                    }
                    assert forall|k: Seq<char>| #[trigger]
                        by_id(s).dom().contains(k) implies by_id(s)[k] == by_id(old_s).remove(
                        id@,
                    )[k] by {
                        let j = choose|j: int| 0 <= j < s.len() && s[j].id@ == k;
                        lemma_by_id_at(s, j);
                        if j < i {
                            lemma_by_id_at(old_s, j);
                        } else {
                            lemma_by_id_at(old_s, j + 1);
                        }
                    }
                    assert(by_id(s) =~= by_id(old_s).remove(id@));
                }
                self.controllers = controllers;
                Some(removed)
            },
            None => {
                proof {
                    assert(!by_id(old_s).dom().contains(id@));
                }
                None
            },
        }
    }

    /// A copy of every registered controller, in registration order.
    pub fn controllers(&self) -> (r: Vec<Controller>)
        ensures
            r@ == self.entries(),
            self@ == by_id(self.entries()),
            distinct_ids(self.entries()),
    {
        proof {
            use_type_invariant(self);
        }
        let n = self.controllers.len();
        let mut r: Vec<Controller> = Vec::new();
        for i in 0..n
            invariant
                n == self.controllers@.len(),
                r@ == self.controllers@.take(i as int),
        {
            r.push(self.controllers[i].clone());
            assert(r@ =~= self.controllers@.take(i + 1));
        }
        assert(self.controllers@.take(n as int) =~= self.controllers@);
        r
    }

    /// The packets that stop every board: for each registered controller,
    /// the stop packet of each of its components, with the id of the
    /// controller to send it through.
    pub fn stop_packets(&self) -> (r: Vec<(String, Packet)>)
        ensures
            plan_view(r@) == stop_plan(self.entries()),
            self@ == by_id(self.entries()),
            distinct_ids(self.entries()),
    {
        proof {
            use_type_invariant(self);
        }
        let n = self.controllers.len();
        let mut r: Vec<(String, Packet)> = Vec::new();
        for i in 0..n
            invariant
                n == self.controllers@.len(),
                plan_view(r@) == stop_plan(self.controllers@.take(i as int)),
        {
            let controller = &self.controllers[i];
            let children = controller.group.children();
            let ghost before = r@;
            let m = children.len();
            for j in 0..m
                invariant
                    m == children@.len(),
                    children@ == group_children(controller.group),
                    r@.len() == before.len() + j,
                    forall|a: int| 0 <= a < before.len() ==> r@[a] == before[a],
                    forall|a: int|
                        0 <= a < j ==> (#[trigger] r@[before.len() + a]).0@ == controller.id@ && r@[before.len()
                            + a].1 == stop_packet(children@[a]),
            {
                r.push((controller.id.clone(), children[j].stoppable()));
            }
            proof {
                let t = self.controllers@.take(i + 1);
                assert(t.drop_last() =~= self.controllers@.take(i as int));
                assert(t.last() == *controller);
                let want = stop_plan(self.controllers@.take(i as int)) + child_stops(
                    controller.id@,
                    controller.group,
                );
                assert forall|a: int| 0 <= a < r@.len() implies #[trigger] plan_view(r@)[a]
                    == want[a] by {
                    if a < before.len() {
                        assert(plan_view(before)[a] == want[a]);
                    } else {
                        assert(r@[before.len() + (a - before.len())].0@ == controller.id@);
                    }
                }
                assert(plan_view(r@) =~= want);
            }
        }
        assert(self.controllers@.take(n as int) =~= self.controllers@);
        r
    }
}

} // verus!
