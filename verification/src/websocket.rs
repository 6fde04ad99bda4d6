use vstd::prelude::*;

use std::collections::HashMap;
use vstd::std_specs::iter::IteratorSpec;

verus! {

broadcast use {vstd::std_specs::vec::group_vec_axioms, vstd::std_specs::hash::group_hash_axioms};

/// The clients of each world after a client joins a world under an id (a
/// client that had the id in that world is replaced).
pub open spec fn add_client<T>(m: Map<u128, Map<usize, T>>, world: u128, id: usize, addr: T) -> Map<
    u128,
    Map<usize, T>,
> {
    if m.contains_key(world) {
        m.insert(world, m[world].insert(id, addr))
    } else {
        m.insert(world, Map::<usize, T>::empty().insert(id, addr))
    }
}

/// The clients of each world after the client with the id leaves the world; a
/// world that is left without clients is forgotten.
pub open spec fn remove_client<T>(m: Map<u128, Map<usize, T>>, world: u128, id: usize) -> Map<
    u128,
    Map<usize, T>,
> {
    if !m.contains_key(world) {
        m
    } else if m[world].remove(id) == Map::<usize, T>::empty() {
        m.remove(world)
    } else {
        m.insert(world, m[world].remove(id))
    }
}

/// The ids of the clients of a world, none for an unknown world.
pub open spec fn clients_of<T>(m: Map<u128, Map<usize, T>>, world: u128) -> Set<usize> {
    if m.contains_key(world) {
        m[world].dom()
    } else {
        Set::empty()
    }
}

/// Every world that is known has a client.
pub open spec fn no_empty_world<T>(m: Map<u128, Map<usize, T>>) -> bool {
    forall|w: u128| #[trigger] m.contains_key(w) ==> m[w] != Map::<usize, T>::empty()
}

/// The clients connected to each world, known by an id and reached through an
/// address of type `T`.
#[derive(Debug)]
pub struct WsManager<T> {
    clients: HashMap<u128, HashMap<usize, T>>,
}

impl<T> View for WsManager<T> {
    type V = Map<u128, Map<usize, T>>;

    closed spec fn view(&self) -> Map<u128, Map<usize, T>> {
        self.clients@.map_values(|c: HashMap<usize, T>| c@)
    }
}

/// Calls `rand::random::<usize>`, which draws a number from the thread's
/// random generator: nothing is promised of the number that comes back.
#[verifier::external_body]
fn random_client_id() -> usize {
    rand::random::<usize>()
}

/// What the manager of the clients is told: a client joins a world at an
/// address, or the client with an id leaves a world.
pub enum ManagerMsg<T> {
    Connect { world_id: u128, addr: T },
    Disconnect { world_id: u128, id: usize },
}

impl<T> WsManager<T> {
    /// Every world that is kept has at least one client.
    pub closed spec fn wf(&self) -> bool {
        forall|w: u128| #[trigger] self.clients@.contains_key(w) ==> self.clients@[w]@ != Map::<usize, T>::empty()
    }

    proof fn lemma_no_empty_world(&self)
        requires
            self.wf(),
        ensures
            no_empty_world(self@),
    {
        assert forall|w: u128| #[trigger] self@.contains_key(w) implies self@[w] != Map::<usize, T>::empty() by {
            assert(self.clients@.contains_key(w));
        }
    }

    /// No client in any world.
    pub fn new() -> (r: WsManager<T>)
        ensures
            r.wf(),
            r@ == Map::<u128, Map<usize, T>>::empty(),
    {
        let r = WsManager { clients: HashMap::new() };
        proof {
            assert(r@ =~= Map::<u128, Map<usize, T>>::empty());
        }
        r
    }

    /// Lets a client join a world under the given id; a client of that world
    /// with the same id is replaced.
    pub fn register(&mut self, world: u128, id: usize, addr: T)
        requires
            old(self).wf(),
        ensures
            final(self).wf(),
            final(self)@ == add_client(old(self)@, world, id, addr),
            no_empty_world(final(self)@),
    {
        let ghost before = self.clients@;
        let mut inner = match self.clients.remove(&world) {
            Some(m) => m,
            None => HashMap::new(),
        };
        let ghost inner_before = inner@;
        assert(before.contains_key(world) ==> inner_before == before[world]@);
        assert(!before.contains_key(world) ==> inner_before == Map::<usize, T>::empty());
        inner.insert(id, addr);
        self.clients.insert(world, inner);
        proof {
            assert(self.clients@ == before.remove(world).insert(world, inner));
            assert(self.clients@[world]@.contains_key(id));
            assert forall|w: u128| #[trigger] self.clients@.contains_key(w) implies self.clients@[w]@
                != Map::<usize, T>::empty() by {
                if w == world {
                    assert(self.clients@[w]@.contains_key(id));
                } else {
                    assert(self.clients@[w] == before[w]);
                }
            }
            assert(self@ =~= add_client(old(self)@, world, id, addr));
            self.lemma_no_empty_world();
        }
    }

    /// Lets a client join a world under a new random id, which it returns.
    pub fn connect(&mut self, world: u128, addr: T) -> (r: usize)
        requires
            old(self).wf(),
        ensures
            final(self).wf(),
            final(self)@ == add_client(old(self)@, world, r, addr),
            no_empty_world(final(self)@),
    {
        let id = random_client_id();
        self.register(world, id, addr);
        id
    }

    /// The client with the id leaves the world; a world left without clients
    /// is forgotten.
    pub fn disconnect(&mut self, world: u128, id: usize)
        requires
            old(self).wf(),
        ensures
            final(self).wf(),
            final(self)@ == remove_client(old(self)@, world, id),
            no_empty_world(final(self)@),
    {
        let ghost before = self.clients@;
        match self.clients.remove(&world) {
            Some(inner) => {
                let mut inner = inner;
                assert(inner@ == before[world]@);
                inner.remove(&id);
                assert(inner@ == before[world]@.remove(id));
                if inner.is_empty() {
                    proof {
                        assert(inner@ =~= Map::<usize, T>::empty());
                        assert(self@ =~= remove_client(old(self)@, world, id));
                    }
                } else {
                    self.clients.insert(world, inner);
                    proof {
                        assert(inner@ != Map::<usize, T>::empty()) by {
                            if inner@ == Map::<usize, T>::empty() {
                                assert(inner@.dom() =~= Set::<usize>::empty());
                            }
                        }
                        assert(self@ =~= remove_client(old(self)@, world, id));
                    }
                }
            },
            None => {
                proof {
                    assert(self.clients@ =~= before);
                    assert(self@ =~= remove_client(old(self)@, world, id));
                }
            },
        }
        proof {
            assert forall|w: u128| #[trigger] self.clients@.contains_key(w) implies self.clients@[w]@
                != Map::<usize, T>::empty() by {
                if w != world {
                    assert(self.clients@[w] == before[w]);
                }
            }
            self.lemma_no_empty_world();
        }
    }

    /// Handles a message: a client that joins gets a new id, which is
    /// returned and under which its address is found; a client that leaves
    /// is gone, and a world left without clients is forgotten. No world is
    /// ever kept without clients.
    pub fn handle(&mut self, msg: ManagerMsg<T>) -> (r: Option<usize>)
        requires
            old(self).wf(),
        ensures
            final(self).wf(),
            no_empty_world(final(self)@),
            match msg {
                ManagerMsg::Connect { world_id, addr } => r matches Some(id) && final(self)@ == add_client(
                    old(self)@,
                    world_id,
                    id,
                    addr,
                ) && final(self)@[world_id][id] == addr,
                ManagerMsg::Disconnect { world_id, id } => r is None && final(self)@ == remove_client(
                    old(self)@,
                    world_id,
                    id,
                ) && !clients_of(final(self)@, world_id).contains(id),
            },
    {
        match msg {
            ManagerMsg::Connect { world_id, addr } => {
                let id = self.connect(world_id, addr);
                Some(id)
            },
            ManagerMsg::Disconnect { world_id, id } => {
                self.disconnect(world_id, id);
                proof {
                    if old(self)@.contains_key(world_id) && old(self)@[world_id].remove(id) != Map::<usize, T>::empty() {
                        assert(!old(self)@[world_id].remove(id).contains_key(id));
                    }
                }
                None
            },
        }
    }

    /// The ids of the clients of a world, each once; none for a world without
    /// clients.
    pub fn recipients(&self, world: u128) -> (r: Vec<usize>)
        requires
            self.wf(),
        ensures
            r@.to_set() == clients_of(self@, world),
            r@.no_duplicates(),
    {
        let mut r: Vec<usize> = Vec::new();
        match self.clients.get(&world) {
            Some(inner) => {
                let keys = inner.keys();
                let ghost all = keys.remaining();
                assert(all.unref().to_set() == inner@.dom());
                for k in it: keys
                    invariant
                        it.seq() == all,
                        r@ == all.take(it.index()).unref(),
                        all.no_duplicates(),
                {
                    proof {
                        assert(all.take(it.index() + 1).unref() =~= all.take(it.index()).unref().push(*k));
                    }
                    r.push(*k);
                }
                proof {
                    assert(all.take(all.len() as int) =~= all);
                    assert(r@.to_set() =~= clients_of(self@, world));
                }
            },
            None => {
                proof {
                    assert(r@.to_set() =~= clients_of(self@, world));
                }
            },
        }
        r
    }

    /// The address of the client with the id in the world.
    pub fn recipient(&self, world: u128, id: usize) -> (r: Option<&T>)
        requires
            self.wf(),
        ensures
            match r {
                Some(a) => self@.contains_key(world) && self@[world].contains_key(id) && *a == self@[world][id],
                None => !(self@.contains_key(world) && self@[world].contains_key(id)),
            },
    {
        match self.clients.get(&world) {
            Some(inner) => inner.get(&id),
            None => None,
        }
    }
}

} // verus!
