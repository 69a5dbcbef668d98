//! Registry of authorised producers, keyed by service name.
use vstd::prelude::*;

verus! {

/// Why a registration was refused.
#[derive(Debug, Clone, Copy, PartialEq, Eq, Structural)]
pub enum RegistryError {
    AlreadyRegistered,
}

/// Mapping from service name to the handle used to answer that producer.
/// At most one entry exists per name.
pub struct ClientRegistry<H> {
    entries: Vec<(String, H)>,
    model: Ghost<Map<Seq<char>, H>>,
}

/// What a registration attempt does to the registry: a free name is inserted,
/// a taken one leaves everything as it was. The flag says whether it was accepted.
pub open spec fn register_outcome<H>(m: Map<Seq<char>, H>, name: Seq<char>, h: H) -> (Map<Seq<char>, H>, bool) {
    if m.contains_key(name) {
        (m, false)
    } else {
        (m.insert(name, h), true)
    }
}

/// The registry after a series of registration attempts, in order.
pub open spec fn register_all<H>(m: Map<Seq<char>, H>, attempts: Seq<(Seq<char>, H)>) -> Map<Seq<char>, H>
    decreases attempts.len(),
{
    if attempts.len() == 0 {
        m
    } else {
        let last = attempts.last();
        register_outcome(register_all(m, attempts.drop_last()), last.0, last.1).0
    }
}

/// A name that is registered keeps its first handle through any series of
/// further registration attempts: a duplicate never evicts it.
pub proof fn lemma_duplicate_never_evicts<H>(m: Map<Seq<char>, H>, attempts: Seq<(Seq<char>, H)>, name: Seq<char>)
    requires
        m.contains_key(name),
    ensures
        register_all(m, attempts).contains_key(name),
        register_all(m, attempts)[name] == m[name],
    decreases attempts.len(),
{
    if attempts.len() > 0 {
        lemma_duplicate_never_evicts(m, attempts.drop_last(), name);
    }
}

/// Of several attempts on one free name, the first one wins and the others are
/// refused: the name ends up with the first handle.
pub proof fn lemma_first_registration_wins<H>(m: Map<Seq<char>, H>, attempts: Seq<(Seq<char>, H)>, name: Seq<char>, h: H)
    requires
        !m.contains_key(name),
    ensures
        register_all(m.insert(name, h), attempts)[name] == h,
        register_outcome(m, name, h).1,
        !register_outcome(register_outcome(m, name, h).0, name, h).1,
{
    lemma_duplicate_never_evicts(m.insert(name, h), attempts, name);
}

/// How many of a series of registration attempts are accepted.
pub open spec fn accepted_count<H>(m: Map<Seq<char>, H>, attempts: Seq<(Seq<char>, H)>) -> nat
    decreases attempts.len(),
{
    if attempts.len() == 0 {
        0
    } else {
        let last = attempts.last();
        let before = register_all(m, attempts.drop_last());
        accepted_count(m, attempts.drop_last()) + if register_outcome(before, last.0, last.1).1 {
            1nat
        } else {
            0nat
        }
    }
}

/// Any number of attempts to register one free name: exactly one of them,
/// the first, is accepted, and the name ends up with its handle alone.
pub proof fn lemma_one_winner_per_name<H>(m: Map<Seq<char>, H>, attempts: Seq<(Seq<char>, H)>, name: Seq<char>)
    requires
        !m.contains_key(name),
        attempts.len() >= 1,
        forall|i: int| 0 <= i < attempts.len() ==> #[trigger] attempts[i].0 == name,
    ensures
        accepted_count(m, attempts) == 1,
        register_all(m, attempts).contains_key(name),
        register_all(m, attempts)[name] == attempts[0].1,
        register_all(m, attempts) == m.insert(name, attempts[0].1),
    decreases attempts.len(),
{
    let last = attempts.last();
    assert(last.0 == name);
    if attempts.len() == 1 {
        assert(attempts.drop_last().len() == 0);
        assert(register_all(m, attempts.drop_last()) == m);
        assert(accepted_count(m, attempts.drop_last()) == 0);
    } else {
        let prev = attempts.drop_last();
        assert forall|i: int| 0 <= i < prev.len() implies #[trigger] prev[i].0 == name by {
            assert(prev[i] == attempts[i]);
        }
        lemma_one_winner_per_name(m, prev, name);
        assert(prev[0] == attempts[0]);
    }
}

impl<H> View for ClientRegistry<H> {
    type V = Map<Seq<char>, H>;

    closed spec fn view(&self) -> Map<Seq<char>, H> {
        self.model@
    }
}

impl<H> ClientRegistry<H> {
    /// Entries have pairwise distinct names and agree with the map model.
    pub closed spec fn wf(&self) -> bool {
        &&& forall|i: int, j: int|
            0 <= i < j < self.entries@.len() ==> #[trigger] self.entries@[i].0@ != #[trigger] self.entries@[j].0@
        &&& forall|i: int|
            0 <= i < self.entries@.len() ==> #[trigger] self.model@.contains_key(self.entries@[i].0@)
                && self.model@[self.entries@[i].0@] == self.entries@[i].1
        &&& forall|k: Seq<char>|
            #[trigger] self.model@.contains_key(k) ==> exists|i: int|
                0 <= i < self.entries@.len() && #[trigger] self.entries@[i].0@ == k
    }

    pub fn new() -> (r: Self)
        ensures
            r.wf(),
            r@ == Map::<Seq<char>, H>::empty(),
            r@.dom().finite(),
    {
        ClientRegistry { entries: Vec::new(), model: Ghost(Map::empty()) }
    }

    /// Position of the entry named `name`, if any.
    fn find(&self, name: &String) -> (r: Option<usize>)
        requires
            self.wf(),
        ensures
            r is None <==> !self@.contains_key(name@),
            r matches Some(i) ==> i < self.entries@.len() && self.entries@[i as int].0@ == name@,
    {
        let mut i: usize = 0;
        while i < self.entries.len()
            invariant
                self.wf(),
                i <= self.entries@.len(),
                forall|j: int| 0 <= j < i ==> self.entries@[j].0@ != name@,
            decreases self.entries@.len() - i,
        {
            if self.entries[i].0 == *name {
                return Some(i);
            }
            i = i + 1;
        }
        proof {
            if self@.contains_key(name@) {
                let j = choose|j: int| 0 <= j < self.entries@.len() && #[trigger] self.entries@[j].0@ == name@;
            }
        }
        None
    }

    /// Whether a producer is registered under `name`.
    pub fn contains(&self, name: &String) -> (r: bool)
        requires
            self.wf(),
        ensures
            r == self@.contains_key(name@),
    {
        self.find(name).is_some()
    }

    /// Number of registered producers.
    pub fn len(&self) -> (r: usize)
        requires
            self.wf(),
        ensures
            r == self@.len(),
    {
        proof { self.lemma_len(); }
        self.entries.len()
    }

    proof fn lemma_len(&self)
        requires
            self.wf(),
        ensures
            self@.len() == self.entries@.len(),
            self@.dom().finite(),
        decreases self.entries@.len(),
    {
        let names = self.entries@.map_values(|e: (String, H)| e.0@);
        assert(names.no_duplicates()) by {
            assert forall|i: int, j: int| 0 <= i < names.len() && 0 <= j < names.len() && i != j
                implies names[i] != names[j] by {
                if i < j {
                    assert(self.entries@[i].0@ != self.entries@[j].0@);
                } else {
                    assert(self.entries@[j].0@ != self.entries@[i].0@);
                }
            }
        }
        names.unique_seq_to_set();
        assert(self@.dom() =~= names.to_set()) by {
            assert forall|k: Seq<char>| self@.dom().contains(k) implies names.to_set().contains(k) by {
                let i = choose|i: int| 0 <= i < self.entries@.len() && #[trigger] self.entries@[i].0@ == k;
                assert(names[i] == k);
            }
            assert forall|k: Seq<char>| names.to_set().contains(k) implies self@.dom().contains(k) by {
                let i = choose|i: int| 0 <= i < names.len() && names[i] == k;
                assert(self.model@.contains_key(self.entries@[i].0@));
            }
        }
    }

    /// Registers `handle` under `name` unless the name is taken; a taken name
    /// leaves the registry exactly as it was.
    pub fn try_register(&mut self, name: String, handle: H) -> (r: Result<(), RegistryError>)
        requires
            old(self).wf(),
        ensures
            final(self).wf(),
            final(self)@.dom().finite(),
            (final(self)@, r is Ok) == register_outcome(old(self)@, name@, handle),
            r is Err <==> old(self)@.contains_key(name@),
            r matches Err(e) ==> e == RegistryError::AlreadyRegistered,
    {
        match self.find(&name) {
            Some(_) => {
                proof { self.lemma_len(); }
                Err(RegistryError::AlreadyRegistered)
            },
            None => {
                let ghost key = name@;
                let ghost old_entries = self.entries@;
                self.model = Ghost(self.model@.insert(key, handle));
                self.entries.push((name, handle));
                proof {
                    assert(self.entries@[old_entries.len() as int].0@ == key);
                    assert forall|k: Seq<char>| #[trigger] self.model@.contains_key(k) implies exists|i: int|
                        0 <= i < self.entries@.len() && #[trigger] self.entries@[i].0@ == k by {
                        if k != key {
                            let i = choose|i: int| 0 <= i < old_entries.len() && #[trigger] old_entries[i].0@ == k;
                            assert(self.entries@[i] == old_entries[i]);
                        }
                    }
                    assert forall|i: int, j: int| 0 <= i < j < self.entries@.len() implies
                        #[trigger] self.entries@[i].0@ != #[trigger] self.entries@[j].0@ by {
                        if j == old_entries.len() {
                            assert(self.entries@[i] == old_entries[i]);
                            assert(old(self).model@.contains_key(old_entries[i].0@));
                        }
                    }
                    self.lemma_len();
                }
                Ok(())
            }
        }
    }

    /// Removes the producer registered under `name`, handing back its handle.
    pub fn remove(&mut self, name: &String) -> (r: Option<H>)
        requires
            old(self).wf(),
        ensures
            final(self).wf(),
            final(self)@.dom().finite(),
            final(self)@ == old(self)@.remove(name@),
            r is Some <==> old(self)@.contains_key(name@),
            r matches Some(h) ==> h == old(self)@[name@],
    {
        match self.find(name) {
            None => {
                assert(self@ =~= self@.remove(name@));
                proof { self.lemma_len(); }
                None
            }
            Some(i) => {
                let ghost old_entries = self.entries@;
                let ghost key = name@;
                let (_, h) = self.entries.remove(i);
                self.model = Ghost(self.model@.remove(key));
                proof {
                    assert forall|j: int| 0 <= j < self.entries@.len() implies
                        #[trigger] self.model@.contains_key(self.entries@[j].0@)
                        && self.model@[self.entries@[j].0@] == self.entries@[j].1 by {
                        if j < i {
                            assert(self.entries@[j] == old_entries[j]);
                        } else {
                            assert(self.entries@[j] == old_entries[j + 1]);
                        }
                    }
                    assert forall|k: Seq<char>| #[trigger] self.model@.contains_key(k) implies exists|j: int|
                        0 <= j < self.entries@.len() && #[trigger] self.entries@[j].0@ == k by {
                        let j = choose|j: int| 0 <= j < old_entries.len() && #[trigger] old_entries[j].0@ == k;
                        if j < i {
                            assert(self.entries@[j] == old_entries[j]);
                        } else {
                            assert(self.entries@[j - 1] == old_entries[j]);
                        }
                    }
                    assert forall|a: int, b: int| 0 <= a < b < self.entries@.len() implies
                        #[trigger] self.entries@[a].0@ != #[trigger] self.entries@[b].0@ by {
                        let a0 = if a < i { a } else { a + 1 };
                        let b0 = if b < i { b } else { b + 1 };
                        assert(self.entries@[a] == old_entries[a0]);
                        assert(self.entries@[b] == old_entries[b0]);
                    }
                }
                proof { self.lemma_len(); }
                Some(h)
            }
        }
    }
}

} // verus!
