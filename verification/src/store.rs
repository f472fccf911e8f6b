//! The unit store: the node's local view of the DAG, with the count of units
//! per round, the known forkers and the buffer of units that are ready for
//! consensus. What each operation does is said by the functions of
//! `store_model`.

use crate::store_model::{
    bump, forker_units, lemma_add_unit_inv, lemma_mark_forker_inv, purged_coord, purged_hash,
    round_units, spec_add_unit, spec_advance, spec_alerted_units, spec_drained, spec_mark_forker,
    spec_new, spec_new_fork, state_inv, StoreState,
};
use crate::units::{views, HashedUnit, HashedUnitView, UnitCoord};
use crate::{HashValue, KeyBox, NodeCount, NodeIndex, Round, MAX_ROUND};
use std::collections::HashMap;
use vstd::prelude::*;

verus! {

/// The key under which a position is filed: the round in the upper half, the creator in the lower.
pub open spec fn spec_coord_key(c: UnitCoord) -> u128 {
    (c.round * 0x1_0000_0000_0000_0000 + c.creator) as u128
}

fn coord_key(c: UnitCoord) -> (k: u128)
    ensures
        k == spec_coord_key(c),
{
    (c.round as u128) * 0x1_0000_0000_0000_0000u128 + (c.creator as u128)
}

proof fn lemma_coord_key_injective(a: UnitCoord, b: UnitCoord)
    ensures
        spec_coord_key(a) == spec_coord_key(b) ==> a == b,
{
}

spec fn coord_view<'a, KB: KeyBox>(m: Map<u128, HashedUnit<'a, KB>>) -> Map<
    UnitCoord,
    HashedUnitView,
> {
    Map::new(
        |c: UnitCoord| m.contains_key(spec_coord_key(c)),
        |c: UnitCoord| m[spec_coord_key(c)]@,
    )
}

spec fn hash_view<'a, KB: KeyBox>(m: Map<HashValue, HashedUnit<'a, KB>>) -> Map<
    HashValue,
    HashedUnitView,
> {
    Map::new(|h: HashValue| m.contains_key(h), |h: HashValue| m[h]@)
}

spec fn parents_view(m: Map<HashValue, Vec<HashValue>>) -> Map<HashValue, Seq<HashValue>> {
    Map::new(|h: HashValue| m.contains_key(h), |h: HashValue| m[h]@)
}

spec fn counts_view(v: Seq<NodeCount>) -> Seq<nat> {
    Seq::new(v.len(), |i: int| v[i] as nat)
}

proof fn lemma_coord_view_insert<'a, KB: KeyBox>(
    m: Map<u128, HashedUnit<'a, KB>>,
    c: UnitCoord,
    su: HashedUnit<'a, KB>,
)
    ensures
        coord_view(m.insert(spec_coord_key(c), su)) == coord_view(m).insert(c, su@),
{
    assert forall|d: UnitCoord| d != c implies spec_coord_key(d) != spec_coord_key(c) by {
        lemma_coord_key_injective(d, c);
    }
    assert(coord_view(m.insert(spec_coord_key(c), su)) =~= coord_view(m).insert(c, su@));
}

proof fn lemma_coord_view_remove<'a, KB: KeyBox>(m: Map<u128, HashedUnit<'a, KB>>, c: UnitCoord)
    ensures
        coord_view(m.remove(spec_coord_key(c))) == coord_view(m).remove(c),
{
    assert forall|d: UnitCoord| d != c implies spec_coord_key(d) != spec_coord_key(c) by {
        lemma_coord_key_injective(d, c);
    }
    assert(coord_view(m.remove(spec_coord_key(c))) =~= coord_view(m).remove(c));
}

/// The per-session buffer of the DAG. It belongs to one owner, the reactor.
pub struct UnitStore<'a, KB: KeyBox> {
    by_coord: HashMap<u128, HashedUnit<'a, KB>>,
    by_hash: HashMap<HashValue, HashedUnit<'a, KB>>,
    parents: HashMap<HashValue, Vec<HashValue>>,
    round_in_progress: Round,
    threshold: NodeCount,
    n_units_per_round: Vec<NodeCount>,
    is_forker: Vec<bool>,
    legit_buffer: Vec<HashedUnit<'a, KB>>,
}

impl<'a, KB: KeyBox> View for UnitStore<'a, KB> {
    type V = StoreState;

    closed spec fn view(&self) -> StoreState {
        StoreState {
            by_coord: coord_view(self.by_coord@),
            by_hash: hash_view(self.by_hash@),
            parents: parents_view(self.parents@),
            round_in_progress: self.round_in_progress as nat,
            threshold: self.threshold as nat,
            n_units_per_round: counts_view(self.n_units_per_round@),
            is_forker: self.is_forker@,
            legit_buffer: views(self.legit_buffer@),
        }
    }
}

impl<'a, KB: KeyBox> UnitStore<'a, KB> {
    /// The store is in a state that its operations keep.
    pub open spec fn wf(&self) -> bool {
        state_inv(self@)
    }

    /// An empty store for `n_nodes` authorities.
    pub fn new(n_nodes: NodeCount, threshold: NodeCount) -> (store: Self)
        requires
            threshold >= 1,
        ensures
            store@ == spec_new(n_nodes as nat, threshold as nat),
            store.wf(),
    {
        let mut n_units_per_round: Vec<NodeCount> = Vec::new();
        let mut r: u64 = 0;
        while r <= MAX_ROUND
            invariant
                r <= MAX_ROUND + 1,
                n_units_per_round@.len() == r,
                forall|i: int| 0 <= i < r ==> n_units_per_round@[i] == 0,
            decreases MAX_ROUND + 1 - r,
        {
            n_units_per_round.push(0);
            r += 1;
        }
        let mut is_forker: Vec<bool> = Vec::new();
        let mut i: usize = 0;
        while i < n_nodes
            invariant
                i <= n_nodes,
                is_forker@.len() == i,
                forall|k: int| 0 <= k < i ==> !is_forker@[k],
            decreases n_nodes - i,
        {
            is_forker.push(false);
            i += 1;
        }
        let store = UnitStore {
            by_coord: HashMap::new(),
            by_hash: HashMap::new(),
            parents: HashMap::new(),
            round_in_progress: 0,
            threshold,
            n_units_per_round,
            is_forker,
            legit_buffer: Vec::new(),
            };
        proof {
            let want = spec_new(n_nodes as nat, threshold as nat);
            assert(store@.by_coord =~= want.by_coord);
            assert(store@.by_hash =~= want.by_hash);
            assert(store@.parents =~= want.parents);
            assert(store@.n_units_per_round =~= want.n_units_per_round);
            assert(store@.is_forker =~= want.is_forker);
            assert(store@.legit_buffer =~= want.legit_buffer);
        }
        store
    }

    /// The unit stored at `coord`.
    pub fn unit_by_coord(&self, coord: UnitCoord) -> (r: Option<&HashedUnit<'a, KB>>)
        ensures
            match r {
                Some(su) => self@.by_coord.contains_key(coord) && su@ == self@.by_coord[coord],
                None => !self@.by_coord.contains_key(coord),
            },
    {
        let key = coord_key(coord);
        self.by_coord.get(&key)
    }

    /// The unit stored under `hash`.
    pub fn unit_by_hash(&self, hash: &HashValue) -> (r: Option<&HashedUnit<'a, KB>>)
        ensures
            match r {
                Some(su) => self@.by_hash.contains_key(*hash) && su@ == self@.by_hash[*hash],
                None => !self@.by_hash.contains_key(*hash),
            },
    {
        self.by_hash.get(hash)
    }

    pub fn contains_hash(&self, hash: &HashValue) -> (r: bool)
        ensures
            r == self@.by_hash.contains_key(*hash),
    {
        self.by_hash.contains_key(hash)
    }

    pub fn contains_coord(&self, coord: &UnitCoord) -> (r: bool)
        ensures
            r == self@.by_coord.contains_key(*coord),
    {
        let key = coord_key(*coord);
        self.by_coord.contains_key(&key)
    }

    /// Hands out the units that are ready for consensus, oldest first, and empties the buffer.
    pub fn yield_buffer_units(&mut self) -> (units: Vec<HashedUnit<'a, KB>>)
        ensures
            views(units@) == old(self)@.legit_buffer,
            final(self)@ == spec_drained(old(self)@),
    {
        let mut units: Vec<HashedUnit<'a, KB>> = Vec::new();
        std::mem::swap(&mut self.legit_buffer, &mut units);
        assert(views(self.legit_buffer@) =~= Seq::empty());
        units
    }

    pub fn get_round_in_progress(&self) -> (round: Round)
        ensures
            round == self@.round_in_progress,
    {
        self.round_in_progress
    }

    /// The number of authorities of the session.
    pub fn n_members(&self) -> (n: NodeCount)
        ensures
            n == self@.is_forker.len(),
    {
        self.is_forker.len()
    }

    pub fn is_forker(&self, node_id: NodeIndex) -> (r: bool)
        requires
            node_id < self@.is_forker.len(),
        ensures
            r == self@.is_forker[node_id as int],
    {
        self.is_forker[node_id]
    }

    /// Records the parents of the unit with the hash `hash`.
    pub fn add_parents(&mut self, hash: HashValue, parents: Vec<HashValue>)
        ensures
            final(self)@ == (StoreState {
                parents: old(self)@.parents.insert(hash, parents@),
                ..old(self)@
            }),
    {
        self.parents.insert(hash, parents);
        assert(parents_view(self.parents@) =~= parents_view(old(self).parents@).insert(
            hash,
            parents@,
        ));
    }

    /// The parents of the unit with the hash `hash`, where they are known.
    pub fn get_parents(&self, hash: HashValue) -> (r: Option<&Vec<HashValue>>)
        ensures
            match r {
                Some(p) => self@.parents.contains_key(hash) && p@ == self@.parents[hash],
                None => !self@.parents.contains_key(hash),
            },
    {
        self.parents.get(&hash)
    }

    /// The highest round that a unit may carry.
    pub fn limit_per_node(&self) -> (limit: Round)
        ensures
            limit == MAX_ROUND,
    {
        MAX_ROUND
    }

    /// Tells whether `su` is a fork that the store has not seen: it gives the
    /// stored unit that holds the position of `su`, unless `su` itself is stored.
    pub fn is_new_fork(&self, su: &HashedUnit<'a, KB>) -> (r: Option<HashedUnit<'a, KB>>)
        ensures
            match r {
                Some(sv) => spec_new_fork(self@, su@) == Some(sv@),
                None => spec_new_fork(self@, su@) is None,
            },
    {
        let hash = su.hash;
        if self.contains_hash(&hash) {
            return None;
        }
        let coord = su.coord();
        match self.unit_by_coord(coord) {
            Some(sv) => Some(sv.clone()),
            None => None,
        }
    }

    fn update_round_in_progress(&mut self)
        requires
            old(self)@.n_units_per_round.len() == MAX_ROUND + 1,
            old(self)@.round_in_progress <= MAX_ROUND + 1,
        ensures
            final(self)@ == spec_advance(old(self)@),
    {
        let ghost start = self@;
        while self.round_in_progress <= MAX_ROUND
            && self.n_units_per_round[self.round_in_progress as usize] >= self.threshold
            invariant
                self.n_units_per_round@.len() == MAX_ROUND + 1,
                self.round_in_progress <= MAX_ROUND + 1,
                spec_advance(self@) == spec_advance(start),
            decreases MAX_ROUND + 1 - self.round_in_progress,
        {
            let ghost before = self@;
            self.round_in_progress = self.round_in_progress + 1;
            let round = self.round_in_progress;
            let n = self.is_forker.len();
            let mut id: usize = 0;
            while id < n
                invariant
                    id <= n,
                    n == self.is_forker@.len(),
                    round == self.round_in_progress,
                    round == before.round_in_progress + 1,
                    self@.by_coord == before.by_coord,
                    self@.by_hash == before.by_hash,
                    self@.parents == before.parents,
                    self@.threshold == before.threshold,
                    self@.n_units_per_round == before.n_units_per_round,
                    self@.is_forker == before.is_forker,
                    self@.legit_buffer == before.legit_buffer + round_units(
                        before.by_coord,
                        before.is_forker,
                        round as nat,
                        id as nat,
                    ),
                decreases n - id,
            {
                let ghost buffered = self@.legit_buffer;
                if !self.is_forker[id] {
                    let coord = UnitCoord { creator: id, round };
                    let key = coord_key(coord);
                    let found = match self.by_coord.get(&key) {
                        Some(su) => Some(su.clone()),
                        None => None,
                    };
                    match found {
                        Some(su) => {
                            self.legit_buffer.push(su);
                            assert(self@.legit_buffer =~= buffered.push(before.by_coord[coord]));
                        },
                        None => {},
                    }
                }
                assert(self@.legit_buffer =~= before.legit_buffer + round_units(
                    before.by_coord,
                    before.is_forker,
                    round as nat,
                    (id + 1) as nat,
                ));
                id += 1;
            }
            assert(self@ == (StoreState {
                round_in_progress: before.round_in_progress + 1,
                legit_buffer: before.legit_buffer + round_units(
                    before.by_coord,
                    before.is_forker,
                    before.round_in_progress + 1,
                    before.is_forker.len(),
                ),
                ..before
            }));
        }
    }

    /// Adds `su` to the store. A unit that is stored already changes nothing.
    /// A unit from an alert goes to the buffer at once; another does when its
    /// round is in range and its creator did not fork.
    pub fn add_unit(&mut self, su: HashedUnit<'a, KB>, alert: bool)
        requires
            old(self).wf(),
            su@.unit.signable.inner.round <= MAX_ROUND,
            su@.unit.signable.inner.creator < old(self)@.is_forker.len(),
            alert ==> old(self)@.is_forker[su@.unit.signable.inner.creator as int],
        ensures
            final(self)@ == spec_add_unit(old(self)@, su@, alert),
            final(self).wf(),
            old(self)@.round_in_progress <= final(self)@.round_in_progress,
    {
        proof {
            lemma_add_unit_inv(self@, su@, alert);
        }
        let hash = su.hash;
        let round = su.round();
        let creator = su.creator();
        if self.contains_hash(&hash) {
            return ;
        }
        let ghost start = self@;
        let coord = su.coord();
        let key = coord_key(coord);
        let wanted = alert || (round <= self.round_in_progress && !self.is_forker[creator]);
        self.by_hash.insert(hash, su.clone());
        assert(self@.by_hash =~= start.by_hash.insert(hash, su@));
        if !self.by_coord.contains_key(&key) {
            proof {
                lemma_coord_view_insert(self.by_coord@, coord, su);
            }
            self.by_coord.insert(key, su.clone());
            assert(self@.by_coord =~= start.by_coord.insert(coord, su@));
            let count = self.n_units_per_round[round as usize];
            if count < usize::MAX {
                self.n_units_per_round.set(round as usize, count + 1);
            }
            assert(self@.n_units_per_round =~= start.n_units_per_round.update(
                round as int,
                bump(start.n_units_per_round[round as int]),
            ));
        }
        if wanted {
            self.legit_buffer.push(su);
            assert(self@.legit_buffer =~= start.legit_buffer.push(su@));
        }
        self.update_round_in_progress();
    }

    /// Marks `forker` as a forker. Gives the forker's stored units up to the
    /// round in progress, by increasing round, and removes the forker's units
    /// of higher rounds from the store.
    pub fn mark_forker(&mut self, forker: NodeIndex) -> (units: Vec<HashedUnit<'a, KB>>)
        requires
            old(self).wf(),
            forker < old(self)@.is_forker.len(),
        ensures
            final(self)@ == spec_mark_forker(old(self)@, forker),
            views(units@) == spec_alerted_units(old(self)@, forker),
            final(self).wf(),
    {
        proof {
            lemma_mark_forker_inv(self@, forker);
        }
        let ghost start = self@;
        self.is_forker.set(forker, true);
        let mut units: Vec<HashedUnit<'a, KB>> = Vec::new();
        let mut round: u64 = 0;
        while round <= self.round_in_progress
            invariant
                round <= self.round_in_progress + 1,
                self.round_in_progress <= MAX_ROUND + 1,
                self@.by_coord == start.by_coord,
                self@.by_hash == start.by_hash,
                self@.parents == start.parents,
                self@.round_in_progress == start.round_in_progress,
                self@.threshold == start.threshold,
                self@.n_units_per_round == start.n_units_per_round,
                self@.legit_buffer == start.legit_buffer,
                self@.is_forker == start.is_forker.update(forker as int, true),
                views(units@) == forker_units(start.by_coord, forker, round as nat),
            decreases self.round_in_progress + 1 - round,
        {
            let coord = UnitCoord { creator: forker, round };
            let ghost collected = views(units@);
            match self.unit_by_coord(coord) {
                Some(su) => {
                    units.push(su.clone());
                    assert(views(units@) =~= collected.push(start.by_coord[coord]));
                },
                None => {},
            }
            round += 1;
        }
        let mut round: u64 = if self.round_in_progress <= MAX_ROUND {
            self.round_in_progress + 1
        } else {
            MAX_ROUND + 1
        };
        proof {
            assert(self@.by_coord =~= start.by_coord.remove_keys(
                Set::new(|c: UnitCoord| purged_coord(start, forker, round as nat, c)),
            ));
            assert(self@.by_hash =~= start.by_hash.remove_keys(
                Set::new(
                    |h: HashValue| purged_hash(start, forker, round as nat, h),
                ),
            ));
            assert(self@.parents =~= start.parents.remove_keys(
                Set::new(
                    |h: HashValue| purged_hash(start, forker, round as nat, h),
                ),
            ));
        }
        while round <= MAX_ROUND
            invariant
                start.round_in_progress < round <= MAX_ROUND + 1 || round == MAX_ROUND + 1,
                forker < start.is_forker.len(),
                state_inv(start),
                self@.round_in_progress == start.round_in_progress,
                self@.threshold == start.threshold,
                self@.n_units_per_round == start.n_units_per_round,
                self@.legit_buffer == start.legit_buffer,
                self@.is_forker == start.is_forker.update(forker as int, true),
                self@.by_coord == start.by_coord.remove_keys(
                    Set::new(|c: UnitCoord| purged_coord(start, forker, round as nat, c)),
                ),
                self@.by_hash == start.by_hash.remove_keys(
                    Set::new(
                        |h: HashValue| purged_hash(start, forker, round as nat, h),
                    ),
                ),
                self@.parents == start.parents.remove_keys(
                    Set::new(
                        |h: HashValue| purged_hash(start, forker, round as nat, h),
                    ),
                ),
            decreases MAX_ROUND + 1 - round,
        {
            let coord = UnitCoord { creator: forker, round };
            let key = coord_key(coord);
            let ghost here = self@;
            let found: Option<HashValue> = match self.by_coord.get(&key) {
                Some(su) => Some(su.hash),
                None => None,
            };
            assert(here.by_coord.contains_key(coord) == start.by_coord.contains_key(coord));
            match found {
                Some(hash) => {
                    assert(here.by_coord[coord] == start.by_coord[coord]);
                    assert(hash == start.by_coord[coord].hash);
                    proof {
                        lemma_coord_view_remove(self.by_coord@, coord);
                    }
                    self.by_coord.remove(&key);
                    self.by_hash.remove(&hash);
                    self.parents.remove(&hash);
                    assert(self@.by_hash =~= here.by_hash.remove(hash));
                    assert(self@.parents =~= here.parents.remove(hash));
                    proof {
                        lemma_purge_step(start, forker, round as nat, hash);
                    }
                    assert(self@.by_coord =~= start.by_coord.remove_keys(
                        Set::new(
                            |c: UnitCoord| purged_coord(start, forker, (round + 1) as nat, c),
                        ),
                    ));
                    assert(self@.by_hash =~= start.by_hash.remove_keys(
                        Set::new(
                            |h: HashValue|
                                purged_hash(start, forker, (round + 1) as nat, h),
                        ),
                    ));
                    assert(self@.parents =~= start.parents.remove_keys(
                        Set::new(
                            |h: HashValue|
                                purged_hash(start, forker, (round + 1) as nat, h),
                        ),
                    ));
                },
                None => {
                    proof {
                        lemma_purge_skip(start, forker, round as nat);
                    }
                    assert(self@.by_coord =~= start.by_coord.remove_keys(
                        Set::new(
                            |c: UnitCoord| purged_coord(start, forker, (round + 1) as nat, c),
                        ),
                    ));
                    assert(self@.by_hash =~= start.by_hash.remove_keys(
                        Set::new(
                            |h: HashValue|
                                purged_hash(start, forker, (round + 1) as nat, h),
                        ),
                    ));
                    assert(self@.parents =~= start.parents.remove_keys(
                        Set::new(
                            |h: HashValue|
                                purged_hash(start, forker, (round + 1) as nat, h),
                        ),
                    ));
                },
            }
            round += 1;
        }
        units
    }
}

/// Clearing the position of `forker` at `round` adds that position, and the
/// hash of its unit, to what was cleared below `round`.
proof fn lemma_purge_step(
    s: StoreState,
    forker: NodeIndex,
    round: nat,
    hash: HashValue,
)
    requires
        s.round_in_progress < round <= MAX_ROUND,
        s.by_coord.contains_key(UnitCoord { creator: forker, round: round as u64 }),
        hash == s.by_coord[UnitCoord { creator: forker, round: round as u64 }].hash,
    ensures
        forall|c: UnitCoord|
            purged_coord(s, forker, round + 1, c) <==> (purged_coord(s, forker, round, c) || c
                == UnitCoord { creator: forker, round: round as u64 }),
        forall|h: HashValue|
            purged_hash(s, forker, round + 1, h) <==> (purged_hash(
                s,
                forker,
                round,
                h,
            ) || h == hash),
{
    let here = UnitCoord { creator: forker, round: round as u64 };
    assert forall|h: HashValue|
        purged_hash(s, forker, round + 1, h) <==> (purged_hash(
            s,
            forker,
            round,
            h,
        ) || h == hash) by {
        if purged_hash(s, forker, round + 1, h) {
            let c = choose|c: UnitCoord| #[trigger]
                purged_coord(s, forker, round + 1, c) && s.by_coord[c].hash == h;
            if c != here {
                assert(purged_coord(s, forker, round, c));
            }
        }
        if purged_hash(s, forker, round, h) {
            let c = choose|c: UnitCoord| #[trigger]
                purged_coord(s, forker, round, c) && s.by_coord[c].hash == h;
            assert(purged_coord(s, forker, round + 1, c));
        }
        if h == hash {
            assert(purged_coord(s, forker, round + 1, here));
        }
    }
}

/// Where `forker` has no unit at `round`, nothing more is cleared there.
proof fn lemma_purge_skip(s: StoreState, forker: NodeIndex, round: nat)
    requires
        s.round_in_progress < round <= MAX_ROUND,
        !s.by_coord.contains_key(UnitCoord { creator: forker, round: round as u64 }),
    ensures
        forall|c: UnitCoord|
            purged_coord(s, forker, round + 1, c) <==> purged_coord(s, forker, round, c),
        forall|h: HashValue|
            purged_hash(s, forker, round + 1, h) <==> purged_hash(
                s,
                forker,
                round,
                h,
            ),
{
    let here = UnitCoord { creator: forker, round: round as u64 };
    assert forall|h: HashValue|
        purged_hash(s, forker, round + 1, h) <==> purged_hash(
            s,
            forker,
            round,
            h,
        ) by {
        if purged_hash(s, forker, round + 1, h) {
            let c = choose|c: UnitCoord| #[trigger]
                purged_coord(s, forker, round + 1, c) && s.by_coord[c].hash == h;
            assert(c != here);
            assert(purged_coord(s, forker, round, c));
        }
        if purged_hash(s, forker, round, h) {
            let c = choose|c: UnitCoord| #[trigger]
                purged_coord(s, forker, round, c) && s.by_coord[c].hash == h;
            assert(purged_coord(s, forker, round + 1, c));
        }
    }
}

} // verus!
