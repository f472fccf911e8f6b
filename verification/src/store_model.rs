//! What the unit store holds and does, said over mathematical values: its
//! state, the state that each operation leads to, what holds of it at all
//! times, and the laws that follow.

use crate::units::{spec_coord, HashedUnitView, UnitCoord};
use crate::{HashValue, NodeIndex, MAX_ROUND};
use vstd::prelude::*;

verus! {

/// What the store holds, as mathematical values.
pub struct StoreState {
    /// The first unit stored at each position.
    pub by_coord: Map<UnitCoord, HashedUnitView>,
    /// Every stored unit, by its content hash.
    pub by_hash: Map<HashValue, HashedUnitView>,
    /// The parents' hashes of the units for which they are known.
    pub parents: Map<HashValue, Seq<HashValue>>,
    /// The lowest round that is not yet saturated.
    pub round_in_progress: nat,
    /// The number of units that saturates a round.
    pub threshold: nat,
    /// How many positions of each round were filled.
    pub n_units_per_round: Seq<nat>,
    /// Who is known to have forked.
    pub is_forker: Seq<bool>,
    /// The units that wait to be handed to consensus, oldest first.
    pub legit_buffer: Seq<HashedUnitView>,
}

/// The store of a session of `n_nodes` authorities before any unit arrived.
pub open spec fn spec_new(n_nodes: nat, threshold: nat) -> StoreState {
    StoreState {
        by_coord: Map::empty(),
        by_hash: Map::empty(),
        parents: Map::empty(),
        round_in_progress: 0,
        threshold,
        n_units_per_round: Seq::new((MAX_ROUND + 1) as nat, |r: int| 0nat),
        is_forker: Seq::new(n_nodes, |i: int| false),
        legit_buffer: Seq::empty(),
    }
}

/// A count one higher, as far as the machine can count.
pub open spec fn bump(n: nat) -> nat {
    if n < usize::MAX {
        n + 1
    } else {
        n
    }
}

/// The stored units of `round` whose creators have an index below `k` and did
/// not fork, in the order of the creators.
pub open spec fn round_units(
    by_coord: Map<UnitCoord, HashedUnitView>,
    is_forker: Seq<bool>,
    round: nat,
    k: nat,
) -> Seq<HashedUnitView>
    decreases k,
{
    if k == 0 {
        Seq::empty()
    } else {
        let before = round_units(by_coord, is_forker, round, (k - 1) as nat);
        let c = UnitCoord { creator: (k - 1) as usize, round: round as u64 };
        if !is_forker[k - 1] && by_coord.contains_key(c) {
            before.push(by_coord[c])
        } else {
            before
        }
    }
}

/// Moves the round in progress past every saturated round. Each round that
/// comes into range hands its stored units of honest creators to the buffer.
pub open spec fn spec_advance(s: StoreState) -> StoreState
    decreases MAX_ROUND + 1 - s.round_in_progress,
{
    if s.round_in_progress <= MAX_ROUND && s.n_units_per_round[s.round_in_progress as int]
        >= s.threshold {
        let next = s.round_in_progress + 1;
        spec_advance(
            StoreState {
                round_in_progress: next,
                legit_buffer: s.legit_buffer + round_units(
                    s.by_coord,
                    s.is_forker,
                    next,
                    s.is_forker.len(),
                ),
                ..s
            },
        )
    } else {
        s
    }
}

/// Whether a new unit goes to the buffer at once: one from an alert always,
/// another when its round is in range and its creator did not fork.
pub open spec fn spec_wants_buffer(s: StoreState, u: HashedUnitView, alert: bool) -> bool {
    alert || (u.unit.signable.inner.round <= s.round_in_progress
        && !s.is_forker[u.unit.signable.inner.creator as int])
}

/// The store after the unit `u` with content hash `hash` was added.
pub open spec fn spec_add_unit(s: StoreState, u: HashedUnitView, alert: bool) -> StoreState {
    let hash = u.hash;
    if s.by_hash.contains_key(hash) {
        s
    } else {
        let coord = spec_coord(u.unit.signable);
        let round = u.unit.signable.inner.round as int;
        let fresh = !s.by_coord.contains_key(coord);
        spec_advance(
            StoreState {
                by_hash: s.by_hash.insert(hash, u),
                by_coord: if fresh {
                    s.by_coord.insert(coord, u)
                } else {
                    s.by_coord
                },
                n_units_per_round: if fresh {
                    s.n_units_per_round.update(round, bump(s.n_units_per_round[round]))
                } else {
                    s.n_units_per_round
                },
                legit_buffer: if spec_wants_buffer(s, u, alert) {
                    s.legit_buffer.push(u)
                } else {
                    s.legit_buffer
                },
                ..s
            },
        )
    }
}

/// The stored unit that `u` forks: none when `u` is known by its hash, else
/// the unit that holds its position.
pub open spec fn spec_new_fork(s: StoreState, u: HashedUnitView) -> Option<HashedUnitView> {
    if s.by_hash.contains_key(u.hash) {
        None
    } else if s.by_coord.contains_key(spec_coord(u.unit.signable)) {
        Some(s.by_coord[spec_coord(u.unit.signable)])
    } else {
        None
    }
}

/// The stored units of `forker` at rounds below `k`, by increasing round.
pub open spec fn forker_units(
    by_coord: Map<UnitCoord, HashedUnitView>,
    forker: NodeIndex,
    k: nat,
) -> Seq<HashedUnitView>
    decreases k,
{
    if k == 0 {
        Seq::empty()
    } else {
        let before = forker_units(by_coord, forker, (k - 1) as nat);
        let c = UnitCoord { creator: forker, round: (k - 1) as u64 };
        if by_coord.contains_key(c) {
            before.push(by_coord[c])
        } else {
            before
        }
    }
}

/// A position that marking `forker` clears: one of the forker's beyond the
/// round in progress and below `bound`.
pub open spec fn purged_coord(s: StoreState, forker: NodeIndex, bound: nat, c: UnitCoord) -> bool {
    c.creator == forker && s.round_in_progress < c.round < bound && s.by_coord.contains_key(c)
}

/// A hash that marking `forker` clears: that of the unit at a cleared position.
pub open spec fn purged_hash(
    s: StoreState,
    forker: NodeIndex,
    bound: nat,
    h: HashValue,
) -> bool {
    exists|c: UnitCoord| #[trigger]
        purged_coord(s, forker, bound, c) && s.by_coord[c].hash == h
}

/// The store after `forker` was marked: the units of the forker that were not
/// yet in range are gone from every index, as if they had never arrived.
pub open spec fn spec_mark_forker(s: StoreState, forker: NodeIndex)
    -> StoreState {
    let bound = (MAX_ROUND + 1) as nat;
    StoreState {
        is_forker: s.is_forker.update(forker as int, true),
        by_coord: s.by_coord.remove_keys(Set::new(|c: UnitCoord| purged_coord(s, forker, bound, c))),
        by_hash: s.by_hash.remove_keys(
            Set::new(|h: HashValue| purged_hash(s, forker, bound, h)),
        ),
        parents: s.parents.remove_keys(
            Set::new(|h: HashValue| purged_hash(s, forker, bound, h)),
        ),
        ..s
    }
}

/// The units that marking `forker` reports: the forker's stored units up to the round in progress.
pub open spec fn spec_alerted_units(s: StoreState, forker: NodeIndex) -> Seq<HashedUnitView> {
    forker_units(s.by_coord, forker, s.round_in_progress + 1)
}

/// The store after its buffer was handed out.
pub open spec fn spec_drained(s: StoreState) -> StoreState {
    StoreState { legit_buffer: Seq::empty(), ..s }
}

/// What holds of the unit stored under the hash `h`.
pub open spec fn stored_ok(s: StoreState, h: HashValue) -> bool {
    let u = s.by_hash[h];
    &&& u.hash == h
    &&& u.unit.signable.inner.round <= MAX_ROUND
    &&& u.unit.signable.inner.creator < s.is_forker.len()
}

/// What holds of the unit stored at the position `c`.
pub open spec fn indexed_ok(s: StoreState, c: UnitCoord) -> bool {
    let u = s.by_coord[c];
    let h = u.hash;
    &&& spec_coord(u.unit.signable) == c
    &&& s.by_hash.contains_key(h)
    &&& s.by_hash[h] == u
}

/// What holds of the store at all times.
pub open spec fn state_inv(s: StoreState) -> bool {
    &&& s.n_units_per_round.len() == MAX_ROUND + 1
    &&& s.round_in_progress <= MAX_ROUND + 1
    &&& forall|h: HashValue| #[trigger] s.by_hash.contains_key(h) ==> stored_ok(s, h)
    &&& forall|c: UnitCoord| #[trigger] s.by_coord.contains_key(c) ==> indexed_ok(s, c)
    &&& rounds_below_saturated(s)
    &&& s.round_in_progress <= MAX_ROUND ==> s.n_units_per_round[s.round_in_progress as int]
        < s.threshold
}

/// Every round below the round in progress holds a quorum of units.
pub open spec fn rounds_below_saturated(s: StoreState) -> bool {
    forall|r: int| 0 <= r < s.round_in_progress ==> #[trigger] s.n_units_per_round[r] >= s.threshold
}

/// Every unit in the store, in whichever index, has the property `p`.
pub open spec fn all_units(s: StoreState, p: spec_fn(HashedUnitView) -> bool) -> bool {
    &&& forall|h: HashValue| s.by_hash.contains_key(h) ==> p(#[trigger] s.by_hash[h])
    &&& forall|c: UnitCoord| s.by_coord.contains_key(c) ==> p(#[trigger] s.by_coord[c])
    &&& forall|i: int| 0 <= i < s.legit_buffer.len() ==> p(#[trigger] s.legit_buffer[i])
}

pub proof fn lemma_round_units_stored(
    by_coord: Map<UnitCoord, HashedUnitView>,
    is_forker: Seq<bool>,
    round: nat,
    k: nat,
    p: spec_fn(HashedUnitView) -> bool,
)
    requires
        forall|c: UnitCoord| by_coord.contains_key(c) ==> p(#[trigger] by_coord[c]),
    ensures
        forall|i: int|
            0 <= i < round_units(by_coord, is_forker, round, k).len() ==> p(
                #[trigger] round_units(by_coord, is_forker, round, k)[i],
            ),
    decreases k,
{
    if k > 0 {
        lemma_round_units_stored(by_coord, is_forker, round, (k - 1) as nat, p);
        let before = round_units(by_coord, is_forker, round, (k - 1) as nat);
        let all = round_units(by_coord, is_forker, round, k);
        let c = UnitCoord { creator: (k - 1) as usize, round: round as u64 };
        assert forall|i: int| 0 <= i < all.len() implies p(#[trigger] all[i]) by {
            if i < before.len() {
                assert(all[i] == before[i]);
            } else {
                assert(all[i] == by_coord[c]);
            }
        }
    }
}

pub proof fn lemma_forker_units_stored(
    by_coord: Map<UnitCoord, HashedUnitView>,
    forker: NodeIndex,
    k: nat,
    p: spec_fn(HashedUnitView) -> bool,
)
    requires
        forall|c: UnitCoord| by_coord.contains_key(c) ==> p(#[trigger] by_coord[c]),
    ensures
        forall|i: int|
            0 <= i < forker_units(by_coord, forker, k).len() ==> p(
                #[trigger] forker_units(by_coord, forker, k)[i],
            ),
        forker_units(by_coord, forker, k).len() <= k,
    decreases k,
{
    if k > 0 {
        lemma_forker_units_stored(by_coord, forker, (k - 1) as nat, p);
    }
}

/// Advancing changes the round in progress and the buffer only, never moves
/// the round back, and ends at the lowest round that lacks a quorum.
pub proof fn lemma_advance(s: StoreState)
    requires
        s.n_units_per_round.len() == MAX_ROUND + 1,
        s.round_in_progress <= MAX_ROUND + 1,
        rounds_below_saturated(s),
    ensures
        ({
            let t = spec_advance(s);
            &&& t.by_coord == s.by_coord
            &&& t.by_hash == s.by_hash
            &&& t.parents == s.parents
            &&& t.threshold == s.threshold
            &&& t.n_units_per_round == s.n_units_per_round
            &&& t.is_forker == s.is_forker
            &&& s.round_in_progress <= t.round_in_progress <= MAX_ROUND + 1
            &&& rounds_below_saturated(t)
            &&& t.round_in_progress <= MAX_ROUND ==> t.n_units_per_round[t.round_in_progress as int]
                < t.threshold
            &&& s.legit_buffer.len() <= t.legit_buffer.len()
            &&& t.legit_buffer.take(s.legit_buffer.len() as int) == s.legit_buffer
        }),
    decreases MAX_ROUND + 1 - s.round_in_progress,
{
    if s.round_in_progress <= MAX_ROUND && s.n_units_per_round[s.round_in_progress as int]
        >= s.threshold {
        let next = s.round_in_progress + 1;
        let mid = StoreState {
            round_in_progress: next,
            legit_buffer: s.legit_buffer + round_units(
                s.by_coord,
                s.is_forker,
                next,
                s.is_forker.len(),
            ),
            ..s
        };
        assert(rounds_below_saturated(mid));
        lemma_advance(mid);
        let t = spec_advance(mid);
        assert(t.legit_buffer.take(s.legit_buffer.len() as int) =~= t.legit_buffer.take(
            mid.legit_buffer.len() as int,
        ).take(s.legit_buffer.len() as int));
        assert(mid.legit_buffer.take(s.legit_buffer.len() as int) =~= s.legit_buffer);
    } else {
        assert(s.legit_buffer.take(s.legit_buffer.len() as int) =~= s.legit_buffer);
    }
}

/// Advancing brings no unit into the buffer that the store does not hold.
pub proof fn lemma_advance_all(s: StoreState, p: spec_fn(HashedUnitView) -> bool)
    requires
        all_units(s, p),
    ensures
        all_units(spec_advance(s), p),
    decreases MAX_ROUND + 1 - s.round_in_progress,
{
    if s.round_in_progress <= MAX_ROUND && s.n_units_per_round[s.round_in_progress as int]
        >= s.threshold {
        let next = s.round_in_progress + 1;
        let flushed = round_units(s.by_coord, s.is_forker, next, s.is_forker.len());
        let mid = StoreState {
            round_in_progress: next,
            legit_buffer: s.legit_buffer + flushed,
            ..s
        };
        lemma_round_units_stored(s.by_coord, s.is_forker, next, s.is_forker.len(), p);
        assert forall|i: int| 0 <= i < mid.legit_buffer.len() implies p(
            #[trigger] mid.legit_buffer[i],
        ) by {
            if i >= s.legit_buffer.len() {
                assert(mid.legit_buffer[i] == flushed[i - s.legit_buffer.len()]);
            } else {
                assert(mid.legit_buffer[i] == s.legit_buffer[i]);
            }
        }
        lemma_advance_all(mid, p);
    }
}

/// Adding a unit to a well-formed store leaves it well-formed, and never
/// moves the round in progress back.
pub proof fn lemma_add_unit_inv(
    s: StoreState,
    u: HashedUnitView,
    alert: bool,
)
    requires
        state_inv(s),
        u.unit.signable.inner.round <= MAX_ROUND,
        u.unit.signable.inner.creator < s.is_forker.len(),
    ensures
        ({
            let t = spec_add_unit(s, u, alert);
            &&& state_inv(t)
            &&& s.round_in_progress <= t.round_in_progress
            &&& t.is_forker == s.is_forker
            &&& t.threshold == s.threshold
            &&& t.parents == s.parents
        }),
{
    let hash = u.hash;
    let hash = u.hash;
    if !s.by_hash.contains_key(hash) {
        let coord = spec_coord(u.unit.signable);
        let round = u.unit.signable.inner.round as int;
        let fresh = !s.by_coord.contains_key(coord);
        let mid = StoreState {
            by_hash: s.by_hash.insert(hash, u),
            by_coord: if fresh {
                s.by_coord.insert(coord, u)
            } else {
                s.by_coord
            },
            n_units_per_round: if fresh {
                s.n_units_per_round.update(round, bump(s.n_units_per_round[round]))
            } else {
                s.n_units_per_round
            },
            legit_buffer: if spec_wants_buffer(s, u, alert) {
                s.legit_buffer.push(u)
            } else {
                s.legit_buffer
            },
            ..s
        };
        assert(rounds_below_saturated(mid)) by {
            assert forall|r: int| 0 <= r < mid.round_in_progress implies #[trigger]
                mid.n_units_per_round[r] >= mid.threshold by {
                assert(s.n_units_per_round[r] >= s.threshold);
            }
        }
        lemma_advance(mid);
        let t = spec_advance(mid);
        assert forall|h: HashValue| #[trigger] t.by_hash.contains_key(h) implies stored_ok(
            t,
            h,
        ) by {
            if h != hash {
                assert(s.by_hash.contains_key(h));
                assert(stored_ok(s, h));
            }
        }
        assert forall|c: UnitCoord| #[trigger] t.by_coord.contains_key(c) implies indexed_ok(
            t,
            c,
        ) by {
            if fresh && c == coord {
            } else {
                assert(s.by_coord.contains_key(c));
                assert(indexed_ok(s, c));
            }
        }
    }
}

/// Adding a unit with the property `p` to a store whose units all have it
/// gives a store whose units all have it.
pub proof fn lemma_add_unit_all(
    s: StoreState,
    u: HashedUnitView,
    alert: bool,
    p: spec_fn(HashedUnitView) -> bool,
)
    requires
        all_units(s, p),
        p(u),
    ensures
        all_units(spec_add_unit(s, u, alert), p),
{
    let hash = u.hash;
    if !s.by_hash.contains_key(hash) {
        let coord = spec_coord(u.unit.signable);
        let round = u.unit.signable.inner.round as int;
        let fresh = !s.by_coord.contains_key(coord);
        let mid = StoreState {
            by_hash: s.by_hash.insert(hash, u),
            by_coord: if fresh {
                s.by_coord.insert(coord, u)
            } else {
                s.by_coord
            },
            n_units_per_round: if fresh {
                s.n_units_per_round.update(round, bump(s.n_units_per_round[round]))
            } else {
                s.n_units_per_round
            },
            legit_buffer: if spec_wants_buffer(s, u, alert) {
                s.legit_buffer.push(u)
            } else {
                s.legit_buffer
            },
            ..s
        };
        assert(all_units(mid, p)) by {
            assert forall|h: HashValue| mid.by_hash.contains_key(h) implies p(
                #[trigger] mid.by_hash[h],
            ) by {
                if h != hash {
                    assert(s.by_hash.contains_key(h));
                }
            }
            assert forall|c: UnitCoord| mid.by_coord.contains_key(c) implies p(
                #[trigger] mid.by_coord[c],
            ) by {
                if !(fresh && c == coord) {
                    assert(s.by_coord.contains_key(c));
                }
            }
            assert forall|i: int| 0 <= i < mid.legit_buffer.len() implies p(
                #[trigger] mid.legit_buffer[i],
            ) by {
                if i < s.legit_buffer.len() {
                    assert(mid.legit_buffer[i] == s.legit_buffer[i]);
                }
            }
        }
        lemma_advance_all(mid, p);
    }
}

/// Marking a forker leaves a well-formed store well-formed.
pub proof fn lemma_mark_forker_inv(s: StoreState, forker: NodeIndex)
    requires
        state_inv(s),
        forker < s.is_forker.len(),
    ensures
        state_inv(spec_mark_forker(s, forker)),
{
    let t = spec_mark_forker(s, forker);
    let bound = (MAX_ROUND + 1) as nat;
    assert forall|h: HashValue| #[trigger] t.by_hash.contains_key(h) implies stored_ok(
        t,
        h,
    ) by {
        assert(s.by_hash.contains_key(h));
        assert(stored_ok(s, h));
    }
    assert forall|c: UnitCoord| #[trigger] t.by_coord.contains_key(c) implies indexed_ok(
        t,
        c,
    ) by {
        assert(s.by_coord.contains_key(c));
        assert(indexed_ok(s, c));
        let h = s.by_coord[c].hash;
        if purged_hash(s, forker, bound, h) {
            let c2 = choose|c2: UnitCoord| #[trigger]
                purged_coord(s, forker, bound, c2) && s.by_coord[c2].hash == h;
            assert(indexed_ok(s, c2));
            assert(c2 == c);
        }
    }
    assert(rounds_below_saturated(t)) by {
        assert forall|r: int| 0 <= r < t.round_in_progress implies #[trigger]
            t.n_units_per_round[r] >= t.threshold by {
            assert(s.n_units_per_round[r] >= s.threshold);
        }
    }
}

/// Marking a forker takes units away and adds none.
pub proof fn lemma_mark_forker_all(
    s: StoreState,
    forker: NodeIndex,
    p: spec_fn(HashedUnitView) -> bool,
)
    requires
        all_units(s, p),
    ensures
        all_units(spec_mark_forker(s, forker), p),
        forall|i: int|
            0 <= i < spec_alerted_units(s, forker).len() ==> p(
                #[trigger] spec_alerted_units(s, forker)[i],
            ),
{
    let t = spec_mark_forker(s, forker);
    assert forall|h: HashValue| t.by_hash.contains_key(h) implies p(#[trigger] t.by_hash[h]) by {
        assert(s.by_hash.contains_key(h));
    }
    assert forall|c: UnitCoord| t.by_coord.contains_key(c) implies p(#[trigger] t.by_coord[c]) by {
        assert(s.by_coord.contains_key(c));
    }
    lemma_forker_units_stored(s.by_coord, forker, s.round_in_progress + 1, p);
}

/// The unit stored under the hash `h` holds its own position in the index of positions.
pub open spec fn first_at_position(s: StoreState, h: HashValue) -> bool {
    let c = spec_coord(s.by_hash[h].unit.signable);
    s.by_coord.contains_key(c) && s.by_coord[c].hash == h
}

/// No position is claimed by two stored units.
pub open spec fn fork_free(s: StoreState) -> bool {
    forall|h: HashValue| #[trigger] s.by_hash.contains_key(h) ==> first_at_position(s, h)
}

/// The unit at a position is also stored under its hash, and it is a unit of that position.
pub proof fn law_position_leads_to_hash(s: StoreState, c: UnitCoord)
    requires
        state_inv(s),
        s.by_coord.contains_key(c),
    ensures
        spec_coord(s.by_coord[c].unit.signable) == c,
        s.by_hash.contains_key(s.by_coord[c].hash),
        s.by_hash[s.by_coord[c].hash] == s.by_coord[c],
{
    assert(indexed_ok(s, c));
}

/// A unit that holds its own position is the same under its hash and at its position.
pub proof fn law_hash_leads_to_position(s: StoreState, h: HashValue)
    requires
        state_inv(s),
        s.by_hash.contains_key(h),
        first_at_position(s, h),
    ensures
        s.by_coord[spec_coord(s.by_hash[h].unit.signable)] == s.by_hash[h],
{
    assert(indexed_ok(s, spec_coord(s.by_hash[h].unit.signable)));
}

/// The first unit at a position keeps it: a later unit for the same position
/// leaves the index of positions as it was.
pub proof fn law_first_unit_keeps_position(s: StoreState, u: HashedUnitView, alert: bool)
    requires
        state_inv(s),
        s.by_coord.contains_key(spec_coord(u.unit.signable)),
    ensures
        spec_add_unit(s, u, alert).by_coord == s.by_coord,
{
    if !s.by_hash.contains_key(u.hash) {
        let mid = StoreState {
            by_hash: s.by_hash.insert(u.hash, u),
            legit_buffer: if spec_wants_buffer(s, u, alert) {
                s.legit_buffer.push(u)
            } else {
                s.legit_buffer
            },
            ..s
        };
        lemma_advance(mid);
    }
}

/// In a store where no position is claimed twice, adding a unit that forks
/// no stored unit leaves no position claimed twice.
pub proof fn law_add_keeps_fork_free(s: StoreState, u: HashedUnitView, alert: bool)
    requires
        state_inv(s),
        fork_free(s),
        u.unit.signable.inner.round <= MAX_ROUND,
        u.unit.signable.inner.creator < s.is_forker.len(),
        spec_new_fork(s, u) is None,
    ensures
        fork_free(spec_add_unit(s, u, alert)),
{
    lemma_add_unit_inv(s, u, alert);
    let t = spec_add_unit(s, u, alert);
    if !s.by_hash.contains_key(u.hash) {
        let coord = spec_coord(u.unit.signable);
        let round = u.unit.signable.inner.round as int;
        let mid = StoreState {
            by_hash: s.by_hash.insert(u.hash, u),
            by_coord: s.by_coord.insert(coord, u),
            n_units_per_round: s.n_units_per_round.update(
                round,
                bump(s.n_units_per_round[round]),
            ),
            legit_buffer: if spec_wants_buffer(s, u, alert) {
                s.legit_buffer.push(u)
            } else {
                s.legit_buffer
            },
            ..s
        };
        assert(rounds_below_saturated(mid)) by {
            assert forall|r: int| 0 <= r < mid.round_in_progress implies #[trigger]
                mid.n_units_per_round[r] >= mid.threshold by {
                assert(s.n_units_per_round[r] >= s.threshold);
            }
        }
        lemma_advance(mid);
        assert forall|h: HashValue| #[trigger] t.by_hash.contains_key(h) implies first_at_position(
            t,
            h,
        ) by {
            if h != u.hash {
                assert(s.by_hash.contains_key(h));
                assert(first_at_position(s, h));
            }
        }
    }
}

/// Marking a forker leaves no position claimed twice where none was.
pub proof fn law_mark_forker_keeps_fork_free(s: StoreState, forker: NodeIndex)
    requires
        state_inv(s),
        fork_free(s),
    ensures
        fork_free(spec_mark_forker(s, forker)),
{
    let t = spec_mark_forker(s, forker);
    let bound = (MAX_ROUND + 1) as nat;
    assert forall|h: HashValue| #[trigger] t.by_hash.contains_key(h) implies first_at_position(
        t,
        h,
    ) by {
        assert(s.by_hash.contains_key(h));
        assert(first_at_position(s, h));
        let c = spec_coord(s.by_hash[h].unit.signable);
        if purged_coord(s, forker, bound, c) {
            assert(purged_hash(s, forker, bound, h));
        }
    }
}

/// The round in progress never moves back when a unit is added, and it is
/// always the lowest round that lacks a quorum: every round below it holds
/// one, and it holds none itself.
pub proof fn law_round_in_progress(s: StoreState, u: HashedUnitView, alert: bool)
    requires
        state_inv(s),
        u.unit.signable.inner.round <= MAX_ROUND,
        u.unit.signable.inner.creator < s.is_forker.len(),
    ensures
        ({
            let t = spec_add_unit(s, u, alert);
            &&& s.round_in_progress <= t.round_in_progress
            &&& forall|r: int|
                0 <= r < t.round_in_progress ==> #[trigger] t.n_units_per_round[r] >= t.threshold
            &&& t.round_in_progress <= MAX_ROUND ==> t.n_units_per_round[t.round_in_progress as int]
                < t.threshold
        }),
{
    lemma_add_unit_inv(s, u, alert);
}

/// Marking a forker and handing out the buffer leave the round in progress where it is.
pub proof fn law_round_in_progress_stays(s: StoreState, forker: NodeIndex)
    ensures
        spec_mark_forker(s, forker).round_in_progress == s.round_in_progress,
        spec_drained(s).round_in_progress == s.round_in_progress,
{
}

/// After a forker is marked, no position of the forker beyond the round in
/// progress is filled, and the units that filled such positions are gone
/// from the index of hashes and from the recorded parents.
pub proof fn law_forker_positions_cleared(s: StoreState, forker: NodeIndex)
    requires
        state_inv(s),
    ensures
        forall|c: UnitCoord|
            c.creator == forker && c.round > s.round_in_progress ==> !(#[trigger] spec_mark_forker(
                s,
                forker,
            ).by_coord.contains_key(c)),
        forall|c: UnitCoord|
            c.creator == forker && c.round > s.round_in_progress && #[trigger] s.by_coord.contains_key(
                c,
            ) ==> !spec_mark_forker(s, forker).by_hash.contains_key(s.by_coord[c].hash)
                && !spec_mark_forker(s, forker).parents.contains_key(s.by_coord[c].hash),
{
    let t = spec_mark_forker(s, forker);
    let bound = (MAX_ROUND + 1) as nat;
    assert forall|c: UnitCoord|
        c.creator == forker && c.round > s.round_in_progress implies !(#[trigger] t.by_coord.contains_key(
        c,
    )) by {
        if s.by_coord.contains_key(c) {
            assert(indexed_ok(s, c));
            assert(stored_ok(s, s.by_coord[c].hash));
            assert(purged_coord(s, forker, bound, c));
        }
    }
    assert forall|c: UnitCoord|
        c.creator == forker && c.round > s.round_in_progress && #[trigger] s.by_coord.contains_key(
            c,
        ) implies !t.by_hash.contains_key(s.by_coord[c].hash) && !t.parents.contains_key(
        s.by_coord[c].hash,
    ) by {
        assert(indexed_ok(s, c));
        assert(stored_ok(s, s.by_coord[c].hash));
        assert(purged_coord(s, forker, bound, c));
        assert(purged_hash(s, forker, bound, s.by_coord[c].hash));
    }
}

/// After a forker is marked in a store where no position is claimed twice,
/// no unit of the forker beyond the round in progress is left under any hash.
pub proof fn law_forker_units_cleared(s: StoreState, forker: NodeIndex)
    requires
        state_inv(s),
        fork_free(s),
    ensures
        forall|h: HashValue| #[trigger]
            spec_mark_forker(s, forker).by_hash.contains_key(h) ==> !(spec_mark_forker(
                s,
                forker,
            ).by_hash[h].unit.signable.inner.creator == forker && spec_mark_forker(
                s,
                forker,
            ).by_hash[h].unit.signable.inner.round > s.round_in_progress),
{
    let t = spec_mark_forker(s, forker);
    let bound = (MAX_ROUND + 1) as nat;
    assert forall|h: HashValue| #[trigger] t.by_hash.contains_key(h) implies !(
    t.by_hash[h].unit.signable.inner.creator == forker && t.by_hash[h].unit.signable.inner.round
        > s.round_in_progress) by {
        assert(s.by_hash.contains_key(h));
        assert(first_at_position(s, h));
        assert(stored_ok(s, h));
        let c = spec_coord(s.by_hash[h].unit.signable);
        if c.creator == forker && c.round > s.round_in_progress {
            assert(purged_coord(s, forker, bound, c));
            assert(purged_hash(s, forker, bound, h));
        }
    }
}

/// Adding a unit that is stored already leaves the store as it is.
pub proof fn law_reinsert_changes_nothing(
    s: StoreState,
    u: HashedUnitView,
    alert: bool,
    again: bool,
)
    requires
        state_inv(s),
        u.unit.signable.inner.round <= MAX_ROUND,
        u.unit.signable.inner.creator < s.is_forker.len(),
    ensures
        s.by_hash.contains_key(u.hash) ==> spec_add_unit(s, u, alert) == s,
        spec_add_unit(spec_add_unit(s, u, alert), u, again) == spec_add_unit(s, u, alert),
{
    if !s.by_hash.contains_key(u.hash) {
        let coord = spec_coord(u.unit.signable);
        let round = u.unit.signable.inner.round as int;
        let fresh = !s.by_coord.contains_key(coord);
        let mid = StoreState {
            by_hash: s.by_hash.insert(u.hash, u),
            by_coord: if fresh {
                s.by_coord.insert(coord, u)
            } else {
                s.by_coord
            },
            n_units_per_round: if fresh {
                s.n_units_per_round.update(round, bump(s.n_units_per_round[round]))
            } else {
                s.n_units_per_round
            },
            legit_buffer: if spec_wants_buffer(s, u, alert) {
                s.legit_buffer.push(u)
            } else {
                s.legit_buffer
            },
            ..s
        };
        assert(rounds_below_saturated(mid)) by {
            assert forall|r: int| 0 <= r < mid.round_in_progress implies #[trigger]
                mid.n_units_per_round[r] >= mid.threshold by {
                assert(s.n_units_per_round[r] >= s.threshold);
            }
        }
        lemma_advance(mid);
    }
}

/// Once the buffer was handed out it is empty: handing it out again gives
/// nothing and changes nothing.
pub proof fn law_second_drain_is_empty(s: StoreState)
    ensures
        spec_drained(s).legit_buffer.len() == 0,
        spec_drained(spec_drained(s)) == spec_drained(s),
{
}

/// When round 0 lacks one unit to a quorum and round 1 is not saturated, one
/// more unit of round 0 at a free position moves the round in progress to 1,
/// and the stored units of round 1 by honest creators go to the buffer, in
/// the order of their creators.
pub proof fn law_quorum_starts_next_round(s: StoreState, u: HashedUnitView, alert: bool)
    requires
        state_inv(s),
        s.round_in_progress == 0,
        s.n_units_per_round[0] + 1 == s.threshold,
        s.n_units_per_round[1] < s.threshold,
        s.threshold <= usize::MAX,
        u.unit.signable.inner.round == 0,
        u.unit.signable.inner.creator < s.is_forker.len(),
        !s.by_hash.contains_key(u.hash),
        !s.by_coord.contains_key(spec_coord(u.unit.signable)),
    ensures
        ({
            let t = spec_add_unit(s, u, alert);
            let held = if spec_wants_buffer(s, u, alert) {
                s.legit_buffer.push(u)
            } else {
                s.legit_buffer
            };
            &&& t.round_in_progress == 1
            &&& t.legit_buffer == held + round_units(
                s.by_coord.insert(spec_coord(u.unit.signable), u),
                s.is_forker,
                1,
                s.is_forker.len(),
            )
        }),
{
    let coord = spec_coord(u.unit.signable);
    let mid = StoreState {
        by_hash: s.by_hash.insert(u.hash, u),
        by_coord: s.by_coord.insert(coord, u),
        n_units_per_round: s.n_units_per_round.update(0, bump(s.n_units_per_round[0])),
        legit_buffer: if spec_wants_buffer(s, u, alert) {
            s.legit_buffer.push(u)
        } else {
            s.legit_buffer
        },
        ..s
    };
    let next = StoreState {
        round_in_progress: 1,
        legit_buffer: mid.legit_buffer + round_units(mid.by_coord, mid.is_forker, 1, mid.is_forker.len()),
        ..mid
    };
    assert(mid.n_units_per_round[0] >= mid.threshold);
    assert(spec_advance(mid) == spec_advance(next));
    assert(next.n_units_per_round[1] < next.threshold);
    assert(spec_advance(next) == next);
}

/// A unit that was added is stored under its hash.
pub proof fn law_added_unit_is_stored(s: StoreState, u: HashedUnitView, alert: bool)
    requires
        state_inv(s),
        u.unit.signable.inner.round <= MAX_ROUND,
        u.unit.signable.inner.creator < s.is_forker.len(),
    ensures
        spec_add_unit(s, u, alert).by_hash.contains_key(u.hash),
        !s.by_hash.contains_key(u.hash) ==> spec_add_unit(s, u, alert).by_hash[u.hash] == u,
{
    law_reinsert_changes_nothing(s, u, alert, alert);
    if !s.by_hash.contains_key(u.hash) {
        let coord = spec_coord(u.unit.signable);
        let round = u.unit.signable.inner.round as int;
        let fresh = !s.by_coord.contains_key(coord);
        let mid = StoreState {
            by_hash: s.by_hash.insert(u.hash, u),
            by_coord: if fresh {
                s.by_coord.insert(coord, u)
            } else {
                s.by_coord
            },
            n_units_per_round: if fresh {
                s.n_units_per_round.update(round, bump(s.n_units_per_round[round]))
            } else {
                s.n_units_per_round
            },
            legit_buffer: if spec_wants_buffer(s, u, alert) {
                s.legit_buffer.push(u)
            } else {
                s.legit_buffer
            },
            ..s
        };
        assert(rounds_below_saturated(mid)) by {
            assert forall|r: int| 0 <= r < mid.round_in_progress implies #[trigger]
                mid.n_units_per_round[r] >= mid.threshold by {
                assert(s.n_units_per_round[r] >= s.threshold);
            }
        }
        lemma_advance(mid);
    }
}

/// Marking a forker again, with nothing stored in between, changes nothing.
pub proof fn law_mark_forker_twice(s: StoreState, forker: NodeIndex)
    requires
        state_inv(s),
        forker < s.is_forker.len(),
    ensures
        spec_mark_forker(spec_mark_forker(s, forker), forker) == spec_mark_forker(s, forker),
        spec_alerted_units(spec_mark_forker(s, forker), forker) == spec_alerted_units(s, forker),
{
    let t = spec_mark_forker(s, forker);
    let tt = spec_mark_forker(t, forker);
    let bound = (MAX_ROUND + 1) as nat;
    law_forker_positions_cleared(s, forker);
    assert forall|c: UnitCoord| !purged_coord(t, forker, bound, c) by {}
    assert forall|h: HashValue| !purged_hash(t, forker, bound, h) by {}
    assert(tt.by_coord =~= t.by_coord);
    assert(tt.by_hash =~= t.by_hash);
    assert(tt.parents =~= t.parents);
    assert(tt.is_forker =~= t.is_forker);
    lemma_forker_units_kept(s, forker, s.round_in_progress + 1);
}

/// The forker's units in range are where they were after the forker was marked.
proof fn lemma_forker_units_kept(s: StoreState, forker: NodeIndex, k: nat)
    requires
        k <= s.round_in_progress + 1,
    ensures
        forker_units(spec_mark_forker(s, forker).by_coord, forker, k) == forker_units(
            s.by_coord,
            forker,
            k,
        ),
    decreases k,
{
    if k > 0 {
        lemma_forker_units_kept(s, forker, (k - 1) as nat);
        let c = UnitCoord { creator: forker, round: (k - 1) as u64 };
        assert(!purged_coord(s, forker, (MAX_ROUND + 1) as nat, c));
    }
}

} // verus!
