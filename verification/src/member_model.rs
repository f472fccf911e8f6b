//! What the member does, said over mathematical values: the state that it
//! holds, the state that each event leads to, what is valid, and the laws
//! that follow.

use crate::bft::{AlertView, ForkProofView};
use crate::member::{Config, MAX_UNITS_ALERT, ROUNDS_MARGIN};
use crate::messages::{
    enc_message, ActionView, ConsensusMessageView, NetworkCommandView, NotificationInView,
    NotificationOut,
};
use crate::scheduler::{
    spec_due, spec_not_due, ScheduledTask, Task, FETCH_INTERVAL, INITIAL_MULTICAST_DELAY,
};
use crate::store_model::{
    all_units, law_added_unit_is_stored, lemma_add_unit_all, lemma_mark_forker_all, spec_add_unit,
    spec_alerted_units, spec_drained, spec_mark_forker, spec_new_fork, state_inv, StoreState,
};
use crate::units::{
    count_true, enc_parent_map, spec_unit_of, unit_digest, unit_signed, unit_verdict, FullUnitView,
    HashedUnitView, PreUnitView, SignedUnitView, UnitCoord, UnitView,
};
use crate::{digest_is, spec_threshold, HashValue, Hasher, KeyBox, NodeIndex, Round, MAX_ROUND};
use vstd::prelude::*;

verus! {

/// What the member holds, as mathematical values.
pub struct MemberState {
    pub config: Config,
    pub store: StoreState,
    /// The scheduled tasks, in the order in which they were scheduled.
    pub requests: Seq<ScheduledTask>,
    /// What is left for the host to carry out, oldest first.
    pub outbox: Seq<ActionView>,
}

/// The quorum of the session.
pub open spec fn quorum(config: Config) -> nat {
    spec_threshold(config.n_members as nat)
}

/// The parents that a unit declares fit its round: a unit of round 0 has
/// none; a later unit has a quorum of them, its creator's own among them.
pub open spec fn parents_valid(u: PreUnitView, config: Config) -> bool {
    let parents = u.control_hash.parents;
    &&& parents.len() == config.n_members
    &&& u.round == 0 ==> count_true(parents) == 0
    &&& u.round > 0 ==> count_true(parents) >= quorum(config) && u.creator < parents.len()
        && parents[u.creator as int]
}

/// The unit belongs to the session and has a sound shape.
pub open spec fn unit_valid(u: FullUnitView, config: Config) -> bool {
    &&& u.session_id == config.session_id
    &&& u.inner.round <= MAX_ROUND
    &&& u.inner.creator < config.n_members
    &&& parents_valid(u.inner, config)
}

/// The unit is of the session, by one of its authorities, at a round within the limit.
pub open spec fn unit_in_session(u: FullUnitView, config: Config) -> bool {
    &&& u.session_id == config.session_id
    &&& u.inner.round <= MAX_ROUND
    &&& u.inner.creator < config.n_members
}

/// A unit of round 0 that declares a parent is not valid.
pub proof fn law_round_zero_has_no_parents(u: FullUnitView, config: Config)
    requires
        u.inner.round == 0,
        count_true(u.inner.control_hash.parents) > 0,
    ensures
        !unit_valid(u, config),
{
}

/// A unit of a round above 0 with fewer parents than a quorum is not valid.
pub proof fn law_later_round_needs_quorum(u: FullUnitView, config: Config)
    requires
        u.inner.round > 0,
        count_true(u.inner.control_hash.parents) < quorum(config),
    ensures
        !unit_valid(u, config),
{
}

/// A unit of a round above 0 that does not declare its creator's previous
/// unit as a parent is not valid.
pub proof fn law_later_round_needs_own_parent(u: FullUnitView, config: Config)
    requires
        u.inner.round > 0,
        u.inner.creator < u.inner.control_hash.parents.len(),
        !u.inner.control_hash.parents[u.inner.creator as int],
    ensures
        !unit_valid(u, config),
{
}

/// What holds of the member at all times: the store is well-formed and made
/// for the session, and every unit in it is of the session.
pub open spec fn member_inv(m: MemberState) -> bool {
    &&& state_inv(m.store)
    &&& m.store.is_forker.len() == m.config.n_members
    &&& m.store.threshold == quorum(m.config)
    &&& m.config.node_id < m.config.n_members
    &&& all_units(m.store, in_session(m.config))
}

/// The property of a stored unit to be of the session of `config`.
pub open spec fn in_session(config: Config) -> spec_fn(HashedUnitView) -> bool {
    |u: HashedUnitView| unit_in_session(u.unit.signable, config)
}

/// The property of a stored unit to be valid in the session of `config`.
pub open spec fn is_valid(config: Config) -> spec_fn(HashedUnitView) -> bool {
    |u: HashedUnitView| unit_valid(u.unit.signable, config)
}

/// The key box made the unit's signature, or accepted it as the signature
/// of the unit's creator.
pub open spec fn unit_vouched<KB: KeyBox>(key_box: &KB, u: SignedUnitView) -> bool {
    unit_signed(key_box, u) || unit_verdict(key_box, u, true)
}

/// The property of a stored unit that `key_box` vouches for its signature.
pub open spec fn is_vouched<KB: KeyBox>(key_box: &KB) -> spec_fn(HashedUnitView) -> bool {
    |u: HashedUnitView| unit_vouched(key_box, u.unit)
}

/// The key box vouches for the signature of every unit in the member's store.
pub open spec fn all_vouched<KB: KeyBox>(m: MemberState, key_box: &KB) -> bool {
    all_units(m.store, is_vouched(key_box))
}

/// The key box vouches for the signature of every unit of the list.
pub open spec fn units_vouched<KB: KeyBox>(key_box: &KB, us: Seq<HashedUnitView>) -> bool {
    forall|i: int| 0 <= i < us.len() ==> unit_vouched(key_box, (#[trigger] us[i]).unit)
}

/// The member with one more action in its outbox.
pub open spec fn with_action(m: MemberState, a: ActionView) -> MemberState {
    MemberState { outbox: m.outbox.push(a), ..m }
}

/// The member with one more command for the network.
pub open spec fn with_command(m: MemberState, c: NetworkCommandView) -> MemberState {
    with_action(m, ActionView::Network(c))
}

/// The member with one more notification for consensus.
pub open spec fn with_notification(m: MemberState, n: NotificationInView) -> MemberState {
    with_action(m, ActionView::Consensus(n))
}

/// The member with one more scheduled task.
pub open spec fn with_task(m: MemberState, task: Task, time: u64) -> MemberState {
    MemberState { requests: m.requests.push(ScheduledTask { task, scheduled_time: time }), ..m }
}

/// The signed units of a list of stored units.
pub open spec fn plain_units(us: Seq<HashedUnitView>) -> Seq<SignedUnitView> {
    Seq::new(us.len(), |i: int| us[i].unit)
}

/// The light forms of a list of stored units.
pub open spec fn light_units(us: Seq<HashedUnitView>) -> Seq<UnitView> {
    Seq::new(us.len(), |i: int| spec_unit_of(us[i].unit.signable.inner, us[i].hash))
}

/// The last units of a list, as many as an alert may carry.
pub open spec fn newest_units(us: Seq<HashedUnitView>) -> Seq<HashedUnitView> {
    if us.len() > MAX_UNITS_ALERT {
        us.subrange(us.len() - MAX_UNITS_ALERT, us.len() as int)
    } else {
        us
    }
}

/// The alert that the member of `config` raises on `forker`.
pub open spec fn spec_form_alert(
    config: Config,
    forker: NodeIndex,
    proof: ForkProofView,
    units: Seq<HashedUnitView>,
) -> AlertView {
    AlertView { sender: config.node_id, forker, proof, legit_units: plain_units(units) }
}

/// The member after it found `forker` forking: the forker is marked, and an
/// alert with the proof and the newest of the forker's units in range is
/// broadcast reliably.
pub open spec fn spec_new_forker(m: MemberState, forker: NodeIndex, proof: ForkProofView)
    -> MemberState {
    let units = newest_units(spec_alerted_units(m.store, forker));
    let alert = spec_form_alert(m.config, forker, proof, units);
    with_command(
        MemberState { store: spec_mark_forker(m.store, forker), ..m },
        NetworkCommandView::ReliableBroadcast(
            enc_message(ConsensusMessageView::ForkAlert(alert)),
        ),
    )
}

/// The member after a valid unit came from the network. A unit that forks a
/// stored one is dropped, and its creator is marked unless that was done
/// before. Another unit is stored when its round is within the margin, and
/// dropped when it is beyond.
pub open spec fn spec_add_unless_fork(m: MemberState, u: HashedUnitView) -> MemberState {
    let creator = u.unit.signable.inner.creator;
    match spec_new_fork(m.store, u) {
        Some(sv) => if !m.store.is_forker[creator as int] {
            spec_new_forker(m, creator, ForkProofView { u1: u.unit, u2: sv.unit })
        } else {
            m
        },
        None => if u.unit.signable.inner.round <= m.store.round_in_progress + ROUNDS_MARGIN {
            MemberState { store: spec_add_unit(m.store, u, false), ..m }
        } else {
            m
        },
    }
}

/// The member after a unit was received: one from an alert is stored as it
/// is; another is stored, unless it forks, when it is valid.
pub open spec fn spec_unit_received(m: MemberState, u: HashedUnitView, alert: bool)
    -> MemberState {
    if alert {
        MemberState { store: spec_add_unit(m.store, u, true), ..m }
    } else if unit_valid(u.unit.signable, m.config) {
        spec_add_unless_fork(m, u)
    } else {
        m
    }
}

/// The member after the buffered units were handed to consensus: the buffer
/// is empty, and where it held units, one notification carries them all.
pub open spec fn spec_units_moved(m: MemberState) -> MemberState {
    let drained = MemberState { store: spec_drained(m.store), ..m };
    if m.store.legit_buffer.len() > 0 {
        with_notification(
            drained,
            NotificationInView::NewUnits(light_units(m.store.legit_buffer)),
        )
    } else {
        drained
    }
}

/// The member after a peer asked for the unit at `coord`: where the unit is
/// stored, it is sent to that peer.
pub open spec fn spec_request_coord(m: MemberState, peer: Seq<u8>, coord: UnitCoord)
    -> MemberState {
    if m.store.by_coord.contains_key(coord) {
        with_command(
            m,
            NetworkCommandView::SendToPeer(
                enc_message(ConsensusMessageView::ResponseCoord(m.store.by_coord[coord].unit)),
                peer,
            ),
        )
    } else {
        m
    }
}

/// Every hash of the list names a stored unit.
pub open spec fn all_stored(store: StoreState, hashes: Seq<HashValue>) -> bool {
    forall|i: int| 0 <= i < hashes.len() ==> store.by_hash.contains_key(#[trigger] hashes[i])
}

/// The stored units that the hashes name, in the order of the hashes.
pub open spec fn units_of(store: StoreState, hashes: Seq<HashValue>) -> Seq<SignedUnitView> {
    Seq::new(hashes.len(), |i: int| store.by_hash[hashes[i]].unit)
}

/// The member after a peer asked for the parents of the unit with the hash
/// `u_hash`: where the parents are known and stored, they are sent to that peer.
pub open spec fn spec_request_parents(m: MemberState, peer: Seq<u8>, u_hash: HashValue)
    -> MemberState {
    if m.store.parents.contains_key(u_hash) && all_stored(m.store, m.store.parents[u_hash]) {
        with_command(
            m,
            NetworkCommandView::SendToPeer(
                enc_message(
                    ConsensusMessageView::ResponseParents(
                        u_hash,
                        units_of(m.store, m.store.parents[u_hash]),
                    ),
                ),
                peer,
            ),
        )
    } else {
        m
    }
}

/// The data of the stored units that the hashes name, in the order of the hashes.
pub open spec fn batch_data(store: StoreState, batch: Seq<HashValue>) -> Seq<Seq<u8>> {
    Seq::new(batch.len(), |i: int| store.by_hash[batch[i]].unit.signable.data)
}

/// The member after consensus ordered a batch: the data of its units goes to the sink.
pub open spec fn spec_ordered_batch(m: MemberState, batch: Seq<HashValue>) -> MemberState {
    with_action(m, ActionView::OrderedBatch(batch_data(m.store, batch)))
}

/// A time `delay` after `now`, as far as the clock can count.
pub open spec fn spec_later(now: u64, delay: u64) -> u64 {
    if now + delay > u64::MAX {
        u64::MAX
    } else {
        (now + delay) as u64
    }
}

/// Twice the delay, as far as the clock can count.
pub open spec fn spec_doubled(delay: u64) -> u64 {
    if 2 * delay > u64::MAX {
        u64::MAX
    } else {
        (2 * delay) as u64
    }
}

/// The member after a request for `coord` came due: where the unit is still
/// missing, a peer is asked and the request is scheduled again.
pub open spec fn spec_coord_request(m: MemberState, coord: UnitCoord, now: u64) -> MemberState {
    if m.store.by_coord.contains_key(coord) {
        m
    } else {
        with_task(
            with_command(
                m,
                NetworkCommandView::SendToRandPeer(
                    enc_message(ConsensusMessageView::RequestCoord(coord)),
                ),
            ),
            Task::CoordRequest(coord),
            spec_later(now, FETCH_INTERVAL),
        )
    }
}

/// The member after a request for the parents of `u_hash` came due: where
/// they are still unknown, a peer is asked and the request is scheduled again.
pub open spec fn spec_parents_request(m: MemberState, u_hash: HashValue, now: u64)
    -> MemberState {
    if m.store.parents.contains_key(u_hash) {
        m
    } else {
        with_task(
            with_command(
                m,
                NetworkCommandView::SendToRandPeer(
                    enc_message(ConsensusMessageView::RequestParents(u_hash)),
                ),
            ),
            Task::ParentsRequest(u_hash),
            spec_later(now, FETCH_INTERVAL),
        )
    }
}

/// The member after the multicast of the stored unit `hash` came due: the
/// unit is sent to everyone, and the next multicast is scheduled after
/// `delay`, with twice the delay.
pub open spec fn spec_unit_multicast(m: MemberState, hash: HashValue, delay: u64, now: u64)
    -> MemberState {
    with_task(
        with_command(
            m,
            NetworkCommandView::SendToAll(
                enc_message(ConsensusMessageView::NewUnit(m.store.by_hash[hash].unit)),
            ),
        ),
        Task::UnitMulticast(hash, spec_doubled(delay)),
        spec_later(now, delay),
    )
}

/// The member after one task that came due was carried out. A multicast of
/// a unit that is no longer stored is given up.
pub open spec fn spec_dispatch(m: MemberState, task: Task, now: u64) -> MemberState {
    match task {
        Task::CoordRequest(coord) => spec_coord_request(m, coord, now),
        Task::ParentsRequest(u_hash) => spec_parents_request(m, u_hash, now),
        Task::UnitMulticast(hash, delay) => if m.store.by_hash.contains_key(hash) {
            spec_unit_multicast(m, hash, delay, now)
        } else {
            m
        },
    }
}

/// The member after the tasks of `due` were carried out, one after the other.
pub open spec fn spec_dispatch_all(m: MemberState, due: Seq<ScheduledTask>, now: u64)
    -> MemberState
    decreases due.len(),
{
    if due.len() == 0 {
        m
    } else {
        spec_dispatch(spec_dispatch_all(m, due.drop_last(), now), due.last().task, now)
    }
}

/// The member after every task that is due by `now` was taken from the queue
/// and carried out, in the order in which they were due.
pub open spec fn spec_trigger(m: MemberState, now: u64) -> MemberState {
    spec_dispatch_all(
        MemberState { requests: spec_not_due(m.requests, now), ..m },
        spec_due(m.requests, now),
        now,
    )
}

/// The member after a request was scheduled at `now` for each of `coords`
/// that is not stored.
pub open spec fn spec_queue_missing(m: MemberState, coords: Seq<UnitCoord>, now: u64)
    -> MemberState
    decreases coords.len(),
{
    if coords.len() == 0 {
        m
    } else {
        let before = spec_queue_missing(m, coords.drop_last(), now);
        if before.store.by_coord.contains_key(coords.last()) {
            before
        } else {
            with_task(before, Task::CoordRequest(coords.last()), now)
        }
    }
}

/// The member after consensus reported missing units: requests are
/// scheduled for those that are not stored, and what is due is carried out.
pub open spec fn spec_missing_coords(m: MemberState, coords: Seq<UnitCoord>, now: u64)
    -> MemberState {
    spec_trigger(spec_queue_missing(m, coords, now), now)
}

/// The member after consensus reported a wrong control hash: where the
/// parents are known they are handed over, else they are asked for.
pub open spec fn spec_wrong_control_hash(m: MemberState, u_hash: HashValue, now: u64)
    -> MemberState {
    if m.store.parents.contains_key(u_hash) {
        with_notification(m, NotificationInView::UnitParents(u_hash, m.store.parents[u_hash]))
    } else {
        spec_trigger(with_task(m, Task::ParentsRequest(u_hash), now), now)
    }
}

/// The member after the local authority's new unit was signed: the unit
/// is stored, and its first multicast is scheduled at `now`.
pub open spec fn spec_created(m: MemberState, u: HashedUnitView, now: u64) -> MemberState {
    with_task(
        MemberState { store: spec_add_unit(m.store, u, false), ..m },
        Task::UnitMulticast(u.hash, INITIAL_MULTICAST_DELAY),
        now,
    )
}

/// The member after consensus added the unit `hash` to the DAG with the given parents.
pub open spec fn spec_added_to_dag(m: MemberState, hash: HashValue, parents: Seq<HashValue>)
    -> MemberState {
    MemberState { store: StoreState { parents: m.store.parents.insert(hash, parents), ..m.store }, ..m }
}

/// The unit that the member of `config` makes of a pre-unit and data.
pub open spec fn spec_full_unit(inner: PreUnitView, data: Seq<u8>, config: Config)
    -> FullUnitView {
    FullUnitView { inner, data, session_id: config.session_id }
}

pub struct CheckedAlertView {
    pub sender: NodeIndex,
    pub forker: NodeIndex,
    pub u1: HashedUnitView,
    pub u2: HashedUnitView,
    pub legit_units: Seq<HashedUnitView>,
}

/// The two units prove that `forker` forked: both are valid units of the
/// forker, of one round, with different hashes.
pub open spec fn fork_proof_valid(
    forker: NodeIndex,
    u1: HashedUnitView,
    u2: HashedUnitView,
    config: Config,
) -> bool {
    &&& unit_valid(u1.unit.signable, config)
    &&& unit_valid(u2.unit.signable, config)
    &&& u1.unit.signable.inner.creator == forker
    &&& u2.unit.signable.inner.creator == forker
    &&& u1.unit.signable.inner.round == u2.unit.signable.inner.round
    &&& u1.hash != u2.hash
}

/// No two units of the list are of the same round.
pub open spec fn rounds_distinct(us: Seq<HashedUnitView>) -> bool {
    forall|i: int, j: int|
        0 <= i < j < us.len() ==> (#[trigger] us[i]).unit.signable.inner.round != (
        #[trigger] us[j]).unit.signable.inner.round
}

/// The units may stand in an alert on `forker`: they are few enough, each is
/// a valid unit of the forker, and no two are of the same round.
pub open spec fn alerted_units_valid(forker: NodeIndex, us: Seq<HashedUnitView>, config: Config)
    -> bool {
    &&& us.len() <= MAX_UNITS_ALERT
    &&& forall|i: int|
        0 <= i < us.len() ==> (#[trigger] us[i]).unit.signable.inner.creator == forker
            && unit_valid(us[i].unit.signable, config)
    &&& rounds_distinct(us)
}

/// The alert is to be accepted.
pub open spec fn alert_valid(a: CheckedAlertView, config: Config) -> bool {
    &&& a.forker < config.n_members
    &&& a.sender < config.n_members
    &&& fork_proof_valid(a.forker, a.u1, a.u2, config)
    &&& alerted_units_valid(a.forker, a.legit_units, config)
}

/// An alert that is accepted carries no more units than an alert may, and no
/// two of them are of the same round.
pub proof fn law_accepted_alert_is_bounded(a: CheckedAlertView, config: Config)
    requires
        alert_valid(a, config),
    ensures
        a.legit_units.len() <= MAX_UNITS_ALERT,
        forall|i: int, j: int|
            0 <= i < j < a.legit_units.len() ==> (
            #[trigger] a.legit_units[i]).unit.signable.inner.round != (
            #[trigger] a.legit_units[j]).unit.signable.inner.round,
{
}

/// The member after the units of an alert were stored, one after the other.
pub open spec fn spec_add_alerted(m: MemberState, us: Seq<HashedUnitView>) -> MemberState
    decreases us.len(),
{
    if us.len() == 0 {
        m
    } else {
        let before = spec_add_alerted(m, us.drop_last());
        MemberState { store: spec_add_unit(before.store, us.last(), true), ..before }
    }
}

/// The member after an alert arrived whose units passed the key box. An
/// alert that is not valid changes nothing. For a valid one the forker is
/// marked and an alert of the member's own is broadcast, unless the forker
/// was known; then the alert's units are stored.
pub open spec fn spec_alert(m: MemberState, a: CheckedAlertView) -> MemberState {
    if alert_valid(a, m.config) {
        let marked = if m.store.is_forker[a.forker as int] {
            m
        } else {
            spec_new_forker(m, a.forker, ForkProofView { u1: a.u1.unit, u2: a.u2.unit })
        };
        spec_add_alerted(marked, a.legit_units)
    } else {
        m
    }
}

/// The positions of the `true` entries, in increasing order.
pub open spec fn true_indices(mask: Seq<bool>) -> Seq<NodeIndex>
    decreases mask.len(),
{
    if mask.len() == 0 {
        Seq::empty()
    } else {
        let before = true_indices(mask.drop_last());
        if mask.last() {
            before.push((mask.len() - 1) as usize)
        } else {
            before
        }
    }
}

/// The hashes of a list of stored units.
pub open spec fn unit_hashes(us: Seq<HashedUnitView>) -> Seq<HashValue> {
    Seq::new(us.len(), |i: int| us[i].hash)
}

/// The map of parents that a list of units makes for `n` authorities: the
/// hash of each unit at the position of its creator.
pub open spec fn spec_parent_map(n: nat, us: Seq<HashedUnitView>) -> Seq<Option<HashValue>>
    decreases us.len(),
{
    if us.len() == 0 {
        Seq::new(n, |i: int| None::<HashValue>)
    } else {
        spec_parent_map(n, us.drop_last()).update(
            us.last().unit.signable.inner.creator as int,
            Some(us.last().hash),
        )
    }
}

/// The member after the units of an answer were taken as the parents of a
/// unit of round `u_round` whose parents are by `ids`, and whether all of
/// them were taken. Each must be valid, of the round before, and by the
/// creator that the unit names at its place; it is then stored like any unit
/// from the network. The first that is not ends the taking.
pub open spec fn spec_accept_parents(
    m: MemberState,
    u_round: Round,
    ids: Seq<NodeIndex>,
    us: Seq<HashedUnitView>,
) -> (MemberState, bool)
    decreases us.len(),
{
    if us.len() == 0 {
        (m, true)
    } else {
        let (before, ok) = spec_accept_parents(m, u_round, ids, us.drop_last());
        let su = us.last();
        if ok && unit_valid(su.unit.signable, before.config) && su.unit.signable.inner.round + 1
            == u_round && su.unit.signable.inner.creator == ids[us.len() - 1] {
            (spec_add_unless_fork(before, su), true)
        } else {
            (before, false)
        }
    }
}

/// The member after the parents of `u_hash` were found to be `p_hashes`:
/// they are recorded and handed to consensus.
pub open spec fn spec_parents_known(m: MemberState, u_hash: HashValue, p_hashes: Seq<HashValue>)
    -> MemberState {
    with_notification(
        spec_added_to_dag(m, u_hash, p_hashes),
        NotificationInView::UnitParents(u_hash, p_hashes),
    )
}

/// The member after an answer with the parents of `u_hash` arrived, where
/// `matches` tells whether the digest of the parents is the unit's control
/// hash. An answer for an unknown unit, or with another number of units than
/// the unit has parents, changes nothing.
pub open spec fn spec_parents_response(
    m: MemberState,
    u_hash: HashValue,
    us: Seq<HashedUnitView>,
    matches: bool,
) -> MemberState {
    if !m.store.by_hash.contains_key(u_hash) {
        m
    } else {
        let u = m.store.by_hash[u_hash].unit.signable.inner;
        let ids = true_indices(u.control_hash.parents);
        if ids.len() != us.len() {
            m
        } else {
            let (after, ok) = spec_accept_parents(m, u.round, ids, us);
            if ok && matches {
                spec_parents_known(after, u_hash, unit_hashes(us))
            } else {
                after
            }
        }
    }
}

/// Where the taking of parents has ended early, further units change nothing.
pub proof fn lemma_accept_parents_stuck(
    m: MemberState,
    u_round: Round,
    ids: Seq<NodeIndex>,
    us: Seq<HashedUnitView>,
    k: int,
)
    requires
        0 <= k <= us.len(),
        !spec_accept_parents(m, u_round, ids, us.take(k)).1,
    ensures
        spec_accept_parents(m, u_round, ids, us) == spec_accept_parents(m, u_round, ids, us.take(k)),
    decreases us.len(),
{
    if k < us.len() {
        assert(us.drop_last().take(k) =~= us.take(k));
        lemma_accept_parents_stuck(m, u_round, ids, us.drop_last(), k);
    } else {
        assert(us.take(k) =~= us);
    }
}

/// The unit passed the key box, and `checked` is the unit with the hash that
/// was taken of it.
pub open spec fn unit_checked<H: Hasher, KB: KeyBox>(
    key_box: &KB,
    hashing: &H,
    u: SignedUnitView,
    checked: HashedUnitView,
) -> bool {
    &&& checked.unit == u
    &&& unit_verdict(key_box, u, true)
    &&& unit_digest(hashing, u.signable, checked.hash)
}

/// Every unit of the list passed the key box, and `checked` holds the units
/// with the hashes that were taken of them.
pub open spec fn units_checked<H: Hasher, KB: KeyBox>(
    key_box: &KB,
    hashing: &H,
    us: Seq<SignedUnitView>,
    checked: Seq<HashedUnitView>,
) -> bool {
    &&& checked.len() == us.len()
    &&& forall|i: int|
        0 <= i < us.len() ==> unit_checked(key_box, hashing, us[i], #[trigger] checked[i])
}

/// The key box rejected the signature of a unit of the list.
pub open spec fn some_unit_rejected<KB: KeyBox>(key_box: &KB, us: Seq<SignedUnitView>) -> bool {
    exists|i: int| 0 <= i < us.len() && unit_verdict(key_box, #[trigger] us[i], false)
}

/// Every unit of the alert passed the key box, and `checked` is the alert
/// with the hashes that were taken of its units.
pub open spec fn alert_checked<H: Hasher, KB: KeyBox>(
    key_box: &KB,
    hashing: &H,
    a: AlertView,
    checked: CheckedAlertView,
) -> bool {
    &&& checked.sender == a.sender
    &&& checked.forker == a.forker
    &&& unit_checked(key_box, hashing, a.proof.u1, checked.u1)
    &&& unit_checked(key_box, hashing, a.proof.u2, checked.u2)
    &&& units_checked(key_box, hashing, a.legit_units, checked.legit_units)
}

/// The key box rejected the signature of a unit of the alert.
pub open spec fn alert_rejected<KB: KeyBox>(key_box: &KB, a: AlertView) -> bool {
    ||| unit_verdict(key_box, a.proof.u1, false)
    ||| unit_verdict(key_box, a.proof.u2, false)
    ||| some_unit_rejected(key_box, a.legit_units)
}

/// `created` is `unit` with the signature that the key box made for it and
/// the hash that was taken of it.
pub open spec fn unit_created<H: Hasher, KB: KeyBox>(
    key_box: &KB,
    hashing: &H,
    unit: FullUnitView,
    created: HashedUnitView,
) -> bool {
    &&& created.unit.signable == unit
    &&& unit_signed(key_box, created.unit)
    &&& unit_digest(hashing, unit, created.hash)
}

/// What a unit from the network leads to: nothing, where the key box
/// rejects its signature; else what its reception leads to, with the hash
/// that was taken of it.
pub open spec fn unit_outcome<H: Hasher, KB: KeyBox>(
    before: MemberState,
    key_box: &KB,
    hashing: &H,
    u: SignedUnitView,
    after: MemberState,
) -> bool {
    ||| unit_verdict(key_box, u, false) && after == before
    ||| exists|checked: HashedUnitView| #[trigger]
        unit_checked(key_box, hashing, u, checked) && after == spec_unit_received(
            before,
            checked,
            false,
        )
}

/// What a message from the peer `peer` leads to.
pub open spec fn message_outcome<H: Hasher, KB: KeyBox>(
    before: MemberState,
    key_box: &KB,
    hashing: &H,
    message: ConsensusMessageView,
    peer: Seq<u8>,
    after: MemberState,
) -> bool {
    match message {
        ConsensusMessageView::NewUnit(u) => unit_outcome(before, key_box, hashing, u, after),
        ConsensusMessageView::RequestCoord(coord) => after == spec_request_coord(
            before,
            peer,
            coord,
        ),
        ConsensusMessageView::ResponseCoord(u) => unit_outcome(before, key_box, hashing, u, after),
        ConsensusMessageView::RequestParents(u_hash) => after == spec_request_parents(
            before,
            peer,
            u_hash,
        ),
        ConsensusMessageView::ResponseParents(u_hash, us) => parents_outcome(
            before,
            key_box,
            hashing,
            u_hash,
            us,
            after,
        ),
        ConsensusMessageView::ForkAlert(a) => alert_outcome(before, key_box, hashing, a, after),
    }
}

/// All the units of the answer were taken as the parents of `u_hash`.
pub open spec fn spec_parents_complete(m: MemberState, u_hash: HashValue, us: Seq<HashedUnitView>)
    -> bool {
    let u = m.store.by_hash[u_hash].unit.signable.inner;
    let ids = true_indices(u.control_hash.parents);
    &&& m.store.by_hash.contains_key(u_hash)
    &&& ids.len() == us.len()
    &&& spec_accept_parents(m, u.round, ids, us).1
}

/// What an answer with the parents of `u_hash` leads to, its units having
/// passed the key box. Where all of them were taken as parents, the digest
/// of the map of their hashes is taken and held against the control hash.
pub open spec fn parents_response_outcome<H: Hasher>(
    before: MemberState,
    hashing: &H,
    u_hash: HashValue,
    us: Seq<HashedUnitView>,
    after: MemberState,
) -> bool {
    if spec_parents_complete(before, u_hash, us) {
        exists|digest: HashValue| #[trigger]
            digest_is(
                hashing,
                enc_parent_map(spec_parent_map(before.config.n_members as nat, us)),
                digest,
            ) && after == spec_parents_response(
                before,
                u_hash,
                us,
                digest == before.store.by_hash[u_hash].unit.signable.inner.control_hash.hash,
            )
    } else {
        after == spec_parents_response(before, u_hash, us, false)
    }
}

/// What an answer with the parents of `u_hash` leads to: nothing, where
/// the key box rejects a signature; else what the answer leads to with the
/// hashes that were taken of its units.
pub open spec fn parents_outcome<H: Hasher, KB: KeyBox>(
    before: MemberState,
    key_box: &KB,
    hashing: &H,
    u_hash: HashValue,
    us: Seq<SignedUnitView>,
    after: MemberState,
) -> bool {
    ||| some_unit_rejected(key_box, us) && after == before
    ||| exists|checked: Seq<HashedUnitView>| #[trigger]
        units_checked(key_box, hashing, us, checked) && parents_response_outcome(
            before,
            hashing,
            u_hash,
            checked,
            after,
        )
}

/// What an alert from the network leads to: nothing, where the key box
/// rejects a signature; else what the alert leads to with the hashes that
/// were taken of its units.
pub open spec fn alert_outcome<H: Hasher, KB: KeyBox>(
    before: MemberState,
    key_box: &KB,
    hashing: &H,
    a: AlertView,
    after: MemberState,
) -> bool {
    ||| alert_rejected(key_box, a) && after == before
    ||| exists|checked: CheckedAlertView| #[trigger]
        alert_checked(key_box, hashing, a, checked) && after == spec_alert(before, checked)
}

/// What a notification from consensus leads to at the time `now`, where
/// `data` is the data for a unit that the local authority created.
pub open spec fn notification_outcome<H: Hasher, KB: KeyBox>(
    before: MemberState,
    key_box: &KB,
    hashing: &H,
    notification: NotificationOut,
    data: Seq<u8>,
    now: u64,
    after: MemberState,
) -> bool {
    match notification {
        NotificationOut::CreatedPreUnit(pu) => created_outcome(
            before,
            key_box,
            hashing,
            spec_full_unit(pu@, data, before.config),
            now,
            after,
        ),
        NotificationOut::MissingUnits(coords) => after == spec_missing_coords(
            before,
            coords@,
            now,
        ),
        NotificationOut::WrongControlHash(u_hash) => after == spec_wrong_control_hash(
            before,
            u_hash,
            now,
        ),
        NotificationOut::AddedToDag(hash, p_hashes) => after == spec_added_to_dag(
            before,
            hash,
            p_hashes@,
        ),
    }
}

/// What a unit that the local authority created leads to: the unit is
/// stored with the signature that the key box made and the hash that was
/// taken of it, and its first multicast is scheduled.
pub open spec fn created_outcome<H: Hasher, KB: KeyBox>(
    before: MemberState,
    key_box: &KB,
    hashing: &H,
    unit: FullUnitView,
    now: u64,
    after: MemberState,
) -> bool {
    exists|created: HashedUnitView| #[trigger]
        unit_created(key_box, hashing, unit, created) && after == spec_created(
            before,
            created,
            now,
        )
}

/// The unit that consensus created can be stored: its round and its creator are in range.
pub open spec fn notification_fits(notification: NotificationOut, config: Config) -> bool {
    match notification {
        NotificationOut::CreatedPreUnit(pu) => pu@.round <= MAX_ROUND && pu@.creator
            < config.n_members,
        _ => true,
    }
}

/// Every unit in the member's store is valid in the session.
pub open spec fn all_valid(m: MemberState) -> bool {
    all_units(m.store, is_valid(m.config))
}

/// Every stored unit is of the session: by one of its authorities, at a
/// round within the limit, with the session's id.
pub proof fn law_stored_units_are_of_session(m: MemberState, h: HashValue)
    requires
        member_inv(m),
        m.store.by_hash.contains_key(h),
    ensures
        m.store.by_hash[h].unit.signable.inner.creator < m.config.n_members,
        m.store.by_hash[h].unit.signable.inner.round <= MAX_ROUND,
        m.store.by_hash[h].unit.signable.session_id == m.config.session_id,
{
    assert(in_session(m.config)(m.store.by_hash[h]));
}

/// A valid unit from the network that forks nothing and is not yet stored is
/// stored when its round is at most the margin beyond the round in
/// progress, the margin itself included, and dropped when it is beyond.
pub proof fn law_margin_is_inclusive(m: MemberState, u: HashedUnitView)
    requires
        member_inv(m),
        unit_valid(u.unit.signable, m.config),
        spec_new_fork(m.store, u) is None,
        !m.store.by_hash.contains_key(u.hash),
    ensures
        u.unit.signable.inner.round <= m.store.round_in_progress + ROUNDS_MARGIN
            ==> spec_add_unless_fork(m, u).store.by_hash.contains_key(u.hash),
        u.unit.signable.inner.round > m.store.round_in_progress + ROUNDS_MARGIN
            ==> spec_add_unless_fork(m, u) == m,
{
    law_added_unit_is_stored(m.store, u, false);
}

/// Finding a forker adds no unit to the store.
pub proof fn lemma_new_forker_keeps(
    m: MemberState,
    forker: NodeIndex,
    proof: ForkProofView,
    p: spec_fn(HashedUnitView) -> bool,
)
    requires
        all_units(m.store, p),
    ensures
        all_units(spec_new_forker(m, forker, proof).store, p),
        spec_new_forker(m, forker, proof).config == m.config,
{
    lemma_mark_forker_all(m.store, forker, p);
}

/// Receiving a unit with the property `p` leaves a store whose units all have it so.
pub proof fn lemma_add_unless_fork_keeps(
    m: MemberState,
    u: HashedUnitView,
    p: spec_fn(HashedUnitView) -> bool,
)
    requires
        all_units(m.store, p),
        p(u),
    ensures
        all_units(spec_add_unless_fork(m, u).store, p),
        spec_add_unless_fork(m, u).config == m.config,
{
    let creator = u.unit.signable.inner.creator;
    match spec_new_fork(m.store, u) {
        Some(sv) => {
            lemma_new_forker_keeps(m, creator, ForkProofView { u1: u.unit, u2: sv.unit }, p);
        },
        None => {
            lemma_add_unit_all(m.store, u, false, p);
        },
    }
}

/// Storing the units of an alert, each with the property `p`, leaves a
/// store whose units all have it so.
pub proof fn lemma_add_alerted_keeps(
    m: MemberState,
    us: Seq<HashedUnitView>,
    p: spec_fn(HashedUnitView) -> bool,
)
    requires
        all_units(m.store, p),
        forall|i: int| 0 <= i < us.len() ==> p(#[trigger] us[i]),
    ensures
        all_units(spec_add_alerted(m, us).store, p),
        spec_add_alerted(m, us).config == m.config,
    decreases us.len(),
{
    if us.len() > 0 {
        let front = us.drop_last();
        assert forall|i: int| 0 <= i < front.len() implies p(#[trigger] front[i]) by {
            assert(front[i] == us[i]);
        }
        lemma_add_alerted_keeps(m, front, p);
        lemma_add_unit_all(spec_add_alerted(m, front).store, us.last(), true, p);
    }
}

/// Taking the parents of an answer leaves a store whose units are all valid so.
pub proof fn lemma_accept_parents_keeps_valid(
    m: MemberState,
    u_round: Round,
    ids: Seq<NodeIndex>,
    us: Seq<HashedUnitView>,
)
    requires
        all_valid(m),
    ensures
        all_valid(spec_accept_parents(m, u_round, ids, us).0),
        spec_accept_parents(m, u_round, ids, us).0.config == m.config,
    decreases us.len(),
{
    if us.len() > 0 {
        lemma_accept_parents_keeps_valid(m, u_round, ids, us.drop_last());
        let (before, ok) = spec_accept_parents(m, u_round, ids, us.drop_last());
        if unit_valid(us.last().unit.signable, before.config) {
            lemma_add_unless_fork_keeps(before, us.last(), is_valid(m.config));
        }
    }
}

/// Units from the network change the member only where the key box accepted
/// their signatures: a single unit its own, an answer with parents and an
/// alert those of all their units.
pub proof fn law_only_accepted_units_are_received<H: Hasher, KB: KeyBox>(
    before: MemberState,
    key_box: &KB,
    hashing: &H,
    message: ConsensusMessageView,
    peer: Seq<u8>,
    after: MemberState,
)
    requires
        message_outcome(before, key_box, hashing, message, peer, after),
        after != before,
    ensures
        message matches ConsensusMessageView::NewUnit(u) ==> unit_verdict(key_box, u, true),
        message matches ConsensusMessageView::ResponseCoord(u) ==> unit_verdict(key_box, u, true),
        message matches ConsensusMessageView::ResponseParents(_, us) ==> forall|i: int|
            0 <= i < us.len() ==> unit_verdict(key_box, #[trigger] us[i], true),
        message matches ConsensusMessageView::ForkAlert(a) ==> unit_verdict(
            key_box,
            a.proof.u1,
            true,
        ) && unit_verdict(key_box, a.proof.u2, true) && forall|i: int|
            0 <= i < a.legit_units.len() ==> unit_verdict(
                key_box,
                #[trigger] a.legit_units[i],
                true,
            ),
{
    match message {
        ConsensusMessageView::ResponseParents(u_hash, us) => {
            let checked = choose|checked: Seq<HashedUnitView>| #[trigger]
                units_checked(key_box, hashing, us, checked) && parents_response_outcome(
                    before,
                    hashing,
                    u_hash,
                    checked,
                    after,
                );
            assert forall|i: int| 0 <= i < us.len() implies unit_verdict(
                key_box,
                #[trigger] us[i],
                true,
            ) by {
                assert(unit_checked(key_box, hashing, us[i], checked[i]));
            }
        },
        ConsensusMessageView::ForkAlert(a) => {
            let checked = choose|checked: CheckedAlertView| #[trigger]
                alert_checked(key_box, hashing, a, checked) && after == spec_alert(
                    before,
                    checked,
                );
            assert forall|i: int| 0 <= i < a.legit_units.len() implies unit_verdict(
                key_box,
                #[trigger] a.legit_units[i],
                true,
            ) by {
                assert(unit_checked(key_box, hashing, a.legit_units[i], checked.legit_units[i]));
            }
        },
        _ => {},
    }
}

/// No message from the network brings a unit into the store that is not
/// valid: where every stored unit is valid before a message is handled,
/// every stored unit is valid after.
pub proof fn law_messages_keep_units_valid<H: Hasher, KB: KeyBox>(
    before: MemberState,
    key_box: &KB,
    hashing: &H,
    message: ConsensusMessageView,
    peer: Seq<u8>,
    after: MemberState,
)
    requires
        all_valid(before),
        message_outcome(before, key_box, hashing, message, peer, after),
    ensures
        all_valid(after),
        after.config == before.config,
{
    let p = is_valid(before.config);
    match message {
        ConsensusMessageView::NewUnit(u) => {
            lemma_unit_outcome_keeps_valid(before, key_box, hashing, u, after);
        },
        ConsensusMessageView::RequestCoord(coord) => {},
        ConsensusMessageView::ResponseCoord(u) => {
            lemma_unit_outcome_keeps_valid(before, key_box, hashing, u, after);
        },
        ConsensusMessageView::RequestParents(u_hash) => {},
        ConsensusMessageView::ResponseParents(u_hash, us) => {
            if after != before {
                let checked = choose|checked: Seq<HashedUnitView>| #[trigger]
                    units_checked(key_box, hashing, us, checked) && parents_response_outcome(
                        before,
                        hashing,
                        u_hash,
                        checked,
                        after,
                    );
                if before.store.by_hash.contains_key(u_hash) {
                    let u = before.store.by_hash[u_hash].unit.signable.inner;
                    lemma_accept_parents_keeps_valid(
                        before,
                        u.round,
                        true_indices(u.control_hash.parents),
                        checked,
                    );
                }
            }
        },
        ConsensusMessageView::ForkAlert(a) => {
            if after != before {
                let checked = choose|checked: CheckedAlertView| #[trigger]
                    alert_checked(key_box, hashing, a, checked) && after == spec_alert(
                        before,
                        checked,
                    );
                if alert_valid(checked, before.config) {
                    let proof = ForkProofView { u1: checked.u1.unit, u2: checked.u2.unit };
                    lemma_new_forker_keeps(before, checked.forker, proof, p);
                    let marked = if before.store.is_forker[checked.forker as int] {
                        before
                    } else {
                        spec_new_forker(before, checked.forker, proof)
                    };
                    assert forall|i: int| 0 <= i < checked.legit_units.len() implies p(
                        #[trigger] checked.legit_units[i],
                    ) by {}
                    lemma_add_alerted_keeps(marked, checked.legit_units, p);
                }
            }
        },
    }
}

proof fn lemma_unit_outcome_keeps_valid<H: Hasher, KB: KeyBox>(
    before: MemberState,
    key_box: &KB,
    hashing: &H,
    u: SignedUnitView,
    after: MemberState,
)
    requires
        all_valid(before),
        unit_outcome(before, key_box, hashing, u, after),
    ensures
        all_valid(after),
        after.config == before.config,
{
    if after != before {
        let checked = choose|checked: HashedUnitView| #[trigger]
            unit_checked(key_box, hashing, u, checked) && after == spec_unit_received(
                before,
                checked,
                false,
            );
        if unit_valid(u.signable, before.config) {
            lemma_add_unless_fork_keeps(before, checked, is_valid(before.config));
        }
    }
}

/// A unit that the local authority created and that is valid leaves every
/// stored unit valid.
pub proof fn law_created_unit_keeps_units_valid(m: MemberState, u: HashedUnitView, now: u64)
    requires
        all_valid(m),
        unit_valid(u.unit.signable, m.config),
    ensures
        all_valid(spec_created(m, u, now)),
{
    lemma_add_unit_all(m.store, u, false, is_valid(m.config));
}

/// Carrying out tasks changes neither the store nor the settings.
pub proof fn law_tasks_leave_store(m: MemberState, due: Seq<ScheduledTask>, now: u64)
    ensures
        spec_dispatch_all(m, due, now).store == m.store,
        spec_dispatch_all(m, due, now).config == m.config,
    decreases due.len(),
{
    if due.len() > 0 {
        law_tasks_leave_store(m, due.drop_last(), now);
    }
}

/// Scheduling requests for missing units changes neither the store nor the settings.
pub proof fn lemma_queue_missing_leaves_store(m: MemberState, coords: Seq<UnitCoord>, now: u64)
    ensures
        spec_queue_missing(m, coords, now).store == m.store,
        spec_queue_missing(m, coords, now).config == m.config,
    decreases coords.len(),
{
    if coords.len() > 0 {
        lemma_queue_missing_leaves_store(m, coords.drop_last(), now);
    }
}

/// No notification from consensus brings a unit into the store that is not
/// valid, provided that the units which the local authority creates are valid.
pub proof fn law_notifications_keep_units_valid<H: Hasher, KB: KeyBox>(
    before: MemberState,
    key_box: &KB,
    hashing: &H,
    notification: NotificationOut,
    data: Seq<u8>,
    now: u64,
    after: MemberState,
)
    requires
        all_valid(before),
        notification_outcome(before, key_box, hashing, notification, data, now, after),
        notification matches NotificationOut::CreatedPreUnit(pu) ==> unit_valid(
            spec_full_unit(pu@, data, before.config),
            before.config,
        ),
    ensures
        all_valid(after),
        after.config == before.config,
{
    match notification {
        NotificationOut::CreatedPreUnit(pu) => {
            let unit = spec_full_unit(pu@, data, before.config);
            let created = choose|created: HashedUnitView| #[trigger]
                unit_created(key_box, hashing, unit, created) && after == spec_created(
                    before,
                    created,
                    now,
                );
            law_created_unit_keeps_units_valid(before, created, now);
        },
        NotificationOut::MissingUnits(coords) => {
            lemma_queue_missing_leaves_store(before, coords@, now);
            let queued = spec_queue_missing(before, coords@, now);
            law_tasks_leave_store(
                MemberState { requests: spec_not_due(queued.requests, now), ..queued },
                spec_due(queued.requests, now),
                now,
            );
        },
        NotificationOut::WrongControlHash(u_hash) => {
            let queued = with_task(before, Task::ParentsRequest(u_hash), now);
            law_tasks_leave_store(
                MemberState { requests: spec_not_due(queued.requests, now), ..queued },
                spec_due(queued.requests, now),
                now,
            );
        },
        NotificationOut::AddedToDag(hash, p_hashes) => {},
    }
}

/// Where every stored unit is valid, every unit that is handed to consensus is valid.
pub proof fn law_delivered_units_are_valid(m: MemberState)
    requires
        all_valid(m),
    ensures
        forall|i: int|
            0 <= i < m.store.legit_buffer.len() ==> unit_valid(
                (#[trigger] m.store.legit_buffer[i]).unit.signable,
                m.config,
            ),
        all_valid(spec_units_moved(m)),
{
    assert forall|i: int| 0 <= i < m.store.legit_buffer.len() implies unit_valid(
        (#[trigger] m.store.legit_buffer[i]).unit.signable,
        m.config,
    ) by {
        assert(is_valid(m.config)(m.store.legit_buffer[i]));
    }
}

/// Where the key box vouches for every stored unit, it vouches for every
/// unit that is handed to consensus: the unit was signed by the local key,
/// or the key box accepted its signature as that of its creator.
pub proof fn law_delivered_units_are_vouched<KB: KeyBox>(m: MemberState, key_box: &KB)
    requires
        all_vouched(m, key_box),
    ensures
        units_vouched(key_box, m.store.legit_buffer),
        all_vouched(spec_units_moved(m), key_box),
{
    assert forall|i: int| 0 <= i < m.store.legit_buffer.len() implies unit_vouched(
        key_box,
        (#[trigger] m.store.legit_buffer[i]).unit,
    ) by {
        assert(is_vouched(key_box)(m.store.legit_buffer[i]));
    }
}

} // verus!
