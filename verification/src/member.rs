//! The member: the reactor between the network and consensus. Each handler
//! takes one event, changes the store and the task queue, and leaves the
//! commands for the network, the notifications for consensus and the ordered
//! data in the outbox, in the order in which they are to be carried out.
//! What each handler does is said by the functions of `member_model`.

use crate::bft::{Alert, ForkProof};
use crate::member_model::{
    alert_checked, alert_outcome, alert_rejected, alert_valid, alerted_units_valid, all_stored,
    all_vouched, batch_data, created_outcome, fork_proof_valid, in_session, is_vouched,
    lemma_accept_parents_stuck, light_units, member_inv, message_outcome, notification_fits,
    notification_outcome, parents_outcome, parents_response_outcome, parents_valid, plain_units,
    quorum, some_unit_rejected, spec_accept_parents, spec_add_alerted, spec_add_unless_fork,
    spec_added_to_dag, spec_alert, spec_coord_request, spec_created, spec_dispatch_all,
    spec_doubled, spec_form_alert, spec_full_unit, spec_later, spec_missing_coords, spec_new_forker,
    spec_ordered_batch, spec_parent_map, spec_parents_known, spec_parents_request,
    spec_queue_missing, spec_request_coord, spec_request_parents, spec_trigger, spec_unit_multicast,
    spec_unit_received, spec_units_moved, spec_wrong_control_hash, true_indices, unit_checked,
    unit_created, unit_hashes, unit_in_session, unit_outcome, unit_valid, unit_vouched,
    units_checked, units_of, units_vouched, with_command, with_notification, CheckedAlertView,
    MemberState,
};
use crate::messages::{
    parse_message, Action, ActionView, ConsensusMessage, NetworkCommand, NetworkEvent,
    NotificationIn, NotificationOut,
};
use crate::scheduler::{ScheduledTask, Task, TaskQueue, FETCH_INTERVAL, INITIAL_MULTICAST_DELAY};
use crate::signed::Signed;
use crate::store::UnitStore;
use crate::store_model::{
    lemma_add_unit_all, lemma_add_unit_inv, lemma_mark_forker_all, lemma_mark_forker_inv, spec_new,
};
use crate::units::{
    enc_parent_map, lemma_unit_accepted, lemma_unit_signed, unit_verdict, views, ControlHash,
    FullUnit, HashedUnit, PreUnit, SignedUnit, UncheckedSignedUnit, Unit, UnitCoord,
};
use crate::{
    digest_is, threshold, HashValue, Hasher, KeyBox, NodeCount, NodeIndex, Round, MAX_ROUND,
};
use std::collections::HashSet;
use vstd::prelude::*;

verus! {

/// How far beyond the round in progress a unit from the network may lie.
pub const ROUNDS_MARGIN: u64 = 100;

/// The most units that an alert may carry.
pub const MAX_UNITS_ALERT: usize = 200;

/// The settings of a session.
#[derive(Clone, Copy, Debug)]
pub struct Config {
    /// The local authority's index.
    pub node_id: NodeIndex,
    pub session_id: u64,
    pub n_members: NodeCount,
    /// The pause between two units that the local authority creates, in milliseconds.
    pub create_lag: u64,
}

/// An alert whose units all passed the key box, each with its hash.
pub struct CheckedAlert<'a, KB: KeyBox> {
    pub sender: NodeIndex,
    pub forker: NodeIndex,
    pub u1: HashedUnit<'a, KB>,
    pub u2: HashedUnit<'a, KB>,
    pub legit_units: Vec<HashedUnit<'a, KB>>,
}

impl<'a, KB: KeyBox> View for CheckedAlert<'a, KB> {
    type V = CheckedAlertView;

    open spec fn view(&self) -> CheckedAlertView {
        CheckedAlertView {
            sender: self.sender,
            forker: self.forker,
            u1: self.u1@,
            u2: self.u2@,
            legit_units: views(self.legit_units@),
        }
    }
}

/// The member of one session.
pub struct Member<'a, H: Hasher, KB: KeyBox> {
    config: Config,
    hashing: H,
    keybox: &'a KB,
    store: UnitStore<'a, KB>,
    requests: TaskQueue,
    threshold: NodeCount,
    outbox: Vec<Action>,
}

impl<'a, H: Hasher, KB: KeyBox> View for Member<'a, H, KB> {
    type V = MemberState;

    closed spec fn view(&self) -> MemberState {
        MemberState {
            config: self.config,
            store: self.store@,
            requests: self.requests@,
            outbox: views(self.outbox@),
        }
    }
}

fn later(now: u64, delay: u64) -> (time: u64)
    ensures
        time == spec_later(now, delay),
{
    if now > u64::MAX - delay {
        u64::MAX
    } else {
        now + delay
    }
}

fn doubled(delay: u64) -> (twice: u64)
    ensures
        twice == spec_doubled(delay),
{
    if delay > u64::MAX / 2 {
        u64::MAX
    } else {
        2 * delay
    }
}

/// Lists the positions of the `true` entries.
pub fn parent_ids(mask: &Vec<bool>) -> (ids: Vec<NodeIndex>)
    ensures
        ids@ == true_indices(mask@),
{
    let mut ids: Vec<NodeIndex> = Vec::new();
    let mut i: usize = 0;
    while i < mask.len()
        invariant
            i <= mask.len(),
            ids@ == true_indices(mask@.take(i as int)),
        decreases mask.len() - i,
    {
        assert(mask@.take(i + 1).drop_last() =~= mask@.take(i as int));
        if mask[i] {
            ids.push(i);
        }
        i += 1;
    }
    assert(mask@.take(mask.len() as int) =~= mask@);
    ids
}

impl<'a, H: Hasher, KB: KeyBox> Member<'a, H, KB> {
    /// The member is in a state that its handlers keep.
    pub closed spec fn wf(&self) -> bool {
        &&& member_inv(self@)
        &&& all_vouched(self@, self.keybox)
        &&& self.threshold == quorum(self.config)
    }

    /// The key box of the session.
    pub closed spec fn spec_key_box(&self) -> &'a KB {
        self.keybox
    }

    /// The digest by which the member names units.
    pub closed spec fn spec_hashing(&self) -> &H {
        &self.hashing
    }

    /// What `wf` says of the member's values.
    pub proof fn lemma_wf(&self)
        requires
            self.wf(),
        ensures
            member_inv(self@),
            all_vouched(self@, self.spec_key_box()),
    {
    }

    /// A member for the session that `config` describes, with an empty store,
    /// no task and nothing to carry out.
    pub fn new(keybox: &'a KB, hashing: H, config: Config) -> (member: Self)
        requires
            config.node_id < config.n_members,
        ensures
            member.wf(),
            member.spec_key_box() == keybox,
            *member.spec_hashing() == hashing,
            member@ == (MemberState {
                config,
                store: spec_new(config.n_members as nat, quorum(config)),
                requests: Seq::empty(),
                outbox: Seq::empty(),
            }),
    {
        let n_members = config.n_members;
        let threshold = threshold(n_members);
        let member = Member {
            config,
            hashing,
            keybox,
            store: UnitStore::new(n_members, threshold),
            requests: TaskQueue::new(),
            threshold,
            outbox: Vec::new(),
        };
        assert(member@.outbox =~= Seq::empty());
        member
    }

    /// Hands out what the handlers left to carry out, oldest first, and empties the outbox.
    pub fn take_actions(&mut self) -> (actions: Vec<Action>)
        requires
            old(self).wf(),
        ensures
            final(self).wf(),
            final(self).spec_key_box() == old(self).spec_key_box(),
            final(self).spec_hashing() == old(self).spec_hashing(),
            views(actions@) == old(self)@.outbox,
            final(self)@ == (MemberState { outbox: Seq::empty(), ..old(self)@ }),
    {
        let mut actions: Vec<Action> = Vec::new();
        std::mem::swap(&mut self.outbox, &mut actions);
        assert(views(self.outbox@) =~= Seq::empty());
        actions
    }

    /// The settings of the session.
    pub fn config(&self) -> (config: Config)
        ensures
            config == self@.config,
    {
        self.config
    }

    /// The lowest round that is not yet saturated.
    pub fn round_in_progress(&self) -> (round: Round)
        ensures
            round == self@.store.round_in_progress,
    {
        self.store.get_round_in_progress()
    }

    /// Whether a unit with the hash `hash` is stored.
    pub fn contains_hash(&self, hash: HashValue) -> (r: bool)
        ensures
            r == self@.store.by_hash.contains_key(hash),
    {
        self.store.contains_hash(&hash)
    }

    /// Whether a unit is stored at `coord`.
    pub fn contains_coord(&self, coord: UnitCoord) -> (r: bool)
        ensures
            r == self@.store.by_coord.contains_key(coord),
    {
        self.store.contains_coord(&coord)
    }

    fn send_consensus_notification(&mut self, notification: NotificationIn)
        requires
            old(self).wf(),
        ensures
            final(self).wf(),
            final(self).spec_key_box() == old(self).spec_key_box(),
            final(self).spec_hashing() == old(self).spec_hashing(),
            final(self)@ == with_notification(old(self)@, notification@),
    {
        let ghost before = views(self.outbox@);
        self.outbox.push(Action::Consensus(notification));
        assert(views(self.outbox@) =~= before.push(ActionView::Consensus(notification@)));
    }

    fn send_network_command(&mut self, command: NetworkCommand)
        requires
            old(self).wf(),
        ensures
            final(self).wf(),
            final(self).spec_key_box() == old(self).spec_key_box(),
            final(self).spec_hashing() == old(self).spec_hashing(),
            final(self)@ == with_command(old(self)@, command@),
    {
        let ghost before = views(self.outbox@);
        self.outbox.push(Action::Network(command));
        assert(views(self.outbox@) =~= before.push(ActionView::Network(command@)));
    }

    /// Checks the parents that a unit declares against its round.
    pub fn validate_unit_parents(&self, su: &SignedUnit<'a, KB>) -> (ok: bool)
        requires
            self.wf(),
        ensures
            ok == parents_valid(su@.signable.inner, self@.config),
    {
        let pre_unit = &su.signed().inner;
        if pre_unit.n_members() != self.config.n_members {
            return false;
        }
        let round = pre_unit.round();
        let n_parents = pre_unit.n_parents();
        if round == 0 && n_parents > 0 {
            return false;
        }
        let threshold = self.threshold;
        if round > 0 && n_parents < threshold {
            return false;
        }
        let creator = pre_unit.creator();
        if round > 0 && !(creator < pre_unit.control_hash.parents.len()
            && pre_unit.control_hash.parents[creator]) {
            return false;
        }
        true
    }

    /// Checks that a unit belongs to the session and has a sound shape.
    pub fn validate_unit(&self, su: &SignedUnit<'a, KB>) -> (ok: bool)
        requires
            self.wf(),
        ensures
            ok == unit_valid(su@.signable, self@.config),
    {
        if su.signed().session_id != self.config.session_id {
            return false;
        }
        if su.signed().round() > self.store.limit_per_node() {
            return false;
        }
        if su.signed().creator() >= self.config.n_members {
            return false;
        }
        if !self.validate_unit_parents(su) {
            return false;
        }
        true
    }

    /// Forms the alert on `forker` with the given proof and units.
    pub fn form_alert(&self, forker: NodeIndex, proof: ForkProof, units: &Vec<HashedUnit<'a, KB>>)
        -> (alert: Alert)
        ensures
            alert@ == spec_form_alert(self@.config, forker, proof@, views(units@)),
    {
        let mut legit_units: Vec<UncheckedSignedUnit> = Vec::new();
        let mut i: usize = 0;
        while i < units.len()
            invariant
                i <= units.len(),
                views(legit_units@) == plain_units(views(units@.take(i as int))),
            decreases units.len() - i,
        {
            let ghost before = views(legit_units@);
            let unit = units[i].unit.as_unchecked().clone();
            assert(unit@ == units@[i as int]@.unit);
            legit_units.push(unit);
            assert(views(legit_units@) =~= before.push(units@[i as int]@.unit));
            assert(views(legit_units@) =~= plain_units(views(units@.take(i + 1))));
            i += 1;
        }
        assert(units@.take(units.len() as int) =~= units@);
        Alert { sender: self.config.node_id, forker, proof, legit_units }
    }

    /// Marks `forker` and broadcasts an alert with `proof` and the newest of
    /// the forker's units that are in range.
    pub fn on_new_forker_detected(&mut self, forker: NodeIndex, proof: ForkProof)
        requires
            old(self).wf(),
            forker < old(self)@.config.n_members,
        ensures
            final(self).wf(),
            final(self).spec_key_box() == old(self).spec_key_box(),
            final(self).spec_hashing() == old(self).spec_hashing(),
            final(self)@ == spec_new_forker(old(self)@, forker, proof@),
    {
        proof {
            lemma_mark_forker_inv(self@.store, forker);
            lemma_mark_forker_all(self@.store, forker, in_session(self@.config));
            lemma_mark_forker_all(self@.store, forker, is_vouched(self.spec_key_box()));
        }
        let mut alerted_units = self.store.mark_forker(forker);
        if alerted_units.len() > MAX_UNITS_ALERT {
            let cut: usize = alerted_units.len() - MAX_UNITS_ALERT;
            let ghost all = views(alerted_units@);
            let newest = alerted_units.split_off(cut);
            assert(views(newest@) =~= all.subrange(cut as int, all.len() as int));
            alerted_units = newest;
        }
        let alert = self.form_alert(forker, proof, &alerted_units);
        let message = ConsensusMessage::ForkAlert(alert).encode();
        let command = NetworkCommand::ReliableBroadcast(message);
        self.send_network_command(command);
    }

    /// Stores a valid unit from the network, unless it forks a stored unit
    /// or lies beyond the margin.
    pub fn add_unit_to_store_unless_fork(&mut self, su: HashedUnit<'a, KB>)
        requires
            old(self).wf(),
            unit_valid(su@.unit.signable, old(self)@.config),
            unit_vouched(old(self).spec_key_box(), su@.unit),
        ensures
            final(self).wf(),
            final(self).spec_key_box() == old(self).spec_key_box(),
            final(self).spec_hashing() == old(self).spec_hashing(),
            final(self)@ == spec_add_unless_fork(old(self)@, su@),
    {
        match self.store.is_new_fork(&su) {
            Some(sv) => {
                let creator = su.creator();
                if !self.store.is_forker(creator) {
                    let proof = ForkProof {
                        u1: su.unit.into_unchecked(),
                        u2: sv.unit.into_unchecked(),
                    };
                    self.on_new_forker_detected(creator, proof);
                }
            },
            None => {
                let u_round = su.round();
                let round_in_progress = self.store.get_round_in_progress();
                if u_round <= round_in_progress + ROUNDS_MARGIN {
                    proof {
                        lemma_add_unit_inv(self@.store, su@, false);
                        lemma_add_unit_all(self@.store, su@, false, in_session(self@.config));
                        lemma_add_unit_all(
                            self@.store,
                            su@,
                            false,
                            is_vouched(self.spec_key_box()),
                        );
                    }
                    self.store.add_unit(su, false);
                }
            },
        }
    }

    /// Takes a unit whose signature the key box accepted. A unit from an
    /// alert has been validated with the alert and is stored; another is
    /// validated here.
    pub fn on_unit_received(&mut self, su: HashedUnit<'a, KB>, alert: bool)
        requires
            old(self).wf(),
            unit_vouched(old(self).spec_key_box(), su@.unit),
            alert ==> unit_in_session(su@.unit.signable, old(self)@.config)
                && old(self)@.store.is_forker[su@.unit.signable.inner.creator as int],
        ensures
            final(self).wf(),
            final(self).spec_key_box() == old(self).spec_key_box(),
            final(self).spec_hashing() == old(self).spec_hashing(),
            final(self)@ == spec_unit_received(old(self)@, su@, alert),
    {
        if alert {
            proof {
                lemma_add_unit_inv(self@.store, su@, true);
                lemma_add_unit_all(self@.store, su@, true, in_session(self@.config));
                lemma_add_unit_all(self@.store, su@, true, is_vouched(self.spec_key_box()));
            }
            self.store.add_unit(su, true);
        } else if self.validate_unit(&su.unit) {
            self.add_unit_to_store_unless_fork(su);
        }
    }

    /// Hands the buffered units to consensus, in one notification.
    pub fn move_units_to_consensus(&mut self)
        requires
            old(self).wf(),
        ensures
            final(self).wf(),
            final(self).spec_key_box() == old(self).spec_key_box(),
            final(self).spec_hashing() == old(self).spec_hashing(),
            final(self)@ == spec_units_moved(old(self)@),
    {
        let buffered = self.store.yield_buffer_units();
        let mut units: Vec<Unit> = Vec::new();
        let mut i: usize = 0;
        while i < buffered.len()
            invariant
                i <= buffered.len(),
                views(units@) == light_units(views(buffered@.take(i as int))),
            decreases buffered.len() - i,
        {
            let ghost before = views(units@);
            let unit = buffered[i].to_unit();
            units.push(unit);
            assert(views(units@) =~= before.push(unit@));
            assert(views(units@) =~= light_units(views(buffered@.take(i + 1))));
            i += 1;
        }
        assert(buffered@.take(buffered.len() as int) =~= buffered@);
        if units.len() > 0 {
            self.send_consensus_notification(NotificationIn::NewUnits(units));
        }
    }

    /// Answers a peer's request for the unit at `coord`.
    pub fn on_request_coord(&mut self, peer_id: Vec<u8>, coord: UnitCoord)
        requires
            old(self).wf(),
        ensures
            final(self).wf(),
            final(self).spec_key_box() == old(self).spec_key_box(),
            final(self).spec_hashing() == old(self).spec_hashing(),
            final(self)@ == spec_request_coord(old(self)@, peer_id@, coord),
    {
        let maybe_su = match self.store.unit_by_coord(coord) {
            Some(su) => Some(su.unit.as_unchecked().clone()),
            None => None,
        };
        match maybe_su {
            Some(su) => {
                let message = ConsensusMessage::ResponseCoord(su);
                let command = NetworkCommand::SendToPeer(message.encode(), peer_id);
                self.send_network_command(command);
            },
            None => {},
        }
    }

    /// Answers a peer's request for the parents of the unit with the hash `u_hash`.
    pub fn on_request_parents(&mut self, peer_id: Vec<u8>, u_hash: HashValue)
        requires
            old(self).wf(),
        ensures
            final(self).wf(),
            final(self).spec_key_box() == old(self).spec_key_box(),
            final(self).spec_hashing() == old(self).spec_hashing(),
            final(self)@ == spec_request_parents(old(self)@, peer_id@, u_hash),
    {
        let mut full_units: Vec<UncheckedSignedUnit> = Vec::new();
        match self.store.get_parents(u_hash) {
            Some(p_hashes) => {
                let mut i: usize = 0;
                while i < p_hashes.len()
                    invariant
                        i <= p_hashes.len(),
                        self.wf(),
                        self.spec_key_box() == old(self).spec_key_box(),
                        self.spec_hashing() == old(self).spec_hashing(),
                        self@ == old(self)@,
                        self@.store.parents.contains_key(u_hash),
                        p_hashes@ == self@.store.parents[u_hash],
                        all_stored(self@.store, p_hashes@.take(i as int)),
                        views(full_units@) == units_of(self@.store, p_hashes@.take(i as int)),
                    decreases p_hashes.len() - i,
                {
                    let ghost before = views(full_units@);
                    match self.store.unit_by_hash(&p_hashes[i]) {
                        Some(su) => {
                            let unit = su.unit.as_unchecked().clone();
                            assert(unit@ == self@.store.by_hash[p_hashes@[i as int]].unit);
                            full_units.push(unit);
                            assert(views(full_units@) =~= before.push(
                                self@.store.by_hash[p_hashes@[i as int]].unit,
                            ));
                        },
                        None => {
                            assert(!self@.store.by_hash.contains_key(p_hashes@[i as int]));
                            return ;
                        },
                    }
                    assert(views(full_units@) =~= units_of(self@.store, p_hashes@.take(i + 1)));
                    i += 1;
                }
                assert(p_hashes@.take(p_hashes.len() as int) =~= p_hashes@);
            },
            None => {
                return ;
            },
        }
        let message = ConsensusMessage::ResponseParents(u_hash, full_units).encode();
        let command = NetworkCommand::SendToPeer(message, peer_id);
        self.send_network_command(command);
    }

    /// Hands the data of an ordered batch to the sink. Consensus orders only
    /// units that it got from the store, so each hash names a stored unit.
    pub fn on_ordered_batch(&mut self, batch: Vec<HashValue>)
        requires
            old(self).wf(),
            all_stored(old(self)@.store, batch@),
        ensures
            final(self).wf(),
            final(self).spec_key_box() == old(self).spec_key_box(),
            final(self).spec_hashing() == old(self).spec_hashing(),
            final(self)@ == spec_ordered_batch(old(self)@, batch@),
    {
        let mut data: Vec<Vec<u8>> = Vec::new();
        let mut i: usize = 0;
        while i < batch.len()
            invariant
                i <= batch.len(),
                all_stored(self@.store, batch@),
                views(data@) == batch_data(self@.store, batch@.take(i as int)),
            decreases batch.len() - i,
        {
            let ghost before = views(data@);
            assert(self@.store.by_hash.contains_key(batch@[i as int]));
            match self.store.unit_by_hash(&batch[i]) {
                Some(su) => {
                    let item = su.unit.signed().data.clone();
                    assert(item@ =~= su@.unit.signable.data);
                    data.push(item);
                    assert(views(data@) =~= before.push(
                        self@.store.by_hash[batch@[i as int]].unit.signable.data,
                    ));
                },
                None => {},
            }
            assert(views(data@) =~= batch_data(self@.store, batch@.take(i + 1)));
            i += 1;
        }
        assert(batch@.take(batch.len() as int) =~= batch@);
        let ghost before = views(self.outbox@);
        self.outbox.push(Action::OrderedBatch(data));
        assert(views(self.outbox@) =~= before.push(
            ActionView::OrderedBatch(batch_data(self@.store, batch@)),
        ));
    }

    /// Whether every hash of the batch names a stored unit.
    pub fn knows_batch(&self, batch: &Vec<HashValue>) -> (r: bool)
        ensures
            r == all_stored(self@.store, batch@),
    {
        let mut i: usize = 0;
        while i < batch.len()
            invariant
                i <= batch.len(),
                all_stored(self@.store, batch@.take(i as int)),
            decreases batch.len() - i,
        {
            if !self.store.contains_hash(&batch[i]) {
                assert(!self@.store.by_hash.contains_key(batch@[i as int]));
                return false;
            }
            assert forall|k: int| 0 <= k < i + 1 implies self@.store.by_hash.contains_key(
                #[trigger] batch@.take(i + 1)[k],
            ) by {
                if k < i {
                    assert(batch@.take(i as int)[k] == batch@.take(i + 1)[k]);
                }
            }
            i += 1;
        }
        assert(batch@.take(batch.len() as int) =~= batch@);
        true
    }

    fn schedule_parents_request(&mut self, u_hash: HashValue, curr_time: u64)
        requires
            old(self).wf(),
        ensures
            final(self).wf(),
            final(self).spec_key_box() == old(self).spec_key_box(),
            final(self).spec_hashing() == old(self).spec_hashing(),
            final(self)@ == spec_parents_request(old(self)@, u_hash, curr_time),
    {
        if self.store.get_parents(u_hash).is_none() {
            let message = ConsensusMessage::RequestParents(u_hash);
            let command = NetworkCommand::SendToRandPeer(message.encode());
            self.send_network_command(command);
            self.requests.push(
                ScheduledTask::new(Task::ParentsRequest(u_hash), later(curr_time, FETCH_INTERVAL)),
            );
        }
    }

    fn schedule_coord_request(&mut self, coord: UnitCoord, curr_time: u64)
        requires
            old(self).wf(),
        ensures
            final(self).wf(),
            final(self).spec_key_box() == old(self).spec_key_box(),
            final(self).spec_hashing() == old(self).spec_hashing(),
            final(self)@ == spec_coord_request(old(self)@, coord, curr_time),
    {
        if self.store.contains_coord(&coord) {
            return ;
        }
        let message = ConsensusMessage::RequestCoord(coord);
        let command = NetworkCommand::SendToRandPeer(message.encode());
        self.send_network_command(command);
        self.requests.push(
            ScheduledTask::new(Task::CoordRequest(coord), later(curr_time, FETCH_INTERVAL)),
        );
    }

    fn schedule_unit_multicast(&mut self, hash: HashValue, interval: u64, curr_time: u64)
        requires
            old(self).wf(),
            old(self)@.store.by_hash.contains_key(hash),
        ensures
            final(self).wf(),
            final(self).spec_key_box() == old(self).spec_key_box(),
            final(self).spec_hashing() == old(self).spec_hashing(),
            final(self)@ == spec_unit_multicast(old(self)@, hash, interval, curr_time),
    {
        let signed_unit = match self.store.unit_by_hash(&hash) {
            Some(su) => su.unit.as_unchecked().clone(),
            None => { return ; },
        };
        let message = ConsensusMessage::NewUnit(signed_unit);
        let command = NetworkCommand::SendToAll(message.encode());
        self.send_network_command(command);
        self.requests.push(
            ScheduledTask::new(
                Task::UnitMulticast(hash, doubled(interval)),
                later(curr_time, interval),
            ),
        );
    }

    /// Takes every task that is due by `now` from the queue and carries it
    /// out: it sends the request or the unit and schedules the task again.
    pub fn trigger_tasks(&mut self, now: u64)
        requires
            old(self).wf(),
        ensures
            final(self).wf(),
            final(self).spec_key_box() == old(self).spec_key_box(),
            final(self).spec_hashing() == old(self).spec_hashing(),
            final(self)@ == spec_trigger(old(self)@, now),
    {
        let due = self.requests.take_due(now);
        let ghost start = self@;
        let mut i: usize = 0;
        while i < due.len()
            invariant
                i <= due.len(),
                self.wf(),
                self.spec_key_box() == old(self).spec_key_box(),
                self.spec_hashing() == old(self).spec_hashing(),
                self@ == spec_dispatch_all(start, due@.take(i as int), now),
            decreases due.len() - i,
        {
            let task = due[i].task;
            assert(due@.take(i + 1).drop_last() =~= due@.take(i as int));
            match task {
                Task::CoordRequest(coord) => {
                    self.schedule_coord_request(coord, now);
                },
                Task::UnitMulticast(hash, interval) => {
                    if self.store.contains_hash(&hash) {
                        self.schedule_unit_multicast(hash, interval, now);
                    }
                },
                Task::ParentsRequest(u_hash) => {
                    self.schedule_parents_request(u_hash, now);
                },
            }
            i += 1;
        }
        assert(due@.take(due.len() as int) =~= due@);
    }

    /// Schedules a request for each of `coords` that is not stored, and
    /// carries out what is due.
    pub fn on_missing_coords(&mut self, coords: Vec<UnitCoord>, now: u64)
        requires
            old(self).wf(),
        ensures
            final(self).wf(),
            final(self).spec_key_box() == old(self).spec_key_box(),
            final(self).spec_hashing() == old(self).spec_hashing(),
            final(self)@ == spec_missing_coords(old(self)@, coords@, now),
    {
        let mut i: usize = 0;
        while i < coords.len()
            invariant
                i <= coords.len(),
                self.wf(),
                self.spec_key_box() == old(self).spec_key_box(),
                self.spec_hashing() == old(self).spec_hashing(),
                self@ == spec_queue_missing(old(self)@, coords@.take(i as int), now),
            decreases coords.len() - i,
        {
            let coord = coords[i];
            assert(coords@.take(i + 1).drop_last() =~= coords@.take(i as int));
            if !self.store.contains_coord(&coord) {
                self.requests.push(ScheduledTask::new(Task::CoordRequest(coord), now));
            }
            i += 1;
        }
        assert(coords@.take(coords.len() as int) =~= coords@);
        self.trigger_tasks(now);
    }

    /// Hands the parents of `u_hash` to consensus where they are known, and
    /// asks for them where they are not.
    pub fn on_wrong_control_hash(&mut self, u_hash: HashValue, now: u64)
        requires
            old(self).wf(),
        ensures
            final(self).wf(),
            final(self).spec_key_box() == old(self).spec_key_box(),
            final(self).spec_hashing() == old(self).spec_hashing(),
            final(self)@ == spec_wrong_control_hash(old(self)@, u_hash, now),
    {
        let known = match self.store.get_parents(u_hash) {
            Some(p_hashes) => Some(p_hashes.clone()),
            None => None,
        };
        match known {
            Some(p_hashes) => {
                assert(p_hashes@ =~= self@.store.parents[u_hash]);
                self.send_consensus_notification(NotificationIn::UnitParents(u_hash, p_hashes));
            },
            None => {
                self.requests.push(ScheduledTask::new(Task::ParentsRequest(u_hash), now));
                self.trigger_tasks(now);
            },
        }
    }

    /// Stores the local authority's new unit, signed and hashed, and
    /// schedules its first multicast at `now`.
    pub fn on_created_unit(&mut self, su: HashedUnit<'a, KB>, now: u64)
        requires
            old(self).wf(),
            unit_vouched(old(self).spec_key_box(), su@.unit),
            unit_in_session(su@.unit.signable, old(self)@.config),
        ensures
            final(self).wf(),
            final(self).spec_key_box() == old(self).spec_key_box(),
            final(self).spec_hashing() == old(self).spec_hashing(),
            final(self)@ == spec_created(old(self)@, su@, now),
    {
        proof {
            lemma_add_unit_inv(self@.store, su@, false);
            lemma_add_unit_all(self@.store, su@, false, in_session(self@.config));
            lemma_add_unit_all(self@.store, su@, false, is_vouched(self.spec_key_box()));
        }
        let hash = su.hash;
        self.store.add_unit(su, false);
        self.requests.push(
            ScheduledTask::new(Task::UnitMulticast(hash, INITIAL_MULTICAST_DELAY), now),
        );
    }

    /// Makes a unit of the pre-unit that consensus created and of `data`:
    /// has the key box sign it, takes its hash, stores it and schedules its
    /// first multicast at `now`.
    pub fn on_create(&mut self, u: PreUnit, data: Vec<u8>, now: u64)
        requires
            old(self).wf(),
            u@.round <= MAX_ROUND,
            u@.creator < old(self)@.config.n_members,
        ensures
            final(self).wf(),
            final(self).spec_key_box() == old(self).spec_key_box(),
            final(self).spec_hashing() == old(self).spec_hashing(),
            created_outcome(
                old(self)@,
                old(self).spec_key_box(),
                old(self).spec_hashing(),
                spec_full_unit(u@, data@, old(self)@.config),
                now,
                final(self)@,
            ),
    {
        let full_unit = FullUnit { inner: u, data, session_id: self.config.session_id };
        let signed_unit = Signed::sign(self.keybox, full_unit);
        proof {
            lemma_unit_signed(self.keybox, signed_unit.spec_unchecked());
        }
        let hashed = HashedUnit::new(signed_unit, &self.hashing);
        assert(unit_created(
            self.keybox,
            &self.hashing,
            spec_full_unit(u@, data@, self@.config),
            hashed@,
        ));
        self.on_created_unit(hashed, now);
    }

    /// Records the parents with which consensus added a unit to the DAG.
    pub fn on_added_to_dag(&mut self, hash: HashValue, p_hashes: Vec<HashValue>)
        requires
            old(self).wf(),
        ensures
            final(self).wf(),
            final(self).spec_key_box() == old(self).spec_key_box(),
            final(self).spec_hashing() == old(self).spec_hashing(),
            final(self)@ == spec_added_to_dag(old(self)@, hash, p_hashes@),
    {
        self.store.add_parents(hash, p_hashes);
    }

    /// Has the key box check the signature of a unit, and takes the unit's
    /// hash where the signature is accepted.
    pub fn check_unit(&self, unchecked: UncheckedSignedUnit) -> (r: Option<HashedUnit<'a, KB>>)
        ensures
            match r {
                Some(su) => unit_checked(
                    self.spec_key_box(),
                    self.spec_hashing(),
                    unchecked@,
                    su@,
                ),
                None => unit_verdict(self.spec_key_box(), unchecked@, false),
            },
    {
        match Signed::from(unchecked, self.keybox) {
            Some(su) => {
                proof {
                    lemma_unit_accepted(self.keybox, unchecked, true);
                }
                Some(HashedUnit::new(su, &self.hashing))
            },
            None => {
                proof {
                    lemma_unit_accepted(self.keybox, unchecked, false);
                }
                None
            },
        }
    }

    /// Has the key box check the signatures of all the units. Gives the
    /// units with their hashes where every signature is accepted.
    pub fn check_units(&self, units: &Vec<UncheckedSignedUnit>) -> (r: Option<
        Vec<HashedUnit<'a, KB>>,
    >)
        ensures
            match r {
                Some(checked) => units_checked(
                    self.spec_key_box(),
                    self.spec_hashing(),
                    views(units@),
                    views(checked@),
                ),
                None => some_unit_rejected(self.spec_key_box(), views(units@)),
            },
    {
        let mut checked: Vec<HashedUnit<'a, KB>> = Vec::new();
        let mut i: usize = 0;
        while i < units.len()
            invariant
                i <= units.len(),
                units_checked(
                    self.spec_key_box(),
                    self.spec_hashing(),
                    views(units@.take(i as int)),
                    views(checked@),
                ),
            decreases units.len() - i,
        {
            let ghost before = views(checked@);
            let unit = units[i].clone();
            assert(unit@ == units@[i as int]@);
            match self.check_unit(unit) {
                Some(su) => {
                    checked.push(su);
                    assert(views(checked@) =~= before.push(su@));
                    assert forall|k: int| 0 <= k < i + 1 implies unit_checked(
                        self.spec_key_box(),
                        self.spec_hashing(),
                        views(units@.take(i + 1))[k],
                        #[trigger] views(checked@)[k],
                    ) by {
                        if k < i {
                            assert(views(units@.take(i as int))[k] == views(
                                units@.take(i + 1),
                            )[k]);
                            assert(before[k] == views(checked@)[k]);
                        }
                    }
                },
                None => {
                    assert(unit_verdict(self.spec_key_box(), views(units@)[i as int], false));
                    return None;
                },
            }
            i += 1;
        }
        assert(units@.take(units.len() as int) =~= units@);
        Some(checked)
    }

    /// Has the key box check every signature in an alert.
    pub fn check_alert(&self, alert: &Alert) -> (r: Option<CheckedAlert<'a, KB>>)
        ensures
            match r {
                Some(checked) => alert_checked(
                    self.spec_key_box(),
                    self.spec_hashing(),
                    alert@,
                    checked@,
                ),
                None => alert_rejected(self.spec_key_box(), alert@),
            },
    {
        let u1 = match self.check_unit(alert.proof.u1.clone()) {
            Some(su) => su,
            None => { return None; },
        };
        let u2 = match self.check_unit(alert.proof.u2.clone()) {
            Some(su) => su,
            None => { return None; },
        };
        let legit_units = match self.check_units(&alert.legit_units) {
            Some(units) => units,
            None => { return None; },
        };
        Some(CheckedAlert { sender: alert.sender, forker: alert.forker, u1, u2, legit_units })
    }

    /// Tells whether two units prove that `forker` forked.
    pub fn validate_fork_proof(
        &self,
        forker: NodeIndex,
        u1: &HashedUnit<'a, KB>,
        u2: &HashedUnit<'a, KB>,
    ) -> (ok: bool)
        requires
            self.wf(),
        ensures
            ok == fork_proof_valid(forker, u1@, u2@, self@.config),
    {
        if !self.validate_unit(&u1.unit) || !self.validate_unit(&u2.unit) {
            return false;
        }
        if u1.creator() != forker || u2.creator() != forker {
            return false;
        }
        if u1.round() != u2.round() {
            return false;
        }
        if u1.hash == u2.hash {
            return false;
        }
        true
    }

    /// Tells whether the units may stand in an alert on `forker`.
    pub fn validate_alerted_units(&self, forker: NodeIndex, units: &Vec<HashedUnit<'a, KB>>)
        -> (ok: bool)
        requires
            self.wf(),
        ensures
            ok == alerted_units_valid(forker, views(units@), self@.config),
    {
        if units.len() > MAX_UNITS_ALERT {
            return false;
        }
        let ghost us = views(units@);
        let mut rounds: HashSet<Round> = HashSet::new();
        let mut i: usize = 0;
        while i < units.len()
            invariant
                i <= units.len(),
                self.wf(),
                us == views(units@),
                units.len() <= MAX_UNITS_ALERT,
                forall|k: int|
                    0 <= k < i ==> (#[trigger] us[k]).unit.signable.inner.creator == forker
                        && unit_valid(us[k].unit.signable, self@.config),
                forall|k: int|
                    0 <= k < i ==> rounds@.contains((#[trigger] us[k]).unit.signable.inner.round),
                forall|r: Round|
                    rounds@.contains(r) ==> exists|k: int|
                        0 <= k < i && (#[trigger] us[k]).unit.signable.inner.round == r,
                forall|k: int, l: int|
                    0 <= k < l < i ==> (#[trigger] us[k]).unit.signable.inner.round != (
                    #[trigger] us[l]).unit.signable.inner.round,
            decreases units.len() - i,
        {
            let u = &units[i];
            assert(u@ == us[i as int]);
            if u.creator() != forker {
                return false;
            }
            if !self.validate_unit(&u.unit) {
                return false;
            }
            let round = u.round();
            if rounds.contains(&round) {
                proof {
                    let k = choose|k: int|
                        0 <= k < i && (#[trigger] us[k]).unit.signable.inner.round == round;
                    assert(us[k].unit.signable.inner.round == us[i as int].unit.signable.inner.round);
                }
                return false;
            }
            rounds.insert(round);
            assert forall|r: Round| rounds@.contains(r) implies exists|k: int|
                0 <= k < i + 1 && (#[trigger] us[k]).unit.signable.inner.round == r by {
                if r == round {
                    assert(us[i as int].unit.signable.inner.round == r);
                } else {
                    let k = choose|k: int|
                        0 <= k < i && (#[trigger] us[k]).unit.signable.inner.round == r;
                    assert(us[k].unit.signable.inner.round == r);
                }
            }
            i += 1;
        }
        true
    }

    /// Tells whether an alert whose units passed the key box is to be accepted.
    pub fn validate_checked_alert(&self, alert: &CheckedAlert<'a, KB>) -> (ok: bool)
        requires
            self.wf(),
        ensures
            ok == alert_valid(alert@, self@.config),
    {
        if alert.forker >= self.config.n_members {
            return false;
        }
        if alert.sender >= self.config.n_members {
            return false;
        }
        if !self.validate_fork_proof(alert.forker, &alert.u1, &alert.u2) {
            return false;
        }
        if !self.validate_alerted_units(alert.forker, &alert.legit_units) {
            return false;
        }
        true
    }

    /// Tells whether an alert from the network is to be accepted: every
    /// signature in it passes the key box, and it is valid.
    pub fn validate_alert(&self, alert: &Alert) -> (ok: bool)
        requires
            self.wf(),
        ensures
            ok ==> exists|checked: CheckedAlertView| #[trigger]
                alert_checked(self.spec_key_box(), self.spec_hashing(), alert@, checked)
                    && alert_valid(checked, self@.config),
            !ok ==> alert_rejected(self.spec_key_box(), alert@) || exists|
                checked: CheckedAlertView,
            | #[trigger]
                alert_checked(self.spec_key_box(), self.spec_hashing(), alert@, checked)
                    && !alert_valid(checked, self@.config),
    {
        match self.check_alert(alert) {
            Some(checked) => {
                let ok = self.validate_checked_alert(&checked);
                assert(alert_checked(
                    self.spec_key_box(),
                    self.spec_hashing(),
                    alert@,
                    checked@,
                ));
                ok
            },
            None => false,
        }
    }

    /// Takes an alert whose units passed the key box: where it is valid,
    /// marks the forker, passes the alert on, and stores the alert's units.
    pub fn on_checked_alert(&mut self, alert: CheckedAlert<'a, KB>)
        requires
            old(self).wf(),
            units_vouched(old(self).spec_key_box(), alert@.legit_units),
        ensures
            final(self).wf(),
            final(self).spec_key_box() == old(self).spec_key_box(),
            final(self).spec_hashing() == old(self).spec_hashing(),
            final(self)@ == spec_alert(old(self)@, alert@),
    {
        if !self.validate_checked_alert(&alert) {
            return ;
        }
        let forker = alert.forker;
        if !self.store.is_forker(forker) {
            let proof = ForkProof {
                u1: alert.u1.unit.into_unchecked(),
                u2: alert.u2.unit.into_unchecked(),
            };
            self.on_new_forker_detected(forker, proof);
        }
        let ghost marked = self@;
        let ghost us = views(alert.legit_units@);
        let units = alert.legit_units;
        let mut i: usize = 0;
        while i < units.len()
            invariant
                i <= units.len(),
                self.wf(),
                self.spec_key_box() == old(self).spec_key_box(),
                self.spec_hashing() == old(self).spec_hashing(),
                us == views(units@),
                units_vouched(old(self).spec_key_box(), us),
                forker < self@.config.n_members,
                self@.config == marked.config,
                self@.store.is_forker[forker as int],
                alerted_units_valid(forker, us, self@.config),
                self@ == spec_add_alerted(marked, us.take(i as int)),
            decreases units.len() - i,
        {
            let su = units[i].clone();
            assert(su@ == us[i as int]);
            assert(us.take(i + 1).drop_last() =~= us.take(i as int));
            proof {
                self.lemma_wf();
                lemma_add_unit_inv(self@.store, su@, true);
            }
            self.on_unit_received(su, true);
            i += 1;
        }
        assert(us.take(us.len() as int) =~= us);
    }

    /// Takes an alert from the network: has the key box check its
    /// signatures and goes on with it where they pass.
    pub fn on_fork_alert(&mut self, alert: Alert)
        requires
            old(self).wf(),
        ensures
            final(self).wf(),
            final(self).spec_key_box() == old(self).spec_key_box(),
            final(self).spec_hashing() == old(self).spec_hashing(),
            alert_outcome(
                old(self)@,
                old(self).spec_key_box(),
                old(self).spec_hashing(),
                alert@,
                final(self)@,
            ),
    {
        match self.check_alert(&alert) {
            Some(checked) => {
                assert(alert_checked(
                    self.spec_key_box(),
                    self.spec_hashing(),
                    alert@,
                    checked@,
                ));
                self.on_checked_alert(checked);
            },
            None => {},
        }
    }

    /// Takes the units of an answer as the parents of a unit of round
    /// `u_round` whose parents are by `parent_ids`. Gives the map of the
    /// parents' hashes where every unit was taken.
    pub fn accept_parents(
        &mut self,
        u_round: Round,
        parent_ids: &Vec<NodeIndex>,
        parents: &Vec<HashedUnit<'a, KB>>,
    ) -> (r: Option<Vec<Option<HashValue>>>)
        requires
            old(self).wf(),
            units_vouched(old(self).spec_key_box(), views(parents@)),
            parent_ids@.len() == parents@.len(),
        ensures
            final(self).wf(),
            final(self).spec_key_box() == old(self).spec_key_box(),
            final(self).spec_hashing() == old(self).spec_hashing(),
            final(self)@ == spec_accept_parents(
                old(self)@,
                u_round,
                parent_ids@,
                views(parents@),
            ).0,
            r is Some == spec_accept_parents(old(self)@, u_round, parent_ids@, views(parents@)).1,
            r matches Some(map) ==> map@ == spec_parent_map(
                old(self)@.config.n_members as nat,
                views(parents@),
            ),
    {
        let ghost us = views(parents@);
        let ghost start = self@;
        let n_members = self.config.n_members;
        let mut map: Vec<Option<HashValue>> = Vec::new();
        let mut k: usize = 0;
        while k < n_members
            invariant
                k <= n_members,
                map@ == Seq::new(k as nat, |i: int| None::<HashValue>),
            decreases n_members - k,
        {
            map.push(None);
            assert(map@ =~= Seq::new((k + 1) as nat, |i: int| None::<HashValue>));
            k += 1;
        }
        let mut i: usize = 0;
        while i < parents.len()
            invariant
                i <= parents.len(),
                parent_ids@.len() == parents@.len(),
                self.wf(),
                self.spec_key_box() == old(self).spec_key_box(),
                self.spec_hashing() == old(self).spec_hashing(),
                us == views(parents@),
                units_vouched(old(self).spec_key_box(), us),
                start == old(self)@,
                n_members == start.config.n_members,
                self@.config == start.config,
                map@.len() == n_members,
                (self@, true) == spec_accept_parents(start, u_round, parent_ids@, us.take(i as int)),
                map@ == spec_parent_map(n_members as nat, us.take(i as int)),
            decreases parents.len() - i,
        {
            let su = parents[i].clone();
            assert(su@ == us[i as int]);
            assert(us.take(i + 1).drop_last() =~= us.take(i as int));
            if !self.validate_unit(&su.unit) || su.round() + 1 != u_round || su.creator()
                != parent_ids[i] {
                proof {
                    let taken = us.take(i + 1);
                    assert(taken.drop_last() =~= us.take(i as int));
                    assert(taken.last() == us[i as int]);
                    assert(spec_accept_parents(start, u_round, parent_ids@, taken) == (self@, false));
                    lemma_accept_parents_stuck(start, u_round, parent_ids@, us, i + 1);
                }
                return None;
            }
            map.set(su.creator(), Some(su.hash));
            self.add_unit_to_store_unless_fork(su);
            i += 1;
        }
        assert(us.take(us.len() as int) =~= us);
        Some(map)
    }

    /// Ends the handling of an answer with parents: where the digest of the
    /// parents matched the control hash, the parents are recorded and
    /// handed to consensus.
    pub fn conclude_parents(
        &mut self,
        u_hash: HashValue,
        parents: &Vec<HashedUnit<'a, KB>>,
        matches: bool,
    )
        requires
            old(self).wf(),
        ensures
            final(self).wf(),
            final(self).spec_key_box() == old(self).spec_key_box(),
            final(self).spec_hashing() == old(self).spec_hashing(),
            final(self)@ == (if matches {
                spec_parents_known(old(self)@, u_hash, unit_hashes(views(parents@)))
            } else {
                old(self)@
            }),
    {
        if !matches {
            return ;
        }
        let mut p_hashes: Vec<HashValue> = Vec::new();
        let mut i: usize = 0;
        while i < parents.len()
            invariant
                i <= parents.len(),
                p_hashes@ == unit_hashes(views(parents@.take(i as int))),
            decreases parents.len() - i,
        {
            p_hashes.push(parents[i].hash);
            assert(p_hashes@ =~= unit_hashes(views(parents@.take(i + 1))));
            i += 1;
        }
        assert(parents@.take(parents.len() as int) =~= parents@);
        let for_consensus = p_hashes.clone();
        assert(for_consensus@ =~= p_hashes@);
        self.store.add_parents(u_hash, p_hashes);
        self.send_consensus_notification(NotificationIn::UnitParents(u_hash, for_consensus));
    }

    /// Takes an answer with the parents of the unit with the hash `u_hash`,
    /// the units having passed the key box. Where all of them are taken as
    /// parents, the digest of the map of their hashes is taken and held
    /// against the unit's control hash.
    pub fn on_parents_response(&mut self, u_hash: HashValue, parents: Vec<HashedUnit<'a, KB>>)
        requires
            old(self).wf(),
            units_vouched(old(self).spec_key_box(), views(parents@)),
        ensures
            final(self).wf(),
            final(self).spec_key_box() == old(self).spec_key_box(),
            final(self).spec_hashing() == old(self).spec_hashing(),
            parents_response_outcome(
                old(self)@,
                old(self).spec_hashing(),
                u_hash,
                views(parents@),
                final(self)@,
            ),
    {
        let known = match self.store.unit_by_hash(&u_hash) {
            Some(u) => Some(
                (
                    u.round(),
                    u.unit.signed().inner.control_hash.hash,
                    parent_ids(&u.unit.signed().inner.control_hash.parents),
                ),
            ),
            None => None,
        };
        let (u_round, u_control_hash, ids) = match known {
            Some(x) => x,
            None => {
                return ;
            },
        };
        if ids.len() != parents.len() {
            return ;
        }
        let map = match self.accept_parents(u_round, &ids, &parents) {
            Some(map) => map,
            None => {
                return ;
            },
        };
        let digest = ControlHash::combine_hashes(&map, &self.hashing);
        let matches = digest == u_control_hash;
        self.conclude_parents(u_hash, &parents, matches);
        assert(digest_is(
            old(self).spec_hashing(),
            enc_parent_map(spec_parent_map(old(self)@.config.n_members as nat, views(parents@))),
            digest,
        ));
    }

    /// Takes a message that a peer sent.
    pub fn on_consensus_message(&mut self, message: ConsensusMessage, peer_id: Vec<u8>)
        requires
            old(self).wf(),
        ensures
            final(self).wf(),
            final(self).spec_key_box() == old(self).spec_key_box(),
            final(self).spec_hashing() == old(self).spec_hashing(),
            message_outcome(
                old(self)@,
                old(self).spec_key_box(),
                old(self).spec_hashing(),
                message@,
                peer_id@,
                final(self)@,
            ),
    {
        match message {
            ConsensusMessage::NewUnit(unchecked) => {
                self.on_unchecked_unit(unchecked);
            },
            ConsensusMessage::RequestCoord(coord) => {
                self.on_request_coord(peer_id, coord);
            },
            ConsensusMessage::ResponseCoord(unchecked) => {
                self.on_unchecked_unit(unchecked);
            },
            ConsensusMessage::RequestParents(u_hash) => {
                self.on_request_parents(peer_id, u_hash);
            },
            ConsensusMessage::ResponseParents(u_hash, parents) => {
                self.on_unchecked_parents_response(u_hash, parents);
            },
            ConsensusMessage::ForkAlert(alert) => {
                self.on_fork_alert(alert);
            },
        }
    }

    /// Takes an answer with parents from the network: has the key box check
    /// the signatures of its units and goes on with it where they pass.
    pub fn on_unchecked_parents_response(
        &mut self,
        u_hash: HashValue,
        parents: Vec<UncheckedSignedUnit>,
    )
        requires
            old(self).wf(),
        ensures
            final(self).wf(),
            final(self).spec_key_box() == old(self).spec_key_box(),
            final(self).spec_hashing() == old(self).spec_hashing(),
            parents_outcome(
                old(self)@,
                old(self).spec_key_box(),
                old(self).spec_hashing(),
                u_hash,
                views(parents@),
                final(self)@,
            ),
    {
        match self.check_units(&parents) {
            Some(checked) => {
                assert(units_checked(
                    self.spec_key_box(),
                    self.spec_hashing(),
                    views(parents@),
                    views(checked@),
                ));
                self.on_parents_response(u_hash, checked);
            },
            None => {},
        }
    }

    /// Takes a unit from the network: has the key box check its signature,
    /// takes its hash, and receives it where the signature passes.
    pub fn on_unchecked_unit(&mut self, unchecked: UncheckedSignedUnit)
        requires
            old(self).wf(),
        ensures
            final(self).wf(),
            final(self).spec_key_box() == old(self).spec_key_box(),
            final(self).spec_hashing() == old(self).spec_hashing(),
            unit_outcome(
                old(self)@,
                old(self).spec_key_box(),
                old(self).spec_hashing(),
                unchecked@,
                final(self)@,
            ),
    {
        match self.check_unit(unchecked) {
            Some(su) => {
                assert(unit_checked(self.spec_key_box(), self.spec_hashing(), unchecked@, su@));
                self.on_unit_received(su, false);
            },
            None => {},
        }
    }

    /// Takes what the network delivered. Bytes that are no message are dropped.
    pub fn on_network_event(&mut self, event: NetworkEvent)
        requires
            old(self).wf(),
        ensures
            final(self).wf(),
            final(self).spec_key_box() == old(self).spec_key_box(),
            final(self).spec_hashing() == old(self).spec_hashing(),
            match event {
                NetworkEvent::MessageReceived(bytes, sender) => match parse_message(bytes@) {
                    Some(message) => message_outcome(
                        old(self)@,
                        old(self).spec_key_box(),
                        old(self).spec_hashing(),
                        message,
                        sender@,
                        final(self)@,
                    ),
                    None => final(self)@ == old(self)@,
                },
            },
    {
        match event {
            NetworkEvent::MessageReceived(bytes, sender) => {
                match ConsensusMessage::decode(bytes.as_slice()) {
                    Some(message) => {
                        self.on_consensus_message(message, sender);
                    },
                    None => {},
                }
            },
        }
    }

    /// Takes a notification from consensus at the time `now`. `data` is the
    /// data for the unit, where the notification is of a created unit.
    pub fn on_consensus_notification(
        &mut self,
        notification: NotificationOut,
        data: Vec<u8>,
        now: u64,
    )
        requires
            old(self).wf(),
            notification_fits(notification, old(self)@.config),
        ensures
            final(self).wf(),
            final(self).spec_key_box() == old(self).spec_key_box(),
            final(self).spec_hashing() == old(self).spec_hashing(),
            notification_outcome(
                old(self)@,
                old(self).spec_key_box(),
                old(self).spec_hashing(),
                notification,
                data@,
                now,
                final(self)@,
            ),
    {
        match notification {
            NotificationOut::CreatedPreUnit(pu) => {
                self.on_create(pu, data, now);
            },
            NotificationOut::MissingUnits(coords) => {
                self.on_missing_coords(coords, now);
            },
            NotificationOut::WrongControlHash(h) => {
                self.on_wrong_control_hash(h, now);
            },
            NotificationOut::AddedToDag(h, p_hashes) => {
                self.on_added_to_dag(h, p_hashes);
            },
        }
    }
}

} // verus!
