use member_core::bft::{Alert, ForkProof};
use member_core::member::{Config, Member, MAX_UNITS_ALERT, ROUNDS_MARGIN};
use member_core::messages::{
    Action, ConsensusMessage, NetworkCommand, NetworkEvent, NotificationIn, NotificationOut,
};
use member_core::units::{HashedUnit, Unit, UnitCoord};
use member_core::signed::Signed;
use member_core::units::{ControlHash, FullUnit, PreUnit, UncheckedSignedUnit};
use member_core::{Hasher, KeyBox};

struct TagBox {
    me: usize,
}

fn tag(msg: &[u8], signer: usize) -> Vec<u8> {
    let mut acc: u8 = 17;
    for b in msg {
        acc = acc.wrapping_mul(31).wrapping_add(*b);
    }
    vec![acc, signer as u8]
}

impl KeyBox for TagBox {
    fn sign(&self, msg: &[u8]) -> Vec<u8> {
        tag(msg, self.me)
    }

    fn verify(&self, msg: &[u8], signature: &[u8], signer: usize) -> bool {
        tag(msg, signer) == signature
    }

    fn index(&self) -> Option<usize> {
        Some(self.me)
    }
}

struct Fnv;

impl Hasher for Fnv {
    fn hash(&self, bytes: &[u8]) -> u64 {
        let mut h: u64 = 0xcbf29ce484222325;
        for b in bytes {
            h ^= *b as u64;
            h = h.wrapping_mul(0x100000001b3);
        }
        h
    }
}

const SESSION: u64 = 7;

fn no_parents() -> Vec<bool> {
    vec![false; 4]
}

fn full_unit(creator: usize, round: u64, parents: Vec<bool>, data: u8) -> FullUnit {
    FullUnit {
        inner: PreUnit { creator, round, control_hash: ControlHash { parents, hash: 0 } },
        data: vec![data],
        session_id: SESSION,
    }
}

fn sent(unit: FullUnit) -> UncheckedSignedUnit {
    let kb = TagBox { me: unit.inner.creator };
    Signed::sign(&kb, unit).into_unchecked()
}

fn hash_of(unit: &FullUnit) -> u64 {
    unit.hash(&Fnv)
}

fn config(node_id: usize) -> Config {
    Config { node_id, session_id: SESSION, n_members: 4, create_lag: 0 }
}

fn three() -> Vec<bool> {
    vec![true, true, true, false]
}

fn arrives(m: ConsensusMessage) -> NetworkEvent {
    NetworkEvent::MessageReceived(m.encode(), vec![42])
}

fn light(unit: &FullUnit) -> Unit {
    Unit {
        creator: unit.inner.creator,
        round: unit.inner.round,
        hash: hash_of(unit),
        control_hash: unit.inner.control_hash.clone(),
    }
}

fn to_rand_peer(m: ConsensusMessage) -> Action {
    Action::Network(NetworkCommand::SendToRandPeer(m.encode()))
}

fn to_all(m: ConsensusMessage) -> Action {
    Action::Network(NetworkCommand::SendToAll(m.encode()))
}

#[test]
fn a_new_member_has_nothing_to_do() {
    let kb = TagBox { me: 1 };
    let mut m = Member::new(&kb, Fnv, config(1));
    assert_eq!(m.config().n_members, 4);
    assert_eq!(m.config().node_id, 1);
    assert_eq!(m.round_in_progress(), 0);
    m.trigger_tasks(u64::MAX);
    m.move_units_to_consensus();
    assert_eq!(m.take_actions(), vec![]);
}

#[test]
fn steady_state() {
    let kb = TagBox { me: 3 };
    let mut m = Member::new(&kb, Fnv, config(3));
    let units: Vec<FullUnit> = (0..3).map(|c| full_unit(c, 0, no_parents(), c as u8)).collect();
    for (i, u) in units.iter().enumerate() {
        assert_eq!(m.round_in_progress(), 0);
        m.on_network_event(arrives(ConsensusMessage::NewUnit(sent(u.clone()))));
        assert!(m.contains_hash(hash_of(u)));
        assert!(m.contains_coord(UnitCoord { creator: i, round: 0 }));
    }
    assert_eq!(m.round_in_progress(), 1);
    m.move_units_to_consensus();
    assert_eq!(
        m.take_actions(),
        vec![Action::Consensus(NotificationIn::NewUnits(units.iter().map(light).collect()))]
    );
    m.move_units_to_consensus();
    assert_eq!(m.take_actions(), vec![]);
}

#[test]
fn missing_coord_fetch() {
    let kb = TagBox { me: 0 };
    let mut m = Member::new(&kb, Fnv, config(0));
    let coord = UnitCoord { creator: 3, round: 0 };
    let request = ConsensusMessage::RequestCoord(coord);
    m.on_consensus_notification(NotificationOut::MissingUnits(vec![coord]), vec![], 1000);
    assert_eq!(m.take_actions(), vec![to_rand_peer(ConsensusMessage::RequestCoord(coord))]);
    m.trigger_tasks(4999);
    assert_eq!(m.take_actions(), vec![]);
    m.trigger_tasks(5000);
    assert_eq!(m.take_actions(), vec![to_rand_peer(request)]);
    m.trigger_tasks(8999);
    assert_eq!(m.take_actions(), vec![]);
    let u = full_unit(3, 0, no_parents(), 1);
    m.on_network_event(arrives(ConsensusMessage::ResponseCoord(sent(u.clone()))));
    assert!(m.contains_coord(coord));
    m.move_units_to_consensus();
    assert_eq!(
        m.take_actions(),
        vec![Action::Consensus(NotificationIn::NewUnits(vec![light(&u)]))]
    );
    m.trigger_tasks(9000);
    m.trigger_tasks(20000);
    assert_eq!(m.take_actions(), vec![]);
}

#[test]
fn missing_coords_that_are_stored_are_not_fetched() {
    let kb = TagBox { me: 0 };
    let mut m = Member::new(&kb, Fnv, config(0));
    m.on_network_event(arrives(ConsensusMessage::NewUnit(sent(full_unit(1, 0, no_parents(), 1)))));
    let stored = UnitCoord { creator: 1, round: 0 };
    let a = UnitCoord { creator: 2, round: 0 };
    let b = UnitCoord { creator: 0, round: 3 };
    m.on_missing_coords(vec![a, stored, b], 10);
    assert_eq!(
        m.take_actions(),
        vec![
            to_rand_peer(ConsensusMessage::RequestCoord(a)),
            to_rand_peer(ConsensusMessage::RequestCoord(b)),
        ]
    );
}

fn round_one_with_parents(creator: usize, parents: &[FullUnit]) -> FullUnit {
    let mut map: Vec<Option<u64>> = vec![None; 4];
    for p in parents {
        map[p.inner.creator] = Some(hash_of(p));
    }
    FullUnit {
        inner: PreUnit::new_from_parents(creator, 1, &map, &Fnv),
        data: vec![9],
        session_id: SESSION,
    }
}

#[test]
fn wrong_control_hash() {
    let kb = TagBox { me: 3 };
    let mut m = Member::new(&kb, Fnv, config(3));
    let parents: Vec<FullUnit> = (0..3).map(|c| full_unit(c, 0, no_parents(), c as u8)).collect();
    let u = round_one_with_parents(0, &parents);
    let h = hash_of(&u);
    m.on_network_event(arrives(ConsensusMessage::NewUnit(sent(u.clone()))));
    assert!(m.contains_hash(h));
    m.on_consensus_notification(NotificationOut::WrongControlHash(h), vec![], 50);
    assert_eq!(m.take_actions(), vec![to_rand_peer(ConsensusMessage::RequestParents(h))]);
    m.trigger_tasks(4050);
    assert_eq!(m.take_actions(), vec![to_rand_peer(ConsensusMessage::RequestParents(h))]);
    let answer =
        ConsensusMessage::ResponseParents(h, parents.iter().map(|p| sent(p.clone())).collect());
    m.on_network_event(arrives(answer));
    let p_hashes: Vec<u64> = parents.iter().map(hash_of).collect();
    assert_eq!(
        m.take_actions(),
        vec![Action::Consensus(NotificationIn::UnitParents(h, p_hashes.clone()))]
    );
    for p in &parents {
        assert!(m.contains_hash(hash_of(p)));
    }
    assert_eq!(m.round_in_progress(), 1);
    m.trigger_tasks(8050);
    assert_eq!(m.take_actions(), vec![]);
    m.on_consensus_notification(NotificationOut::WrongControlHash(h), vec![], 9000);
    assert_eq!(
        m.take_actions(),
        vec![Action::Consensus(NotificationIn::UnitParents(h, p_hashes))]
    );
    m.on_network_event(arrives(ConsensusMessage::RequestParents(h)));
    assert_eq!(
        m.take_actions(),
        vec![Action::Network(NetworkCommand::SendToPeer(
            ConsensusMessage::ResponseParents(h, parents.iter().map(|p| sent(p.clone())).collect())
                .encode(),
            vec![42]
        ))]
    );
}

#[test]
fn parents_by_creators_that_are_not_the_first() {
    let kb = TagBox { me: 0 };
    let mut m = Member::new(&kb, Fnv, config(0));
    let parents: Vec<FullUnit> =
        [0usize, 2, 3].iter().map(|c| full_unit(*c, 0, no_parents(), *c as u8)).collect();
    let u = round_one_with_parents(2, &parents);
    let h = hash_of(&u);
    m.on_network_event(arrives(ConsensusMessage::NewUnit(sent(u))));
    let answer =
        ConsensusMessage::ResponseParents(h, parents.iter().map(|p| sent(p.clone())).collect());
    m.on_network_event(arrives(answer));
    assert_eq!(
        m.take_actions(),
        vec![Action::Consensus(NotificationIn::UnitParents(
            h,
            parents.iter().map(hash_of).collect()
        ))]
    );
}

#[test]
fn parents_that_do_not_match_are_not_handed_on() {
    let kb = TagBox { me: 3 };
    let parents: Vec<FullUnit> = (0..3).map(|c| full_unit(c, 0, no_parents(), c as u8)).collect();
    let u = round_one_with_parents(0, &parents);
    let h = hash_of(&u);
    let fresh = || {
        let mut m = Member::new(&kb, Fnv, config(3));
        m.on_network_event(arrives(ConsensusMessage::NewUnit(sent(u.clone()))));
        m
    };
    let units = |ps: &[FullUnit]| ps.iter().map(|p| sent(p.clone())).collect::<Vec<_>>();

    let mut m = fresh();
    m.on_network_event(arrives(ConsensusMessage::ResponseParents(h + 1, units(&parents))));
    assert_eq!(m.take_actions(), vec![]);
    assert!(!m.contains_hash(hash_of(&parents[0])));

    let mut m = fresh();
    m.on_network_event(arrives(ConsensusMessage::ResponseParents(h, units(&parents[..2]))));
    assert_eq!(m.take_actions(), vec![]);
    assert!(!m.contains_hash(hash_of(&parents[0])));

    let mut m = fresh();
    let swapped = vec![parents[0].clone(), parents[2].clone(), parents[1].clone()];
    m.on_network_event(arrives(ConsensusMessage::ResponseParents(h, units(&swapped))));
    assert_eq!(m.take_actions(), vec![]);
    assert!(m.contains_hash(hash_of(&parents[0])));
    assert!(!m.contains_hash(hash_of(&parents[1])));
    assert!(!m.contains_hash(hash_of(&parents[2])));

    let mut m = fresh();
    let other = vec![parents[0].clone(), parents[1].clone(), full_unit(2, 0, no_parents(), 77)];
    m.on_network_event(arrives(ConsensusMessage::ResponseParents(h, units(&other))));
    assert_eq!(m.take_actions(), vec![]);
    assert!(m.contains_hash(hash_of(&other[2])));
    m.on_network_event(arrives(ConsensusMessage::RequestParents(h)));
    assert_eq!(m.take_actions(), vec![]);

    let mut m = fresh();
    let late = vec![parents[0].clone(), parents[1].clone(), full_unit(2, 1, three(), 1)];
    m.on_network_event(arrives(ConsensusMessage::ResponseParents(h, units(&late))));
    assert_eq!(m.take_actions(), vec![]);
    assert!(m.contains_hash(hash_of(&parents[1])));
    assert!(!m.contains_hash(hash_of(&late[2])));

    let mut m = fresh();
    let mut forged = units(&parents);
    forged[1].signature = vec![1, 1];
    m.on_network_event(arrives(ConsensusMessage::ResponseParents(h, forged)));
    assert_eq!(m.take_actions(), vec![]);
    assert!(!m.contains_hash(hash_of(&parents[0])));
}

#[test]
fn fork_detection() {
    let kb = TagBox { me: 0 };
    let mut m = Member::new(&kb, Fnv, config(0));
    let zero = full_unit(2, 0, no_parents(), 1);
    let u = full_unit(2, 1, three(), 1);
    let forked = full_unit(2, 1, three(), 2);
    let far = full_unit(2, 7, three(), 1);
    let honest = full_unit(1, 1, three(), 1);
    for x in [&zero, &u, &far, &honest] {
        m.on_network_event(arrives(ConsensusMessage::NewUnit(sent(x.clone()))));
    }
    assert_eq!(m.take_actions(), vec![]);
    m.on_network_event(arrives(ConsensusMessage::NewUnit(sent(forked.clone()))));
    let alert = Alert {
        sender: 0,
        forker: 2,
        proof: ForkProof { u1: sent(forked.clone()), u2: sent(u.clone()) },
        legit_units: vec![sent(zero.clone())],
    };
    assert_eq!(
        m.take_actions(),
        vec![Action::Network(NetworkCommand::ReliableBroadcast(
            ConsensusMessage::ForkAlert(alert).encode()
        ))]
    );
    assert!(m.contains_hash(hash_of(&zero)));
    assert!(!m.contains_hash(hash_of(&u)));
    assert!(!m.contains_hash(hash_of(&forked)));
    assert!(!m.contains_hash(hash_of(&far)));
    assert!(m.contains_hash(hash_of(&honest)));
    assert!(!m.contains_coord(UnitCoord { creator: 2, round: 1 }));
    assert!(!m.contains_coord(UnitCoord { creator: 2, round: 7 }));
    m.on_network_event(arrives(ConsensusMessage::NewUnit(sent(full_unit(2, 0, no_parents(), 3)))));
    assert_eq!(m.take_actions(), vec![]);
    m.move_units_to_consensus();
    assert_eq!(
        m.take_actions(),
        vec![Action::Consensus(NotificationIn::NewUnits(vec![light(&zero)]))]
    );
}

#[test]
fn an_alert_carries_the_newest_units_only() {
    let kb = TagBox { me: 0 };
    let mut m = Member::new(&kb, Fnv, config(0));
    let last: u64 = 204;
    let mut by_forker = Vec::new();
    for round in 0..=last {
        for creator in 0..3usize {
            let parents = if round == 0 { no_parents() } else { three() };
            let u = full_unit(creator, round, parents, 1);
            if creator == 2 {
                by_forker.push(sent(u.clone()));
            }
            m.on_network_event(arrives(ConsensusMessage::NewUnit(sent(u))));
        }
    }
    assert_eq!(m.round_in_progress(), last + 1);
    m.take_actions();
    let forked = full_unit(2, 3, three(), 2);
    m.on_network_event(arrives(ConsensusMessage::NewUnit(sent(forked.clone()))));
    let alert = Alert {
        sender: 0,
        forker: 2,
        proof: ForkProof { u1: sent(forked), u2: by_forker[3].clone() },
        legit_units: by_forker[5..].to_vec(),
    };
    assert_eq!(alert.legit_units.len(), 200);
    assert_eq!(
        m.take_actions(),
        vec![Action::Network(NetworkCommand::ReliableBroadcast(
            ConsensusMessage::ForkAlert(alert).encode()
        ))]
    );
}

#[test]
fn alert_acceptance() {
    let kb = TagBox { me: 0 };
    let mut m = Member::new(&kb, Fnv, config(0));
    let mine = full_unit(2, 0, no_parents(), 1);
    m.on_network_event(arrives(ConsensusMessage::NewUnit(sent(mine.clone()))));
    m.move_units_to_consensus();
    m.take_actions();
    let five = full_unit(2, 5, three(), 3);
    let proof = ForkProof {
        u1: sent(full_unit(2, 1, three(), 1)),
        u2: sent(full_unit(2, 1, three(), 2)),
    };
    let alert = Alert {
        sender: 1,
        forker: 2,
        proof: proof.clone(),
        legit_units: vec![sent(mine.clone()), sent(five.clone())],
    };
    m.on_network_event(arrives(ConsensusMessage::ForkAlert(alert.clone())));
    let own = Alert { sender: 0, forker: 2, proof, legit_units: vec![sent(mine.clone())] };
    assert_eq!(
        m.take_actions(),
        vec![Action::Network(NetworkCommand::ReliableBroadcast(
            ConsensusMessage::ForkAlert(own).encode()
        ))]
    );
    assert_eq!(m.round_in_progress(), 0);
    assert!(m.contains_hash(hash_of(&five)));
    m.move_units_to_consensus();
    assert_eq!(
        m.take_actions(),
        vec![Action::Consensus(NotificationIn::NewUnits(vec![light(&five)]))]
    );
    let seven = full_unit(2, 7, three(), 3);
    let mut second = alert;
    second.sender = 3;
    second.legit_units = vec![sent(seven.clone())];
    m.on_network_event(arrives(ConsensusMessage::ForkAlert(second)));
    assert_eq!(m.take_actions(), vec![]);
    m.move_units_to_consensus();
    assert_eq!(
        m.take_actions(),
        vec![Action::Consensus(NotificationIn::NewUnits(vec![light(&seven)]))]
    );
}

#[test]
fn an_alert_that_is_not_valid_changes_nothing() {
    let kb = TagBox { me: 0 };
    let mut m = Member::new(&kb, Fnv, config(0));
    let five = full_unit(2, 5, three(), 3);
    let alert = Alert {
        sender: 1,
        forker: 2,
        proof: ForkProof {
            u1: sent(full_unit(2, 1, three(), 1)),
            u2: sent(full_unit(2, 2, three(), 2)),
        },
        legit_units: vec![sent(five.clone())],
    };
    m.on_network_event(arrives(ConsensusMessage::ForkAlert(alert)));
    m.move_units_to_consensus();
    assert_eq!(m.take_actions(), vec![]);
    assert!(!m.contains_hash(hash_of(&five)));
    m.on_network_event(arrives(ConsensusMessage::NewUnit(sent(full_unit(2, 0, no_parents(), 3)))));
    m.move_units_to_consensus();
    assert_eq!(m.take_actions().len(), 1);
}

#[test]
fn ordered_batch_delivery() {
    let kb = TagBox { me: 0 };
    let mut m = Member::new(&kb, Fnv, config(0));
    let a = full_unit(0, 0, no_parents(), 10);
    let b = full_unit(1, 0, no_parents(), 20);
    let c = full_unit(2, 1, three(), 30);
    for x in [&a, &b, &c] {
        m.on_network_event(arrives(ConsensusMessage::NewUnit(sent(x.clone()))));
    }
    let batch = vec![hash_of(&c), hash_of(&a), hash_of(&b), hash_of(&a)];
    assert!(m.knows_batch(&batch));
    assert!(!m.knows_batch(&vec![hash_of(&a), 1]));
    m.on_ordered_batch(batch);
    assert_eq!(
        m.take_actions(),
        vec![Action::OrderedBatch(vec![vec![30], vec![10], vec![20], vec![10]])]
    );
    m.on_ordered_batch(vec![]);
    assert_eq!(m.take_actions(), vec![Action::OrderedBatch(vec![])]);
}

#[test]
fn the_margin_is_inclusive() {
    let kb = TagBox { me: 0 };
    let mut m = Member::new(&kb, Fnv, config(0));
    assert_eq!(ROUNDS_MARGIN, 100);
    let at = full_unit(1, 100, three(), 1);
    let beyond = full_unit(1, 101, three(), 1);
    m.on_network_event(arrives(ConsensusMessage::NewUnit(sent(at.clone()))));
    m.on_network_event(arrives(ConsensusMessage::NewUnit(sent(beyond.clone()))));
    assert!(m.contains_hash(hash_of(&at)));
    assert!(!m.contains_hash(hash_of(&beyond)));
    for c in 0..3 {
        m.on_network_event(arrives(ConsensusMessage::NewUnit(sent(full_unit(
            c,
            0,
            no_parents(),
            1,
        )))));
    }
    assert_eq!(m.round_in_progress(), 1);
    m.on_network_event(arrives(ConsensusMessage::NewUnit(sent(beyond.clone()))));
    assert!(m.contains_hash(hash_of(&beyond)));
    assert!(!m.contains_coord(UnitCoord { creator: 1, round: 102 }));
}

#[test]
fn units_that_are_not_valid_or_not_signed_are_dropped() {
    let kb = TagBox { me: 0 };
    let mut m = Member::new(&kb, Fnv, config(0));
    let bad = full_unit(1, 0, three(), 1);
    m.on_network_event(arrives(ConsensusMessage::NewUnit(sent(bad.clone()))));
    assert!(!m.contains_hash(hash_of(&bad)));
    let good = full_unit(1, 0, no_parents(), 1);
    let mut forged = sent(good.clone());
    forged.signature = vec![3, 3];
    m.on_network_event(arrives(ConsensusMessage::ResponseCoord(forged)));
    assert!(!m.contains_hash(hash_of(&good)));
    m.on_network_event(NetworkEvent::MessageReceived(vec![9, 9, 9], vec![1]));
    m.on_network_event(NetworkEvent::MessageReceived(vec![], vec![1]));
    m.move_units_to_consensus();
    assert_eq!(m.take_actions(), vec![]);
}

#[test]
fn requests_are_answered_from_the_store() {
    let kb = TagBox { me: 0 };
    let mut m = Member::new(&kb, Fnv, config(0));
    let u = full_unit(1, 0, no_parents(), 1);
    m.on_network_event(arrives(ConsensusMessage::NewUnit(sent(u.clone()))));
    let coord = UnitCoord { creator: 1, round: 0 };
    m.on_network_event(NetworkEvent::MessageReceived(
        ConsensusMessage::RequestCoord(coord).encode(),
        vec![7, 7],
    ));
    assert_eq!(
        m.take_actions(),
        vec![Action::Network(NetworkCommand::SendToPeer(
            ConsensusMessage::ResponseCoord(sent(u.clone())).encode(),
            vec![7, 7]
        ))]
    );
    m.on_request_coord(vec![7], UnitCoord { creator: 2, round: 0 });
    m.on_request_parents(vec![7], hash_of(&u));
    assert_eq!(m.take_actions(), vec![]);
    m.on_consensus_notification(NotificationOut::AddedToDag(hash_of(&u), vec![]), vec![], 0);
    m.on_request_parents(vec![7], hash_of(&u));
    assert_eq!(
        m.take_actions(),
        vec![Action::Network(NetworkCommand::SendToPeer(
            ConsensusMessage::ResponseParents(hash_of(&u), vec![]).encode(),
            vec![7]
        ))]
    );
    m.on_consensus_notification(NotificationOut::AddedToDag(5, vec![hash_of(&u), 6]), vec![], 0);
    m.on_request_parents(vec![7], 5);
    assert_eq!(m.take_actions(), vec![]);
}

#[test]
fn a_created_unit_is_signed_stored_and_multicast() {
    let kb = TagBox { me: 1 };
    let mut m = Member::new(&kb, Fnv, config(1));
    let pu = PreUnit { creator: 1, round: 0, control_hash: ControlHash { parents: no_parents(), hash: 0 } };
    m.on_consensus_notification(NotificationOut::CreatedPreUnit(pu), vec![5], 100);
    let unit = full_unit(1, 0, no_parents(), 5);
    let h = hash_of(&unit);
    assert!(m.contains_hash(h));
    assert_eq!(m.take_actions(), vec![]);
    m.move_units_to_consensus();
    assert_eq!(
        m.take_actions(),
        vec![Action::Consensus(NotificationIn::NewUnits(vec![light(&unit)]))]
    );
    let multicast = || to_all(ConsensusMessage::NewUnit(sent(unit.clone())));
    m.trigger_tasks(99);
    assert_eq!(m.take_actions(), vec![]);
    m.trigger_tasks(100);
    assert_eq!(m.take_actions(), vec![multicast()]);
    m.trigger_tasks(3099);
    assert_eq!(m.take_actions(), vec![]);
    m.trigger_tasks(3100);
    assert_eq!(m.take_actions(), vec![multicast()]);
    m.trigger_tasks(9099);
    assert_eq!(m.take_actions(), vec![]);
    m.trigger_tasks(9100);
    assert_eq!(m.take_actions(), vec![multicast()]);
    m.trigger_tasks(21099);
    assert_eq!(m.take_actions(), vec![]);
    m.trigger_tasks(21100);
    assert_eq!(m.take_actions(), vec![multicast()]);
}

#[test]
fn tasks_run_in_the_order_in_which_they_are_due() {
    let kb = TagBox { me: 1 };
    let mut m = Member::new(&kb, Fnv, config(1));
    let a = UnitCoord { creator: 0, round: 0 };
    let b = UnitCoord { creator: 2, round: 0 };
    m.on_missing_coords(vec![a], 0);
    m.on_wrong_control_hash(77, 1000);
    m.on_missing_coords(vec![b], 2000);
    m.take_actions();
    m.trigger_tasks(3999);
    assert_eq!(m.take_actions(), vec![]);
    m.trigger_tasks(6000);
    assert_eq!(
        m.take_actions(),
        vec![
            to_rand_peer(ConsensusMessage::RequestCoord(a)),
            to_rand_peer(ConsensusMessage::RequestParents(77)),
            to_rand_peer(ConsensusMessage::RequestCoord(b)),
        ]
    );
    m.trigger_tasks(9999);
    assert_eq!(m.take_actions(), vec![]);
    m.trigger_tasks(10000);
    assert_eq!(m.take_actions().len(), 3);
}

#[test]
fn times_at_the_end_of_the_clock_do_not_wrap() {
    let kb = TagBox { me: 1 };
    let mut m = Member::new(&kb, Fnv, config(1));
    let a = UnitCoord { creator: 0, round: 0 };
    m.on_missing_coords(vec![a], u64::MAX - 10);
    assert_eq!(m.take_actions(), vec![to_rand_peer(ConsensusMessage::RequestCoord(a))]);
    m.trigger_tasks(u64::MAX - 1);
    assert_eq!(m.take_actions(), vec![]);
    m.trigger_tasks(u64::MAX);
    assert_eq!(m.take_actions(), vec![to_rand_peer(ConsensusMessage::RequestCoord(a))]);
}
