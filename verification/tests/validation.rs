use member_core::bft::{Alert, ForkProof};
use member_core::member::{Config, Member, MAX_UNITS_ALERT, ROUNDS_MARGIN};
use member_core::messages::{
    Action, ConsensusMessage, NetworkCommand, NetworkEvent, NotificationIn, NotificationOut,
};
use member_core::units::{HashedUnit, Unit, UnitCoord};
use member_core::signed::Signed;
use member_core::units::{ControlHash, FullUnit, PreUnit, UncheckedSignedUnit};
use member_core::{Hasher, KeyBox};

struct TagBox {
    me: usize,
}

fn tag(msg: &[u8], signer: usize) -> Vec<u8> {
    let mut acc: u8 = 17;
    for b in msg {
        acc = acc.wrapping_mul(31).wrapping_add(*b);
    }
    vec![acc, signer as u8]
}

impl KeyBox for TagBox {
    fn sign(&self, msg: &[u8]) -> Vec<u8> {
        tag(msg, self.me)
    }

    fn verify(&self, msg: &[u8], signature: &[u8], signer: usize) -> bool {
        tag(msg, signer) == signature
    }

    fn index(&self) -> Option<usize> {
        Some(self.me)
    }
}

struct Fnv;

impl Hasher for Fnv {
    fn hash(&self, bytes: &[u8]) -> u64 {
        let mut h: u64 = 0xcbf29ce484222325;
        for b in bytes {
            h ^= *b as u64;
            h = h.wrapping_mul(0x100000001b3);
        }
        h
    }
}

const SESSION: u64 = 7;

fn no_parents() -> Vec<bool> {
    vec![false; 4]
}

fn full_unit(creator: usize, round: u64, parents: Vec<bool>, data: u8) -> FullUnit {
    FullUnit {
        inner: PreUnit { creator, round, control_hash: ControlHash { parents, hash: 0 } },
        data: vec![data],
        session_id: SESSION,
    }
}

fn sent(unit: FullUnit) -> UncheckedSignedUnit {
    let kb = TagBox { me: unit.inner.creator };
    Signed::sign(&kb, unit).into_unchecked()
}

fn hash_of(unit: &FullUnit) -> u64 {
    unit.hash(&Fnv)
}

fn config(node_id: usize) -> Config {
    Config { node_id, session_id: SESSION, n_members: 4, create_lag: 0 }
}

fn three() -> Vec<bool> {
    vec![true, true, true, false]
}

fn arrives(m: ConsensusMessage) -> NetworkEvent {
    NetworkEvent::MessageReceived(m.encode(), vec![42])
}

fn light(unit: &FullUnit) -> Unit {
    Unit {
        creator: unit.inner.creator,
        round: unit.inner.round,
        hash: hash_of(unit),
        control_hash: unit.inner.control_hash.clone(),
    }
}

fn to_rand_peer(m: ConsensusMessage) -> Action {
    Action::Network(NetworkCommand::SendToRandPeer(m.encode()))
}

fn to_all(m: ConsensusMessage) -> Action {
    Action::Network(NetworkCommand::SendToAll(m.encode()))
}

fn passes(unit: FullUnit) -> bool {
    let kb = TagBox { me: 0 };
    let m = Member::new(&kb, Fnv, config(0));
    let creator = TagBox { me: unit.inner.creator };
    let su = Signed::sign(&creator, unit);
    m.validate_unit(&su)
}

fn parents_pass(unit: FullUnit) -> bool {
    let kb = TagBox { me: 0 };
    let m = Member::new(&kb, Fnv, config(0));
    let creator = TagBox { me: unit.inner.creator };
    let su = Signed::sign(&creator, unit);
    m.validate_unit_parents(&su)
}

fn valid_alert() -> Alert {
    Alert {
        sender: 1,
        forker: 2,
        proof: ForkProof {
            u1: sent(full_unit(2, 1, three(), 1)),
            u2: sent(full_unit(2, 1, three(), 2)),
        },
        legit_units: vec![
            sent(full_unit(2, 0, no_parents(), 1)),
            sent(full_unit(2, 5, three(), 3)),
        ],
    }
}

fn accepts(alert: &Alert) -> bool {
    let kb = TagBox { me: 0 };
    let m = Member::new(&kb, Fnv, config(0));
    m.validate_alert(alert)
}

#[test]
fn sound_units_pass() {
    assert!(passes(full_unit(0, 0, no_parents(), 1)));
    assert!(passes(full_unit(3, 0, no_parents(), 1)));
    assert!(passes(full_unit(2, 1, three(), 1)));
    assert!(passes(full_unit(3, 5000, vec![true; 4], 1)));
    assert!(passes(full_unit(0, 1, vec![true, true, false, true], 1)));
}

#[test]
fn a_unit_of_round_zero_with_a_parent_is_rejected() {
    assert!(!passes(full_unit(0, 0, vec![true, false, false, false], 1)));
    assert!(!passes(full_unit(0, 0, three(), 1)));
    assert!(!parents_pass(full_unit(1, 0, vec![false, false, false, true], 1)));
}

#[test]
fn a_unit_of_round_one_with_too_few_parents_is_rejected() {
    assert!(!passes(full_unit(0, 1, vec![true, true, false, false], 1)));
    assert!(!passes(full_unit(0, 1, no_parents(), 1)));
    assert!(!parents_pass(full_unit(0, 1, vec![true, false, false, true], 1)));
}

#[test]
fn a_unit_without_its_creators_previous_unit_is_rejected() {
    assert!(!passes(full_unit(3, 1, three(), 1)));
    assert!(!passes(full_unit(0, 2, vec![false, true, true, true], 1)));
    assert!(passes(full_unit(1, 2, vec![false, true, true, true], 1)));
}

#[test]
fn a_unit_of_another_session_is_rejected() {
    let mut u = full_unit(0, 0, no_parents(), 1);
    u.session_id = SESSION + 1;
    assert!(!passes(u));
}

#[test]
fn a_unit_beyond_the_last_round_is_rejected() {
    assert!(passes(full_unit(0, 5000, vec![true; 4], 1)));
    assert!(!passes(full_unit(0, 5001, vec![true; 4], 1)));
    assert!(!passes(full_unit(0, u64::MAX, vec![true; 4], 1)));
}

#[test]
fn a_unit_by_a_stranger_is_rejected() {
    assert!(!passes(full_unit(4, 0, no_parents(), 1)));
    assert!(!passes(full_unit(usize::MAX, 1, vec![true; 4], 1)));
}

#[test]
fn a_unit_with_a_parent_map_of_another_length_is_rejected() {
    assert!(!passes(full_unit(0, 0, vec![false; 3], 1)));
    assert!(!passes(full_unit(0, 0, vec![false; 5], 1)));
    assert!(!passes(full_unit(0, 1, vec![true; 5], 1)));
    assert!(!parents_pass(full_unit(4, 1, vec![true; 5], 1)));
}

#[test]
fn a_sound_alert_is_accepted() {
    assert!(accepts(&valid_alert()));
    let mut bare = valid_alert();
    bare.legit_units = vec![];
    assert!(accepts(&bare));
}

#[test]
fn an_alert_with_too_many_units_is_rejected() {
    let mut full = valid_alert();
    full.legit_units = (0..MAX_UNITS_ALERT as u64)
        .map(|r| sent(full_unit(2, r, if r == 0 { no_parents() } else { three() }, 1)))
        .collect();
    assert_eq!(full.legit_units.len(), 200);
    assert!(accepts(&full));
    full.legit_units.push(sent(full_unit(2, 200, three(), 1)));
    assert!(!accepts(&full));
}

#[test]
fn an_alert_with_two_units_of_one_round_is_rejected() {
    let mut a = valid_alert();
    a.legit_units.push(sent(full_unit(2, 5, three(), 4)));
    assert!(!accepts(&a));
}

#[test]
fn an_alert_with_a_unit_by_another_creator_is_rejected() {
    let mut a = valid_alert();
    a.legit_units.push(sent(full_unit(1, 6, vec![true; 4], 4)));
    assert!(!accepts(&a));
}

#[test]
fn an_alert_with_a_unit_that_is_not_valid_is_rejected() {
    let mut a = valid_alert();
    a.legit_units.push(sent(full_unit(2, 6, vec![true, true, false, false], 4)));
    assert!(!accepts(&a));
}

#[test]
fn an_alert_with_a_bad_signature_is_rejected() {
    let mut a = valid_alert();
    a.legit_units[0].signature = vec![0, 0];
    assert!(!accepts(&a));
    let mut b = valid_alert();
    b.proof.u2.signature = vec![0, 2];
    assert!(!accepts(&b));
}

#[test]
fn an_alert_on_or_from_a_stranger_is_rejected() {
    let mut a = valid_alert();
    a.sender = 4;
    assert!(!accepts(&a));
    let mut b = valid_alert();
    b.forker = 4;
    assert!(!accepts(&b));
}

#[test]
fn a_proof_must_show_two_units_of_one_round_by_the_forker() {
    let mut same = valid_alert();
    same.proof.u2 = same.proof.u1.clone();
    assert!(!accepts(&same));
    let mut rounds = valid_alert();
    rounds.proof.u2 = sent(full_unit(2, 2, three(), 2));
    assert!(!accepts(&rounds));
    let mut other = valid_alert();
    other.forker = 1;
    other.legit_units = vec![];
    assert!(!accepts(&other));
    let mut broken = valid_alert();
    broken.proof.u1 = sent(full_unit(2, 1, vec![true, false, true, false], 1));
    broken.proof.u2 = sent(full_unit(2, 1, vec![true, false, true, false], 2));
    assert!(!accepts(&broken));
}

#[test]
fn checked_alert_keeps_the_units_and_takes_their_hashes() {
    let kb = TagBox { me: 0 };
    let m = Member::new(&kb, Fnv, config(0));
    let a = valid_alert();
    let checked = m.check_alert(&a).unwrap();
    assert_eq!(checked.sender, 1);
    assert_eq!(checked.forker, 2);
    assert_eq!(checked.u1.hash, hash_of(&a.proof.u1.signable));
    assert_eq!(checked.u2.unit.as_unchecked(), &a.proof.u2);
    assert_eq!(checked.legit_units.len(), 2);
    assert_eq!(checked.legit_units[1].hash, hash_of(&a.legit_units[1].signable));
    assert!(m.validate_checked_alert(&checked));
    assert!(m.validate_fork_proof(2, &checked.u1, &checked.u2));
    assert!(!m.validate_fork_proof(1, &checked.u1, &checked.u2));
    assert!(m.validate_alerted_units(2, &checked.legit_units));
    assert!(!m.validate_alerted_units(3, &checked.legit_units));
    let hu: Option<HashedUnit<'_, TagBox>> = m.check_unit(a.proof.u1.clone());
    assert_eq!(hu.unwrap().hash, checked.u1.hash);
}
