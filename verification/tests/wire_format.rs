use member_core::bft::{Alert, ForkProof};
use member_core::messages::ConsensusMessage;
use member_core::units::UnitCoord;
use member_core::wire::{
    put_bools, put_bytes, put_u64, put_usize, read_bools, read_bytes, read_u64, read_usize,
};
use member_core::signed::{Signable, Signed};
use member_core::units::{ControlHash, FullUnit, PreUnit, UncheckedSignedUnit};
use member_core::{Hasher, KeyBox};

struct TagBox {
    me: usize,
}

fn tag(msg: &[u8], signer: usize) -> Vec<u8> {
    let mut acc: u8 = 17;
    for b in msg {
        acc = acc.wrapping_mul(31).wrapping_add(*b);
    }
    vec![acc, signer as u8]
}

impl KeyBox for TagBox {
    fn sign(&self, msg: &[u8]) -> Vec<u8> {
        tag(msg, self.me)
    }

    fn verify(&self, msg: &[u8], signature: &[u8], signer: usize) -> bool {
        tag(msg, signer) == signature
    }

    fn index(&self) -> Option<usize> {
        Some(self.me)
    }
}

struct Fnv;

impl Hasher for Fnv {
    fn hash(&self, bytes: &[u8]) -> u64 {
        let mut h: u64 = 0xcbf29ce484222325;
        for b in bytes {
            h ^= *b as u64;
            h = h.wrapping_mul(0x100000001b3);
        }
        h
    }
}

const SESSION: u64 = 7;

fn no_parents() -> Vec<bool> {
    vec![false; 4]
}

fn full_unit(creator: usize, round: u64, parents: Vec<bool>, data: u8) -> FullUnit {
    FullUnit {
        inner: PreUnit { creator, round, control_hash: ControlHash { parents, hash: 0 } },
        data: vec![data],
        session_id: SESSION,
    }
}

fn sent(unit: FullUnit) -> UncheckedSignedUnit {
    let kb = TagBox { me: unit.inner.creator };
    Signed::sign(&kb, unit).into_unchecked()
}

fn hash_of(unit: &FullUnit) -> u64 {
    unit.hash(&Fnv)
}

fn round_trip(m: ConsensusMessage) {
    let bytes = m.encode();
    assert_eq!(ConsensusMessage::decode(&bytes), Some(m));
}

fn alert() -> Alert {
    Alert {
        sender: 1,
        forker: 2,
        proof: ForkProof {
            u1: sent(full_unit(2, 0, no_parents(), 1)),
            u2: sent(full_unit(2, 0, no_parents(), 2)),
        },
        legit_units: vec![
            sent(full_unit(2, 0, no_parents(), 1)),
            sent(full_unit(2, 1, vec![true, true, true, false], 3)),
        ],
    }
}

#[test]
fn integers_are_written_least_significant_byte_first() {
    let mut out = vec![9u8];
    put_u64(&mut out, 0x0102030405060708);
    assert_eq!(out, vec![9, 8, 7, 6, 5, 4, 3, 2, 1]);
    put_usize(&mut out, 258);
    assert_eq!(&out[9..], &[2, 1, 0, 0, 0, 0, 0, 0]);
    assert_eq!(read_u64(&out, 1), Some((0x0102030405060708, 9)));
    assert_eq!(read_usize(&out, 9), Some((258, 17)));
    assert_eq!(read_u64(&out, 10), None);
    assert_eq!(read_u64(&out, 17), None);
}

#[test]
fn byte_strings_carry_their_length() {
    let mut out = Vec::new();
    put_bytes(&mut out, &vec![5, 6, 7]);
    assert_eq!(out, vec![3, 0, 0, 0, 0, 0, 0, 0, 5, 6, 7]);
    assert_eq!(read_bytes(&out, 0), Some((vec![5, 6, 7], 11)));
    assert_eq!(read_bytes(&out[..10], 0), None);
    let mut empty = Vec::new();
    put_bytes(&mut empty, &vec![]);
    assert_eq!(read_bytes(&empty, 0), Some((vec![], 8)));
    let huge = vec![255u8; 8];
    assert_eq!(read_bytes(&huge, 0), None);
}

#[test]
fn booleans_are_one_byte_each() {
    let mut out = Vec::new();
    put_bools(&mut out, &vec![true, false, true]);
    assert_eq!(out, vec![3, 0, 0, 0, 0, 0, 0, 0, 1, 0, 1]);
    assert_eq!(read_bools(&out, 0), Some((vec![true, false, true], 11)));
    let mut bad = out.clone();
    bad[9] = 2;
    assert_eq!(read_bools(&bad, 0), None);
    assert_eq!(read_bools(&out[..10], 0), None);
}

#[test]
fn request_coord_bytes() {
    let m = ConsensusMessage::RequestCoord(UnitCoord { creator: 3, round: 0 });
    let mut want = vec![1u8];
    want.extend_from_slice(&3u64.to_le_bytes());
    want.extend_from_slice(&0u64.to_le_bytes());
    assert_eq!(m.encode(), want);
}

#[test]
fn request_parents_bytes() {
    let m = ConsensusMessage::RequestParents(0x1122334455667788);
    assert_eq!(m.encode(), vec![3, 0x88, 0x77, 0x66, 0x55, 0x44, 0x33, 0x22, 0x11]);
}

#[test]
fn new_unit_bytes() {
    let u = sent(full_unit(2, 0, no_parents(), 5));
    let mut want = vec![0u8];
    want.extend_from_slice(&u.signable.bytes_to_sign());
    want.extend_from_slice(&2u64.to_le_bytes());
    want.extend_from_slice(&u.signature);
    assert_eq!(ConsensusMessage::NewUnit(u).encode(), want);
}

#[test]
fn every_kind_of_message_survives_the_wire() {
    round_trip(ConsensusMessage::NewUnit(sent(full_unit(2, 0, no_parents(), 5))));
    round_trip(ConsensusMessage::RequestCoord(UnitCoord { creator: 3, round: 17 }));
    round_trip(ConsensusMessage::ResponseCoord(sent(full_unit(
        1,
        4,
        vec![true, true, false, true],
        0,
    ))));
    round_trip(ConsensusMessage::RequestParents(u64::MAX));
    round_trip(ConsensusMessage::ResponseParents(
        12,
        vec![
            sent(full_unit(0, 0, no_parents(), 1)),
            sent(full_unit(1, 0, no_parents(), 2)),
            sent(full_unit(2, 0, no_parents(), 3)),
        ],
    ));
    round_trip(ConsensusMessage::ResponseParents(12, vec![]));
    round_trip(ConsensusMessage::ForkAlert(alert()));
}

#[test]
fn bytes_after_a_message_are_ignored() {
    let m = ConsensusMessage::RequestParents(5);
    let mut bytes = m.encode();
    bytes.extend_from_slice(&[1, 2, 3]);
    assert_eq!(ConsensusMessage::decode(&bytes), Some(m));
}

#[test]
fn what_is_no_message_is_not_decoded() {
    assert_eq!(ConsensusMessage::decode(&[]), None);
    assert_eq!(ConsensusMessage::decode(&[6, 0, 0, 0, 0, 0, 0, 0, 0]), None);
    assert_eq!(ConsensusMessage::decode(&[3, 1, 2]), None);
    let full = ConsensusMessage::ForkAlert(alert()).encode();
    for cut in 0..full.len() {
        assert_eq!(ConsensusMessage::decode(&full[..cut]), None);
    }
    let mut many = vec![4u8];
    many.extend_from_slice(&1u64.to_le_bytes());
    many.extend_from_slice(&u64::MAX.to_le_bytes());
    assert_eq!(ConsensusMessage::decode(&many), None);
}
