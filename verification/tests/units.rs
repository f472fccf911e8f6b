use member_core::units::{parent_flags, parent_map_bytes, HashedUnit, Unit, UnitCoord};
use member_core::{threshold, MAX_ROUND};
use member_core::signed::Signed;
use member_core::units::{ControlHash, FullUnit, PreUnit, UncheckedSignedUnit};
use member_core::{Hasher, KeyBox};

struct TagBox {
    me: usize,
}

fn tag(msg: &[u8], signer: usize) -> Vec<u8> {
    let mut acc: u8 = 17;
    for b in msg {
        acc = acc.wrapping_mul(31).wrapping_add(*b);
    }
    vec![acc, signer as u8]
}

impl KeyBox for TagBox {
    fn sign(&self, msg: &[u8]) -> Vec<u8> {
        tag(msg, self.me)
    }

    fn verify(&self, msg: &[u8], signature: &[u8], signer: usize) -> bool {
        tag(msg, signer) == signature
    }

    fn index(&self) -> Option<usize> {
        Some(self.me)
    }
}

struct Fnv;

impl Hasher for Fnv {
    fn hash(&self, bytes: &[u8]) -> u64 {
        let mut h: u64 = 0xcbf29ce484222325;
        for b in bytes {
            h ^= *b as u64;
            h = h.wrapping_mul(0x100000001b3);
        }
        h
    }
}

const SESSION: u64 = 7;

fn no_parents() -> Vec<bool> {
    vec![false; 4]
}

fn full_unit(creator: usize, round: u64, parents: Vec<bool>, data: u8) -> FullUnit {
    FullUnit {
        inner: PreUnit { creator, round, control_hash: ControlHash { parents, hash: 0 } },
        data: vec![data],
        session_id: SESSION,
    }
}

fn sent(unit: FullUnit) -> UncheckedSignedUnit {
    let kb = TagBox { me: unit.inner.creator };
    Signed::sign(&kb, unit).into_unchecked()
}

fn hash_of(unit: &FullUnit) -> u64 {
    unit.hash(&Fnv)
}

#[test]
fn threshold_is_two_thirds_plus_one() {
    assert_eq!(threshold(0), 1);
    assert_eq!(threshold(1), 1);
    assert_eq!(threshold(2), 2);
    assert_eq!(threshold(3), 3);
    assert_eq!(threshold(4), 3);
    assert_eq!(threshold(7), 5);
    assert_eq!(threshold(100), 67);
    assert_eq!(threshold(usize::MAX), (((usize::MAX as u128) * 2) / 3 + 1) as usize);
    assert_eq!(MAX_ROUND, 5000);
}

#[test]
fn control_hash_counts_parents() {
    let ch = ControlHash { parents: vec![true, false, true, true], hash: 1 };
    assert_eq!(ch.n_parents(), 3);
    assert_eq!(ch.n_members(), 4);
    let none = ControlHash { parents: vec![], hash: 1 };
    assert_eq!(none.n_parents(), 0);
    assert_eq!(none.n_members(), 0);
}

#[test]
fn control_hash_of_a_parent_map() {
    let map = vec![Some(5u64), None, Some(6u64)];
    let mut want: Vec<u8> = Vec::new();
    want.extend_from_slice(&3u64.to_le_bytes());
    want.push(1);
    want.extend_from_slice(&5u64.to_le_bytes());
    want.push(0);
    want.push(1);
    want.extend_from_slice(&6u64.to_le_bytes());
    assert_eq!(parent_map_bytes(&map), want);
    assert_eq!(parent_flags(&map), vec![true, false, true]);
    let ch = ControlHash::new(&map, &Fnv);
    assert_eq!(ch.parents, vec![true, false, true]);
    assert_eq!(ch.hash, Fnv.hash(&want));
    assert_eq!(ControlHash::combine_hashes(&map, &Fnv), Fnv.hash(&want));
}

#[test]
fn pre_unit_from_parents() {
    let map = vec![Some(5u64), Some(7u64), None, Some(6u64)];
    let pu = PreUnit::new_from_parents(3, 2, &map, &Fnv);
    assert_eq!(pu.creator(), 3);
    assert_eq!(pu.round(), 2);
    assert_eq!(pu.n_parents(), 3);
    assert_eq!(pu.n_members(), 4);
    assert_eq!(pu.control_hash.hash, ControlHash::combine_hashes(&map, &Fnv));
}

#[test]
fn unit_from_pre_unit() {
    let pu = PreUnit {
        creator: 1,
        round: 4,
        control_hash: ControlHash { parents: vec![true, true, true, false], hash: 9 },
    };
    let u = Unit::new_from_preunit(pu.clone(), 77);
    assert_eq!(u.hash(), 77);
    assert_eq!(u.creator(), 1);
    assert_eq!(u.round(), 4);
    assert_eq!(u.control_hash, pu.control_hash);
    assert_eq!(u.coord(), UnitCoord { creator: 1, round: 4 });
    assert_eq!(UnitCoord::new(4, 1), UnitCoord { creator: 1, round: 4 });
}

#[test]
fn full_unit_accessors() {
    let u = full_unit(2, 3, vec![true, true, true, false], 8);
    assert_eq!(u.creator(), 2);
    assert_eq!(u.round(), 3);
    assert_eq!(u.coord(), UnitCoord { creator: 2, round: 3 });
}

#[test]
fn hashed_unit_carries_the_digest_of_the_signed_bytes() {
    let kb = TagBox { me: 2 };
    let unit = full_unit(2, 3, vec![true, true, true, false], 8);
    let want = hash_of(&unit);
    let hu = HashedUnit::new(Signed::sign(&kb, unit.clone()), &Fnv);
    assert_eq!(hu.hash, want);
    assert_eq!(hu.creator(), 2);
    assert_eq!(hu.round(), 3);
    assert_eq!(hu.coord(), UnitCoord { creator: 2, round: 3 });
    assert_eq!(hu.unit.n_parents(), 3);
    assert_eq!(hu.unit.n_members(), 4);
    let light = hu.to_unit();
    assert_eq!(
        light,
        Unit { creator: 2, round: 3, hash: want, control_hash: unit.inner.control_hash.clone() }
    );
    let copy = hu.clone();
    assert_eq!(copy.hash, want);
    assert_eq!(copy.unit.as_unchecked(), hu.unit.as_unchecked());
}
