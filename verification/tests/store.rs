use member_core::store::UnitStore;
use member_core::units::{HashedUnit, UnitCoord};
use member_core::signed::Signed;
use member_core::units::{ControlHash, FullUnit, PreUnit, UncheckedSignedUnit};
use member_core::{Hasher, KeyBox};

struct TagBox {
    me: usize,
}

fn tag(msg: &[u8], signer: usize) -> Vec<u8> {
    let mut acc: u8 = 17;
    for b in msg {
        acc = acc.wrapping_mul(31).wrapping_add(*b);
    }
    vec![acc, signer as u8]
}

impl KeyBox for TagBox {
    fn sign(&self, msg: &[u8]) -> Vec<u8> {
        tag(msg, self.me)
    }

    fn verify(&self, msg: &[u8], signature: &[u8], signer: usize) -> bool {
        tag(msg, signer) == signature
    }

    fn index(&self) -> Option<usize> {
        Some(self.me)
    }
}

struct Fnv;

impl Hasher for Fnv {
    fn hash(&self, bytes: &[u8]) -> u64 {
        let mut h: u64 = 0xcbf29ce484222325;
        for b in bytes {
            h ^= *b as u64;
            h = h.wrapping_mul(0x100000001b3);
        }
        h
    }
}

const SESSION: u64 = 7;

fn no_parents() -> Vec<bool> {
    vec![false; 4]
}

fn full_unit(creator: usize, round: u64, parents: Vec<bool>, data: u8) -> FullUnit {
    FullUnit {
        inner: PreUnit { creator, round, control_hash: ControlHash { parents, hash: 0 } },
        data: vec![data],
        session_id: SESSION,
    }
}

fn sent(unit: FullUnit) -> UncheckedSignedUnit {
    let kb = TagBox { me: unit.inner.creator };
    Signed::sign(&kb, unit).into_unchecked()
}

fn hash_of(unit: &FullUnit) -> u64 {
    unit.hash(&Fnv)
}

fn hashed<'a>(kb: &'a TagBox, creator: usize, round: u64, data: u8) -> HashedUnit<'a, TagBox> {
    let parents = if round == 0 { no_parents() } else { vec![true; 4] };
    HashedUnit::new(Signed::sign(kb, full_unit(creator, round, parents, data)), &Fnv)
}

fn hashes(units: &[HashedUnit<'_, TagBox>]) -> Vec<u64> {
    units.iter().map(|u| u.hash).collect()
}

#[test]
fn a_new_store_is_empty() {
    let store: UnitStore<'_, TagBox> = UnitStore::new(4, 3);
    assert_eq!(store.get_round_in_progress(), 0);
    assert_eq!(store.n_members(), 4);
    assert_eq!(store.limit_per_node(), 5000);
    assert!(!store.is_forker(0));
    assert!(!store.contains_coord(&UnitCoord { creator: 0, round: 0 }));
    assert!(!store.contains_hash(&1));
    assert!(store.get_parents(1).is_none());
}

#[test]
fn units_in_range_go_to_the_buffer() {
    let kb = TagBox { me: 0 };
    let mut store = UnitStore::new(4, 3);
    let u = hashed(&kb, 1, 0, 1);
    let h = u.hash;
    store.add_unit(u, false);
    assert!(store.contains_hash(&h));
    assert!(store.contains_coord(&UnitCoord { creator: 1, round: 0 }));
    assert_eq!(store.unit_by_hash(&h).unwrap().hash, h);
    assert_eq!(store.unit_by_coord(UnitCoord { creator: 1, round: 0 }).unwrap().hash, h);
    assert_eq!(hashes(&store.yield_buffer_units()), vec![h]);
}

#[test]
fn yield_twice_gives_nothing_the_second_time() {
    let kb = TagBox { me: 0 };
    let mut store = UnitStore::new(4, 3);
    store.add_unit(hashed(&kb, 1, 0, 1), false);
    store.add_unit(hashed(&kb, 2, 0, 1), false);
    assert_eq!(store.yield_buffer_units().len(), 2);
    assert_eq!(store.yield_buffer_units().len(), 0);
}

#[test]
fn a_stored_unit_added_again_changes_nothing() {
    let kb = TagBox { me: 0 };
    let mut store = UnitStore::new(4, 3);
    store.add_unit(hashed(&kb, 0, 0, 1), false);
    store.add_unit(hashed(&kb, 1, 0, 1), false);
    store.add_unit(hashed(&kb, 1, 0, 1), false);
    store.add_unit(hashed(&kb, 1, 0, 1), false);
    assert_eq!(store.get_round_in_progress(), 0);
    assert_eq!(store.yield_buffer_units().len(), 2);
    store.add_unit(hashed(&kb, 1, 0, 1), false);
    assert_eq!(store.yield_buffer_units().len(), 0);
}

#[test]
fn a_quorum_at_round_zero_starts_round_one() {
    let kb = TagBox { me: 0 };
    let mut store = UnitStore::new(4, 3);
    let late3 = hashed(&kb, 3, 1, 1);
    let late0 = hashed(&kb, 0, 1, 1);
    let far = hashed(&kb, 1, 2, 1);
    let (h3, h0) = (late3.hash, late0.hash);
    store.add_unit(late3, false);
    store.add_unit(late0, false);
    store.add_unit(far, false);
    assert_eq!(store.yield_buffer_units().len(), 0);
    let a = hashed(&kb, 2, 0, 1);
    let b = hashed(&kb, 0, 0, 1);
    let c = hashed(&kb, 1, 0, 1);
    let (ha, hb, hc) = (a.hash, b.hash, c.hash);
    store.add_unit(a, false);
    assert_eq!(store.get_round_in_progress(), 0);
    store.add_unit(b, false);
    assert_eq!(store.get_round_in_progress(), 0);
    store.add_unit(c, false);
    assert_eq!(store.get_round_in_progress(), 1);
    assert_eq!(hashes(&store.yield_buffer_units()), vec![ha, hb, hc, h0, h3]);
}

#[test]
fn several_rounds_are_crossed_at_once() {
    let kb = TagBox { me: 0 };
    let mut store = UnitStore::new(4, 3);
    let mut want = Vec::new();
    for creator in 0..3 {
        store.add_unit(hashed(&kb, creator, 1, 1), false);
    }
    for creator in 0..2 {
        let u = hashed(&kb, creator, 0, 1);
        want.push(u.hash);
        store.add_unit(u, false);
    }
    let last = hashed(&kb, 3, 0, 1);
    want.push(last.hash);
    let two = hashed(&kb, 3, 2, 9);
    let h_two = two.hash;
    store.add_unit(two, false);
    store.add_unit(last, false);
    assert_eq!(store.get_round_in_progress(), 2);
    for creator in 0..3 {
        want.push(hashed(&kb, creator, 1, 1).hash);
    }
    want.push(h_two);
    assert_eq!(hashes(&store.yield_buffer_units()), want);
}

#[test]
fn the_first_unit_keeps_its_position() {
    let kb = TagBox { me: 0 };
    let mut store = UnitStore::new(4, 3);
    let first = hashed(&kb, 2, 0, 1);
    let second = hashed(&kb, 2, 0, 2);
    let (h1, h2) = (first.hash, second.hash);
    store.add_unit(first, false);
    assert_eq!(store.is_new_fork(&hashed(&kb, 2, 0, 1)).map(|u| u.hash), None);
    assert_eq!(store.is_new_fork(&hashed(&kb, 2, 0, 2)).map(|u| u.hash), Some(h1));
    assert_eq!(store.is_new_fork(&hashed(&kb, 1, 0, 2)).map(|u| u.hash), None);
    store.mark_forker(2);
    store.add_unit(second, true);
    assert!(store.contains_hash(&h2));
    assert_eq!(store.unit_by_coord(UnitCoord { creator: 2, round: 0 }).unwrap().hash, h1);
    assert_eq!(hashes(&store.yield_buffer_units()), vec![h1, h2]);
}

#[test]
fn marking_a_forker_clears_what_was_not_in_range() {
    let kb = TagBox { me: 0 };
    let mut store = UnitStore::new(4, 3);
    let zero = hashed(&kb, 2, 0, 1);
    let one = hashed(&kb, 2, 1, 1);
    let nine = hashed(&kb, 2, 9, 1);
    let other = hashed(&kb, 1, 9, 1);
    let (h0, h1, h9, ho) = (zero.hash, one.hash, nine.hash, other.hash);
    store.add_unit(zero, false);
    store.add_unit(one, false);
    store.add_unit(nine, false);
    store.add_unit(other, false);
    store.add_parents(h1, vec![h0]);
    store.add_parents(h0, vec![]);
    assert!(!store.is_forker(2));
    let reported = store.mark_forker(2);
    assert!(store.is_forker(2));
    assert!(!store.is_forker(1));
    assert_eq!(hashes(&reported), vec![h0]);
    assert!(store.contains_hash(&h0));
    assert!(!store.contains_hash(&h1));
    assert!(!store.contains_hash(&h9));
    assert!(store.contains_hash(&ho));
    assert!(!store.contains_coord(&UnitCoord { creator: 2, round: 1 }));
    assert!(!store.contains_coord(&UnitCoord { creator: 2, round: 9 }));
    assert!(store.contains_coord(&UnitCoord { creator: 1, round: 9 }));
    assert!(store.get_parents(h1).is_none());
    assert_eq!(store.get_parents(h0), Some(&vec![]));
    assert_eq!(store.get_round_in_progress(), 0);
}

#[test]
fn marking_a_forker_reports_units_by_increasing_round() {
    let kb = TagBox { me: 0 };
    let mut store = UnitStore::new(4, 3);
    let mut want = Vec::new();
    for round in 0..3u64 {
        for creator in [2usize, 0, 1] {
            let u = hashed(&kb, creator, round, 1);
            if creator == 2 {
                want.push(u.hash);
            }
            store.add_unit(u, false);
        }
    }
    assert_eq!(store.get_round_in_progress(), 3);
    store.add_unit(hashed(&kb, 2, 4, 1), false);
    assert_eq!(hashes(&store.mark_forker(2)), want);
    assert_eq!(hashes(&store.mark_forker(2)), want);
}

#[test]
fn units_of_a_forker_wait_for_an_alert() {
    let kb = TagBox { me: 0 };
    let mut store = UnitStore::new(4, 3);
    store.mark_forker(3);
    store.add_unit(hashed(&kb, 3, 0, 1), false);
    assert_eq!(store.yield_buffer_units().len(), 0);
    let alerted = hashed(&kb, 3, 1, 1);
    let h = alerted.hash;
    store.add_unit(alerted, true);
    assert_eq!(hashes(&store.yield_buffer_units()), vec![h]);
    store.add_unit(hashed(&kb, 0, 0, 1), false);
    store.add_unit(hashed(&kb, 1, 0, 1), false);
    assert_eq!(store.get_round_in_progress(), 1);
    assert_eq!(store.yield_buffer_units().len(), 2);
}

#[test]
fn parents_are_kept_by_hash() {
    let mut store: UnitStore<'_, TagBox> = UnitStore::new(4, 3);
    store.add_parents(5, vec![1, 2, 3]);
    assert_eq!(store.get_parents(5), Some(&vec![1, 2, 3]));
    store.add_parents(5, vec![4]);
    assert_eq!(store.get_parents(5), Some(&vec![4]));
    assert!(store.get_parents(6).is_none());
}

#[test]
fn positions_far_out_are_told_apart() {
    let kb = TagBox { me: 0 };
    let mut store = UnitStore::new(4, 3);
    store.add_unit(hashed(&kb, 1, 0, 1), false);
    assert!(!store.contains_coord(&UnitCoord { creator: 1, round: u64::MAX }));
    assert!(!store.contains_coord(&UnitCoord { creator: usize::MAX, round: 0 }));
    assert!(!store.contains_coord(&UnitCoord { creator: 0, round: 1 }));
    assert!(store.unit_by_coord(UnitCoord { creator: 1, round: 1 << 32 }).is_none());
}
