use member_core::signed::{Signable, UncheckedSigned};
use member_core::signed::Signed;
use member_core::units::{ControlHash, FullUnit, PreUnit, UncheckedSignedUnit};
use member_core::{Hasher, KeyBox};

struct TagBox {
    me: usize,
}

fn tag(msg: &[u8], signer: usize) -> Vec<u8> {
    let mut acc: u8 = 17;
    for b in msg {
        acc = acc.wrapping_mul(31).wrapping_add(*b);
    }
    vec![acc, signer as u8]
}

impl KeyBox for TagBox {
    fn sign(&self, msg: &[u8]) -> Vec<u8> {
        tag(msg, self.me)
    }

    fn verify(&self, msg: &[u8], signature: &[u8], signer: usize) -> bool {
        tag(msg, signer) == signature
    }

    fn index(&self) -> Option<usize> {
        Some(self.me)
    }
}

struct Fnv;

impl Hasher for Fnv {
    fn hash(&self, bytes: &[u8]) -> u64 {
        let mut h: u64 = 0xcbf29ce484222325;
        for b in bytes {
            h ^= *b as u64;
            h = h.wrapping_mul(0x100000001b3);
        }
        h
    }
}

const SESSION: u64 = 7;

fn no_parents() -> Vec<bool> {
    vec![false; 4]
}

fn full_unit(creator: usize, round: u64, parents: Vec<bool>, data: u8) -> FullUnit {
    FullUnit {
        inner: PreUnit { creator, round, control_hash: ControlHash { parents, hash: 0 } },
        data: vec![data],
        session_id: SESSION,
    }
}

fn sent(unit: FullUnit) -> UncheckedSignedUnit {
    let kb = TagBox { me: unit.inner.creator };
    Signed::sign(&kb, unit).into_unchecked()
}

fn hash_of(unit: &FullUnit) -> u64 {
    unit.hash(&Fnv)
}

#[test]
fn sign_then_from_accepts() {
    let kb = TagBox { me: 2 };
    let signed = Signed::sign(&kb, full_unit(2, 0, no_parents(), 1));
    assert!(signed.verify());
    assert_eq!(signed.signature(), &tag(&full_unit(2, 0, no_parents(), 1).bytes_to_sign(), 2));
    let unchecked = signed.into_unchecked();
    let again = Signed::from(unchecked, &kb);
    assert!(again.is_some());
    assert_eq!(again.unwrap().signed().inner.creator, 2);
}

#[test]
fn from_rejects_a_signature_by_another_key() {
    let kb = TagBox { me: 1 };
    let signed = Signed::sign(&kb, full_unit(2, 0, no_parents(), 1));
    assert!(!signed.verify());
    let unchecked: UncheckedSigned<FullUnit> = signed.into_unchecked();
    assert!(Signed::from(unchecked, &kb).is_none());
}

#[test]
fn from_rejects_changed_data() {
    let kb = TagBox { me: 0 };
    let mut unchecked = sent(full_unit(2, 0, no_parents(), 1));
    unchecked.signable.data = vec![2];
    assert!(Signed::from(unchecked, &kb).is_none());
}

#[test]
fn bytes_to_sign_layout() {
    let u = full_unit(3, 5, no_parents(), 9);
    let bytes = u.bytes_to_sign();
    let mut want: Vec<u8> = Vec::new();
    want.extend_from_slice(&3u64.to_le_bytes());
    want.extend_from_slice(&5u64.to_le_bytes());
    want.extend_from_slice(&4u64.to_le_bytes());
    want.extend_from_slice(&[0, 0, 0, 0]);
    want.extend_from_slice(&0u64.to_le_bytes());
    want.extend_from_slice(&1u64.to_le_bytes());
    want.push(9);
    want.extend_from_slice(&SESSION.to_le_bytes());
    assert_eq!(bytes, want);
    assert_eq!(hash_of(&u), Fnv.hash(&want));
    assert_eq!(u.index(), 3);
}

#[test]
fn signed_clone_keeps_payload_and_signature() {
    let kb = TagBox { me: 1 };
    let signed = Signed::sign(&kb, full_unit(1, 0, no_parents(), 4));
    let copy = signed.clone();
    assert_eq!(copy.as_unchecked(), signed.as_unchecked());
    assert!(copy.verify_signature(&kb));
}
