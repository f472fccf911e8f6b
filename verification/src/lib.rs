//! The member core of an asynchronous Byzantine-fault-tolerant consensus
//! session: the unit model, the per-session unit store, fork alerts, the task
//! scheduler and the reactor that ties them together. The reactor is a state
//! machine: each handler takes an event and leaves the commands to carry out in
//! an outbox.

use vstd::prelude::*;

pub mod bft;
pub mod member;
pub mod member_model;
pub mod messages;
pub mod scheduler;
pub mod signed;
pub mod store;
pub mod store_model;
pub mod units;
pub mod wire;

verus! {

/// The position of an authority in the session's list.
pub type NodeIndex = usize;

/// A number of authorities.
pub type NodeCount = usize;

/// A layer of the DAG.
pub type Round = u64;

/// The digest of a unit or of a list of parents.
pub type HashValue = u64;

/// The largest round a unit may carry.
pub const MAX_ROUND: u64 = 5000;

/// The quorum size for `n_members` authorities: two thirds of them, rounded down, plus one.
pub open spec fn spec_threshold(n_members: nat) -> nat {
    (2 * n_members) / 3 + 1
}

/// Computes the quorum size for `n_members` authorities.
pub fn threshold(n_members: NodeCount) -> (t: NodeCount)
    ensures
        t == spec_threshold(n_members as nat),
{
    let doubled: u128 = 2 * (n_members as u128);
    let t: u128 = doubled / 3 + 1;
    t as usize
}

/// A digest of byte strings, supplied by the host. The library takes each
/// digest once and carries it with the value it was taken of; `digest_is`
/// says of which bytes a digest was taken.
pub trait Hasher {
    fn hash(&self, bytes: &[u8]) -> HashValue;
}

/// The session's signing capability, supplied by the host: it signs with the
/// local key and verifies against the list of authorities. `signature_is`
/// and `verdict_is` say what a key box was asked and what it answered.
pub trait KeyBox {
    /// Signs `msg` with the local key.
    fn sign(&self, msg: &[u8]) -> Vec<u8>;

    /// Tells whether `signature` is the authority `signer`'s signature of `msg`.
    fn verify(&self, msg: &[u8], signature: &[u8], signer: NodeIndex) -> bool;

    /// The local authority's index, where the box holds a secret key.
    fn index(&self) -> Option<NodeIndex>;
}

/// `digest` is what `hashing` gave as the digest of `bytes`.
pub open spec fn digest_is<H: Hasher>(hashing: &H, bytes: Seq<u8>, digest: HashValue) -> bool {
    exists|b: &[u8]| b@ == bytes && #[trigger] call_ensures(H::hash, (hashing, b), digest)
}

/// `signature` is what `key_box` gave as its signature of `msg`.
pub open spec fn signature_is<KB: KeyBox>(key_box: &KB, msg: Seq<u8>, signature: Seq<u8>) -> bool {
    exists|m: &[u8], s: Vec<u8>|
        m@ == msg && s@ == signature && #[trigger] call_ensures(KB::sign, (key_box, m), s)
}

/// `verdict` is what `key_box` said when asked whether `signature` is the
/// authority `signer`'s signature of `msg`.
pub open spec fn verdict_is<KB: KeyBox>(
    key_box: &KB,
    msg: Seq<u8>,
    signature: Seq<u8>,
    signer: NodeIndex,
    verdict: bool,
) -> bool {
    exists|m: &[u8], s: &[u8]|
        m@ == msg && s@ == signature && #[trigger] call_ensures(
            KB::verify,
            (key_box, m, s, signer),
            verdict,
        )
}

} // verus!
