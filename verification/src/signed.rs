//! The cryptographic envelope: a payload with a signature, unchecked as it
//! comes from the network, or checked against a key box.

use crate::{digest_is, signature_is, verdict_is, HashValue, Hasher, KeyBox, NodeIndex};
use vstd::prelude::*;

verus! {

/// A payload that can be signed: it gives the bytes that a signature covers
/// and the authority that is expected to have signed it.
pub trait Signable {
    /// The bytes that a signature covers.
    fn bytes_to_sign(&self) -> Vec<u8>;

    /// The authority expected to have signed.
    fn index(&self) -> NodeIndex;
}

/// `bytes` is what the payload gave as the bytes to sign.
pub open spec fn payload_bytes<T: Signable>(payload: &T, bytes: Seq<u8>) -> bool {
    exists|b: Vec<u8>| b@ == bytes && #[trigger] call_ensures(T::bytes_to_sign, (payload,), b)
}

/// `signer` is whom the payload named as its signer.
pub open spec fn payload_signer<T: Signable>(payload: &T, signer: NodeIndex) -> bool {
    call_ensures(T::index, (payload,), signer)
}

/// `key_box` made the signature of `unchecked` over the payload's bytes.
pub open spec fn signed_by<T: Signable, KB: KeyBox>(key_box: &KB, unchecked: UncheckedSigned<T>)
    -> bool {
    exists|bytes: Seq<u8>|
        payload_bytes(&unchecked.signable, bytes) && #[trigger] signature_is(
            key_box,
            bytes,
            unchecked.signature@,
        )
}

/// `verdict` is what `key_box` said of the signature of `unchecked`, asked
/// whether it is the signature of the payload's signer over the payload's bytes.
pub open spec fn accepted<T: Signable, KB: KeyBox>(
    key_box: &KB,
    unchecked: UncheckedSigned<T>,
    verdict: bool,
) -> bool {
    exists|bytes: Seq<u8>, signer: NodeIndex|
        payload_bytes(&unchecked.signable, bytes) && payload_signer(&unchecked.signable, signer)
            && #[trigger] verdict_is(key_box, bytes, unchecked.signature@, signer, verdict)
}

/// `digest` is what `hashing` gave as the digest of the payload's bytes.
pub open spec fn payload_digest<T: Signable, H: Hasher>(
    payload: &T,
    hashing: &H,
    digest: HashValue,
) -> bool {
    exists|bytes: Seq<u8>| payload_bytes(payload, bytes) && #[trigger] digest_is(
        hashing,
        bytes,
        digest,
    )
}

/// A payload and a signature of which nothing is known yet.
#[derive(Debug, PartialEq, Eq)]
pub struct UncheckedSigned<T> {
    pub signable: T,
    pub signature: Vec<u8>,
}

/// What a signed payload is, apart from its key box.
pub struct SignedView<V> {
    pub signable: V,
    pub signature: Seq<u8>,
}

impl<T: View> View for UncheckedSigned<T> {
    type V = SignedView<T::V>;

    open spec fn view(&self) -> SignedView<T::V> {
        SignedView { signable: self.signable@, signature: self.signature@ }
    }
}

impl<T: Clone> Clone for UncheckedSigned<T> {
    fn clone(&self) -> (res: Self)
        ensures
            cloned::<T>(self.signable, res.signable),
            res.signature@ == self.signature@,
    {
        let signature = self.signature.clone();
        assert(signature@ =~= self.signature@);
        UncheckedSigned { signable: self.signable.clone(), signature }
    }
}

/// A payload with a signature that the key box made or accepted. Only
/// `sign` and `from` build one, so to hold one is to know that the key box
/// vouched for the signature.
pub struct Signed<'a, T: Signable, KB: KeyBox> {
    unchecked: UncheckedSigned<T>,
    key_box: &'a KB,
}

impl<'a, T: Signable + View, KB: KeyBox> View for Signed<'a, T, KB> {
    type V = SignedView<T::V>;

    open spec fn view(&self) -> SignedView<T::V> {
        self.spec_unchecked()@
    }
}

impl<'a, T: Signable + Clone, KB: KeyBox> Clone for Signed<'a, T, KB> {
    fn clone(&self) -> (res: Self)
        ensures
            cloned::<T>(self.spec_unchecked().signable, res.spec_unchecked().signable),
            res.spec_unchecked().signature@ == self.spec_unchecked().signature@,
            res.spec_key_box() == self.spec_key_box(),
    {
        Signed { unchecked: self.unchecked.clone(), key_box: self.key_box }
    }
}

impl<'a, T: Signable, KB: KeyBox> Signed<'a, T, KB> {
    /// The payload and the signature.
    pub closed spec fn spec_unchecked(&self) -> UncheckedSigned<T> {
        self.unchecked
    }

    /// The key box that vouches for the signature.
    pub closed spec fn spec_key_box(&self) -> &'a KB {
        self.key_box
    }

    /// Signs `signable` with the local key of `key_box`.
    pub fn sign(key_box: &'a KB, signable: T) -> (signed: Self)
        ensures
            signed.spec_unchecked().signable == signable,
            signed.spec_key_box() == key_box,
            signed_by(key_box, signed.spec_unchecked()),
    {
        let bytes = signable.bytes_to_sign();
        let signature = key_box.sign(bytes.as_slice());
        let signed = Signed { unchecked: UncheckedSigned { signable, signature }, key_box };
        assert(payload_bytes(&signed.unchecked.signable, bytes@));
        assert(signature_is(key_box, bytes@, signed.unchecked.signature@));
        signed
    }

    /// Has `key_box` verify the signature of `unchecked`. Gives the signed
    /// payload where the key box accepts the signature, and nothing where
    /// it rejects it.
    pub fn from(unchecked: UncheckedSigned<T>, key_box: &'a KB) -> (r: Option<Self>)
        ensures
            match r {
                Some(signed) => signed.spec_unchecked() == unchecked && signed.spec_key_box()
                    == key_box && accepted(key_box, unchecked, true),
                None => accepted(key_box, unchecked, false),
            },
    {
        let signed = Signed { unchecked, key_box };
        if !signed.verify() {
            return None;
        }
        Some(signed)
    }

    /// Has the key box verify the signature again.
    pub fn verify(&self) -> (ok: bool)
        ensures
            accepted(self.spec_key_box(), self.spec_unchecked(), ok),
    {
        let bytes = self.unchecked.signable.bytes_to_sign();
        let index = self.unchecked.signable.index();
        let ok = self.key_box.verify(
            bytes.as_slice(),
            self.unchecked.signature.as_slice(),
            index,
        );
        assert(verdict_is(self.key_box, bytes@, self.unchecked.signature@, index, ok));
        ok
    }

    /// Takes the digest of the signed bytes from `hashing`.
    pub fn hash<H: Hasher>(&self, hashing: &H) -> (h: HashValue)
        ensures
            payload_digest(&self.spec_unchecked().signable, hashing, h),
    {
        let bytes = self.unchecked.signable.bytes_to_sign();
        let h = hashing.hash(bytes.as_slice());
        assert(digest_is(hashing, bytes@, h));
        h
    }

    /// The payload.
    pub fn signed(&self) -> (payload: &T)
        ensures
            *payload == self.spec_unchecked().signable,
    {
        &self.unchecked.signable
    }

    /// The signature.
    pub fn signature(&self) -> (signature: &Vec<u8>)
        ensures
            *signature == self.spec_unchecked().signature,
    {
        &self.unchecked.signature
    }

    /// The payload and the signature, as they travel.
    pub fn as_unchecked(&self) -> (unchecked: &UncheckedSigned<T>)
        ensures
            *unchecked == self.spec_unchecked(),
    {
        &self.unchecked
    }

    /// Gives up the key box and keeps the payload and the signature.
    pub fn into_unchecked(self) -> (unchecked: UncheckedSigned<T>)
        ensures
            unchecked == self.spec_unchecked(),
    {
        self.unchecked
    }
}

impl<'a, T: Signable, KB: KeyBox> From<Signed<'a, T, KB>> for UncheckedSigned<T> {
    /// Gives up the key box and keeps the payload and the signature.
    fn from(signed: Signed<'a, T, KB>) -> (res: UncheckedSigned<T>) {
        signed.unchecked
    }
}

impl<'a, T: Signable, KB: KeyBox> vstd::std_specs::convert::FromSpecImpl<Signed<'a, T, KB>> for UncheckedSigned<T> {
    open spec fn obeys_from_spec() -> bool {
        true
    }

    open spec fn from_spec(signed: Signed<'a, T, KB>) -> UncheckedSigned<T> {
        signed.spec_unchecked()
    }
}

} // verus!
