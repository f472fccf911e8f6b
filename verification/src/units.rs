//! The unit model: what one authority contributes to one round of the DAG,
//! in its unsigned, signable and in-DAG forms, and how each is written to bytes.

use crate::signed::{accepted, signed_by, Signable, Signed, SignedView, UncheckedSigned};
use crate::wire::{
    enc_bools, enc_bytes, enc_u64, enc_usize, holds_at, lemma_enc_u64_len, lemma_holds_split,
    lemma_parse_bools, lemma_parse_bytes, lemma_parse_u64, lemma_parse_usize, parse_bools,
    parse_bytes, parse_u64, parse_usize, put_bools, put_bytes, put_u64, put_usize, read_bools,
    read_bytes, read_u64, read_usize,
};
use crate::{
    digest_is, signature_is, verdict_is, HashValue, Hasher, KeyBox, NodeCount, NodeIndex, Round,
};
use vstd::prelude::*;

verus! {

/// The position of a unit in the DAG. An honest authority makes at most one unit per position.
#[derive(Clone, Copy, Debug, PartialEq, Eq, Structural)]
pub struct UnitCoord {
    pub creator: NodeIndex,
    pub round: Round,
}

impl UnitCoord {
    /// The position of round `round` and creator `creator`.
    pub fn new(round: Round, creator: NodeIndex) -> (coord: UnitCoord)
        ensures
            coord == (UnitCoord { creator, round }),
    {
        UnitCoord { creator, round }
    }
}

impl From<(Round, NodeIndex)> for UnitCoord {
    /// The position of a round and a creator.
    fn from(coord: (Round, NodeIndex)) -> (res: UnitCoord) {
        UnitCoord { creator: coord.1, round: coord.0 }
    }
}

impl vstd::std_specs::convert::FromSpecImpl<(Round, NodeIndex)> for UnitCoord {
    open spec fn obeys_from_spec() -> bool {
        true
    }

    open spec fn from_spec(coord: (Round, NodeIndex)) -> UnitCoord {
        UnitCoord { creator: coord.1, round: coord.0 }
    }
}

impl From<&Unit> for UnitCoord {
    /// The position of a unit.
    fn from(unit: &Unit) -> (res: UnitCoord) {
        UnitCoord { creator: unit.creator, round: unit.round }
    }
}

impl vstd::std_specs::convert::FromSpecImpl<&Unit> for UnitCoord {
    open spec fn obeys_from_spec() -> bool {
        true
    }

    open spec fn from_spec(unit: &Unit) -> UnitCoord {
        UnitCoord { creator: unit.creator, round: unit.round }
    }
}

/// A commitment to the parents of a unit: which authorities have a parent, and
/// a digest of the parents' hashes in the order of the authorities.
#[derive(Debug, PartialEq, Eq)]
pub struct ControlHash {
    pub parents: Vec<bool>,
    pub hash: HashValue,
}

pub struct ControlHashView {
    pub parents: Seq<bool>,
    pub hash: HashValue,
}

impl View for ControlHash {
    type V = ControlHashView;

    open spec fn view(&self) -> ControlHashView {
        ControlHashView { parents: self.parents@, hash: self.hash }
    }
}

/// The unsigned shape of a unit, as consensus produces it.
#[derive(Debug, PartialEq, Eq)]
pub struct PreUnit {
    pub creator: NodeIndex,
    pub round: Round,
    pub control_hash: ControlHash,
}

pub struct PreUnitView {
    pub creator: NodeIndex,
    pub round: Round,
    pub control_hash: ControlHashView,
}

impl View for PreUnit {
    type V = PreUnitView;

    open spec fn view(&self) -> PreUnitView {
        PreUnitView { creator: self.creator, round: self.round, control_hash: self.control_hash@ }
    }
}

/// A unit with its data and its session: what gets signed.
#[derive(Debug, PartialEq, Eq)]
pub struct FullUnit {
    pub inner: PreUnit,
    pub data: Vec<u8>,
    pub session_id: u64,
}

pub struct FullUnitView {
    pub inner: PreUnitView,
    pub data: Seq<u8>,
    pub session_id: u64,
}

impl View for FullUnit {
    type V = FullUnitView;

    open spec fn view(&self) -> FullUnitView {
        FullUnitView { inner: self.inner@, data: self.data@, session_id: self.session_id }
    }
}

/// The light form of a unit that is handed to consensus.
#[derive(Debug, PartialEq, Eq)]
pub struct Unit {
    pub creator: NodeIndex,
    pub round: Round,
    pub hash: HashValue,
    pub control_hash: ControlHash,
}

pub struct UnitView {
    pub creator: NodeIndex,
    pub round: Round,
    pub hash: HashValue,
    pub control_hash: ControlHashView,
}

impl View for Unit {
    type V = UnitView;

    open spec fn view(&self) -> UnitView {
        UnitView {
            creator: self.creator,
            round: self.round,
            hash: self.hash,
            control_hash: self.control_hash@,
        }
    }
}

/// A unit as it travels: signed, the signature not yet checked.
pub type UncheckedSignedUnit = UncheckedSigned<FullUnit>;

/// A unit whose signature was made or checked with a key box.
pub type SignedUnit<'a, KB> = Signed<'a, FullUnit, KB>;

/// What a signed unit is, apart from its key box.
pub type SignedUnitView = SignedView<FullUnitView>;

/// The values that a list of items stands for, item by item.
pub open spec fn views<T: View>(v: Seq<T>) -> Seq<T::V> {
    Seq::new(v.len(), |i: int| v[i]@)
}

/// The number of `true` entries.
pub open spec fn count_true(s: Seq<bool>) -> nat
    decreases s.len(),
{
    if s.len() == 0 {
        0
    } else {
        count_true(s.drop_last()) + if s.last() {
            1nat
        } else {
            0nat
        }
    }
}

/// Which positions of a map of parents are filled.
pub open spec fn parent_mask(parent_map: Seq<Option<HashValue>>) -> Seq<bool> {
    Seq::new(parent_map.len(), |i: int| parent_map[i] is Some)
}

/// One entry of a map of parents: a zero byte for no parent, a one and the hash for a parent.
pub open spec fn enc_parent(p: Option<HashValue>) -> Seq<u8> {
    match p {
        Some(h) => seq![1u8] + enc_u64(h),
        None => seq![0u8],
    }
}

/// The entries of a map of parents, one after the other.
pub open spec fn enc_parents(parent_map: Seq<Option<HashValue>>) -> Seq<u8>
    decreases parent_map.len(),
{
    if parent_map.len() == 0 {
        Seq::empty()
    } else {
        enc_parents(parent_map.drop_last()) + enc_parent(parent_map.last())
    }
}

/// The bytes that a control hash digests: the map's length, then its entries.
pub open spec fn enc_parent_map(parent_map: Seq<Option<HashValue>>) -> Seq<u8> {
    enc_u64(parent_map.len() as u64) + enc_parents(parent_map)
}

impl Clone for ControlHash {
    fn clone(&self) -> (res: Self)
        ensures
            res@ == self@,
    {
        let parents = self.parents.clone();
        assert(parents@ =~= self.parents@);
        ControlHash { parents, hash: self.hash }
    }
}

/// Writes out the bytes that a control hash digests.
pub fn parent_map_bytes(parent_map: &Vec<Option<HashValue>>) -> (bytes: Vec<u8>)
    ensures
        bytes@ == enc_parent_map(parent_map@),
{
    let mut bytes: Vec<u8> = Vec::new();
    put_u64(&mut bytes, parent_map.len() as u64);
    let ghost head = bytes@;
    let mut i: usize = 0;
    while i < parent_map.len()
        invariant
            i <= parent_map.len(),
            bytes@ == head + enc_parents(parent_map@.take(i as int)),
        decreases parent_map.len() - i,
    {
        let ghost before = bytes@;
        match parent_map[i] {
            Some(h) => {
                bytes.push(1u8);
                put_u64(&mut bytes, h);
                assert(bytes@ =~= before + enc_parent(Some(h)));
            },
            None => {
                bytes.push(0u8);
                assert(bytes@ =~= before + enc_parent(None));
            },
        }
        assert(parent_map@.take(i + 1).drop_last() =~= parent_map@.take(i as int));
        assert(bytes@ =~= head + enc_parents(parent_map@.take(i + 1)));
        i += 1;
    }
    assert(parent_map@.take(parent_map.len() as int) =~= parent_map@);
    assert(bytes@ =~= enc_parent_map(parent_map@));
    bytes
}

/// Marks the filled positions of a map of parents.
pub fn parent_flags(parent_map: &Vec<Option<HashValue>>) -> (parents: Vec<bool>)
    ensures
        parents@ == parent_mask(parent_map@),
{
    let mut parents: Vec<bool> = Vec::new();
    let mut i: usize = 0;
    while i < parent_map.len()
        invariant
            i <= parent_map.len(),
            parents@ == parent_mask(parent_map@.take(i as int)),
        decreases parent_map.len() - i,
    {
        parents.push(parent_map[i].is_some());
        assert(parents@ =~= parent_mask(parent_map@.take(i + 1)));
        i += 1;
    }
    assert(parent_map@.take(parent_map.len() as int) =~= parent_map@);
    parents
}

impl ControlHash {
    /// The control hash of a map of parents: its filled positions, and the
    /// digest that `hashing` gives to the map's bytes.
    pub fn new<H: Hasher>(parent_map: &Vec<Option<HashValue>>, hashing: &H) -> (res: Self)
        ensures
            res@.parents == parent_mask(parent_map@),
            digest_is(hashing, enc_parent_map(parent_map@), res@.hash),
    {
        let hash = Self::combine_hashes(parent_map, hashing);
        ControlHash { parents: parent_flags(parent_map), hash }
    }

    /// The digest that `hashing` gives to the bytes of a map of parents.
    pub fn combine_hashes<H: Hasher>(parent_map: &Vec<Option<HashValue>>, hashing: &H) -> (h:
        HashValue)
        ensures
            digest_is(hashing, enc_parent_map(parent_map@), h),
    {
        let bytes = parent_map_bytes(parent_map);
        hashing.hash(bytes.as_slice())
    }

    /// The number of parents.
    pub fn n_parents(&self) -> (n: NodeCount)
        ensures
            n == count_true(self@.parents),
    {
        let mut n: usize = 0;
        let mut i: usize = 0;
        while i < self.parents.len()
            invariant
                i <= self.parents.len(),
                n == count_true(self.parents@.take(i as int)),
                n <= i,
            decreases self.parents.len() - i,
        {
            assert(self.parents@.take(i + 1).drop_last() =~= self.parents@.take(i as int));
            if self.parents[i] {
                n += 1;
            }
            i += 1;
        }
        assert(self.parents@.take(self.parents.len() as int) =~= self.parents@);
        n
    }

    /// The number of authorities that the control hash speaks of.
    pub fn n_members(&self) -> (n: NodeCount)
        ensures
            n == self@.parents.len(),
    {
        self.parents.len()
    }
}

impl Clone for PreUnit {
    fn clone(&self) -> (res: Self)
        ensures
            res@ == self@,
    {
        PreUnit {
            creator: self.creator,
            round: self.round,
            control_hash: self.control_hash.clone(),
        }
    }
}

impl PreUnit {
    pub fn creator(&self) -> (creator: NodeIndex)
        ensures
            creator == self@.creator,
    {
        self.creator
    }

    pub fn round(&self) -> (round: Round)
        ensures
            round == self@.round,
    {
        self.round
    }

    /// The pre-unit of `creator` at `round` over the given map of parents.
    pub fn new_from_parents<H: Hasher>(
        creator: NodeIndex,
        round: Round,
        parents: &Vec<Option<HashValue>>,
        hashing: &H,
    ) -> (res: Self)
        ensures
            res@.creator == creator,
            res@.round == round,
            res@.control_hash.parents == parent_mask(parents@),
            digest_is(hashing, enc_parent_map(parents@), res@.control_hash.hash),
    {
        let control_hash = ControlHash::new(parents, hashing);
        PreUnit { creator, round, control_hash }
    }

    pub fn n_parents(&self) -> (n: NodeCount)
        ensures
            n == count_true(self@.control_hash.parents),
    {
        self.control_hash.n_parents()
    }

    pub fn n_members(&self) -> (n: NodeCount)
        ensures
            n == self@.control_hash.parents.len(),
    {
        self.control_hash.n_members()
    }
}

impl Clone for Unit {
    fn clone(&self) -> (res: Self)
        ensures
            res@ == self@,
    {
        Unit {
            creator: self.creator,
            round: self.round,
            hash: self.hash,
            control_hash: self.control_hash.clone(),
        }
    }
}

impl Unit {
    pub fn hash(&self) -> (hash: HashValue)
        ensures
            hash == self@.hash,
    {
        self.hash
    }

    pub fn creator(&self) -> (creator: NodeIndex)
        ensures
            creator == self@.creator,
    {
        self.creator
    }

    pub fn round(&self) -> (round: Round)
        ensures
            round == self@.round,
    {
        self.round
    }

    pub fn coord(&self) -> (coord: UnitCoord)
        ensures
            coord == (UnitCoord { creator: self@.creator, round: self@.round }),
    {
        UnitCoord { creator: self.creator, round: self.round }
    }

    /// The in-DAG form of a pre-unit whose content hash is `hash`.
    pub fn new_from_preunit(pu: PreUnit, hash: HashValue) -> (res: Self)
        ensures
            res@ == spec_unit_of(pu@, hash),
    {
        Unit { creator: pu.creator, round: pu.round, hash, control_hash: pu.control_hash }
    }
}

/// The in-DAG form of a pre-unit whose content hash is `hash`.
pub open spec fn spec_unit_of(pu: PreUnitView, hash: HashValue) -> UnitView {
    UnitView { creator: pu.creator, round: pu.round, hash, control_hash: pu.control_hash }
}

impl Clone for FullUnit {
    fn clone(&self) -> (res: Self)
        ensures
            res@ == self@,
    {
        let data = self.data.clone();
        assert(data@ =~= self.data@);
        FullUnit { inner: self.inner.clone(), data, session_id: self.session_id }
    }
}

impl FullUnit {
    pub fn creator(&self) -> (creator: NodeIndex)
        ensures
            creator == self@.inner.creator,
    {
        self.inner.creator
    }

    pub fn round(&self) -> (round: Round)
        ensures
            round == self@.inner.round,
    {
        self.inner.round()
    }

    pub fn coord(&self) -> (coord: UnitCoord)
        ensures
            coord == spec_coord(self@),
    {
        UnitCoord::from((self.round(), self.creator()))
    }

    /// The content hash of the unit: the digest that `hashing` gives to the bytes that are signed.
    pub fn hash<H: Hasher>(&self, hashing: &H) -> (h: HashValue)
        ensures
            unit_digest(hashing, self@, h),
    {
        let bytes = self.bytes_to_sign();
        hashing.hash(bytes.as_slice())
    }
}

/// `digest` is what `hashing` gave as the content hash of the unit.
pub open spec fn unit_digest<H: Hasher>(hashing: &H, unit: FullUnitView, digest: HashValue)
    -> bool {
    digest_is(hashing, enc_full_unit(unit), digest)
}

/// `key_box` made the unit's signature over the unit's bytes.
pub open spec fn unit_signed<KB: KeyBox>(key_box: &KB, u: SignedUnitView) -> bool {
    signature_is(key_box, enc_full_unit(u.signable), u.signature)
}

/// `verdict` is what `key_box` said of the unit's signature, asked whether
/// it is the signature of the unit's creator over the unit's bytes.
pub open spec fn unit_verdict<KB: KeyBox>(key_box: &KB, u: SignedUnitView, verdict: bool) -> bool {
    verdict_is(key_box, enc_full_unit(u.signable), u.signature, u.signable.inner.creator, verdict)
}

/// What a key box said of a signed payload, said of a unit.
pub proof fn lemma_unit_accepted<KB: KeyBox>(
    key_box: &KB,
    unchecked: UncheckedSignedUnit,
    verdict: bool,
)
    requires
        accepted(key_box, unchecked, verdict),
    ensures
        unit_verdict(key_box, unchecked@, verdict),
{
}

/// That a key box signed a payload, said of a unit.
pub proof fn lemma_unit_signed<KB: KeyBox>(key_box: &KB, unchecked: UncheckedSignedUnit)
    requires
        signed_by(key_box, unchecked),
    ensures
        unit_signed(key_box, unchecked@),
{
}

/// The position of a unit.
pub open spec fn spec_coord(unit: FullUnitView) -> UnitCoord {
    UnitCoord { creator: unit.inner.creator, round: unit.inner.round }
}

impl Signable for FullUnit {
    /// The bytes of the unit.
    fn bytes_to_sign(&self) -> (bytes: Vec<u8>)
        ensures
            bytes@ == enc_full_unit(self@),
    {
        let mut bytes: Vec<u8> = Vec::new();
        put_full_unit(&mut bytes, self);
        assert(bytes@ =~= enc_full_unit(self@));
        bytes
    }

    /// The unit's creator.
    fn index(&self) -> (i: NodeIndex)
        ensures
            i == self@.inner.creator,
    {
        self.inner.creator
    }
}

impl<'a, KB: KeyBox> Signed<'a, FullUnit, KB> {
    /// Has `keybox` verify the unit's signature as that of the unit's creator.
    pub fn verify_signature(&self, keybox: &KB) -> (ok: bool)
        ensures
            unit_verdict(keybox, self@, ok),
    {
        let bytes = self.signed().bytes_to_sign();
        keybox.verify(bytes.as_slice(), self.signature().as_slice(), self.signed().inner.creator)
    }

    pub fn coord(&self) -> (coord: UnitCoord)
        ensures
            coord == spec_coord(self@.signable),
    {
        self.signed().coord()
    }

    pub fn round(&self) -> (round: Round)
        ensures
            round == self@.signable.inner.round,
    {
        self.signed().round()
    }

    pub fn creator(&self) -> (creator: NodeIndex)
        ensures
            creator == self@.signable.inner.creator,
    {
        self.signed().creator()
    }

    pub fn n_parents(&self) -> (n: NodeCount)
        ensures
            n == count_true(self@.signable.inner.control_hash.parents),
    {
        self.signed().inner.n_parents()
    }

    pub fn n_members(&self) -> (n: NodeCount)
        ensures
            n == self@.signable.inner.control_hash.parents.len(),
    {
        self.signed().inner.n_members()
    }
}

/// A signed unit with its content hash. The hash is taken once, when the unit
/// arrives or is made, and names the unit from then on.
pub struct HashedUnit<'a, KB: KeyBox> {
    pub hash: HashValue,
    pub unit: SignedUnit<'a, KB>,
}

pub struct HashedUnitView {
    pub hash: HashValue,
    pub unit: SignedUnitView,
}

impl<'a, KB: KeyBox> View for HashedUnit<'a, KB> {
    type V = HashedUnitView;

    open spec fn view(&self) -> HashedUnitView {
        HashedUnitView { hash: self.hash, unit: self.unit@ }
    }
}

impl<'a, KB: KeyBox> Clone for HashedUnit<'a, KB> {
    fn clone(&self) -> (res: Self)
        ensures
            res@ == self@,
    {
        HashedUnit { hash: self.hash, unit: self.unit.clone() }
    }
}

impl<'a, KB: KeyBox> HashedUnit<'a, KB> {
    /// Takes the content hash of `unit` from `hashing`.
    pub fn new<H: Hasher>(unit: SignedUnit<'a, KB>, hashing: &H) -> (res: Self)
        ensures
            res.unit == unit,
            unit_digest(hashing, unit@.signable, res.hash),
    {
        let hash = unit.signed().hash(hashing);
        HashedUnit { hash, unit }
    }

    pub fn coord(&self) -> (coord: UnitCoord)
        ensures
            coord == spec_coord(self@.unit.signable),
    {
        self.unit.coord()
    }

    pub fn round(&self) -> (round: Round)
        ensures
            round == self@.unit.signable.inner.round,
    {
        self.unit.round()
    }

    pub fn creator(&self) -> (creator: NodeIndex)
        ensures
            creator == self@.unit.signable.inner.creator,
    {
        self.unit.creator()
    }

    /// The light form of the unit, for consensus.
    pub fn to_unit(&self) -> (unit: Unit)
        ensures
            unit@ == spec_unit_of(self@.unit.signable.inner, self@.hash),
    {
        Unit::new_from_preunit(self.unit.signed().inner.clone(), self.hash)
    }
}

pub open spec fn enc_coord(c: UnitCoord) -> Seq<u8> {
    enc_usize(c.creator) + enc_u64(c.round)
}

pub open spec fn enc_control_hash(c: ControlHashView) -> Seq<u8> {
    enc_bools(c.parents) + enc_u64(c.hash)
}

pub open spec fn enc_pre_unit(u: PreUnitView) -> Seq<u8> {
    enc_usize(u.creator) + enc_u64(u.round) + enc_control_hash(u.control_hash)
}

/// The bytes of a unit: the ones that are signed and hashed.
pub open spec fn enc_full_unit(u: FullUnitView) -> Seq<u8> {
    enc_pre_unit(u.inner) + enc_bytes(u.data) + enc_u64(u.session_id)
}

/// The bytes of a signed unit: the unit, then the signature.
pub open spec fn enc_signed_unit(u: SignedUnitView) -> Seq<u8> {
    enc_full_unit(u.signable) + enc_bytes(u.signature)
}

pub open spec fn parse_coord(s: Seq<u8>, pos: int) -> Option<(UnitCoord, int)> {
    match parse_usize(s, pos) {
        Some((creator, end_a)) => match parse_u64(s, end_a) {
            Some((round, end_b)) => Some((UnitCoord { creator, round }, end_b)),
            None => None,
        },
        None => None,
    }
}

pub open spec fn parse_control_hash(s: Seq<u8>, pos: int) -> Option<(ControlHashView, int)> {
    match parse_bools(s, pos) {
        Some((parents, end_a)) => match parse_u64(s, end_a) {
            Some((hash, end_b)) => Some((ControlHashView { parents, hash }, end_b)),
            None => None,
        },
        None => None,
    }
}

pub open spec fn parse_pre_unit(s: Seq<u8>, pos: int) -> Option<(PreUnitView, int)> {
    match parse_usize(s, pos) {
        Some((creator, end_a)) => match parse_u64(s, end_a) {
            Some((round, end_b)) => match parse_control_hash(s, end_b) {
                Some((control_hash, end_c)) => Some((PreUnitView { creator, round, control_hash }, end_c)),
                None => None,
            },
            None => None,
        },
        None => None,
    }
}

pub open spec fn parse_full_unit(s: Seq<u8>, pos: int) -> Option<(FullUnitView, int)> {
    match parse_pre_unit(s, pos) {
        Some((inner, end_a)) => match parse_bytes(s, end_a) {
            Some((data, end_b)) => match parse_u64(s, end_b) {
                Some((session_id, end_c)) => Some((FullUnitView { inner, data, session_id }, end_c)),
                None => None,
            },
            None => None,
        },
        None => None,
    }
}

pub open spec fn parse_signed_unit(s: Seq<u8>, pos: int) -> Option<(SignedUnitView, int)> {
    match parse_full_unit(s, pos) {
        Some((signable, end_a)) => match parse_bytes(s, end_a) {
            Some((signature, end_b)) => Some((SignedView { signable, signature }, end_b)),
            None => None,
        },
        None => None,
    }
}

/// The lists of a unit are short enough for their lengths to be written as `u64`.
pub open spec fn unit_fits(u: FullUnitView) -> bool {
    u.inner.control_hash.parents.len() <= u64::MAX && u.data.len() <= u64::MAX
}

pub open spec fn signed_unit_fits(u: SignedUnitView) -> bool {
    unit_fits(u.signable) && u.signature.len() <= u64::MAX
}

pub proof fn lemma_parse_coord(s: Seq<u8>, pos: int, c: UnitCoord)
    requires
        holds_at(s, pos, enc_coord(c)),
    ensures
        parse_coord(s, pos) == Some((c, pos + enc_coord(c).len())),
{
    lemma_enc_u64_len(c.creator as u64);
    lemma_enc_u64_len(c.round);
    lemma_holds_split(s, pos, enc_usize(c.creator), enc_u64(c.round));
    lemma_parse_usize(s, pos, c.creator);
    lemma_parse_u64(s, pos + 8, c.round);
}

pub proof fn lemma_parse_control_hash(s: Seq<u8>, pos: int, c: ControlHashView)
    requires
        c.parents.len() <= u64::MAX,
        holds_at(s, pos, enc_control_hash(c)),
    ensures
        parse_control_hash(s, pos) == Some((c, pos + enc_control_hash(c).len())),
{
    lemma_enc_u64_len(c.parents.len() as u64);
    lemma_enc_u64_len(c.hash);
    lemma_holds_split(s, pos, enc_bools(c.parents), enc_u64(c.hash));
    lemma_parse_bools(s, pos, c.parents);
    lemma_parse_u64(s, pos + enc_bools(c.parents).len(), c.hash);
}

pub proof fn lemma_parse_pre_unit(s: Seq<u8>, pos: int, u: PreUnitView)
    requires
        u.control_hash.parents.len() <= u64::MAX,
        holds_at(s, pos, enc_pre_unit(u)),
    ensures
        parse_pre_unit(s, pos) == Some((u, pos + enc_pre_unit(u).len())),
{
    lemma_enc_u64_len(u.creator as u64);
    lemma_enc_u64_len(u.round);
    let head = enc_usize(u.creator) + enc_u64(u.round);
    lemma_holds_split(s, pos, head, enc_control_hash(u.control_hash));
    lemma_holds_split(s, pos, enc_usize(u.creator), enc_u64(u.round));
    lemma_parse_usize(s, pos, u.creator);
    lemma_parse_u64(s, pos + 8, u.round);
    lemma_parse_control_hash(s, pos + 16, u.control_hash);
}

pub proof fn lemma_parse_full_unit(s: Seq<u8>, pos: int, u: FullUnitView)
    requires
        unit_fits(u),
        holds_at(s, pos, enc_full_unit(u)),
    ensures
        parse_full_unit(s, pos) == Some((u, pos + enc_full_unit(u).len())),
{
    lemma_enc_u64_len(u.data.len() as u64);
    lemma_enc_u64_len(u.session_id);
    let head = enc_pre_unit(u.inner) + enc_bytes(u.data);
    lemma_holds_split(s, pos, head, enc_u64(u.session_id));
    lemma_holds_split(s, pos, enc_pre_unit(u.inner), enc_bytes(u.data));
    lemma_parse_pre_unit(s, pos, u.inner);
    let end_a = pos + enc_pre_unit(u.inner).len();
    lemma_parse_bytes(s, end_a, u.data);
    lemma_parse_u64(s, end_a + 8 + u.data.len(), u.session_id);
}

pub proof fn lemma_parse_signed_unit(s: Seq<u8>, pos: int, u: SignedUnitView)
    requires
        signed_unit_fits(u),
        holds_at(s, pos, enc_signed_unit(u)),
    ensures
        parse_signed_unit(s, pos) == Some((u, pos + enc_signed_unit(u).len())),
{
    lemma_enc_u64_len(u.signature.len() as u64);
    lemma_holds_split(s, pos, enc_full_unit(u.signable), enc_bytes(u.signature));
    lemma_parse_full_unit(s, pos, u.signable);
    lemma_parse_bytes(s, pos + enc_full_unit(u.signable).len(), u.signature);
}

pub fn put_coord(out: &mut Vec<u8>, c: &UnitCoord)
    ensures
        final(out)@ == old(out)@ + enc_coord(*c),
{
    put_usize(out, c.creator);
    put_u64(out, c.round);
    assert(out@ =~= old(out)@ + enc_coord(*c));
}

pub fn put_control_hash(out: &mut Vec<u8>, c: &ControlHash)
    ensures
        final(out)@ == old(out)@ + enc_control_hash(c@),
{
    put_bools(out, &c.parents);
    put_u64(out, c.hash);
    assert(out@ =~= old(out)@ + enc_control_hash(c@));
}

pub fn put_pre_unit(out: &mut Vec<u8>, u: &PreUnit)
    ensures
        final(out)@ == old(out)@ + enc_pre_unit(u@),
{
    put_usize(out, u.creator);
    put_u64(out, u.round);
    put_control_hash(out, &u.control_hash);
    assert(out@ =~= old(out)@ + enc_pre_unit(u@));
}

pub fn put_full_unit(out: &mut Vec<u8>, u: &FullUnit)
    ensures
        final(out)@ == old(out)@ + enc_full_unit(u@),
{
    put_pre_unit(out, &u.inner);
    put_bytes(out, &u.data);
    put_u64(out, u.session_id);
    assert(out@ =~= old(out)@ + enc_full_unit(u@));
}

pub fn put_signed_unit(out: &mut Vec<u8>, u: &UncheckedSignedUnit)
    ensures
        final(out)@ == old(out)@ + enc_signed_unit(u@),
{
    put_full_unit(out, &u.signable);
    put_bytes(out, &u.signature);
    assert(out@ =~= old(out)@ + enc_signed_unit(u@));
}

pub fn read_coord(bytes: &[u8], pos: usize) -> (r: Option<(UnitCoord, usize)>)
    requires
        pos <= bytes@.len(),
    ensures
        match r {
            Some((v, end)) => parse_coord(bytes@, pos as int) == Some((v, end as int)) && end
                <= bytes@.len(),
            None => parse_coord(bytes@, pos as int) is None,
        },
{
    let (creator, end_a) = match read_usize(bytes, pos) {
        Some(x) => x,
        None => { return None; },
    };
    let (round, end_b) = match read_u64(bytes, end_a) {
        Some(x) => x,
        None => { return None; },
    };
    Some((UnitCoord { creator, round }, end_b))
}

pub fn read_control_hash(bytes: &[u8], pos: usize) -> (r: Option<(ControlHash, usize)>)
    requires
        pos <= bytes@.len(),
    ensures
        match r {
            Some((v, end)) => parse_control_hash(bytes@, pos as int) == Some((v@, end as int))
                && end <= bytes@.len(),
            None => parse_control_hash(bytes@, pos as int) is None,
        },
{
    let (parents, end_a) = match read_bools(bytes, pos) {
        Some(x) => x,
        None => { return None; },
    };
    let (hash, end_b) = match read_u64(bytes, end_a) {
        Some(x) => x,
        None => { return None; },
    };
    Some((ControlHash { parents, hash }, end_b))
}

pub fn read_pre_unit(bytes: &[u8], pos: usize) -> (r: Option<(PreUnit, usize)>)
    requires
        pos <= bytes@.len(),
    ensures
        match r {
            Some((v, end)) => parse_pre_unit(bytes@, pos as int) == Some((v@, end as int)) && end
                <= bytes@.len(),
            None => parse_pre_unit(bytes@, pos as int) is None,
        },
{
    let (creator, end_a) = match read_usize(bytes, pos) {
        Some(x) => x,
        None => { return None; },
    };
    let (round, end_b) = match read_u64(bytes, end_a) {
        Some(x) => x,
        None => { return None; },
    };
    let (control_hash, end_c) = match read_control_hash(bytes, end_b) {
        Some(x) => x,
        None => { return None; },
    };
    Some((PreUnit { creator, round, control_hash }, end_c))
}

pub fn read_full_unit(bytes: &[u8], pos: usize) -> (r: Option<(FullUnit, usize)>)
    requires
        pos <= bytes@.len(),
    ensures
        match r {
            Some((v, end)) => parse_full_unit(bytes@, pos as int) == Some((v@, end as int)) && end
                <= bytes@.len(),
            None => parse_full_unit(bytes@, pos as int) is None,
        },
{
    let (inner, end_a) = match read_pre_unit(bytes, pos) {
        Some(x) => x,
        None => { return None; },
    };
    let (data, end_b) = match read_bytes(bytes, end_a) {
        Some(x) => x,
        None => { return None; },
    };
    let (session_id, end_c) = match read_u64(bytes, end_b) {
        Some(x) => x,
        None => { return None; },
    };
    Some((FullUnit { inner, data, session_id }, end_c))
}

pub fn read_signed_unit(bytes: &[u8], pos: usize) -> (r: Option<(UncheckedSignedUnit, usize)>)
    requires
        pos <= bytes@.len(),
    ensures
        match r {
            Some((v, end)) => parse_signed_unit(bytes@, pos as int) == Some((v@, end as int))
                && end <= bytes@.len(),
            None => parse_signed_unit(bytes@, pos as int) is None,
        },
{
    let (signable, end_a) = match read_full_unit(bytes, pos) {
        Some(x) => x,
        None => { return None; },
    };
    let (signature, end_b) = match read_bytes(bytes, end_a) {
        Some(x) => x,
        None => { return None; },
    };
    Some((UncheckedSigned { signable, signature }, end_b))
}

} // verus!
