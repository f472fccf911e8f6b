//! Fork evidence: the proof that an authority signed two units for one
//! position, and the alert that carries it to the other authorities.

use crate::units::{
    enc_signed_unit, lemma_parse_signed_unit, parse_signed_unit, put_signed_unit, read_signed_unit,
    signed_unit_fits, views, SignedUnitView, UncheckedSignedUnit,
};
use crate::wire::{
    enc_u64, enc_usize, holds_at, lemma_enc_u64_len, lemma_holds_split, lemma_parse_u64,
    lemma_parse_usize, parse_u64, parse_usize, put_u64, put_usize, read_u64, read_usize,
};
use crate::NodeIndex;
use vstd::prelude::*;

verus! {

/// Two units that one authority signed for one position.
#[derive(Debug, PartialEq, Eq)]
pub struct ForkProof {
    pub u1: UncheckedSignedUnit,
    pub u2: UncheckedSignedUnit,
}

pub struct ForkProofView {
    pub u1: SignedUnitView,
    pub u2: SignedUnitView,
}

impl View for ForkProof {
    type V = ForkProofView;

    open spec fn view(&self) -> ForkProofView {
        ForkProofView { u1: self.u1@, u2: self.u2@ }
    }
}

/// The message by which `sender` tells everyone that `forker` forked. It
/// carries the proof and the forker's units that the sender holds as legitimate.
#[derive(Debug, PartialEq, Eq)]
pub struct Alert {
    pub sender: NodeIndex,
    pub forker: NodeIndex,
    pub proof: ForkProof,
    pub legit_units: Vec<UncheckedSignedUnit>,
}

pub struct AlertView {
    pub sender: NodeIndex,
    pub forker: NodeIndex,
    pub proof: ForkProofView,
    pub legit_units: Seq<SignedUnitView>,
}

impl View for Alert {
    type V = AlertView;

    open spec fn view(&self) -> AlertView {
        AlertView {
            sender: self.sender,
            forker: self.forker,
            proof: self.proof@,
            legit_units: views(self.legit_units@),
        }
    }
}

impl Clone for ForkProof {
    fn clone(&self) -> (res: Self)
        ensures
            res@ == self@,
    {
        ForkProof { u1: self.u1.clone(), u2: self.u2.clone() }
    }
}

/// Copies a list of units.
pub fn clone_units(units: &Vec<UncheckedSignedUnit>) -> (res: Vec<UncheckedSignedUnit>)
    ensures
        views(res@) == views(units@),
{
    let mut res: Vec<UncheckedSignedUnit> = Vec::new();
    let mut i: usize = 0;
    while i < units.len()
        invariant
            i <= units.len(),
            views(res@) == views(units@.take(i as int)),
        decreases units.len() - i,
    {
        let ghost before = views(res@);
        let unit = units[i].clone();
        assert(unit@ == units@[i as int]@);
        res.push(unit);
        assert(views(res@) =~= before.push(units@[i as int]@));
        assert(views(res@) =~= views(units@.take(i + 1)));
        i += 1;
    }
    assert(units@.take(units.len() as int) =~= units@);
    res
}

impl Clone for Alert {
    fn clone(&self) -> (res: Self)
        ensures
            res@ == self@,
    {
        Alert {
            sender: self.sender,
            forker: self.forker,
            proof: self.proof.clone(),
            legit_units: clone_units(&self.legit_units),
        }
    }
}

/// The bytes of a run of units, one after the other.
pub open spec fn enc_units(us: Seq<SignedUnitView>) -> Seq<u8>
    decreases us.len(),
{
    if us.len() == 0 {
        Seq::empty()
    } else {
        enc_units(us.drop_last()) + enc_signed_unit(us.last())
    }
}

/// The bytes of a list of units: its length, then the units.
pub open spec fn enc_unit_list(us: Seq<SignedUnitView>) -> Seq<u8> {
    enc_u64(us.len() as u64) + enc_units(us)
}

pub open spec fn enc_fork_proof(p: ForkProofView) -> Seq<u8> {
    enc_signed_unit(p.u1) + enc_signed_unit(p.u2)
}

pub open spec fn enc_alert(a: AlertView) -> Seq<u8> {
    enc_usize(a.sender) + enc_usize(a.forker) + enc_fork_proof(a.proof) + enc_unit_list(
        a.legit_units,
    )
}

/// Reads `n` units, one after the other, from `pos` on.
pub open spec fn parse_units(s: Seq<u8>, pos: int, n: nat) -> Option<(Seq<SignedUnitView>, int)>
    decreases n,
{
    if n == 0 {
        Some((Seq::empty(), pos))
    } else {
        match parse_units(s, pos, (n - 1) as nat) {
            Some((before, end_a)) => match parse_signed_unit(s, end_a) {
                Some((u, end_b)) => Some((before.push(u), end_b)),
                None => None,
            },
            None => None,
        }
    }
}

pub open spec fn parse_unit_list(s: Seq<u8>, pos: int) -> Option<(Seq<SignedUnitView>, int)> {
    match parse_u64(s, pos) {
        Some((n, end_a)) => parse_units(s, end_a, n as nat),
        None => None,
    }
}

pub open spec fn parse_fork_proof(s: Seq<u8>, pos: int) -> Option<(ForkProofView, int)> {
    match parse_signed_unit(s, pos) {
        Some((u1, end_a)) => match parse_signed_unit(s, end_a) {
            Some((u2, end_b)) => Some((ForkProofView { u1, u2 }, end_b)),
            None => None,
        },
        None => None,
    }
}

pub open spec fn parse_alert(s: Seq<u8>, pos: int) -> Option<(AlertView, int)> {
    match parse_usize(s, pos) {
        Some((sender, end_a)) => match parse_usize(s, end_a) {
            Some((forker, end_b)) => match parse_fork_proof(s, end_b) {
                Some((proof, end_c)) => match parse_unit_list(s, end_c) {
                    Some((legit_units, end_d)) => Some(
                        (AlertView { sender, forker, proof, legit_units }, end_d),
                    ),
                    None => None,
                },
                None => None,
            },
            None => None,
        },
        None => None,
    }
}

/// Every unit of the list is short enough to be written.
pub open spec fn units_fit(us: Seq<SignedUnitView>) -> bool {
    us.len() <= u64::MAX && forall|i: int| 0 <= i < us.len() ==> signed_unit_fits(#[trigger] us[i])
}

pub open spec fn alert_fits(a: AlertView) -> bool {
    signed_unit_fits(a.proof.u1) && signed_unit_fits(a.proof.u2) && units_fit(a.legit_units)
}

/// Where reading a run of units fails, reading a longer run fails too.
pub proof fn lemma_parse_units_fails(s: Seq<u8>, pos: int, k: nat, n: nat)
    requires
        k <= n,
        parse_units(s, pos, k) is None,
    ensures
        parse_units(s, pos, n) is None,
    decreases n,
{
    if k < n {
        lemma_parse_units_fails(s, pos, k, (n - 1) as nat);
    }
}

pub proof fn lemma_parse_units(s: Seq<u8>, pos: int, us: Seq<SignedUnitView>)
    requires
        units_fit(us),
        holds_at(s, pos, enc_units(us)),
    ensures
        parse_units(s, pos, us.len()) == Some((us, pos + enc_units(us).len())),
    decreases us.len(),
{
    if us.len() > 0 {
        let before = us.drop_last();
        lemma_holds_split(s, pos, enc_units(before), enc_signed_unit(us.last()));
        lemma_parse_units(s, pos, before);
        lemma_parse_signed_unit(s, pos + enc_units(before).len(), us.last());
        assert(before.push(us.last()) =~= us);
    }
}

pub proof fn lemma_parse_unit_list(s: Seq<u8>, pos: int, us: Seq<SignedUnitView>)
    requires
        units_fit(us),
        holds_at(s, pos, enc_unit_list(us)),
    ensures
        parse_unit_list(s, pos) == Some((us, pos + enc_unit_list(us).len())),
{
    lemma_enc_u64_len(us.len() as u64);
    lemma_holds_split(s, pos, enc_u64(us.len() as u64), enc_units(us));
    lemma_parse_u64(s, pos, us.len() as u64);
    lemma_parse_units(s, pos + 8, us);
}

pub proof fn lemma_parse_fork_proof(s: Seq<u8>, pos: int, p: ForkProofView)
    requires
        signed_unit_fits(p.u1),
        signed_unit_fits(p.u2),
        holds_at(s, pos, enc_fork_proof(p)),
    ensures
        parse_fork_proof(s, pos) == Some((p, pos + enc_fork_proof(p).len())),
{
    lemma_holds_split(s, pos, enc_signed_unit(p.u1), enc_signed_unit(p.u2));
    lemma_parse_signed_unit(s, pos, p.u1);
    lemma_parse_signed_unit(s, pos + enc_signed_unit(p.u1).len(), p.u2);
}

pub proof fn lemma_parse_alert(s: Seq<u8>, pos: int, a: AlertView)
    requires
        alert_fits(a),
        holds_at(s, pos, enc_alert(a)),
    ensures
        parse_alert(s, pos) == Some((a, pos + enc_alert(a).len())),
{
    lemma_enc_u64_len(a.sender as u64);
    lemma_enc_u64_len(a.forker as u64);
    let h1 = enc_usize(a.sender) + enc_usize(a.forker);
    let h2 = h1 + enc_fork_proof(a.proof);
    lemma_holds_split(s, pos, h2, enc_unit_list(a.legit_units));
    lemma_holds_split(s, pos, h1, enc_fork_proof(a.proof));
    lemma_holds_split(s, pos, enc_usize(a.sender), enc_usize(a.forker));
    lemma_parse_usize(s, pos, a.sender);
    lemma_parse_usize(s, pos + 8, a.forker);
    lemma_parse_fork_proof(s, pos + 16, a.proof);
    lemma_parse_unit_list(s, pos + 16 + enc_fork_proof(a.proof).len(), a.legit_units);
}

pub fn put_unit_list(out: &mut Vec<u8>, units: &Vec<UncheckedSignedUnit>)
    ensures
        final(out)@ == old(out)@ + enc_unit_list(views(units@)),
{
    put_u64(out, units.len() as u64);
    let ghost head = out@;
    let mut i: usize = 0;
    while i < units.len()
        invariant
            i <= units.len(),
            out@ == head + enc_units(views(units@.take(i as int))),
        decreases units.len() - i,
    {
        put_signed_unit(out, &units[i]);
        assert(views(units@.take(i + 1)).drop_last() =~= views(units@.take(i as int)));
        assert(views(units@.take(i + 1)).last() == units@[i as int]@);
        assert(out@ =~= head + enc_units(views(units@.take(i + 1))));
        i += 1;
    }
    assert(units@.take(units.len() as int) =~= units@);
    assert(out@ =~= old(out)@ + enc_unit_list(views(units@)));
}

pub fn put_fork_proof(out: &mut Vec<u8>, p: &ForkProof)
    ensures
        final(out)@ == old(out)@ + enc_fork_proof(p@),
{
    put_signed_unit(out, &p.u1);
    put_signed_unit(out, &p.u2);
    assert(out@ =~= old(out)@ + enc_fork_proof(p@));
}

pub fn put_alert(out: &mut Vec<u8>, a: &Alert)
    ensures
        final(out)@ == old(out)@ + enc_alert(a@),
{
    put_usize(out, a.sender);
    put_usize(out, a.forker);
    put_fork_proof(out, &a.proof);
    put_unit_list(out, &a.legit_units);
    assert(out@ =~= old(out)@ + enc_alert(a@));
}

pub fn read_unit_list(bytes: &[u8], pos: usize) -> (r: Option<(Vec<UncheckedSignedUnit>, usize)>)
    requires
        pos <= bytes@.len(),
    ensures
        match r {
            Some((v, end)) => parse_unit_list(bytes@, pos as int) == Some(
                (views(v@), end as int),
            ) && end <= bytes@.len(),
            None => parse_unit_list(bytes@, pos as int) is None,
        },
{
    let (n, start) = match read_u64(bytes, pos) {
        Some(x) => x,
        None => { return None; },
    };
    let mut units: Vec<UncheckedSignedUnit> = Vec::new();
    let mut cur: usize = start;
    let mut i: u64 = 0;
    while i < n
        invariant
            i <= n,
            cur <= bytes@.len(),
            parse_u64(bytes@, pos as int) == Some((n, start as int)),
            parse_units(bytes@, start as int, i as nat) == Some((views(units@), cur as int)),
        decreases n - i,
    {
        let ghost before = views(units@);
        match read_signed_unit(bytes, cur) {
            Some((u, next)) => {
                units.push(u);
                assert(views(units@) =~= before.push(u@));
                cur = next;
            },
            None => {
                proof {
                    assert(parse_units(bytes@, start as int, (i + 1) as nat) is None);
                    lemma_parse_units_fails(bytes@, start as int, (i + 1) as nat, n as nat);
                }
                return None;
            },
        }
        i += 1;
    }
    Some((units, cur))
}

pub fn read_fork_proof(bytes: &[u8], pos: usize) -> (r: Option<(ForkProof, usize)>)
    requires
        pos <= bytes@.len(),
    ensures
        match r {
            Some((v, end)) => parse_fork_proof(bytes@, pos as int) == Some((v@, end as int))
                && end <= bytes@.len(),
            None => parse_fork_proof(bytes@, pos as int) is None,
        },
{
    let (u1, end_a) = match read_signed_unit(bytes, pos) {
        Some(x) => x,
        None => { return None; },
    };
    let (u2, end_b) = match read_signed_unit(bytes, end_a) {
        Some(x) => x,
        None => { return None; },
    };
    Some((ForkProof { u1, u2 }, end_b))
}

pub fn read_alert(bytes: &[u8], pos: usize) -> (r: Option<(Alert, usize)>)
    requires
        pos <= bytes@.len(),
    ensures
        match r {
            Some((v, end)) => parse_alert(bytes@, pos as int) == Some((v@, end as int)) && end
                <= bytes@.len(),
            None => parse_alert(bytes@, pos as int) is None,
        },
{
    let (sender, end_a) = match read_usize(bytes, pos) {
        Some(x) => x,
        None => { return None; },
    };
    let (forker, end_b) = match read_usize(bytes, end_a) {
        Some(x) => x,
        None => { return None; },
    };
    let (proof, end_c) = match read_fork_proof(bytes, end_b) {
        Some(x) => x,
        None => { return None; },
    };
    let (legit_units, end_d) = match read_unit_list(bytes, end_c) {
        Some(x) => x,
        None => { return None; },
    };
    Some((Alert { sender, forker, proof, legit_units }, end_d))
}

} // verus!
