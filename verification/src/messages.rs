//! What the member exchanges with its surroundings: the messages between
//! members and their bytes, the commands to the network, and the
//! notifications to and from consensus.

use crate::bft::{
    alert_fits, enc_alert, enc_unit_list, lemma_parse_alert, lemma_parse_unit_list, parse_alert,
    parse_unit_list, put_alert, put_unit_list, read_alert, read_unit_list, units_fit, Alert,
    AlertView,
};
use crate::units::{
    enc_coord, enc_signed_unit, lemma_parse_coord, lemma_parse_signed_unit, parse_coord,
    parse_signed_unit, put_coord, put_signed_unit, read_coord, read_signed_unit, signed_unit_fits,
    views, PreUnit, SignedUnitView, UncheckedSignedUnit, Unit, UnitCoord, UnitView,
};
use crate::wire::{
    enc_u64, lemma_enc_u64_len, lemma_holds_prefix, lemma_holds_split, lemma_parse_u64, parse_u64,
    put_u64, read_u64,
};
use crate::HashValue;
use vstd::prelude::*;

verus! {

/// A message from one member to another.
#[derive(Debug, PartialEq, Eq)]
pub enum ConsensusMessage {
    /// Spreads a newly created unit.
    NewUnit(UncheckedSignedUnit),
    /// Asks for the unit at a position.
    RequestCoord(UnitCoord),
    /// Answers a request for a position.
    ResponseCoord(UncheckedSignedUnit),
    /// Asks for the parents of the unit with the given hash.
    RequestParents(HashValue),
    /// Answers a request for parents, the parents in the order of their creators.
    ResponseParents(HashValue, Vec<UncheckedSignedUnit>),
    /// Reports a fork.
    ForkAlert(Alert),
}

pub enum ConsensusMessageView {
    NewUnit(SignedUnitView),
    RequestCoord(UnitCoord),
    ResponseCoord(SignedUnitView),
    RequestParents(HashValue),
    ResponseParents(HashValue, Seq<SignedUnitView>),
    ForkAlert(AlertView),
}

impl View for ConsensusMessage {
    type V = ConsensusMessageView;

    open spec fn view(&self) -> ConsensusMessageView {
        match self {
            ConsensusMessage::NewUnit(u) => ConsensusMessageView::NewUnit(u@),
            ConsensusMessage::RequestCoord(c) => ConsensusMessageView::RequestCoord(*c),
            ConsensusMessage::ResponseCoord(u) => ConsensusMessageView::ResponseCoord(u@),
            ConsensusMessage::RequestParents(h) => ConsensusMessageView::RequestParents(*h),
            ConsensusMessage::ResponseParents(h, us) => ConsensusMessageView::ResponseParents(
                *h,
                views(us@),
            ),
            ConsensusMessage::ForkAlert(a) => ConsensusMessageView::ForkAlert(a@),
        }
    }
}

/// The bytes of a message: one byte that tells the kind, then the content.
pub open spec fn enc_message(m: ConsensusMessageView) -> Seq<u8> {
    match m {
        ConsensusMessageView::NewUnit(u) => seq![0u8] + enc_signed_unit(u),
        ConsensusMessageView::RequestCoord(c) => seq![1u8] + enc_coord(c),
        ConsensusMessageView::ResponseCoord(u) => seq![2u8] + enc_signed_unit(u),
        ConsensusMessageView::RequestParents(h) => seq![3u8] + enc_u64(h),
        ConsensusMessageView::ResponseParents(h, us) => seq![4u8] + enc_u64(h) + enc_unit_list(us),
        ConsensusMessageView::ForkAlert(a) => seq![5u8] + enc_alert(a),
    }
}

/// Reads a message from the head of `s`. Bytes after the message are ignored.
pub open spec fn parse_message(s: Seq<u8>) -> Option<ConsensusMessageView> {
    if s.len() == 0 {
        None
    } else if s[0] == 0 {
        match parse_signed_unit(s, 1) {
            Some((u, _)) => Some(ConsensusMessageView::NewUnit(u)),
            None => None,
        }
    } else if s[0] == 1 {
        match parse_coord(s, 1) {
            Some((c, _)) => Some(ConsensusMessageView::RequestCoord(c)),
            None => None,
        }
    } else if s[0] == 2 {
        match parse_signed_unit(s, 1) {
            Some((u, _)) => Some(ConsensusMessageView::ResponseCoord(u)),
            None => None,
        }
    } else if s[0] == 3 {
        match parse_u64(s, 1) {
            Some((h, _)) => Some(ConsensusMessageView::RequestParents(h)),
            None => None,
        }
    } else if s[0] == 4 {
        match parse_u64(s, 1) {
            Some((h, end_a)) => match parse_unit_list(s, end_a) {
                Some((us, _)) => Some(ConsensusMessageView::ResponseParents(h, us)),
                None => None,
            },
            None => None,
        }
    } else if s[0] == 5 {
        match parse_alert(s, 1) {
            Some((a, _)) => Some(ConsensusMessageView::ForkAlert(a)),
            None => None,
        }
    } else {
        None
    }
}

/// The lists of a message are short enough for their lengths to be written.
/// This holds of every message that a machine can hold.
pub open spec fn message_fits(m: ConsensusMessageView) -> bool {
    match m {
        ConsensusMessageView::NewUnit(u) => signed_unit_fits(u),
        ConsensusMessageView::RequestCoord(c) => true,
        ConsensusMessageView::ResponseCoord(u) => signed_unit_fits(u),
        ConsensusMessageView::RequestParents(h) => true,
        ConsensusMessageView::ResponseParents(h, us) => units_fit(us),
        ConsensusMessageView::ForkAlert(a) => alert_fits(a),
    }
}

/// Encoding a message and decoding the bytes gives the message back,
/// whatever bytes follow it.
pub proof fn law_decode_inverts_encode(m: ConsensusMessageView, rest: Seq<u8>)
    requires
        message_fits(m),
    ensures
        parse_message(enc_message(m) + rest) == Some(m),
{
    let e = enc_message(m);
    let s = e + rest;
    lemma_holds_prefix(e, rest);
    match m {
        ConsensusMessageView::NewUnit(u) => {
            lemma_holds_split(s, 0, seq![0u8], enc_signed_unit(u));
            lemma_parse_signed_unit(s, 1, u);
        },
        ConsensusMessageView::RequestCoord(c) => {
            lemma_holds_split(s, 0, seq![1u8], enc_coord(c));
            lemma_parse_coord(s, 1, c);
        },
        ConsensusMessageView::ResponseCoord(u) => {
            lemma_holds_split(s, 0, seq![2u8], enc_signed_unit(u));
            lemma_parse_signed_unit(s, 1, u);
        },
        ConsensusMessageView::RequestParents(h) => {
            lemma_holds_split(s, 0, seq![3u8], enc_u64(h));
            lemma_parse_u64(s, 1, h);
        },
        ConsensusMessageView::ResponseParents(h, us) => {
            lemma_enc_u64_len(h);
            lemma_holds_split(s, 0, seq![4u8] + enc_u64(h), enc_unit_list(us));
            lemma_holds_split(s, 0, seq![4u8], enc_u64(h));
            lemma_parse_u64(s, 1, h);
            lemma_parse_unit_list(s, 9, us);
        },
        ConsensusMessageView::ForkAlert(a) => {
            lemma_holds_split(s, 0, seq![5u8], enc_alert(a));
            lemma_parse_alert(s, 1, a);
        },
    }
    assert(s[0] == e[0]);
}

impl ConsensusMessage {
    /// Writes the message to bytes.
    pub fn encode(&self) -> (bytes: Vec<u8>)
        ensures
            bytes@ == enc_message(self@),
    {
        let mut out: Vec<u8> = Vec::new();
        match self {
            ConsensusMessage::NewUnit(u) => {
                out.push(0u8);
                put_signed_unit(&mut out, u);
            },
            ConsensusMessage::RequestCoord(c) => {
                out.push(1u8);
                put_coord(&mut out, c);
            },
            ConsensusMessage::ResponseCoord(u) => {
                out.push(2u8);
                put_signed_unit(&mut out, u);
            },
            ConsensusMessage::RequestParents(h) => {
                out.push(3u8);
                put_u64(&mut out, *h);
            },
            ConsensusMessage::ResponseParents(h, us) => {
                out.push(4u8);
                put_u64(&mut out, *h);
                put_unit_list(&mut out, us);
            },
            ConsensusMessage::ForkAlert(a) => {
                out.push(5u8);
                put_alert(&mut out, a);
            },
        }
        assert(out@ =~= enc_message(self@));
        out
    }

    /// Reads a message from the head of `bytes`; gives none where no message stands there.
    pub fn decode(bytes: &[u8]) -> (r: Option<ConsensusMessage>)
        ensures
            match r {
                Some(m) => parse_message(bytes@) == Some(m@),
                None => parse_message(bytes@) is None,
            },
    {
        if bytes.len() == 0 {
            return None;
        }
        let kind: u8 = bytes[0];
        if kind == 0 {
            match read_signed_unit(bytes, 1) {
                Some((u, _)) => Some(ConsensusMessage::NewUnit(u)),
                None => None,
            }
        } else if kind == 1 {
            match read_coord(bytes, 1) {
                Some((c, _)) => Some(ConsensusMessage::RequestCoord(c)),
                None => None,
            }
        } else if kind == 2 {
            match read_signed_unit(bytes, 1) {
                Some((u, _)) => Some(ConsensusMessage::ResponseCoord(u)),
                None => None,
            }
        } else if kind == 3 {
            match read_u64(bytes, 1) {
                Some((h, _)) => Some(ConsensusMessage::RequestParents(h)),
                None => None,
            }
        } else if kind == 4 {
            match read_u64(bytes, 1) {
                Some((h, end_a)) => match read_unit_list(bytes, end_a) {
                    Some((us, _)) => Some(ConsensusMessage::ResponseParents(h, us)),
                    None => None,
                },
                None => None,
            }
        } else if kind == 5 {
            match read_alert(bytes, 1) {
                Some((a, _)) => Some(ConsensusMessage::ForkAlert(a)),
                None => None,
            }
        } else {
            None
        }
    }
}

/// What the member asks of the network.
#[derive(Debug, PartialEq, Eq)]
pub enum NetworkCommand {
    /// Send the bytes to every peer.
    SendToAll(Vec<u8>),
    /// Send the bytes to the peer with the given id.
    SendToPeer(Vec<u8>, Vec<u8>),
    /// Send the bytes to a peer that the network picks.
    SendToRandPeer(Vec<u8>),
    /// Deliver the bytes to every honest member, whatever happens.
    ReliableBroadcast(Vec<u8>),
}

pub enum NetworkCommandView {
    SendToAll(Seq<u8>),
    SendToPeer(Seq<u8>, Seq<u8>),
    SendToRandPeer(Seq<u8>),
    ReliableBroadcast(Seq<u8>),
}

impl View for NetworkCommand {
    type V = NetworkCommandView;

    open spec fn view(&self) -> NetworkCommandView {
        match self {
            NetworkCommand::SendToAll(m) => NetworkCommandView::SendToAll(m@),
            NetworkCommand::SendToPeer(m, p) => NetworkCommandView::SendToPeer(m@, p@),
            NetworkCommand::SendToRandPeer(m) => NetworkCommandView::SendToRandPeer(m@),
            NetworkCommand::ReliableBroadcast(m) => NetworkCommandView::ReliableBroadcast(m@),
        }
    }
}

/// What the network tells the member.
#[derive(Debug, PartialEq, Eq)]
pub enum NetworkEvent {
    /// Bytes arrived from the peer with the given id.
    MessageReceived(Vec<u8>, Vec<u8>),
}

/// What the member tells consensus.
#[derive(Debug, PartialEq, Eq)]
pub enum NotificationIn {
    /// Units that entered the store.
    NewUnits(Vec<Unit>),
    /// The parents of a unit whose control hash consensus could not match.
    UnitParents(HashValue, Vec<HashValue>),
}

pub enum NotificationInView {
    NewUnits(Seq<UnitView>),
    UnitParents(HashValue, Seq<HashValue>),
}

impl View for NotificationIn {
    type V = NotificationInView;

    open spec fn view(&self) -> NotificationInView {
        match self {
            NotificationIn::NewUnits(us) => NotificationInView::NewUnits(views(us@)),
            NotificationIn::UnitParents(h, ps) => NotificationInView::UnitParents(*h, ps@),
        }
    }
}

/// What consensus tells the member.
#[derive(Debug, PartialEq, Eq)]
pub enum NotificationOut {
    /// The local authority made a unit; the member signs and spreads it.
    CreatedPreUnit(PreUnit),
    /// Units at these positions are needed; the member fetches them.
    MissingUnits(Vec<UnitCoord>),
    /// The parents of this unit do not match its control hash; the member fetches them.
    WrongControlHash(HashValue),
    /// A unit entered the DAG with these parents.
    AddedToDag(HashValue, Vec<HashValue>),
}

impl From<PreUnit> for NotificationOut {
    /// The notification of a created unit.
    fn from(pu: PreUnit) -> (res: NotificationOut) {
        NotificationOut::CreatedPreUnit(pu)
    }
}

impl vstd::std_specs::convert::FromSpecImpl<PreUnit> for NotificationOut {
    open spec fn obeys_from_spec() -> bool {
        true
    }

    open spec fn from_spec(pu: PreUnit) -> NotificationOut {
        NotificationOut::CreatedPreUnit(pu)
    }
}

/// One thing that the member leaves for its host to carry out.
#[derive(Debug, PartialEq, Eq)]
pub enum Action {
    /// Hand the command to the network.
    Network(NetworkCommand),
    /// Hand the notification to consensus.
    Consensus(NotificationIn),
    /// Hand the data of an ordered batch to the data sink.
    OrderedBatch(Vec<Vec<u8>>),
}

pub enum ActionView {
    Network(NetworkCommandView),
    Consensus(NotificationInView),
    OrderedBatch(Seq<Seq<u8>>),
}

impl View for Action {
    type V = ActionView;

    open spec fn view(&self) -> ActionView {
        match self {
            Action::Network(c) => ActionView::Network(c@),
            Action::Consensus(n) => ActionView::Consensus(n@),
            Action::OrderedBatch(b) => ActionView::OrderedBatch(views(b@)),
        }
    }
}

} // verus!
