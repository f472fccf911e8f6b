//! Byte-level building blocks of the wire format: integers, byte strings and
//! lists of booleans, each with its encoder, its parser and the proof that the
//! parser undoes the encoder.

use parity_scale_codec::{Decode, Encode};
use vstd::bytes::*;
use vstd::prelude::*;

verus! {

/// The encoding of a `u64`: eight bytes, least significant first.
pub open spec fn enc_u64(x: u64) -> Seq<u8> {
    spec_u64_to_le_bytes(x)
}

/// Reads a `u64` at `pos`; fails when fewer than eight bytes are left.
pub open spec fn parse_u64(s: Seq<u8>, pos: int) -> Option<(u64, int)> {
    if 0 <= pos && pos + 8 <= s.len() {
        Some((spec_u64_from_le_bytes(s.subrange(pos, pos + 8)), pos + 8))
    } else {
        None
    }
}

/// The encoding of an index: that of the same number as a `u64`.
pub open spec fn enc_usize(x: usize) -> Seq<u8> {
    enc_u64(x as u64)
}

/// Reads an index at `pos`; fails when the number does not fit in `usize`.
pub open spec fn parse_usize(s: Seq<u8>, pos: int) -> Option<(usize, int)> {
    match parse_u64(s, pos) {
        Some((v, end)) => if v <= usize::MAX {
            Some((v as usize, end))
        } else {
            None
        },
        None => None,
    }
}

/// The encoding of a byte string: its length as a `u64`, then the bytes.
pub open spec fn enc_bytes(b: Seq<u8>) -> Seq<u8> {
    enc_u64(b.len() as u64) + b
}

/// Reads a byte string at `pos`; fails when the announced length exceeds what is left.
pub open spec fn parse_bytes(s: Seq<u8>, pos: int) -> Option<(Seq<u8>, int)> {
    match parse_u64(s, pos) {
        Some((n, start)) => if start + n <= s.len() {
            Some((s.subrange(start, start + n), start + n))
        } else {
            None
        },
        None => None,
    }
}

/// One byte per boolean: 1 for `true`, 0 for `false`.
pub open spec fn bool_bytes(b: Seq<bool>) -> Seq<u8> {
    Seq::new(b.len(), |i: int| if b[i] { 1u8 } else { 0u8 })
}

/// The encoding of a list of booleans: its length as a `u64`, then one byte each.
pub open spec fn enc_bools(b: Seq<bool>) -> Seq<u8> {
    enc_u64(b.len() as u64) + bool_bytes(b)
}

/// Reads a list of booleans at `pos`; fails on a short input and on any byte other than 0 and 1.
pub open spec fn parse_bools(s: Seq<u8>, pos: int) -> Option<(Seq<bool>, int)> {
    match parse_u64(s, pos) {
        Some((n, start)) => if start + n <= s.len() && (forall|i: int|
            start <= i < start + n ==> #[trigger] s[i] <= 1) {
            Some((Seq::new(n as nat, |i: int| s[start + i] == 1u8), start + n))
        } else {
            None
        },
        None => None,
    }
}

/// `e` stands in `s` at `pos`.
pub open spec fn holds_at(s: Seq<u8>, pos: int, e: Seq<u8>) -> bool {
    &&& 0 <= pos
    &&& pos + e.len() <= s.len()
    &&& s.subrange(pos, pos + e.len()) == e
}

/// Where a concatenation stands, its two parts stand one after the other.
pub proof fn lemma_holds_split(s: Seq<u8>, pos: int, a: Seq<u8>, b: Seq<u8>)
    requires
        holds_at(s, pos, a + b),
    ensures
        holds_at(s, pos, a),
        holds_at(s, pos + a.len(), b),
{
    let whole = s.subrange(pos, pos + (a + b).len());
    assert(s.subrange(pos, pos + a.len()) =~= whole.subrange(0, a.len() as int));
    assert(whole.subrange(0, a.len() as int) =~= a);
    assert(s.subrange(pos + a.len(), pos + a.len() + b.len()) =~= whole.subrange(
        a.len() as int,
        (a + b).len() as int,
    ));
    assert(whole.subrange(a.len() as int, (a + b).len() as int) =~= b);
}

/// What stands at the head of `e` still stands there when more bytes follow.
pub proof fn lemma_holds_prefix(e: Seq<u8>, rest: Seq<u8>)
    ensures
        holds_at(e + rest, 0, e),
{
    assert((e + rest).subrange(0, e.len() as int) =~= e);
}

pub proof fn lemma_enc_u64_len(x: u64)
    ensures
        enc_u64(x).len() == 8,
{
    lemma_auto_spec_u64_to_from_le_bytes();
}

pub proof fn lemma_parse_u64(s: Seq<u8>, pos: int, x: u64)
    requires
        holds_at(s, pos, enc_u64(x)),
    ensures
        parse_u64(s, pos) == Some((x, pos + 8)),
{
    lemma_auto_spec_u64_to_from_le_bytes();
}

pub proof fn lemma_parse_usize(s: Seq<u8>, pos: int, x: usize)
    requires
        holds_at(s, pos, enc_usize(x)),
    ensures
        parse_usize(s, pos) == Some((x, pos + 8)),
{
    lemma_parse_u64(s, pos, x as u64);
}

pub proof fn lemma_parse_bytes(s: Seq<u8>, pos: int, b: Seq<u8>)
    requires
        b.len() <= u64::MAX,
        holds_at(s, pos, enc_bytes(b)),
    ensures
        parse_bytes(s, pos) == Some((b, pos + 8 + b.len())),
{
    lemma_enc_u64_len(b.len() as u64);
    lemma_holds_split(s, pos, enc_u64(b.len() as u64), b);
    lemma_parse_u64(s, pos, b.len() as u64);
}

pub proof fn lemma_parse_bools(s: Seq<u8>, pos: int, b: Seq<bool>)
    requires
        b.len() <= u64::MAX,
        holds_at(s, pos, enc_bools(b)),
    ensures
        parse_bools(s, pos) == Some((b, pos + 8 + b.len())),
{
    lemma_enc_u64_len(b.len() as u64);
    lemma_holds_split(s, pos, enc_u64(b.len() as u64), bool_bytes(b));
    lemma_parse_u64(s, pos, b.len() as u64);
    let start = pos + 8;
    let n = b.len() as int;
    let body = s.subrange(start, start + n);
    assert(body == bool_bytes(b));
    assert forall|i: int| start <= i < start + n implies #[trigger] s[i] <= 1 by {
        assert(s[i] == body[i - start]);
    }
    let got = Seq::new(n as nat, |i: int| s[start + i] == 1u8);
    assert forall|i: int| 0 <= i < n implies got[i] == b[i] by {
        assert(s[start + i] == body[i]);
    }
    assert(got =~= b);
}

/// Calls `parity_scale_codec::Encode::encode` on a `u64`. The crate writes
/// such a number as its eight bytes, least significant first; that is all
/// that is claimed of the call.
#[verifier::external_body]
fn scale_encode_u64(x: u64) -> (out: Vec<u8>)
    ensures
        out@ == spec_u64_to_le_bytes(x),
{
    x.encode()
}

/// Calls `parity_scale_codec::Decode::decode` for `u64` on the bytes from
/// `pos` on. The crate fails when fewer than eight bytes are there, and
/// otherwise reads the first eight as a number, least significant byte
/// first; that is all that is claimed of the call.
#[verifier::external_body]
fn scale_decode_u64(bytes: &[u8], pos: usize) -> (r: Option<u64>)
    requires
        pos <= bytes@.len(),
    ensures
        r == (if bytes@.len() - pos >= 8 {
            Some(spec_u64_from_le_bytes(bytes@.subrange(pos as int, pos + 8)))
        } else {
            None::<u64>
        }),
{
    let mut input: &[u8] = &bytes[pos..];
    u64::decode(&mut input).ok()
}

/// Appends the encoding of `x`.
pub fn put_u64(out: &mut Vec<u8>, x: u64)
    ensures
        final(out)@ == old(out)@ + enc_u64(x),
{
    let mut piece = scale_encode_u64(x);
    out.append(&mut piece);
}

/// Appends the encoding of the index `x`.
pub fn put_usize(out: &mut Vec<u8>, x: usize)
    ensures
        final(out)@ == old(out)@ + enc_usize(x),
{
    put_u64(out, x as u64);
}

/// Appends the encoding of the byte string `b`.
pub fn put_bytes(out: &mut Vec<u8>, b: &Vec<u8>)
    ensures
        final(out)@ == old(out)@ + enc_bytes(b@),
{
    put_u64(out, b.len() as u64);
    let ghost head = out@;
    let mut i: usize = 0;
    while i < b.len()
        invariant
            i <= b.len(),
            out@ == head + b@.take(i as int),
        decreases b.len() - i,
    {
        out.push(b[i]);
        assert(b@.take(i as int).push(b@[i as int]) =~= b@.take(i + 1));
        assert(out@ =~= head + b@.take(i + 1));
        i += 1;
    }
    assert(b@.take(b.len() as int) =~= b@);
    assert(out@ =~= old(out)@ + enc_bytes(b@));
}

/// Appends the encoding of the list of booleans `b`.
pub fn put_bools(out: &mut Vec<u8>, b: &Vec<bool>)
    ensures
        final(out)@ == old(out)@ + enc_bools(b@),
{
    put_u64(out, b.len() as u64);
    let ghost head = out@;
    let mut i: usize = 0;
    while i < b.len()
        invariant
            i <= b.len(),
            out@ == head + bool_bytes(b@.take(i as int)),
        decreases b.len() - i,
    {
        let byte: u8 = if b[i] { 1 } else { 0 };
        out.push(byte);
        assert(bool_bytes(b@.take(i as int)).push(byte) =~= bool_bytes(b@.take(i + 1)));
        assert(out@ =~= head + bool_bytes(b@.take(i + 1)));
        i += 1;
    }
    assert(b@.take(b.len() as int) =~= b@);
    assert(out@ =~= old(out)@ + enc_bools(b@));
}

/// Reads a `u64` at `pos`.
pub fn read_u64(bytes: &[u8], pos: usize) -> (r: Option<(u64, usize)>)
    requires
        pos <= bytes@.len(),
    ensures
        match r {
            Some((v, end)) => parse_u64(bytes@, pos as int) == Some((v, end as int)) && end
                <= bytes@.len(),
            None => parse_u64(bytes@, pos as int) is None,
        },
{
    let len: usize = bytes.len();
    match scale_decode_u64(bytes, pos) {
        Some(v) => {
            assert(len - pos >= 8);
            Some((v, pos + 8))
        },
        None => None,
    }
}

/// Reads an index at `pos`.
pub fn read_usize(bytes: &[u8], pos: usize) -> (r: Option<(usize, usize)>)
    requires
        pos <= bytes@.len(),
    ensures
        match r {
            Some((v, end)) => parse_usize(bytes@, pos as int) == Some((v, end as int)) && end
                <= bytes@.len(),
            None => parse_usize(bytes@, pos as int) is None,
        },
{
    match read_u64(bytes, pos) {
        Some((v, end)) => {
            if v <= usize::MAX as u64 {
                Some((v as usize, end))
            } else {
                None
            }
        },
        None => None,
    }
}

/// Reads a byte string at `pos`.
pub fn read_bytes(bytes: &[u8], pos: usize) -> (r: Option<(Vec<u8>, usize)>)
    requires
        pos <= bytes@.len(),
    ensures
        match r {
            Some((v, end)) => parse_bytes(bytes@, pos as int) == Some((v@, end as int)) && end
                <= bytes@.len(),
            None => parse_bytes(bytes@, pos as int) is None,
        },
{
    match read_u64(bytes, pos) {
        Some((n, start)) => {
            if n > (bytes.len() - start) as u64 {
                return None;
            }
            let end: usize = start + n as usize;
            let mut v: Vec<u8> = Vec::new();
            let mut i: usize = start;
            while i < end
                invariant
                    start <= i <= end <= bytes@.len(),
                    v@ == bytes@.subrange(start as int, i as int),
                decreases end - i,
            {
                v.push(bytes[i]);
                assert(bytes@.subrange(start as int, i as int).push(bytes@[i as int])
                    =~= bytes@.subrange(start as int, i + 1));
                i += 1;
            }
            Some((v, end))
        },
        None => None,
    }
}

/// Reads a list of booleans at `pos`.
pub fn read_bools(bytes: &[u8], pos: usize) -> (r: Option<(Vec<bool>, usize)>)
    requires
        pos <= bytes@.len(),
    ensures
        match r {
            Some((v, end)) => parse_bools(bytes@, pos as int) == Some((v@, end as int)) && end
                <= bytes@.len(),
            None => parse_bools(bytes@, pos as int) is None,
        },
{
    match read_u64(bytes, pos) {
        Some((n, start)) => {
            if n > (bytes.len() - start) as u64 {
                return None;
            }
            let end: usize = start + n as usize;
            let mut v: Vec<bool> = Vec::new();
            let mut i: usize = start;
            while i < end
                invariant
                    start <= i <= end <= bytes@.len(),
                    end == start + n,
                    parse_u64(bytes@, pos as int) == Some((n, start as int)),
                    v@.len() == i - start,
                    forall|k: int| start <= k < i ==> #[trigger] bytes@[k] <= 1,
                    forall|k: int| 0 <= k < i - start ==> v@[k] == (bytes@[start + k] == 1u8),
                decreases end - i,
            {
                let byte: u8 = bytes[i];
                if byte > 1 {
                    assert(!(bytes@[i as int] <= 1));
                    return None;
                }
                v.push(byte == 1);
                i += 1;
            }
            assert(v@ =~= Seq::new(n as nat, |k: int| bytes@[start + k] == 1u8));
            Some((v, end))
        },
        None => None,
    }
}

} // verus!
