//! The canonical binary codec.
//!
//! Records are framed as a fixed-order concatenation of CBOR items, written
//! and read through minicbor. The byte encoding of each primitive item is
//! named by an uninterpreted function and trusted to minicbor; the framing —
//! field order, variant tags, option tags and element counts — is this
//! library's own and is verified, including that decoding reads back exactly
//! what encoding wrote.

use crate::context::{
    TradeContext, TradeContextView, Witness, WitnessType, WitnessTypeView, WitnessView,
};
use crate::trade::{Currency, Direction, TimeStamp, TradeDetails, TradeDetailsView};
use vstd::prelude::*;

verus! {

/// The bytes minicbor writes for an unsigned integer.
pub uninterp spec fn cbor_u64(v: u64) -> Seq<u8>;

/// The bytes minicbor writes for a signed integer.
pub uninterp spec fn cbor_i64(v: i64) -> Seq<u8>;

/// The bytes minicbor writes for a text string.
pub uninterp spec fn cbor_str(s: Seq<char>) -> Seq<u8>;

/// Relies on minicbor's `Encoder::u64`: appends the CBOR encoding of an
/// unsigned integer to the buffer; writing to a `Vec` cannot fail.
#[verifier::external_body]
pub(crate) fn push_u64(buf: &mut Vec<u8>, v: u64)
    ensures
        final (buf)@ == old(buf)@ + cbor_u64(v),
{
    let mut e = minicbor::Encoder::new(&mut *buf);
    let _ = e.u64(v);
}

/// Relies on minicbor's `Encoder::i64`: appends the CBOR encoding of a
/// signed integer to the buffer; writing to a `Vec` cannot fail.
#[verifier::external_body]
pub(crate) fn push_i64(buf: &mut Vec<u8>, v: i64)
    ensures
        final (buf)@ == old(buf)@ + cbor_i64(v),
{
    let mut e = minicbor::Encoder::new(&mut *buf);
    let _ = e.i64(v);
}

/// Relies on minicbor's `Encoder::str`: appends the CBOR encoding of a text
/// string to the buffer; writing to a `Vec` cannot fail.
#[verifier::external_body]
pub(crate) fn push_str(buf: &mut Vec<u8>, s: &str)
    ensures
        final (buf)@ == old(buf)@ + cbor_str(s@),
{
    let mut e = minicbor::Encoder::new(&mut *buf);
    let _ = e.str(s);
}

/// Relies on minicbor's `Decoder::u64`: reads one CBOR unsigned integer
/// starting at `pos`. minicbor's decoder reads back exactly the item its
/// encoder wrote and stops right after it, whatever follows; and since the
/// item's first byte fixes its format and the format its extent, no two
/// values' encodings begin the same byte string.
#[verifier::external_body]
pub(crate) fn read_u64(bytes: &Vec<u8>, pos: usize) -> (r: Option<(u64, usize)>)
    requires
        pos <= bytes@.len(),
    ensures
        forall|v: u64| #[trigger]
            cbor_u64(v).is_prefix_of(bytes@.skip(pos as int)) ==> r is Some && r->Some_0.0 == v
                && r->Some_0.1 == pos + cbor_u64(v).len(),
        r matches Some((v, p)) ==> pos < p <= bytes@.len(),
{
    let mut d = minicbor::Decoder::new(&bytes[pos..]);
    match d.u64() {
        Ok(v) => Some((v, pos + d.position())),
        Err(_) => None,
    }
}

/// Relies on minicbor's `Decoder::i64`: reads one CBOR signed integer
/// starting at `pos`. minicbor's decoder reads back exactly the item its
/// encoder wrote and stops right after it, whatever follows; and since the
/// item's first byte fixes its format and the format its extent, no two
/// values' encodings begin the same byte string.
#[verifier::external_body]
pub(crate) fn read_i64(bytes: &Vec<u8>, pos: usize) -> (r: Option<(i64, usize)>)
    requires
        pos <= bytes@.len(),
    ensures
        forall|v: i64| #[trigger]
            cbor_i64(v).is_prefix_of(bytes@.skip(pos as int)) ==> r is Some && r->Some_0.0 == v
                && r->Some_0.1 == pos + cbor_i64(v).len(),
        r matches Some((v, p)) ==> pos < p <= bytes@.len(),
{
    let mut d = minicbor::Decoder::new(&bytes[pos..]);
    match d.i64() {
        Ok(v) => Some((v, pos + d.position())),
        Err(_) => None,
    }
}

/// Relies on minicbor's `Decoder::str`: reads one CBOR text string starting
/// at `pos`. minicbor's decoder reads back exactly the item its encoder
/// wrote and stops right after it, whatever follows; and since the item's
/// first byte fixes its format and the format its extent, no two values'
/// encodings begin the same byte string.
#[verifier::external_body]
pub(crate) fn read_str(bytes: &Vec<u8>, pos: usize) -> (r: Option<(String, usize)>)
    requires
        pos <= bytes@.len(),
    ensures
        forall|s: Seq<char>| #[trigger]
            cbor_str(s).is_prefix_of(bytes@.skip(pos as int)) ==> r is Some && r->Some_0.0@ == s
                && r->Some_0.1 == pos + cbor_str(s).len(),
        r matches Some((t, p)) ==> pos < p <= bytes@.len(),
{
    let mut d = minicbor::Decoder::new(&bytes[pos..]);
    match d.str() {
        Ok(s) => {
            let t = s.to_owned();
            Some((t, pos + d.position()))
        },
        Err(_) => None,
    }
}

/// A prefix made of two parts splits: the first part is a prefix, and the
/// second is a prefix of what remains after it.
pub proof fn lemma_prefix_concat(a: Seq<u8>, b: Seq<u8>, c: Seq<u8>)
    requires
        (a + b).is_prefix_of(c),
    ensures
        a.is_prefix_of(c),
        b.is_prefix_of(c.skip(a.len() as int)),
{
    assert(a =~= c.subrange(0, a.len() as int));
    assert forall|i: int| 0 <= i < b.len() implies b[i] == c.skip(a.len() as int)[i] by {
        assert((a + b)[a.len() + i] == b[i]);
        assert((a + b)[a.len() + i] == c.subrange(0, (a + b).len() as int)[a.len() + i]);
    }
    assert(b =~= c.skip(a.len() as int).subrange(0, b.len() as int));
}

/// Skipping twice is skipping the sum.
pub proof fn lemma_skip_skip(c: Seq<u8>, i: int, j: int)
    requires
        0 <= i,
        0 <= j,
        i + j <= c.len(),
    ensures
        c.skip(i).skip(j) == c.skip(i + j),
{
    assert(c.skip(i).skip(j) =~= c.skip(i + j));
}

// ---------------------------------------------------------------------------
// Timestamps
// ---------------------------------------------------------------------------
/// The canonical encoding of a timestamp: its nanosecond count as one CBOR
/// signed integer.
pub open spec fn enc_timestamp(t: TimeStamp) -> Seq<u8> {
    cbor_i64(t.nanos)
}

/// Appends the canonical encoding of a timestamp.
pub(crate) fn write_timestamp(buf: &mut Vec<u8>, t: &TimeStamp)
    ensures
        final (buf)@ == old(buf)@ + enc_timestamp(*t),
{
    push_i64(buf, t.nanos);
}

/// Encodes a timestamp canonically.
pub fn encode_timestamp(t: &TimeStamp) -> (r: Vec<u8>)
    ensures
        r@ == enc_timestamp(*t),
{
    let mut buf: Vec<u8> = Vec::new();
    write_timestamp(&mut buf, t);
    proof {
        assert(buf@ =~= enc_timestamp(*t));
    }
    buf
}

/// Reads one timestamp starting at `pos`: whenever the bytes there begin
/// with the encoding of a timestamp, exactly that timestamp is read back.
pub(crate) fn read_timestamp(bytes: &Vec<u8>, pos: usize) -> (r: Option<(TimeStamp, usize)>)
    requires
        pos <= bytes@.len(),
    ensures
        forall|t: TimeStamp| #[trigger]
            enc_timestamp(t).is_prefix_of(bytes@.skip(pos as int)) ==> r is Some && r->Some_0.0
                == t && r->Some_0.1 == pos + enc_timestamp(t).len(),
        r matches Some((t, p)) ==> pos < p <= bytes@.len(),
{
    match read_i64(bytes, pos) {
        Some((n, p)) => Some((TimeStamp { nanos: n }, p)),
        None => None,
    }
}

/// The variant tag of a witness type.
pub open spec fn wt_tag(wt: WitnessTypeView) -> u64 {
    match wt {
        WitnessTypeView::Submit { .. } => 0,
        WitnessTypeView::Approve => 1,
        WitnessTypeView::Cancel => 2,
        WitnessTypeView::Update { .. } => 3,
        WitnessTypeView::SendToExecute => 4,
        WitnessTypeView::Book { .. } => 5,
    }
}

/// The payload that follows a witness type's tag.
pub open spec fn wt_payload(wt: WitnessTypeView) -> Seq<u8> {
    match wt {
        WitnessTypeView::Submit { details_hash, requester_id, approver_id } => cbor_str(
            details_hash,
        ) + cbor_str(requester_id) + cbor_str(approver_id),
        WitnessTypeView::Update { details_hash } => cbor_str(details_hash),
        WitnessTypeView::Book { strike } => cbor_u64(strike),
        _ => Seq::<u8>::empty(),
    }
}

/// The canonical encoding of a witness type: its variant tag, then its
/// payload in field order.
pub open spec fn enc_witness_type(wt: WitnessTypeView) -> Seq<u8> {
    cbor_u64(wt_tag(wt)) + wt_payload(wt)
}

/// Appends the canonical encoding of a witness type.
pub(crate) fn write_witness_type(buf: &mut Vec<u8>, wt: &WitnessType)
    ensures
        final (buf)@ == old(buf)@ + enc_witness_type(wt@),
{
    let ghost pre = buf@;
    match wt {
        WitnessType::Submit { details_hash, requester_id, approver_id } => {
            push_u64(buf, 0);
            push_str(buf, details_hash.as_str());
            push_str(buf, requester_id.as_str());
            push_str(buf, approver_id.as_str());
        },
        WitnessType::Approve => {
            push_u64(buf, 1);
        },
        WitnessType::Cancel => {
            push_u64(buf, 2);
        },
        WitnessType::Update { details_hash } => {
            push_u64(buf, 3);
            push_str(buf, details_hash.as_str());
        },
        WitnessType::SendToExecute => {
            push_u64(buf, 4);
        },
        WitnessType::Book { strike } => {
            push_u64(buf, 5);
            push_u64(buf, *strike);
        },
    }
    proof {
        assert(buf@ =~= pre + enc_witness_type(wt@));
    }
}

/// Reads one witness type starting at `pos`: whenever the bytes there begin
/// with the encoding of a witness type, exactly that witness type is read
/// back.
pub(crate) fn read_witness_type(bytes: &Vec<u8>, pos: usize) -> (r: Option<(WitnessType, usize)>)
    requires
        pos <= bytes@.len(),
    ensures
        forall|wt: WitnessTypeView| #[trigger]
            enc_witness_type(wt).is_prefix_of(bytes@.skip(pos as int)) ==> r is Some
                && r->Some_0.0@ == wt && r->Some_0.1 == pos + enc_witness_type(wt).len(),
        r matches Some((w, p)) ==> pos < p <= bytes@.len(),
{
    let t = read_u64(bytes, pos);
    proof {
        assert forall|wt: WitnessTypeView| #[trigger]
            enc_witness_type(wt).is_prefix_of(bytes@.skip(pos as int)) implies {
            &&& cbor_u64(wt_tag(wt)).is_prefix_of(bytes@.skip(pos as int))
            &&& t is Some
            &&& t->Some_0.0 == wt_tag(wt)
            &&& t->Some_0.1 == pos + cbor_u64(wt_tag(wt)).len()
            &&& wt_payload(wt).is_prefix_of(bytes@.skip(pos + cbor_u64(wt_tag(wt)).len()))
        } by {
            lemma_prefix_concat(cbor_u64(wt_tag(wt)), wt_payload(wt), bytes@.skip(pos as int));
            lemma_skip_skip(bytes@, pos as int, cbor_u64(wt_tag(wt)).len() as int);
        }
    }
    match t {
        None => None,
        Some((tag, p1)) => {
            if tag == 0 {
                let s1 = read_str(bytes, p1);
                match s1 {
                    None => {
                        proof {
                            assert forall|wt: WitnessTypeView|
                                !(#[trigger] enc_witness_type(wt).is_prefix_of(
                                    bytes@.skip(pos as int),
                                )) by {
                                if enc_witness_type(wt).is_prefix_of(bytes@.skip(pos as int)) {
                                    let h = wt->Submit_details_hash;
                                    lemma_prefix_concat(
                                        cbor_str(h) + cbor_str(wt->Submit_requester_id),
                                        cbor_str(wt->Submit_approver_id),
                                        bytes@.skip(p1 as int),
                                    );
                                    lemma_prefix_concat(
                                        cbor_str(h),
                                        cbor_str(wt->Submit_requester_id),
                                        bytes@.skip(p1 as int),
                                    );
                                }
                            }
                        }
                        None
                    },
                    Some((h, p2)) => {
                        proof {
                            assert forall|wt: WitnessTypeView| #[trigger]
                                enc_witness_type(wt).is_prefix_of(bytes@.skip(pos as int)) implies {
                                &&& wt is Submit
                                &&& h@ == wt->Submit_details_hash
                                &&& cbor_str(wt->Submit_requester_id).is_prefix_of(
                                    bytes@.skip(p2 as int),
                                )
                                &&& p2 == p1 + cbor_str(wt->Submit_details_hash).len()
                            } by {
                                let dh = wt->Submit_details_hash;
                                let rq = wt->Submit_requester_id;
                                let ap = wt->Submit_approver_id;
                                lemma_prefix_concat(
                                    cbor_str(dh) + cbor_str(rq),
                                    cbor_str(ap),
                                    bytes@.skip(p1 as int),
                                );
                                lemma_prefix_concat(cbor_str(dh), cbor_str(rq), bytes@.skip(p1 as int));
                                assert(cbor_str(dh).is_prefix_of(bytes@.skip(p1 as int)));
                                lemma_skip_skip(bytes@, p1 as int, cbor_str(dh).len() as int);
                            }
                        }
                        let s2 = read_str(bytes, p2);
                        match s2 {
                            None => None,
                            Some((rq, p3)) => {
                                proof {
                                    assert forall|wt: WitnessTypeView| #[trigger]
                                        enc_witness_type(wt).is_prefix_of(
                                            bytes@.skip(pos as int),
                                        ) implies {
                                        &&& rq@ == wt->Submit_requester_id
                                        &&& cbor_str(wt->Submit_approver_id).is_prefix_of(
                                            bytes@.skip(p3 as int),
                                        )
                                        &&& p3 == p2 + cbor_str(wt->Submit_requester_id).len()
                                    } by {
                                        let dh = wt->Submit_details_hash;
                                        let rqv = wt->Submit_requester_id;
                                        let ap = wt->Submit_approver_id;
                                        lemma_prefix_concat(
                                            cbor_str(dh) + cbor_str(rqv),
                                            cbor_str(ap),
                                            bytes@.skip(p1 as int),
                                        );
                                        lemma_skip_skip(
                                            bytes@,
                                            p1 as int,
                                            (cbor_str(dh).len() + cbor_str(rqv).len()) as int,
                                        );
                                    }
                                }
                                let s3 = read_str(bytes, p3);
                                match s3 {
                                    None => None,
                                    Some((ap, p4)) => {
                                        let w = WitnessType::Submit {
                                            details_hash: h,
                                            requester_id: rq,
                                            approver_id: ap,
                                        };
                                        Some((w, p4))
                                    },
                                }
                            },
                        }
                    },
                }
            } else if tag == 1 {
                Some((WitnessType::Approve, p1))
            } else if tag == 2 {
                Some((WitnessType::Cancel, p1))
            } else if tag == 3 {
                match read_str(bytes, p1) {
                    None => None,
                    Some((h, p2)) => Some((WitnessType::Update { details_hash: h }, p2)),
                }
            } else if tag == 4 {
                Some((WitnessType::SendToExecute, p1))
            } else if tag == 5 {
                match read_u64(bytes, p1) {
                    None => None,
                    Some((strike, p2)) => Some((WitnessType::Book { strike }, p2)),
                }
            } else {
                None
            }
        },
    }
}

/// Decodes a timestamp from a complete encoding: for every timestamp,
/// decoding its encoding yields it back; nothing is promised of other byte
/// strings.
pub fn decode_timestamp(bytes: &Vec<u8>) -> (r: Option<TimeStamp>)
    ensures
        forall|t: TimeStamp| bytes@ == enc_timestamp(t) ==> r == Some(t),
{
    proof {
        assert(bytes@.skip(0) =~= bytes@);
    }
    match read_timestamp(bytes, 0) {
        Some((t, p)) => {
            if p == bytes.len() {
                proof {
                    assert forall|t0: TimeStamp| bytes@ == enc_timestamp(t0) implies Some(t)
                        == Some(t0) by {
                        assert(enc_timestamp(t0).is_prefix_of(bytes@.skip(0)));
                    }
                }
                Some(t)
            } else {
                proof {
                    assert forall|t0: TimeStamp| bytes@ != enc_timestamp(t0) by {
                        if bytes@ == enc_timestamp(t0) {
                            assert(enc_timestamp(t0).is_prefix_of(bytes@.skip(0)));
                        }
                    }
                }
                None
            }
        },
        None => {
            proof {
                assert forall|t0: TimeStamp| bytes@ != enc_timestamp(t0) by {
                    if bytes@ == enc_timestamp(t0) {
                        assert(enc_timestamp(t0).is_prefix_of(bytes@.skip(0)));
                    }
                }
            }
            None
        },
    }
}

// ---------------------------------------------------------------------------
// Witnesses
// ---------------------------------------------------------------------------
/// The canonical encoding of a witness: its fields in declaration order.
pub open spec fn enc_witness(w: WitnessView) -> Seq<u8> {
    cbor_str(w.trade_id) + cbor_str(w.user_id) + cbor_i64(w.user_timestamp.nanos)
        + enc_witness_type(w.witness_type)
}

/// Appends the canonical encoding of a witness.
pub(crate) fn write_witness(buf: &mut Vec<u8>, w: &Witness)
    ensures
        final (buf)@ == old(buf)@ + enc_witness(w@),
{
    let ghost pre = buf@;
    push_str(buf, w.trade_id.as_str());
    push_str(buf, w.user_id.as_str());
    push_i64(buf, w.user_timestamp.nanos);
    write_witness_type(buf, &w.witness_type);
    proof {
        assert(buf@ =~= pre + enc_witness(w@));
    }
}

/// Encodes a witness canonically.
pub fn encode_witness(w: &Witness) -> (r: Vec<u8>)
    ensures
        r@ == enc_witness(w@),
{
    let mut buf: Vec<u8> = Vec::new();
    write_witness(&mut buf, w);
    proof {
        assert(buf@ =~= enc_witness(w@));
    }
    buf
}

/// Splits a prefixed witness encoding into its four parts.
proof fn lemma_witness_prefix_parts(w: WitnessView, c: Seq<u8>)
    requires
        enc_witness(w).is_prefix_of(c),
    ensures
        cbor_str(w.trade_id).is_prefix_of(c),
        cbor_str(w.user_id).is_prefix_of(c.skip(cbor_str(w.trade_id).len() as int)),
        cbor_i64(w.user_timestamp.nanos).is_prefix_of(
            c.skip((cbor_str(w.trade_id).len() + cbor_str(w.user_id).len()) as int),
        ),
        enc_witness_type(w.witness_type).is_prefix_of(
            c.skip(
                (cbor_str(w.trade_id).len() + cbor_str(w.user_id).len() + cbor_i64(
                    w.user_timestamp.nanos,
                ).len()) as int,
            ),
        ),
{
    let a = cbor_str(w.trade_id);
    let b = cbor_str(w.user_id);
    let d = cbor_i64(w.user_timestamp.nanos);
    let e = enc_witness_type(w.witness_type);
    lemma_prefix_concat(a + b + d, e, c);
    lemma_prefix_concat(a + b, d, c);
    lemma_prefix_concat(a, b, c);
}

/// Reads one witness starting at `pos`: whenever the bytes there begin with
/// the encoding of a witness, exactly that witness is read back.
pub(crate) fn read_witness(bytes: &Vec<u8>, pos: usize) -> (r: Option<(Witness, usize)>)
    requires
        pos <= bytes@.len(),
    ensures
        forall|w: WitnessView| #[trigger]
            enc_witness(w).is_prefix_of(bytes@.skip(pos as int)) ==> r is Some && r->Some_0.0@
                == w && r->Some_0.1 == pos + enc_witness(w).len(),
        r matches Some((w, p)) ==> pos < p <= bytes@.len(),
{
    let s1 = read_str(bytes, pos);
    proof {
        assert forall|w: WitnessView| #[trigger]
            enc_witness(w).is_prefix_of(bytes@.skip(pos as int)) implies {
            &&& s1 is Some
            &&& s1->Some_0.0@ == w.trade_id
            &&& s1->Some_0.1 == pos + cbor_str(w.trade_id).len()
            &&& cbor_str(w.user_id).is_prefix_of(bytes@.skip(pos + cbor_str(w.trade_id).len()))
            &&& cbor_i64(w.user_timestamp.nanos).is_prefix_of(
                bytes@.skip(pos + cbor_str(w.trade_id).len() + cbor_str(w.user_id).len()),
            )
            &&& enc_witness_type(w.witness_type).is_prefix_of(
                bytes@.skip(
                    pos + cbor_str(w.trade_id).len() + cbor_str(w.user_id).len() + cbor_i64(
                        w.user_timestamp.nanos,
                    ).len(),
                ),
            )
        } by {
            lemma_witness_prefix_parts(w, bytes@.skip(pos as int));
            lemma_skip_skip(bytes@, pos as int, cbor_str(w.trade_id).len() as int);
            lemma_skip_skip(
                bytes@,
                pos as int,
                (cbor_str(w.trade_id).len() + cbor_str(w.user_id).len()) as int,
            );
            lemma_skip_skip(
                bytes@,
                pos as int,
                (cbor_str(w.trade_id).len() + cbor_str(w.user_id).len() + cbor_i64(
                    w.user_timestamp.nanos,
                ).len()) as int,
            );
        }
    }
    match s1 {
        None => None,
        Some((trade_id, p1)) => {
            let s2 = read_str(bytes, p1);
            proof {
                assert forall|w: WitnessView| #[trigger]
                    enc_witness(w).is_prefix_of(bytes@.skip(pos as int)) implies {
                    &&& s2 is Some
                    &&& s2->Some_0.0@ == w.user_id
                    &&& s2->Some_0.1 == p1 + cbor_str(w.user_id).len()
                } by {
                    assert(cbor_str(w.user_id).is_prefix_of(bytes@.skip(p1 as int)));
                }
            }
            match s2 {
                None => None,
                Some((user_id, p2)) => {
                    let s3 = read_i64(bytes, p2);
                    proof {
                        assert forall|w: WitnessView| #[trigger]
                            enc_witness(w).is_prefix_of(bytes@.skip(pos as int)) implies {
                            &&& s3 is Some
                            &&& s3->Some_0.0 == w.user_timestamp.nanos
                            &&& s3->Some_0.1 == p2 + cbor_i64(w.user_timestamp.nanos).len()
                        } by {
                            assert(cbor_i64(w.user_timestamp.nanos).is_prefix_of(
                                bytes@.skip(p2 as int),
                            ));
                        }
                    }
                    match s3 {
                        None => None,
                        Some((nanos, p3)) => {
                            let s4 = read_witness_type(bytes, p3);
                            proof {
                                assert forall|w: WitnessView| #[trigger]
                                    enc_witness(w).is_prefix_of(bytes@.skip(pos as int)) implies {
                                    &&& s4 is Some
                                    &&& s4->Some_0.0@ == w.witness_type
                                    &&& s4->Some_0.1 == p3 + enc_witness_type(w.witness_type).len()
                                } by {
                                    assert(enc_witness_type(w.witness_type).is_prefix_of(
                                        bytes@.skip(p3 as int),
                                    ));
                                }
                            }
                            match s4 {
                                None => None,
                                Some((witness_type, p4)) => {
                                    let w = Witness {
                                        trade_id,
                                        user_id,
                                        user_timestamp: TimeStamp { nanos },
                                        witness_type,
                                    };
                                    Some((w, p4))
                                },
                            }
                        },
                    }
                },
            }
        },
    }
}

/// Decodes a witness from a complete encoding: for every witness, decoding
/// its encoding yields a witness with the same value; nothing is promised of
/// other byte strings.
pub fn decode_witness(bytes: &Vec<u8>) -> (r: Option<Witness>)
    ensures
        forall|w: WitnessView| bytes@ == enc_witness(w) ==> r is Some && r->0@ == w,
{
    proof {
        assert(bytes@.skip(0) =~= bytes@);
    }
    match read_witness(bytes, 0) {
        Some((w, p)) => {
            if p == bytes.len() {
                proof {
                    assert forall|w0: WitnessView| bytes@ == enc_witness(w0) implies w@ == w0 by {
                        assert(enc_witness(w0).is_prefix_of(bytes@.skip(0)));
                    }
                }
                Some(w)
            } else {
                proof {
                    assert forall|w0: WitnessView| bytes@ != enc_witness(w0) by {
                        if bytes@ == enc_witness(w0) {
                            assert(enc_witness(w0).is_prefix_of(bytes@.skip(0)));
                        }
                    }
                }
                None
            }
        },
        None => {
            proof {
                assert forall|w0: WitnessView| bytes@ != enc_witness(w0) by {
                    if bytes@ == enc_witness(w0) {
                        assert(enc_witness(w0).is_prefix_of(bytes@.skip(0)));
                    }
                }
            }
            None
        },
    }
}

// ---------------------------------------------------------------------------
// Witness sequences and trade contexts
// ---------------------------------------------------------------------------
/// The canonical encoding of a witness sequence: the encodings of its
/// elements in chain order.
pub open spec fn enc_witness_seq(ws: Seq<WitnessView>) -> Seq<u8>
    decreases ws.len(),
{
    if ws.len() == 0 {
        Seq::<u8>::empty()
    } else {
        enc_witness(ws[0]) + enc_witness_seq(ws.drop_first())
    }
}

/// Appending a witness appends its encoding.
proof fn lemma_enc_seq_snoc(ws: Seq<WitnessView>, w: WitnessView)
    ensures
        enc_witness_seq(ws.push(w)) == enc_witness_seq(ws) + enc_witness(w),
    decreases ws.len(),
{
    assert(ws.push(w).len() == ws.len() + 1);
    if ws.len() == 0 {
        assert(ws.push(w)[0] == w);
        assert(ws.push(w).drop_first() =~= ws);
        assert(enc_witness_seq(ws) == Seq::<u8>::empty());
        assert(enc_witness(w) + Seq::<u8>::empty() =~= enc_witness(w));
        assert(Seq::<u8>::empty() + enc_witness(w) =~= enc_witness(w));
    } else {
        assert(ws.push(w)[0] == ws[0]);
        assert(ws.push(w).drop_first() =~= ws.drop_first().push(w));
        lemma_enc_seq_snoc(ws.drop_first(), w);
        assert(enc_witness(ws[0]) + (enc_witness_seq(ws.drop_first()) + enc_witness(w)) =~= (
        enc_witness(ws[0]) + enc_witness_seq(ws.drop_first())) + enc_witness(w));
    }
}

/// A witness sequence's encoding splits at any index.
proof fn lemma_enc_seq_split(ws: Seq<WitnessView>, i: int)
    requires
        0 <= i <= ws.len(),
    ensures
        enc_witness_seq(ws) == enc_witness_seq(ws.take(i)) + enc_witness_seq(ws.skip(i)),
    decreases i,
{
    if i == 0 {
        assert(ws.take(0) =~= Seq::<WitnessView>::empty());
        assert(ws.skip(0) =~= ws);
        assert(enc_witness_seq(ws.take(0)) == Seq::<u8>::empty());
        assert(Seq::<u8>::empty() + enc_witness_seq(ws) =~= enc_witness_seq(ws));
    } else {
        assert(ws.len() > 0);
        assert(ws.take(i)[0] == ws[0]);
        assert(ws.take(i).drop_first() =~= ws.drop_first().take(i - 1));
        assert(ws.skip(i) =~= ws.drop_first().skip(i - 1));
        lemma_enc_seq_split(ws.drop_first(), i - 1);
        assert(enc_witness(ws[0]) + (enc_witness_seq(ws.drop_first().take(i - 1))
            + enc_witness_seq(ws.drop_first().skip(i - 1))) =~= (enc_witness(ws[0])
            + enc_witness_seq(ws.drop_first().take(i - 1))) + enc_witness_seq(
            ws.drop_first().skip(i - 1),
        ));
    }
}

/// Reads `count` witnesses starting at `pos`: whenever the bytes there begin
/// with the encoding of a sequence of `count` witnesses, exactly those
/// witnesses are read back, in order.
pub(crate) fn read_witnesses(bytes: &Vec<u8>, pos: usize, count: u64) -> (r: Option<
    (Vec<Witness>, usize),
>)
    requires
        pos <= bytes@.len(),
    ensures
        forall|ws: Seq<WitnessView>|
            ws.len() == count && #[trigger] enc_witness_seq(ws).is_prefix_of(
                bytes@.skip(pos as int),
            ) ==> r is Some && r->Some_0.0@.map_values(|x: Witness| x@) == ws && r->Some_0.1 == pos
                + enc_witness_seq(ws).len(),
        r matches Some((v, p)) ==> pos <= p <= bytes@.len(),
{
    let mut out: Vec<Witness> = Vec::new();
    let mut cur: usize = pos;
    let mut i: u64 = 0;
    proof {
        assert(out@.map_values(|x: Witness| x@) =~= Seq::<WitnessView>::empty());
    }
    while i < count
        invariant
            pos <= cur <= bytes@.len(),
            0 <= i <= count,
            forall|ws: Seq<WitnessView>|
                ws.len() == count && #[trigger] enc_witness_seq(ws).is_prefix_of(
                    bytes@.skip(pos as int),
                ) ==> out@.map_values(|x: Witness| x@) == ws.take(i as int) && cur == pos
                    + enc_witness_seq(ws.take(i as int)).len(),
        decreases count - i,
    {
        let ghost out0 = out@;
        let ghost cur0 = cur;
        let ghost i0 = i as int;
        let w = read_witness(bytes, cur);
        proof {
            assert forall|ws: Seq<WitnessView>|
                ws.len() == count && #[trigger] enc_witness_seq(ws).is_prefix_of(
                    bytes@.skip(pos as int),
                ) implies {
                &&& w is Some
                &&& w->Some_0.0@ == ws[i0]
                &&& w->Some_0.1 == pos + enc_witness_seq(ws.take(i0 + 1)).len()
            } by {
                lemma_enc_seq_split(ws, i0);
                lemma_prefix_concat(
                    enc_witness_seq(ws.take(i0)),
                    enc_witness_seq(ws.skip(i0)),
                    bytes@.skip(pos as int),
                );
                lemma_skip_skip(bytes@, pos as int, enc_witness_seq(ws.take(i0)).len() as int);
                assert(ws.skip(i0)[0] == ws[i0]);
                assert(ws.skip(i0).drop_first() =~= ws.skip(i0 + 1));
                assert(enc_witness_seq(ws.skip(i0)) == enc_witness(ws[i0]) + enc_witness_seq(
                    ws.skip(i0 + 1),
                ));
                lemma_prefix_concat(
                    enc_witness(ws[i0]),
                    enc_witness_seq(ws.skip(i0 + 1)),
                    bytes@.skip(cur0 as int),
                );
                assert(enc_witness(ws[i0]).is_prefix_of(bytes@.skip(cur0 as int)));
                assert(ws.take(i0 + 1) =~= ws.take(i0).push(ws[i0]));
                lemma_enc_seq_snoc(ws.take(i0), ws[i0]);
            }
        }
        match w {
            None => {
                return None;
            },
            Some((wit, p2)) => {
                out.push(wit);
                cur = p2;
                i = i + 1;
                proof {
                    assert forall|ws: Seq<WitnessView>|
                        ws.len() == count && #[trigger] enc_witness_seq(ws).is_prefix_of(
                            bytes@.skip(pos as int),
                        ) implies {
                        &&& out@.map_values(|x: Witness| x@) == ws.take(i as int)
                        &&& cur == pos + enc_witness_seq(ws.take(i as int)).len()
                    } by {
                        assert(out@ =~= out0.push(wit));
                        assert(out@.map_values(|x: Witness| x@) =~= out0.map_values(
                            |x: Witness| x@,
                        ).push(wit@));
                        assert(ws.take(i as int) =~= ws.take(i0).push(ws[i0]));
                    }
                }
            },
        }
    }
    proof {
        assert forall|ws: Seq<WitnessView>|
            ws.len() == count && #[trigger] enc_witness_seq(ws).is_prefix_of(
                bytes@.skip(pos as int),
            ) implies {
            &&& out@.map_values(|x: Witness| x@) == ws
            &&& cur == pos + enc_witness_seq(ws).len()
        } by {
            assert(ws.take(i as int) =~= ws);
        }
    }
    Some((out, cur))
}

/// The canonical encoding of a trade context: its identifier, the length of
/// its witness chain, then the witnesses in chain order.
pub open spec fn enc_trade_context(c: TradeContextView) -> Seq<u8> {
    cbor_str(c.trade_id) + cbor_u64(c.witness_set.len() as u64) + enc_witness_seq(c.witness_set)
}

/// Encodes a trade context canonically.
pub fn encode_trade_context(c: &TradeContext) -> (r: Vec<u8>)
    ensures
        r@ == enc_trade_context(c@),
{
    let ghost ws = c@.witness_set;
    let mut buf: Vec<u8> = Vec::new();
    push_str(&mut buf, c.trade_id.as_str());
    let n = c.witness_set.len();
    push_u64(&mut buf, n as u64);
    let mut i: usize = 0;
    proof {
        assert(ws.take(0) =~= Seq::<WitnessView>::empty());
        assert(buf@ =~= cbor_str(c@.trade_id) + cbor_u64(ws.len() as u64) + enc_witness_seq(
            ws.take(0),
        ));
    }
    while i < n
        invariant
            n == c.witness_set.len(),
            ws == c@.witness_set,
            0 <= i <= n,
            buf@ == cbor_str(c@.trade_id) + cbor_u64(ws.len() as u64) + enc_witness_seq(
                ws.take(i as int),
            ),
        decreases n - i,
    {
        write_witness(&mut buf, &c.witness_set[i]);
        proof {
            assert(ws[i as int] == c.witness_set@[i as int]@);
            assert(ws.take(i + 1) =~= ws.take(i as int).push(ws[i as int]));
            lemma_enc_seq_snoc(ws.take(i as int), ws[i as int]);
            assert(buf@ =~= cbor_str(c@.trade_id) + cbor_u64(ws.len() as u64) + enc_witness_seq(
                ws.take(i + 1),
            ));
        }
        i = i + 1;
    }
    proof {
        assert(ws.take(n as int) =~= ws);
    }
    buf
}

/// Decodes a trade context from a complete encoding: for every context value
/// whose chain length a machine word can hold, decoding its encoding yields a
/// context with the same value; nothing is promised of other byte strings.
pub fn decode_trade_context(bytes: &Vec<u8>) -> (r: Option<TradeContext>)
    ensures
        forall|c: TradeContextView|
            c.witness_set.len() <= usize::MAX && bytes@ == #[trigger] enc_trade_context(c) ==> r
                is Some && r->0@ == c,
{
    proof {
        assert(bytes@.skip(0) =~= bytes@);
    }
    let s1 = read_str(bytes, 0);
    proof {
        assert forall|c: TradeContextView|
            c.witness_set.len() <= usize::MAX && bytes@ == #[trigger] enc_trade_context(c) implies {
            &&& s1 is Some
            &&& s1->Some_0.0@ == c.trade_id
            &&& s1->Some_0.1 == cbor_str(c.trade_id).len()
            &&& cbor_u64(c.witness_set.len() as u64).is_prefix_of(
                bytes@.skip(cbor_str(c.trade_id).len() as int),
            )
            &&& enc_witness_seq(c.witness_set).is_prefix_of(
                bytes@.skip(
                    (cbor_str(c.trade_id).len() + cbor_u64(c.witness_set.len() as u64).len())
                        as int,
                ),
            )
        } by {
            assert(enc_trade_context(c).is_prefix_of(bytes@.skip(0)));
            lemma_prefix_concat(
                cbor_str(c.trade_id) + cbor_u64(c.witness_set.len() as u64),
                enc_witness_seq(c.witness_set),
                bytes@.skip(0),
            );
            lemma_prefix_concat(
                cbor_str(c.trade_id),
                cbor_u64(c.witness_set.len() as u64),
                bytes@.skip(0),
            );
            lemma_skip_skip(bytes@, 0, cbor_str(c.trade_id).len() as int);
            lemma_skip_skip(
                bytes@,
                0,
                (cbor_str(c.trade_id).len() + cbor_u64(c.witness_set.len() as u64).len()) as int,
            );
            assert(cbor_str(c.trade_id).is_prefix_of(bytes@.skip(0)));
        }
    }
    match s1 {
        None => None,
        Some((trade_id, p1)) => {
            let s2 = read_u64(bytes, p1);
            proof {
                assert forall|c: TradeContextView|
                    c.witness_set.len() <= usize::MAX && bytes@ == #[trigger] enc_trade_context(
                        c,
                    ) implies {
                    &&& s2 is Some
                    &&& s2->Some_0.0 == c.witness_set.len() as u64
                    &&& s2->Some_0.1 == p1 + cbor_u64(c.witness_set.len() as u64).len()
                } by {
                    assert(cbor_u64(c.witness_set.len() as u64).is_prefix_of(
                        bytes@.skip(p1 as int),
                    ));
                }
            }
            match s2 {
                None => None,
                Some((count, p2)) => {
                    let s3 = read_witnesses(bytes, p2, count);
                    proof {
                        assert forall|c: TradeContextView|
                            c.witness_set.len() <= usize::MAX && bytes@
                                == #[trigger] enc_trade_context(c) implies {
                            &&& s3 is Some
                            &&& s3->Some_0.0@.map_values(|x: Witness| x@) == c.witness_set
                            &&& s3->Some_0.1 == p2 + enc_witness_seq(c.witness_set).len()
                            &&& p2 + enc_witness_seq(c.witness_set).len() == bytes@.len()
                        } by {
                            assert(c.witness_set.len() == count);
                            assert(enc_witness_seq(c.witness_set).is_prefix_of(
                                bytes@.skip(p2 as int),
                            ));
                        }
                    }
                    match s3 {
                        None => None,
                        Some((witness_set, p3)) => {
                            if p3 == bytes.len() {
                                let ctx = TradeContext { trade_id, witness_set };
                                Some(ctx)
                            } else {
                                None
                            }
                        },
                    }
                },
            }
        },
    }
}

// ---------------------------------------------------------------------------
// Trade details
// ---------------------------------------------------------------------------
/// The canonical encoding of an optional string: a presence tag, then the
/// string when present.
pub open spec fn enc_opt_str(o: Option<Seq<char>>) -> Seq<u8> {
    match o {
        None => cbor_u64(0),
        Some(s) => cbor_u64(1) + cbor_str(s),
    }
}

/// The canonical encoding of an optional unsigned amount.
pub open spec fn enc_opt_u64(o: Option<u64>) -> Seq<u8> {
    match o {
        None => cbor_u64(0),
        Some(v) => cbor_u64(1) + cbor_u64(v),
    }
}

/// The canonical encoding of an optional timestamp.
pub open spec fn enc_opt_timestamp(o: Option<TimeStamp>) -> Seq<u8> {
    match o {
        None => cbor_u64(0),
        Some(t) => cbor_u64(1) + cbor_i64(t.nanos),
    }
}

/// The tag of a direction.
pub open spec fn dir_tag(d: Direction) -> u64 {
    match d {
        Direction::Buy => 0,
        Direction::Sell => 1,
    }
}

/// The tag of a currency.
pub open spec fn cur_tag(c: Currency) -> u64 {
    match c {
        Currency::USD => 0,
        Currency::GBP => 1,
        Currency::EUR => 2,
    }
}

/// The canonical encoding of an optional direction.
pub open spec fn enc_opt_direction(o: Option<Direction>) -> Seq<u8> {
    match o {
        None => cbor_u64(0),
        Some(d) => cbor_u64(1) + cbor_u64(dir_tag(d)),
    }
}

/// The canonical encoding of an optional currency.
pub open spec fn enc_opt_currency(o: Option<Currency>) -> Seq<u8> {
    match o {
        None => cbor_u64(0),
        Some(c) => cbor_u64(1) + cbor_u64(cur_tag(c)),
    }
}

/// The canonical encoding of a trade details record: its fields in
/// declaration order.
pub open spec fn enc_trade_details(d: TradeDetailsView) -> Seq<u8> {
    enc_opt_str(d.trading_entity) + enc_opt_str(d.counter_party) + enc_opt_direction(d.direction)
        + enc_opt_currency(d.notional_currency) + cbor_u64(d.notional_amount) + enc_opt_currency(
        d.underlying_currency,
    ) + cbor_u64(d.underlying_amount) + enc_opt_timestamp(d.trade_date) + enc_opt_timestamp(
        d.value_date,
    ) + enc_opt_timestamp(d.delivery_date) + enc_opt_u64(d.strike)
}

/// Appends the canonical encoding of an optional string.
pub(crate) fn write_opt_str(buf: &mut Vec<u8>, o: &Option<String>)
    ensures
        final (buf)@ == old(buf)@ + enc_opt_str(crate::trade::view_opt_string(*o)),
{
    match o {
        None => push_u64(buf, 0),
        Some(s) => {
            push_u64(buf, 1);
            push_str(buf, s.as_str());
        },
    }
}

/// Appends the canonical encoding of an optional unsigned amount.
pub(crate) fn write_opt_u64(buf: &mut Vec<u8>, o: &Option<u64>)
    ensures
        final (buf)@ == old(buf)@ + enc_opt_u64(*o),
{
    match o {
        None => push_u64(buf, 0),
        Some(v) => {
            push_u64(buf, 1);
            push_u64(buf, *v);
        },
    }
}

/// Appends the canonical encoding of an optional timestamp.
pub(crate) fn write_opt_timestamp(buf: &mut Vec<u8>, o: &Option<TimeStamp>)
    ensures
        final (buf)@ == old(buf)@ + enc_opt_timestamp(*o),
{
    match o {
        None => push_u64(buf, 0),
        Some(t) => {
            push_u64(buf, 1);
            push_i64(buf, t.nanos);
        },
    }
}

/// Appends the canonical encoding of an optional direction.
pub(crate) fn write_opt_direction(buf: &mut Vec<u8>, o: &Option<Direction>)
    ensures
        final (buf)@ == old(buf)@ + enc_opt_direction(*o),
{
    match o {
        None => push_u64(buf, 0),
        Some(d) => {
            push_u64(buf, 1);
            match d {
                Direction::Buy => push_u64(buf, 0),
                Direction::Sell => push_u64(buf, 1),
            }
        },
    }
}

/// Appends the canonical encoding of an optional currency.
pub(crate) fn write_opt_currency(buf: &mut Vec<u8>, o: &Option<Currency>)
    ensures
        final (buf)@ == old(buf)@ + enc_opt_currency(*o),
{
    match o {
        None => push_u64(buf, 0),
        Some(c) => {
            push_u64(buf, 1);
            match c {
                Currency::USD => push_u64(buf, 0),
                Currency::GBP => push_u64(buf, 1),
                Currency::EUR => push_u64(buf, 2),
            }
        },
    }
}

/// Reads one optional string starting at `pos`: whenever the bytes there
/// begin with the encoding of an optional string, exactly that value is read
/// back.
pub(crate) fn read_opt_str(bytes: &Vec<u8>, pos: usize) -> (r: Option<(Option<String>, usize)>)
    requires
        pos <= bytes@.len(),
    ensures
        forall|o: Option<Seq<char>>| #[trigger]
            enc_opt_str(o).is_prefix_of(bytes@.skip(pos as int)) ==> r is Some
                && crate::trade::view_opt_string(r->Some_0.0) == o && r->Some_0.1 == pos
                + enc_opt_str(o).len(),
        r matches Some((v, p)) ==> pos < p <= bytes@.len(),
{
    let t = read_u64(bytes, pos);
    proof {
        assert forall|o: Option<Seq<char>>| #[trigger]
            enc_opt_str(o).is_prefix_of(bytes@.skip(pos as int)) implies {
            &&& t is Some
            &&& t->Some_0.0 == (if o is Some {
                1u64
            } else {
                0u64
            })
            &&& t->Some_0.1 == pos + cbor_u64(
                if o is Some {
                    1u64
                } else {
                    0u64
                },
            ).len()
            &&& (o matches Some(s) ==> cbor_str(s).is_prefix_of(
                bytes@.skip(pos + cbor_u64(1).len()),
            ))
        } by {
            match o {
                None => {
                    assert(cbor_u64(0).is_prefix_of(bytes@.skip(pos as int)));
                },
                Some(s) => {
                    lemma_prefix_concat(cbor_u64(1), cbor_str(s), bytes@.skip(pos as int));
                    lemma_skip_skip(bytes@, pos as int, cbor_u64(1).len() as int);
                },
            }
        }
    }
    match t {
        None => None,
        Some((tag, p1)) => {
            if tag == 0 {
                Some((None, p1))
            } else if tag == 1 {
                match read_str(bytes, p1) {
                    None => None,
                    Some((s, p2)) => Some((Some(s), p2)),
                }
            } else {
                None
            }
        },
    }
}

/// Reads one optional unsigned amount starting at `pos`: whenever the bytes
/// there begin with the encoding of such a value, exactly that value is read
/// back.
pub(crate) fn read_opt_u64(bytes: &Vec<u8>, pos: usize) -> (r: Option<(Option<u64>, usize)>)
    requires
        pos <= bytes@.len(),
    ensures
        forall|o: Option<u64>| #[trigger]
            enc_opt_u64(o).is_prefix_of(bytes@.skip(pos as int)) ==> r is Some && r->Some_0.0 == o
                && r->Some_0.1 == pos + enc_opt_u64(o).len(),
        r matches Some((v, p)) ==> pos < p <= bytes@.len(),
{
    let t = read_u64(bytes, pos);
    proof {
        assert forall|o: Option<u64>| #[trigger]
            enc_opt_u64(o).is_prefix_of(bytes@.skip(pos as int)) implies {
            &&& t is Some
            &&& t->Some_0.0 == (if o is Some {
                1u64
            } else {
                0u64
            })
            &&& t->Some_0.1 == pos + cbor_u64(
                if o is Some {
                    1u64
                } else {
                    0u64
                },
            ).len()
            &&& (o matches Some(v) ==> cbor_u64(v).is_prefix_of(
                bytes@.skip(pos + cbor_u64(1).len()),
            ))
        } by {
            match o {
                None => {
                    assert(cbor_u64(0).is_prefix_of(bytes@.skip(pos as int)));
                },
                Some(v) => {
                    lemma_prefix_concat(cbor_u64(1), cbor_u64(v), bytes@.skip(pos as int));
                    lemma_skip_skip(bytes@, pos as int, cbor_u64(1).len() as int);
                },
            }
        }
    }
    match t {
        None => None,
        Some((tag, p1)) => {
            if tag == 0 {
                Some((None, p1))
            } else if tag == 1 {
                match read_u64(bytes, p1) {
                    None => None,
                    Some((v, p2)) => Some((Some(v), p2)),
                }
            } else {
                None
            }
        },
    }
}

/// Reads one optional timestamp starting at `pos`: whenever the bytes there
/// begin with the encoding of such a value, exactly that value is read back.
pub(crate) fn read_opt_timestamp(bytes: &Vec<u8>, pos: usize) -> (r: Option<
    (Option<TimeStamp>, usize),
>)
    requires
        pos <= bytes@.len(),
    ensures
        forall|o: Option<TimeStamp>| #[trigger]
            enc_opt_timestamp(o).is_prefix_of(bytes@.skip(pos as int)) ==> r is Some
                && r->Some_0.0 == o && r->Some_0.1 == pos + enc_opt_timestamp(o).len(),
        r matches Some((v, p)) ==> pos < p <= bytes@.len(),
{
    let t = read_u64(bytes, pos);
    proof {
        assert forall|o: Option<TimeStamp>| #[trigger]
            enc_opt_timestamp(o).is_prefix_of(bytes@.skip(pos as int)) implies {
            &&& t is Some
            &&& t->Some_0.0 == (if o is Some {
                1u64
            } else {
                0u64
            })
            &&& t->Some_0.1 == pos + cbor_u64(
                if o is Some {
                    1u64
                } else {
                    0u64
                },
            ).len()
            &&& (o matches Some(ts) ==> cbor_i64(ts.nanos).is_prefix_of(
                bytes@.skip(pos + cbor_u64(1).len()),
            ))
        } by {
            match o {
                None => {
                    assert(cbor_u64(0).is_prefix_of(bytes@.skip(pos as int)));
                },
                Some(ts) => {
                    lemma_prefix_concat(cbor_u64(1), cbor_i64(ts.nanos), bytes@.skip(pos as int));
                    lemma_skip_skip(bytes@, pos as int, cbor_u64(1).len() as int);
                },
            }
        }
    }
    match t {
        None => None,
        Some((tag, p1)) => {
            if tag == 0 {
                Some((None, p1))
            } else if tag == 1 {
                match read_i64(bytes, p1) {
                    None => None,
                    Some((n, p2)) => Some((Some(TimeStamp { nanos: n }), p2)),
                }
            } else {
                None
            }
        },
    }
}

/// Reads one optional direction starting at `pos`: whenever the bytes there
/// begin with the encoding of such a value, exactly that value is read back.
pub(crate) fn read_opt_direction(bytes: &Vec<u8>, pos: usize) -> (r: Option<
    (Option<Direction>, usize),
>)
    requires
        pos <= bytes@.len(),
    ensures
        forall|o: Option<Direction>| #[trigger]
            enc_opt_direction(o).is_prefix_of(bytes@.skip(pos as int)) ==> r is Some
                && r->Some_0.0 == o && r->Some_0.1 == pos + enc_opt_direction(o).len(),
        r matches Some((v, p)) ==> pos < p <= bytes@.len(),
{
    let t = read_u64(bytes, pos);
    proof {
        assert forall|o: Option<Direction>| #[trigger]
            enc_opt_direction(o).is_prefix_of(bytes@.skip(pos as int)) implies {
            &&& t is Some
            &&& t->Some_0.0 == (if o is Some {
                1u64
            } else {
                0u64
            })
            &&& t->Some_0.1 == pos + cbor_u64(
                if o is Some {
                    1u64
                } else {
                    0u64
                },
            ).len()
            &&& (o matches Some(d) ==> cbor_u64(dir_tag(d)).is_prefix_of(
                bytes@.skip(pos + cbor_u64(1).len()),
            ))
        } by {
            match o {
                None => {
                    assert(cbor_u64(0).is_prefix_of(bytes@.skip(pos as int)));
                },
                Some(d) => {
                    lemma_prefix_concat(cbor_u64(1), cbor_u64(dir_tag(d)), bytes@.skip(pos as int));
                    lemma_skip_skip(bytes@, pos as int, cbor_u64(1).len() as int);
                },
            }
        }
    }
    match t {
        None => None,
        Some((tag, p1)) => {
            if tag == 0 {
                Some((None, p1))
            } else if tag == 1 {
                match read_u64(bytes, p1) {
                    None => None,
                    Some((v, p2)) => {
                        if v == 0 {
                            Some((Some(Direction::Buy), p2))
                        } else if v == 1 {
                            Some((Some(Direction::Sell), p2))
                        } else {
                            None
                        }
                    },
                }
            } else {
                None
            }
        },
    }
}

/// Reads one optional currency starting at `pos`: whenever the bytes there
/// begin with the encoding of such a value, exactly that value is read back.
pub(crate) fn read_opt_currency(bytes: &Vec<u8>, pos: usize) -> (r: Option<
    (Option<Currency>, usize),
>)
    requires
        pos <= bytes@.len(),
    ensures
        forall|o: Option<Currency>| #[trigger]
            enc_opt_currency(o).is_prefix_of(bytes@.skip(pos as int)) ==> r is Some && r->Some_0.0
                == o && r->Some_0.1 == pos + enc_opt_currency(o).len(),
        r matches Some((v, p)) ==> pos < p <= bytes@.len(),
{
    let t = read_u64(bytes, pos);
    proof {
        assert forall|o: Option<Currency>| #[trigger]
            enc_opt_currency(o).is_prefix_of(bytes@.skip(pos as int)) implies {
            &&& t is Some
            &&& t->Some_0.0 == (if o is Some {
                1u64
            } else {
                0u64
            })
            &&& t->Some_0.1 == pos + cbor_u64(
                if o is Some {
                    1u64
                } else {
                    0u64
                },
            ).len()
            &&& (o matches Some(c) ==> cbor_u64(cur_tag(c)).is_prefix_of(
                bytes@.skip(pos + cbor_u64(1).len()),
            ))
        } by {
            match o {
                None => {
                    assert(cbor_u64(0).is_prefix_of(bytes@.skip(pos as int)));
                },
                Some(c) => {
                    lemma_prefix_concat(cbor_u64(1), cbor_u64(cur_tag(c)), bytes@.skip(pos as int));
                    lemma_skip_skip(bytes@, pos as int, cbor_u64(1).len() as int);
                },
            }
        }
    }
    match t {
        None => None,
        Some((tag, p1)) => {
            if tag == 0 {
                Some((None, p1))
            } else if tag == 1 {
                match read_u64(bytes, p1) {
                    None => None,
                    Some((v, p2)) => {
                        if v == 0 {
                            Some((Some(Currency::USD), p2))
                        } else if v == 1 {
                            Some((Some(Currency::GBP), p2))
                        } else if v == 2 {
                            Some((Some(Currency::EUR), p2))
                        } else {
                            None
                        }
                    },
                }
            } else {
                None
            }
        },
    }
}

/// Splits a prefixed trade details encoding into its eleven parts.
proof fn lemma_details_prefix_parts(d: TradeDetailsView, c: Seq<u8>)
    requires
        enc_trade_details(d).is_prefix_of(c),
    ensures
        enc_opt_str(d.trading_entity).is_prefix_of(c),
        enc_opt_str(d.counter_party).is_prefix_of(c.skip((enc_opt_str(d.trading_entity).len()) as int)),
        enc_opt_direction(d.direction).is_prefix_of(c.skip((enc_opt_str(d.trading_entity).len() + enc_opt_str(d.counter_party).len()) as int)),
        enc_opt_currency(d.notional_currency).is_prefix_of(c.skip((enc_opt_str(d.trading_entity).len() + enc_opt_str(d.counter_party).len() + enc_opt_direction(d.direction).len()) as int)),
        cbor_u64(d.notional_amount).is_prefix_of(c.skip((enc_opt_str(d.trading_entity).len() + enc_opt_str(d.counter_party).len() + enc_opt_direction(d.direction).len() + enc_opt_currency(d.notional_currency).len()) as int)),
        enc_opt_currency(d.underlying_currency).is_prefix_of(c.skip((enc_opt_str(d.trading_entity).len() + enc_opt_str(d.counter_party).len() + enc_opt_direction(d.direction).len() + enc_opt_currency(d.notional_currency).len() + cbor_u64(d.notional_amount).len()) as int)),
        cbor_u64(d.underlying_amount).is_prefix_of(c.skip((enc_opt_str(d.trading_entity).len() + enc_opt_str(d.counter_party).len() + enc_opt_direction(d.direction).len() + enc_opt_currency(d.notional_currency).len() + cbor_u64(d.notional_amount).len() + enc_opt_currency(d.underlying_currency).len()) as int)),
        enc_opt_timestamp(d.trade_date).is_prefix_of(c.skip((enc_opt_str(d.trading_entity).len() + enc_opt_str(d.counter_party).len() + enc_opt_direction(d.direction).len() + enc_opt_currency(d.notional_currency).len() + cbor_u64(d.notional_amount).len() + enc_opt_currency(d.underlying_currency).len() + cbor_u64(d.underlying_amount).len()) as int)),
        enc_opt_timestamp(d.value_date).is_prefix_of(c.skip((enc_opt_str(d.trading_entity).len() + enc_opt_str(d.counter_party).len() + enc_opt_direction(d.direction).len() + enc_opt_currency(d.notional_currency).len() + cbor_u64(d.notional_amount).len() + enc_opt_currency(d.underlying_currency).len() + cbor_u64(d.underlying_amount).len() + enc_opt_timestamp(d.trade_date).len()) as int)),
        enc_opt_timestamp(d.delivery_date).is_prefix_of(c.skip((enc_opt_str(d.trading_entity).len() + enc_opt_str(d.counter_party).len() + enc_opt_direction(d.direction).len() + enc_opt_currency(d.notional_currency).len() + cbor_u64(d.notional_amount).len() + enc_opt_currency(d.underlying_currency).len() + cbor_u64(d.underlying_amount).len() + enc_opt_timestamp(d.trade_date).len() + enc_opt_timestamp(d.value_date).len()) as int)),
        enc_opt_u64(d.strike).is_prefix_of(c.skip((enc_opt_str(d.trading_entity).len() + enc_opt_str(d.counter_party).len() + enc_opt_direction(d.direction).len() + enc_opt_currency(d.notional_currency).len() + cbor_u64(d.notional_amount).len() + enc_opt_currency(d.underlying_currency).len() + cbor_u64(d.underlying_amount).len() + enc_opt_timestamp(d.trade_date).len() + enc_opt_timestamp(d.value_date).len() + enc_opt_timestamp(d.delivery_date).len()) as int)),
{
    lemma_prefix_concat(enc_opt_str(d.trading_entity) + enc_opt_str(d.counter_party) + enc_opt_direction(d.direction) + enc_opt_currency(d.notional_currency) + cbor_u64(d.notional_amount) + enc_opt_currency(d.underlying_currency) + cbor_u64(d.underlying_amount) + enc_opt_timestamp(d.trade_date) + enc_opt_timestamp(d.value_date) + enc_opt_timestamp(d.delivery_date), enc_opt_u64(d.strike), c);
    lemma_prefix_concat(enc_opt_str(d.trading_entity) + enc_opt_str(d.counter_party) + enc_opt_direction(d.direction) + enc_opt_currency(d.notional_currency) + cbor_u64(d.notional_amount) + enc_opt_currency(d.underlying_currency) + cbor_u64(d.underlying_amount) + enc_opt_timestamp(d.trade_date) + enc_opt_timestamp(d.value_date), enc_opt_timestamp(d.delivery_date), c);
    lemma_prefix_concat(enc_opt_str(d.trading_entity) + enc_opt_str(d.counter_party) + enc_opt_direction(d.direction) + enc_opt_currency(d.notional_currency) + cbor_u64(d.notional_amount) + enc_opt_currency(d.underlying_currency) + cbor_u64(d.underlying_amount) + enc_opt_timestamp(d.trade_date), enc_opt_timestamp(d.value_date), c);
    lemma_prefix_concat(enc_opt_str(d.trading_entity) + enc_opt_str(d.counter_party) + enc_opt_direction(d.direction) + enc_opt_currency(d.notional_currency) + cbor_u64(d.notional_amount) + enc_opt_currency(d.underlying_currency) + cbor_u64(d.underlying_amount), enc_opt_timestamp(d.trade_date), c);
    lemma_prefix_concat(enc_opt_str(d.trading_entity) + enc_opt_str(d.counter_party) + enc_opt_direction(d.direction) + enc_opt_currency(d.notional_currency) + cbor_u64(d.notional_amount) + enc_opt_currency(d.underlying_currency), cbor_u64(d.underlying_amount), c);
    lemma_prefix_concat(enc_opt_str(d.trading_entity) + enc_opt_str(d.counter_party) + enc_opt_direction(d.direction) + enc_opt_currency(d.notional_currency) + cbor_u64(d.notional_amount), enc_opt_currency(d.underlying_currency), c);
    lemma_prefix_concat(enc_opt_str(d.trading_entity) + enc_opt_str(d.counter_party) + enc_opt_direction(d.direction) + enc_opt_currency(d.notional_currency), cbor_u64(d.notional_amount), c);
    lemma_prefix_concat(enc_opt_str(d.trading_entity) + enc_opt_str(d.counter_party) + enc_opt_direction(d.direction), enc_opt_currency(d.notional_currency), c);
    lemma_prefix_concat(enc_opt_str(d.trading_entity) + enc_opt_str(d.counter_party), enc_opt_direction(d.direction), c);
    lemma_prefix_concat(enc_opt_str(d.trading_entity), enc_opt_str(d.counter_party), c);
}

/// Decodes a trade details record from a complete encoding: for every
/// record value, decoding its encoding yields a record with the same value;
/// nothing is promised of other byte strings.
pub fn decode_trade_details(bytes: &Vec<u8>) -> (r: Option<TradeDetails>)
    ensures
        forall|d: TradeDetailsView| bytes@ == #[trigger] enc_trade_details(d) ==> r is Some
            && r->0@ == d,
{
    proof {
        assert(bytes@.skip(0) =~= bytes@);
    }
    let s1 = read_opt_str(bytes, 0);
    proof {
        assert forall|d: TradeDetailsView| bytes@ == #[trigger] enc_trade_details(d) implies {
            &&& s1 is Some
            &&& crate::trade::view_opt_string(s1->Some_0.0) == d.trading_entity
            &&& s1->Some_0.1 == enc_opt_str(d.trading_entity).len()
        } by {
            assert(enc_trade_details(d).is_prefix_of(bytes@.skip(0)));
            lemma_details_prefix_parts(d, bytes@);
        }
    }
    match s1 {
        None => None,
        Some((f1, p1)) => {
            let s2 = read_opt_str(bytes, p1);
            proof {
                assert forall|d: TradeDetailsView| bytes@ == #[trigger] enc_trade_details(d) implies {
                    &&& s2 is Some
                    &&& crate::trade::view_opt_string(s2->Some_0.0) == d.counter_party
                    &&& s2->Some_0.1 == enc_opt_str(d.trading_entity).len() + enc_opt_str(d.counter_party).len()
                } by {
                    assert(enc_trade_details(d).is_prefix_of(bytes@.skip(0)));
                    lemma_details_prefix_parts(d, bytes@);
                    assert(enc_opt_str(d.counter_party).is_prefix_of(bytes@.skip(p1 as int)));
                }
            }
            match s2 {
                None => None,
                Some((f2, p2)) => {
                    let s3 = read_opt_direction(bytes, p2);
                    proof {
                        assert forall|d: TradeDetailsView| bytes@ == #[trigger] enc_trade_details(d) implies {
                            &&& s3 is Some
                            &&& s3->Some_0.0 == d.direction
                            &&& s3->Some_0.1 == enc_opt_str(d.trading_entity).len() + enc_opt_str(d.counter_party).len() + enc_opt_direction(d.direction).len()
                        } by {
                            assert(enc_trade_details(d).is_prefix_of(bytes@.skip(0)));
                            lemma_details_prefix_parts(d, bytes@);
                            assert(enc_opt_direction(d.direction).is_prefix_of(bytes@.skip(p2 as int)));
                        }
                    }
                    match s3 {
                        None => None,
                        Some((f3, p3)) => {
                            let s4 = read_opt_currency(bytes, p3);
                            proof {
                                assert forall|d: TradeDetailsView| bytes@ == #[trigger] enc_trade_details(d) implies {
                                    &&& s4 is Some
                                    &&& s4->Some_0.0 == d.notional_currency
                                    &&& s4->Some_0.1 == enc_opt_str(d.trading_entity).len() + enc_opt_str(d.counter_party).len() + enc_opt_direction(d.direction).len() + enc_opt_currency(d.notional_currency).len()
                                } by {
                                    assert(enc_trade_details(d).is_prefix_of(bytes@.skip(0)));
                                    lemma_details_prefix_parts(d, bytes@);
                                    assert(enc_opt_currency(d.notional_currency).is_prefix_of(bytes@.skip(p3 as int)));
                                }
                            }
                            match s4 {
                                None => None,
                                Some((f4, p4)) => {
                                    let s5 = read_u64(bytes, p4);
                                    proof {
                                        assert forall|d: TradeDetailsView| bytes@ == #[trigger] enc_trade_details(d) implies {
                                            &&& s5 is Some
                                            &&& s5->Some_0.0 == d.notional_amount
                                            &&& s5->Some_0.1 == enc_opt_str(d.trading_entity).len() + enc_opt_str(d.counter_party).len() + enc_opt_direction(d.direction).len() + enc_opt_currency(d.notional_currency).len() + cbor_u64(d.notional_amount).len()
                                        } by {
                                            assert(enc_trade_details(d).is_prefix_of(bytes@.skip(0)));
                                            lemma_details_prefix_parts(d, bytes@);
                                            assert(cbor_u64(d.notional_amount).is_prefix_of(bytes@.skip(p4 as int)));
                                        }
                                    }
                                    match s5 {
                                        None => None,
                                        Some((f5, p5)) => {
                                            let s6 = read_opt_currency(bytes, p5);
                                            proof {
                                                assert forall|d: TradeDetailsView| bytes@ == #[trigger] enc_trade_details(d) implies {
                                                    &&& s6 is Some
                                                    &&& s6->Some_0.0 == d.underlying_currency
                                                    &&& s6->Some_0.1 == enc_opt_str(d.trading_entity).len() + enc_opt_str(d.counter_party).len() + enc_opt_direction(d.direction).len() + enc_opt_currency(d.notional_currency).len() + cbor_u64(d.notional_amount).len() + enc_opt_currency(d.underlying_currency).len()
                                                } by {
                                                    assert(enc_trade_details(d).is_prefix_of(bytes@.skip(0)));
                                                    lemma_details_prefix_parts(d, bytes@);
                                                    assert(enc_opt_currency(d.underlying_currency).is_prefix_of(bytes@.skip(p5 as int)));
                                                }
                                            }
                                            match s6 {
                                                None => None,
                                                Some((f6, p6)) => {
                                                    let s7 = read_u64(bytes, p6);
                                                    proof {
                                                        assert forall|d: TradeDetailsView| bytes@ == #[trigger] enc_trade_details(d) implies {
                                                            &&& s7 is Some
                                                            &&& s7->Some_0.0 == d.underlying_amount
                                                            &&& s7->Some_0.1 == enc_opt_str(d.trading_entity).len() + enc_opt_str(d.counter_party).len() + enc_opt_direction(d.direction).len() + enc_opt_currency(d.notional_currency).len() + cbor_u64(d.notional_amount).len() + enc_opt_currency(d.underlying_currency).len() + cbor_u64(d.underlying_amount).len()
                                                        } by {
                                                            assert(enc_trade_details(d).is_prefix_of(bytes@.skip(0)));
                                                            lemma_details_prefix_parts(d, bytes@);
                                                            assert(cbor_u64(d.underlying_amount).is_prefix_of(bytes@.skip(p6 as int)));
                                                        }
                                                    }
                                                    match s7 {
                                                        None => None,
                                                        Some((f7, p7)) => {
                                                            let s8 = read_opt_timestamp(bytes, p7);
                                                            proof {
                                                                assert forall|d: TradeDetailsView| bytes@ == #[trigger] enc_trade_details(d) implies {
                                                                    &&& s8 is Some
                                                                    &&& s8->Some_0.0 == d.trade_date
                                                                    &&& s8->Some_0.1 == enc_opt_str(d.trading_entity).len() + enc_opt_str(d.counter_party).len() + enc_opt_direction(d.direction).len() + enc_opt_currency(d.notional_currency).len() + cbor_u64(d.notional_amount).len() + enc_opt_currency(d.underlying_currency).len() + cbor_u64(d.underlying_amount).len() + enc_opt_timestamp(d.trade_date).len()
                                                                } by {
                                                                    assert(enc_trade_details(d).is_prefix_of(bytes@.skip(0)));
                                                                    lemma_details_prefix_parts(d, bytes@);
                                                                    assert(enc_opt_timestamp(d.trade_date).is_prefix_of(bytes@.skip(p7 as int)));
                                                                }
                                                            }
                                                            match s8 {
                                                                None => None,
                                                                Some((f8, p8)) => {
                                                                    let s9 = read_opt_timestamp(bytes, p8);
                                                                    proof {
                                                                        assert forall|d: TradeDetailsView| bytes@ == #[trigger] enc_trade_details(d) implies {
                                                                            &&& s9 is Some
                                                                            &&& s9->Some_0.0 == d.value_date
                                                                            &&& s9->Some_0.1 == enc_opt_str(d.trading_entity).len() + enc_opt_str(d.counter_party).len() + enc_opt_direction(d.direction).len() + enc_opt_currency(d.notional_currency).len() + cbor_u64(d.notional_amount).len() + enc_opt_currency(d.underlying_currency).len() + cbor_u64(d.underlying_amount).len() + enc_opt_timestamp(d.trade_date).len() + enc_opt_timestamp(d.value_date).len()
                                                                        } by {
                                                                            assert(enc_trade_details(d).is_prefix_of(bytes@.skip(0)));
                                                                            lemma_details_prefix_parts(d, bytes@);
                                                                            assert(enc_opt_timestamp(d.value_date).is_prefix_of(bytes@.skip(p8 as int)));
                                                                        }
                                                                    }
                                                                    match s9 {
                                                                        None => None,
                                                                        Some((f9, p9)) => {
                                                                            let s10 = read_opt_timestamp(bytes, p9);
                                                                            proof {
                                                                                assert forall|d: TradeDetailsView| bytes@ == #[trigger] enc_trade_details(d) implies {
                                                                                    &&& s10 is Some
                                                                                    &&& s10->Some_0.0 == d.delivery_date
                                                                                    &&& s10->Some_0.1 == enc_opt_str(d.trading_entity).len() + enc_opt_str(d.counter_party).len() + enc_opt_direction(d.direction).len() + enc_opt_currency(d.notional_currency).len() + cbor_u64(d.notional_amount).len() + enc_opt_currency(d.underlying_currency).len() + cbor_u64(d.underlying_amount).len() + enc_opt_timestamp(d.trade_date).len() + enc_opt_timestamp(d.value_date).len() + enc_opt_timestamp(d.delivery_date).len()
                                                                                } by {
                                                                                    assert(enc_trade_details(d).is_prefix_of(bytes@.skip(0)));
                                                                                    lemma_details_prefix_parts(d, bytes@);
                                                                                    assert(enc_opt_timestamp(d.delivery_date).is_prefix_of(bytes@.skip(p9 as int)));
                                                                                }
                                                                            }
                                                                            match s10 {
                                                                                None => None,
                                                                                Some((f10, p10)) => {
                                                                                    let s11 = read_opt_u64(bytes, p10);
                                                                                    proof {
                                                                                        assert forall|d: TradeDetailsView| bytes@ == #[trigger] enc_trade_details(d) implies {
                                                                                            &&& s11 is Some
                                                                                            &&& s11->Some_0.0 == d.strike
                                                                                            &&& s11->Some_0.1 == enc_opt_str(d.trading_entity).len() + enc_opt_str(d.counter_party).len() + enc_opt_direction(d.direction).len() + enc_opt_currency(d.notional_currency).len() + cbor_u64(d.notional_amount).len() + enc_opt_currency(d.underlying_currency).len() + cbor_u64(d.underlying_amount).len() + enc_opt_timestamp(d.trade_date).len() + enc_opt_timestamp(d.value_date).len() + enc_opt_timestamp(d.delivery_date).len() + enc_opt_u64(d.strike).len()
                                                                                        } by {
                                                                                            assert(enc_trade_details(d).is_prefix_of(bytes@.skip(0)));
                                                                                            lemma_details_prefix_parts(d, bytes@);
                                                                                            assert(enc_opt_u64(d.strike).is_prefix_of(bytes@.skip(p10 as int)));
                                                                                        }
                                                                                    }
                                                                                    match s11 {
                                                                                        None => None,
                                                                                        Some((f11, p11)) => {
                                                                                            if p11 == bytes.len() {
                                                                                                let r = crate::trade::details_from_parts(f1, f2, f3, f4, f5, f6, f7, f8, f9, f10, f11);
                                                                                                Some(r)
                                                                                            } else {
                                                                                                None
                                                                                            }
                                                                                        },
                                                                                    }
                                                                                },
                                                                            }
                                                                        },
                                                                    }
                                                                },
                                                            }
                                                        },
                                                    }
                                                },
                                            }
                                        },
                                    }
                                },
                            }
                        },
                    }
                },
            }
        },
    }
}

} // verus!
