//! The wire form of a record: one compact JSON object, whose fields come in
//! a fixed order.
//!
//! The fields are `ts`, `g`, `k`, `n`, `s`, `t`, `th`, `d`, `cl`, `mn`, `mp`,
//! `mk`, `m` and `c`. The timestamp comes first, so that lines can be sorted
//! without being parsed. `k` is left out when the actor has no key, and `c`
//! when the message is neither a request nor a response.

use vstd::prelude::*;
use vstd::string::StringSliceAdditionalSpecFns;
use crate::json::{decimal, decimal_bytes, json_text, quote};
use crate::payload::{accepted, joined, lemma_accepted_all, lemma_accepted_stops,
    lemma_joined_grows, lemma_joined_step, Payload};
use crate::record::{Direction, DumpRecord, DumpRecordView, MessageKind};
use crate::writer::BoundedWriter;

verus! {

/// Why a record could not be written.
#[derive(Debug)]
pub enum EncodeError {
    /// The budget of the writer did not cover the record.
    Exhausted,
    /// The payload cannot be encoded, whatever the budget.
    Malformed(String),
}

/// How an attempt to write a record ends.
pub enum Outcome {
    Written,
    Exhausted,
    Malformed,
}

/// The value of the field `d`.
pub open spec fn direction_text(direction: Direction) -> Seq<u8> {
    match direction {
        Direction::In => "\"In\"".spec_bytes(),
        Direction::Out => "\"Out\"".spec_bytes(),
    }
}

/// The value of the field `mk`.
pub open spec fn kind_text(kind: MessageKind) -> Seq<u8> {
    match kind {
        MessageKind::Regular => "\"Regular\"".spec_bytes(),
        MessageKind::Request(_) => "\"Request\"".spec_bytes(),
        MessageKind::Response(_) => "\"Response\"".spec_bytes(),
    }
}

/// The line up to the actor's key: `ts`, `g` and, unless it is empty, `k`.
pub open spec fn head_origin(rec: DumpRecordView) -> Seq<u8> {
    let origin = "{\"ts\":".spec_bytes() + decimal(rec.timestamp as nat) + ",\"g\":".spec_bytes()
        + json_text(rec.group);
    if rec.key.len() > 0 {
        origin + ",\"k\":".spec_bytes() + json_text(rec.key)
    } else {
        origin
    }
}

/// The line up to the place of the payload: every field before `m`, and the
/// name of `m`.
#[verifier::opaque]
pub open spec fn head(rec: DumpRecordView, class: Seq<char>, node_no: u16) -> Seq<u8> {
    head_origin(rec) + ",\"n\":".spec_bytes() + decimal(node_no as nat) + ",\"s\":".spec_bytes()
        + decimal(rec.sequence_no as nat) + ",\"t\":".spec_bytes() + decimal(rec.trace_id as nat)
        + ",\"th\":".spec_bytes() + decimal(rec.thread_id as nat) + ",\"d\":".spec_bytes()
        + direction_text(rec.direction) + ",\"cl\":".spec_bytes() + json_text(class)
        + ",\"mn\":".spec_bytes() + json_text(rec.message_name) + ",\"mp\":".spec_bytes()
        + json_text(rec.message_protocol) + ",\"mk\":".spec_bytes() + kind_text(
        rec.message_kind,
    ) + ",\"m\":".spec_bytes()
}

/// The line after the payload: `c`, for a request or a response, and the
/// closing brace.
pub open spec fn tail(rec: DumpRecordView) -> Seq<u8> {
    match rec.message_kind.correlation() {
        Some(id) => ",\"c\":".spec_bytes() + decimal(id as nat) + "}".spec_bytes(),
        None => "}".spec_bytes(),
    }
}

/// The value of the field `m`: the payload as it was encoded, or the JSON
/// string of the text that stands in for it.
pub open spec fn payload_text(rec: DumpRecordView, substitute: Option<Seq<char>>) -> Seq<u8> {
    match substitute {
        Some(text) => json_text(text),
        None => joined(rec.message.pieces),
    }
}

/// The whole line of a record, without a line terminator.
pub open spec fn record_text(
    rec: DumpRecordView,
    class: Seq<char>,
    node_no: u16,
    substitute: Option<Seq<char>>,
) -> Seq<u8> {
    head(rec, class, node_no) + payload_text(rec, substitute) + tail(rec)
}

/// The text that stands in for the payload, if any, as a sequence.
pub open spec fn text_view(substitute: Option<&str>) -> Option<Seq<char>> {
    match substitute {
        Some(text) => Some(text@),
        None => None,
    }
}

/// How writing a record under `budget` ends.
///
/// The writer is exhausted as soon as one piece of the line does not fit. A
/// defect of the payload shows after its last piece was written, so it is
/// met only if the budget covers the line up to there. A substitute has no
/// defect.
pub open spec fn attempt(
    rec: DumpRecordView,
    class: Seq<char>,
    node_no: u16,
    substitute: Option<Seq<char>>,
    budget: nat,
) -> Outcome {
    let upto_payload = head(rec, class, node_no).len() + payload_text(rec, substitute).len();
    if upto_payload > budget {
        Outcome::Exhausted
    } else if substitute is None && rec.message.defect is Some {
        Outcome::Malformed
    } else if upto_payload + tail(rec).len() > budget {
        Outcome::Exhausted
    } else {
        Outcome::Written
    }
}

/// Writes `part` behind what a stage has written so far.
fn put_part(
    w: &mut BoundedWriter,
    part: &[u8],
    Ghost(start): Ghost<BoundedWriter>,
    Ghost(done): Ghost<Seq<u8>>,
) -> (ok: bool)
    requires
        old(w).bytes() == start.bytes() + done,
        old(w).budget() + done.len() == start.budget(),
    ensures
        ok <==> done.len() + part@.len() <= start.budget(),
        ok ==> final(w).bytes() == start.bytes() + (done + part@),
        ok ==> final(w).budget() + (done + part@).len() == start.budget(),
        !ok ==> *final(w) == *old(w),
        final(w).extends(&start),
{
    let ok = w.put(part);
    proof {
        if ok {
            assert(w.bytes() =~= start.bytes() + (done + part@));
        }
        assert(w.bytes().subrange(0, start.bytes().len() as int) =~= start.bytes());
    }
    ok
}

/// Writes the literal `text` behind what a stage has written so far.
fn put_lit(
    w: &mut BoundedWriter,
    text: &str,
    Ghost(start): Ghost<BoundedWriter>,
    Ghost(done): Ghost<Seq<u8>>,
) -> (ok: bool)
    requires
        old(w).bytes() == start.bytes() + done,
        old(w).budget() + done.len() == start.budget(),
    ensures
        ok <==> done.len() + text.spec_bytes().len() <= start.budget(),
        ok ==> final(w).bytes() == start.bytes() + (done + text.spec_bytes()),
        ok ==> final(w).budget() + (done + text.spec_bytes()).len() == start.budget(),
        !ok ==> *final(w) == *old(w),
        final(w).extends(&start),
{
    put_part(w, text.as_bytes(), Ghost(start), Ghost(done))
}

/// Writes `n` in decimal behind what a stage has written so far.
fn put_number(
    w: &mut BoundedWriter,
    n: u64,
    Ghost(start): Ghost<BoundedWriter>,
    Ghost(done): Ghost<Seq<u8>>,
) -> (ok: bool)
    requires
        old(w).bytes() == start.bytes() + done,
        old(w).budget() + done.len() == start.budget(),
    ensures
        ok <==> done.len() + decimal(n as nat).len() <= start.budget(),
        ok ==> final(w).bytes() == start.bytes() + (done + decimal(n as nat)),
        ok ==> final(w).budget() + (done + decimal(n as nat)).len() == start.budget(),
        !ok ==> *final(w) == *old(w),
        final(w).extends(&start),
{
    let digits = decimal_bytes(n);
    put_part(w, digits.as_slice(), Ghost(start), Ghost(done))
}

/// Writes `text` as a JSON string behind what a stage has written so far.
fn put_text(
    w: &mut BoundedWriter,
    text: &str,
    Ghost(start): Ghost<BoundedWriter>,
    Ghost(done): Ghost<Seq<u8>>,
) -> (ok: bool)
    requires
        old(w).bytes() == start.bytes() + done,
        old(w).budget() + done.len() == start.budget(),
    ensures
        ok <==> done.len() + json_text(text@).len() <= start.budget(),
        ok ==> final(w).bytes() == start.bytes() + (done + json_text(text@)),
        ok ==> final(w).budget() + (done + json_text(text@)).len() == start.budget(),
        !ok ==> *final(w) == *old(w),
        final(w).extends(&start),
{
    let quoted = quote(text);
    put_part(w, quoted.as_slice(), Ghost(start), Ghost(done))
}

/// Writes the fields that come before the payload, and the name of `m`.
fn encode_head(w: &mut BoundedWriter, rec: &DumpRecord, class: &str, node_no: u16) -> (ok: bool)
    ensures
        ok <==> head(rec@, class@, node_no).len() <= old(w).budget(),
        ok ==> final(w).bytes() == old(w).bytes() + head(rec@, class@, node_no),
        ok ==> final(w).budget() + head(rec@, class@, node_no).len() == old(w).budget(),
        final(w).extends(&*old(w)),
{
    let ghost start = *w;
    let ghost mut done = Seq::<u8>::empty();
    reveal(head);
    assert(w.bytes() =~= start.bytes() + done);
    if !put_lit(w, "{\"ts\":", Ghost(start), Ghost(done)) {
        return false;
    }
    proof {
        assert(done + "{\"ts\":".spec_bytes() =~= "{\"ts\":".spec_bytes());
        done = "{\"ts\":".spec_bytes();
    }
    if !put_number(w, rec.timestamp, Ghost(start), Ghost(done)) {
        return false;
    }
    proof {
        done = done + decimal(rec.timestamp as nat);
    }
    if !put_lit(w, ",\"g\":", Ghost(start), Ghost(done)) {
        return false;
    }
    proof {
        done = done + ",\"g\":".spec_bytes();
    }
    if !put_text(w, rec.group.as_str(), Ghost(start), Ghost(done)) {
        return false;
    }
    proof {
        done = done + json_text(rec.group@);
    }
    if !rec.key.as_str().is_empty() {
        if !put_lit(w, ",\"k\":", Ghost(start), Ghost(done)) {
            return false;
        }
        proof {
            done = done + ",\"k\":".spec_bytes();
        }
        if !put_text(w, rec.key.as_str(), Ghost(start), Ghost(done)) {
            return false;
        }
        proof {
            done = done + json_text(rec.key@);
        }
    }
    assert(done == head_origin(rec@));
    if !put_lit(w, ",\"n\":", Ghost(start), Ghost(done)) {
        return false;
    }
    proof {
        done = done + ",\"n\":".spec_bytes();
    }
    if !put_number(w, node_no as u64, Ghost(start), Ghost(done)) {
        return false;
    }
    proof {
        done = done + decimal(node_no as nat);
    }
    if !put_lit(w, ",\"s\":", Ghost(start), Ghost(done)) {
        return false;
    }
    proof {
        done = done + ",\"s\":".spec_bytes();
    }
    if !put_number(w, rec.sequence_no, Ghost(start), Ghost(done)) {
        return false;
    }
    proof {
        done = done + decimal(rec.sequence_no as nat);
    }
    if !put_lit(w, ",\"t\":", Ghost(start), Ghost(done)) {
        return false;
    }
    proof {
        done = done + ",\"t\":".spec_bytes();
    }
    if !put_number(w, rec.trace_id, Ghost(start), Ghost(done)) {
        return false;
    }
    proof {
        done = done + decimal(rec.trace_id as nat);
    }
    if !put_lit(w, ",\"th\":", Ghost(start), Ghost(done)) {
        return false;
    }
    proof {
        done = done + ",\"th\":".spec_bytes();
    }
    if !put_number(w, rec.thread_id, Ghost(start), Ghost(done)) {
        return false;
    }
    proof {
        done = done + decimal(rec.thread_id as nat);
    }
    if !put_lit(w, ",\"d\":", Ghost(start), Ghost(done)) {
        return false;
    }
    proof {
        done = done + ",\"d\":".spec_bytes();
    }
    let direction = match rec.direction {
        Direction::In => "\"In\"",
        Direction::Out => "\"Out\"",
    };
    if !put_lit(w, direction, Ghost(start), Ghost(done)) {
        return false;
    }
    proof {
        done = done + direction_text(rec.direction);
    }
    if !put_lit(w, ",\"cl\":", Ghost(start), Ghost(done)) {
        return false;
    }
    proof {
        done = done + ",\"cl\":".spec_bytes();
    }
    if !put_text(w, class, Ghost(start), Ghost(done)) {
        return false;
    }
    proof {
        done = done + json_text(class@);
    }
    if !put_lit(w, ",\"mn\":", Ghost(start), Ghost(done)) {
        return false;
    }
    proof {
        done = done + ",\"mn\":".spec_bytes();
    }
    if !put_text(w, rec.message_name.as_str(), Ghost(start), Ghost(done)) {
        return false;
    }
    proof {
        done = done + json_text(rec.message_name@);
    }
    if !put_lit(w, ",\"mp\":", Ghost(start), Ghost(done)) {
        return false;
    }
    proof {
        done = done + ",\"mp\":".spec_bytes();
    }
    if !put_text(w, rec.message_protocol.as_str(), Ghost(start), Ghost(done)) {
        return false;
    }
    proof {
        done = done + json_text(rec.message_protocol@);
    }
    if !put_lit(w, ",\"mk\":", Ghost(start), Ghost(done)) {
        return false;
    }
    proof {
        done = done + ",\"mk\":".spec_bytes();
    }
    let kind = match rec.message_kind {
        MessageKind::Regular => "\"Regular\"",
        MessageKind::Request(_) => "\"Request\"",
        MessageKind::Response(_) => "\"Response\"",
    };
    if !put_lit(w, kind, Ghost(start), Ghost(done)) {
        return false;
    }
    proof {
        done = done + kind_text(rec.message_kind);
    }
    if !put_lit(w, ",\"m\":", Ghost(start), Ghost(done)) {
        return false;
    }
    proof {
        done = done + ",\"m\":".spec_bytes();
    }
    assert(done == head(rec@, class@, node_no));
    true
}

/// Writes the pieces of `payload` in order, up to the first that the writer
/// refuses, and then looks for the payload's defect.
pub fn encode_payload(w: &mut BoundedWriter, payload: &Payload) -> (res: Result<(), EncodeError>)
    ensures
        final(w).extends(&*old(w)),
        final(w).bytes() == old(w).bytes() + accepted(payload@.pieces, old(w).budget()),
        res is Ok <==> joined(payload@.pieces).len() <= old(w).budget() && payload@.defect is None,
        res matches Err(EncodeError::Exhausted) <==> joined(payload@.pieces).len()
            > old(w).budget(),
        res matches Err(EncodeError::Malformed(_)) <==> joined(payload@.pieces).len()
            <= old(w).budget() && payload@.defect is Some,
        res matches Err(EncodeError::Malformed(detail)) ==> payload@.defect == Some(detail@),
{
    let ghost start = *w;
    let ghost pieces = payload@.pieces;
    let count = payload.pieces.len();
    let mut i: usize = 0;
    proof {
        start.lemma_extends_itself();
        assert(pieces.take(0) =~= Seq::<Seq<u8>>::empty());
        assert(w.bytes() =~= start.bytes() + joined(pieces.take(0)));
    }
    while i < count
        invariant
            i <= count,
            count == payload.pieces@.len(),
            pieces == payload@.pieces,
            pieces.len() == count,
            start == *old(w),
            w.extends(&start),
            w.bytes() == start.bytes() + joined(pieces.take(i as int)),
            w.budget() + joined(pieces.take(i as int)).len() == start.budget(),
        decreases count - i,
    {
        let piece = &payload.pieces[i];
        assert(piece@ == pieces[i as int]);
        proof {
            lemma_joined_step(pieces, i as int);
        }
        let ok = put_part(w, piece.as_slice(), Ghost(start), Ghost(joined(pieces.take(i as int))));
        if !ok {
            proof {
                lemma_accepted_stops(pieces, start.budget(), i as int);
                lemma_joined_grows(pieces, i as int + 1);
            }
            return Err(EncodeError::Exhausted);
        }
        i = i + 1;
    }
    proof {
        assert(pieces.take(count as int) == pieces);
        lemma_accepted_all(pieces, start.budget());
    }
    match &payload.defect {
        Some(detail) => Err(EncodeError::Malformed(detail.clone())),
        None => Ok(()),
    }
}

/// Writes what follows the payload: `c`, for a request or a response, and
/// the closing brace.
fn encode_tail(w: &mut BoundedWriter, rec: &DumpRecord) -> (ok: bool)
    ensures
        ok <==> tail(rec@).len() <= old(w).budget(),
        ok ==> final(w).bytes() == old(w).bytes() + tail(rec@),
        ok ==> final(w).budget() + tail(rec@).len() == old(w).budget(),
        final(w).extends(&*old(w)),
{
    let ghost start = *w;
    let ghost mut done = Seq::<u8>::empty();
    assert(w.bytes() =~= start.bytes() + done);
    let correlation = match rec.message_kind {
        MessageKind::Regular => None,
        MessageKind::Request(id) => Some(id),
        MessageKind::Response(id) => Some(id),
    };
    if let Some(id) = correlation {
        if !put_lit(w, ",\"c\":", Ghost(start), Ghost(done)) {
            return false;
        }
        proof {
            assert(done + ",\"c\":".spec_bytes() =~= ",\"c\":".spec_bytes());
            done = ",\"c\":".spec_bytes();
        }
        if !put_number(w, id, Ghost(start), Ghost(done)) {
            return false;
        }
        proof {
            done = done + decimal(id as nat);
        }
        if !put_lit(w, "}", Ghost(start), Ghost(done)) {
            return false;
        }
        proof {
            done = done + "}".spec_bytes();
        }
    } else {
        if !put_lit(w, "}", Ghost(start), Ghost(done)) {
            return false;
        }
        proof {
            assert(done + "}".spec_bytes() =~= "}".spec_bytes());
            done = "}".spec_bytes();
        }
    }
    assert(done == tail(rec@));
    true
}

/// Writes the line of `rec` through `w`, with `substitute`, if there is one,
/// as a string in the place of the payload.
///
/// Whatever the result, `w` still holds what it held, followed by what it
/// accepted of the line. On success that is the whole line.
pub fn encode_record(
    w: &mut BoundedWriter,
    rec: &DumpRecord,
    class: &str,
    node_no: u16,
    substitute: Option<&str>,
) -> (res: Result<(), EncodeError>)
    ensures
        final(w).extends(&*old(w)),
        res is Ok <==> attempt(rec@, class@, node_no, text_view(substitute), old(w).budget())
            is Written,
        res matches Err(EncodeError::Exhausted) <==> attempt(
            rec@,
            class@,
            node_no,
            text_view(substitute),
            old(w).budget(),
        ) is Exhausted,
        res matches Err(EncodeError::Malformed(_)) <==> attempt(
            rec@,
            class@,
            node_no,
            text_view(substitute),
            old(w).budget(),
        ) is Malformed,
        res matches Err(EncodeError::Malformed(detail)) ==> rec@.message.defect == Some(detail@),
        res is Ok ==> final(w).bytes() == old(w).bytes() + record_text(
            rec@,
            class@,
            node_no,
            text_view(substitute),
        ),
        res is Ok ==> final(w).budget() + record_text(
            rec@,
            class@,
            node_no,
            text_view(substitute),
        ).len() == old(w).budget(),
{
    let ghost start = *w;
    if !encode_head(w, rec, class, node_no) {
        return Err(EncodeError::Exhausted);
    }
    let ghost after_head = *w;
    match substitute {
        Some(text) => {
            let quoted = quote(text);
            let fits = w.put(quoted.as_slice());
            proof {
                after_head.lemma_extends_itself();
                if fits {
                    assert(w.bytes().subrange(0, after_head.bytes().len() as int)
                        =~= after_head.bytes());
                }
                w.lemma_extends_chain(&after_head, &start);
            }
            if !fits {
                return Err(EncodeError::Exhausted);
            }
        },
        None => {
            let encoded = encode_payload(w, &rec.message);
            proof {
                w.lemma_extends_chain(&after_head, &start);
            }
            match encoded {
                Ok(()) => {
                    proof {
                        lemma_accepted_all(rec@.message.pieces, after_head.budget());
                    }
                },
                Err(err) => {
                    return Err(err);
                },
            }
        },
    }
    let ghost after_payload = *w;
    assert(after_payload.bytes() == after_head.bytes() + payload_text(
        rec@,
        text_view(substitute),
    ));
    let closed = encode_tail(w, rec);
    proof {
        w.lemma_extends_chain(&after_payload, &start);
    }
    if !closed {
        return Err(EncodeError::Exhausted);
    }
    assert(w.bytes() =~= start.bytes() + record_text(
        rec@,
        class@,
        node_no,
        text_view(substitute),
    ));
    Ok(())
}

} // verus!
