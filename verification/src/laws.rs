//! What holds of a serializer and of its reports, over one call and over a
//! run of calls.

use vstd::prelude::*;
use vstd::string::StringSliceAdditionalSpecFns;
use crate::encoder::{attempt, head, payload_text, record_text};
use crate::json::{json_text, lossy_text};
use crate::params::{DumpParams, OnOverflow};
use crate::payload::{accepted, lemma_accepted_fits, PayloadView};
use crate::record::DumpRecordView;
use crate::report::ReportView;
use crate::serializer::{truncated_text, verdict, SerializerView, Verdict};

verus! {

/// The lines of `recs`, each with its line terminator, one after another.
pub open spec fn lines(recs: Seq<DumpRecordView>, class: Seq<char>, node_no: u16) -> Seq<u8>
    decreases recs.len(),
{
    if recs.len() == 0 {
        Seq::empty()
    } else {
        lines(recs.drop_last(), class, node_no) + record_text(recs.last(), class, node_no, None)
            + seq![10u8]
    }
}

/// The serializer after `recs` were handed to it in order, each with the
/// parameters at its place in `params`.
pub open spec fn fed(s: SerializerView, recs: Seq<DumpRecordView>, params: Seq<DumpParams>)
    -> SerializerView
    decreases recs.len(),
{
    if recs.len() == 0 {
        s
    } else {
        fed(s, recs.drop_last(), params.drop_last()).append(recs.last(), params.last()).0
    }
}

/// The report of a period in which `n` records were appended and nothing
/// else happened.
pub open spec fn appended_only(n: nat) -> ReportView {
    ReportView { appended: n, ..ReportView::empty() }
}

/// Records that fit their budgets pile up, line by line, for as long as the
/// buffer is no longer than the chunk size: no call gives a chunk, the
/// buffer holds the line of every record, each followed by one line
/// terminator, and the report counts them.
pub proof fn lemma_fitting_records_pile_up(
    s: SerializerView,
    recs: Seq<DumpRecordView>,
    params: Seq<DumpParams>,
)
    requires
        s.buffered.len() == 0,
        s.report == ReportView::empty(),
        recs.len() == params.len(),
        forall|i: int|
            0 <= i < recs.len() ==> attempt(
                #[trigger] recs[i],
                s.class,
                s.node_no,
                None,
                params[i].max_size as nat,
            ) is Written,
        lines(recs, s.class, s.node_no).len() <= s.chunk_size,
    ensures
        fed(s, recs, params) == (SerializerView {
            buffered: lines(recs, s.class, s.node_no),
            report: appended_only(recs.len()),
            ..s
        }),
        forall|k: int|
            0 <= k < recs.len() ==> (#[trigger] fed(s, recs.take(k), params.take(k)).append(
                recs[k],
                params[k],
            )).1 is None,
    decreases recs.len(),
{
    if recs.len() == 0 {
        assert(fed(s, recs, params) =~= (SerializerView {
            buffered: lines(recs, s.class, s.node_no),
            report: appended_only(recs.len()),
            ..s
        }));
    } else {
        let n = recs.len() - 1;
        let shorter = recs.drop_last();
        let shorter_params = params.drop_last();
        assert forall|i: int| 0 <= i < shorter.len() implies attempt(
            #[trigger] shorter[i],
            s.class,
            s.node_no,
            None,
            shorter_params[i].max_size as nat,
        ) is Written by {
            assert(shorter[i] == recs[i]);
            assert(shorter_params[i] == params[i]);
        }
        lemma_fitting_records_pile_up(s, shorter, shorter_params);
        let before = fed(s, shorter, shorter_params);
        assert(attempt(recs[n], s.class, s.node_no, None, params[n].max_size as nat) is Written);
        assert(recs.last() == recs[n] && params.last() == params[n]);
        assert(before.append(recs[n], params[n]).0 =~= (SerializerView {
            buffered: lines(recs, s.class, s.node_no),
            report: appended_only(recs.len()),
            ..s
        }));
        assert forall|k: int| 0 <= k < recs.len() implies (#[trigger] fed(
            s,
            recs.take(k),
            params.take(k),
        ).append(recs[k], params[k])).1 is None by {
            if k < n {
                assert(shorter.take(k) == recs.take(k));
                assert(shorter_params.take(k) == params.take(k));
                assert(shorter[k] == recs[k] && shorter_params[k] == params[k]);
            } else {
                assert(recs.take(k) == shorter);
                assert(params.take(k) == shorter_params);
            }
        }
    }
}

/// The record that makes the buffer longer than the chunk size gets the
/// chunk: the line of every record since the previous chunk, its own
/// included, each followed by one line terminator, and a report that counts
/// them all. The serializer starts anew.
pub proof fn lemma_crossing_record_gets_chunk(
    s: SerializerView,
    recs: Seq<DumpRecordView>,
    params: Seq<DumpParams>,
    last: DumpRecordView,
    last_params: DumpParams,
)
    requires
        s.buffered.len() == 0,
        s.report == ReportView::empty(),
        recs.len() == params.len(),
        forall|i: int|
            0 <= i < recs.len() ==> attempt(
                #[trigger] recs[i],
                s.class,
                s.node_no,
                None,
                params[i].max_size as nat,
            ) is Written,
        attempt(last, s.class, s.node_no, None, last_params.max_size as nat) is Written,
        lines(recs, s.class, s.node_no).len() <= s.chunk_size,
        lines(recs.push(last), s.class, s.node_no).len() > s.chunk_size,
    ensures
        fed(s, recs, params).append(last, last_params) == (
            s,
            Some((lines(recs.push(last), s.class, s.node_no), appended_only(recs.len() + 1))),
        ),
{
    lemma_fitting_records_pile_up(s, recs, params);
    assert(recs.push(last).drop_last() == recs);
    let step = fed(s, recs, params).append(last, last_params);
    assert(step.0 =~= s);
    assert(step.1.unwrap().1 =~= appended_only(recs.len() + 1));
}

/// A record that cannot be encoded leaves the buffer as it was and gives no
/// chunk; what was appended and what overflowed is counted as before.
pub proof fn lemma_failure_keeps_buffer(s: SerializerView, rec: DumpRecordView, params: DumpParams)
    requires
        verdict(rec, s.class, s.node_no, params) is Failed,
    ensures
        s.append(rec, params).0.buffered == s.buffered,
        s.append(rec, params).0.report.appended == s.report.appended,
        s.append(rec, params).0.report.overflow == s.report.overflow,
        s.append(rec, params).1 is None,
{
}

/// A payload with a defect that is met within the budget makes the record
/// fail, whatever the policy: the buffer keeps its length.
pub proof fn lemma_defect_fails(s: SerializerView, rec: DumpRecordView, params: DumpParams)
    requires
        attempt(rec, s.class, s.node_no, None, params.max_size as nat) is Malformed,
    ensures
        verdict(rec, s.class, s.node_no, params) == Verdict::Failed(rec.message.defect.unwrap()),
        s.append(rec, params).0.buffered.len() == s.buffered.len(),
{
}

/// Under the policy to skip, a record that overflows its budget is dropped:
/// the buffer stays as it was, no chunk is given, and nothing is counted
/// but one more dropped overflow of its message.
pub proof fn lemma_skip_counts_one_overflow(
    s: SerializerView,
    rec: DumpRecordView,
    params: DumpParams,
)
    requires
        params.on_overflow == OnOverflow::Skip,
        params.on_overflow_log is Some,
        attempt(rec, s.class, s.node_no, None, params.max_size as nat) is Exhausted,
    ensures
        verdict(rec, s.class, s.node_no, params) is Skipped,
        s.append(rec, params).0.buffered == s.buffered,
        s.append(rec, params).1 is None,
        s.append(rec, params).0.report.appended == s.report.appended,
        s.append(rec, params).0.report.failed == s.report.failed,
        s.append(rec, params).0.report.overflow_count(
            rec.message_protocol,
            rec.message_name,
            false,
        ) == s.report.overflow_count(rec.message_protocol, rec.message_name, false) + 1,
        forall|k: (Seq<char>, Seq<char>, bool)|
            k != (rec.message_protocol, rec.message_name, false) ==> (#[trigger] s.append(
                rec,
                params,
            ).0.report.overflow.contains_key(k) <==> s.report.overflow.contains_key(k)) && s.append(
                rec,
                params,
            ).0.report.overflow[k] == s.report.overflow[k],
{
}

/// The report as it stands once `rec` was handed over: the report of the
/// chunk, if the call gives one, and that of the serializer otherwise.
pub open spec fn counted_after(s: SerializerView, rec: DumpRecordView, params: DumpParams)
    -> ReportView {
    match s.append(rec, params).1 {
        Some((_, report)) => report,
        None => s.append(rec, params).0.report,
    }
}

/// Whether `text` ends in `suffix`.
pub open spec fn ends_with(text: Seq<char>, suffix: Seq<char>) -> bool {
    &&& suffix.len() <= text.len()
    &&& text.subrange(text.len() - suffix.len(), text.len() as int) == suffix
}

/// The text that stands in for a payload cut short ends in the marker, and
/// what comes before the marker is what the budget covered of the payload.
pub proof fn lemma_truncated_text_is_marked(message: PayloadView, max_size: nat)
    ensures
        ends_with(truncated_text(message, max_size), " TRUNCATED"@),
        truncated_text(message, max_size).len() == lossy_text(
            accepted(message.pieces, max_size),
        ).len() + 10,
        accepted(message.pieces, max_size).len() <= max_size,
{
    reveal_strlit(" TRUNCATED");
    let text = truncated_text(message, max_size);
    assert(text.subrange(text.len() - " TRUNCATED"@.len(), text.len() as int) =~= " TRUNCATED"@);
    lemma_accepted_fits(message.pieces, max_size);
}

/// Under the policy to truncate, a record that overflows its budget is kept:
/// its line has, as the payload, the JSON string of a text that ends in the
/// marker; one more appended record and one more truncated overflow of its
/// message are counted, and no failure.
pub proof fn lemma_truncate_marks_payload(
    s: SerializerView,
    rec: DumpRecordView,
    params: DumpParams,
)
    requires
        params.on_overflow == OnOverflow::Truncate,
        params.on_overflow_log is Some,
        attempt(rec, s.class, s.node_no, None, params.max_size as nat) is Exhausted,
        attempt(
            rec,
            s.class,
            s.node_no,
            Some(truncated_text(rec.message, params.max_size as nat)),
            usize::MAX as nat,
        ) is Written,
    ensures
        verdict(rec, s.class, s.node_no, params) == Verdict::Truncated(
            record_text(
                rec,
                s.class,
                s.node_no,
                Some(truncated_text(rec.message, params.max_size as nat)),
            ),
        ),
        payload_text(rec, Some(truncated_text(rec.message, params.max_size as nat))) == json_text(
            truncated_text(rec.message, params.max_size as nat),
        ),
        ends_with(truncated_text(rec.message, params.max_size as nat), " TRUNCATED"@),
        counted_after(s, rec, params).appended == s.report.appended + 1,
        counted_after(s, rec, params).failed == s.report.failed,
        counted_after(s, rec, params).overflow_count(rec.message_protocol, rec.message_name, true)
            == s.report.overflow_count(rec.message_protocol, rec.message_name, true) + 1,
{
    lemma_truncated_text_is_marked(rec.message, params.max_size as nat);
}

/// Merging adds up what was appended, and for a message that both reports
/// know, its counts.
pub proof fn lemma_merge_adds_counts(ours: ReportView, theirs: ReportView)
    ensures
        ours.merged(theirs).appended == ours.appended + theirs.appended,
        forall|k: (Seq<char>, Seq<char>)|
            #![trigger ours.merged(theirs).failed[k]]
            ours.failed.contains_key(k) && theirs.failed.contains_key(k) ==> ours.merged(
                theirs,
            ).failed[k].count == ours.failed[k].count + theirs.failed[k].count,
        forall|k: (Seq<char>, Seq<char>, bool)|
            #![trigger ours.merged(theirs).overflow[k]]
            ours.overflow.contains_key(k) && theirs.overflow.contains_key(k) ==> ours.merged(
                theirs,
            ).overflow[k].count == ours.overflow[k].count + theirs.overflow[k].count,
        forall|k: (Seq<char>, Seq<char>)|
            #![trigger ours.merged(theirs).failed_count(k.0, k.1)]
            ours.merged(theirs).failed_count(k.0, k.1) == ours.failed_count(k.0, k.1)
                + theirs.failed_count(k.0, k.1),
        forall|k: (Seq<char>, Seq<char>, bool)|
            #![trigger ours.merged(theirs).overflow_count(k.0, k.1, k.2)]
            ours.merged(theirs).overflow_count(k.0, k.1, k.2) == ours.overflow_count(
                k.0,
                k.1,
                k.2,
            ) + theirs.overflow_count(k.0, k.1, k.2),
{
}

/// A forced hand-out gives everything that is buffered, however little, with
/// the report, and leaves an empty buffer and an empty report.
pub proof fn lemma_take_gives_all(s: SerializerView)
    requires
        s.buffered.len() > 0,
    ensures
        s.take().1 == Some((s.buffered, s.report)),
        s.take().0.buffered == Seq::<u8>::empty(),
        s.take().0.report == ReportView::empty(),
        s.take().0.take().1 is None,
{
}

/// A line opens with a brace and the name of its first field: six bytes
/// that every record has.
pub proof fn lemma_head_opens(rec: DumpRecordView, class: Seq<char>, node_no: u16)
    ensures
        head(rec, class, node_no).len() >= 6,
        forall|substitute: Option<Seq<char>>|
            (#[trigger] record_text(rec, class, node_no, substitute)).len() >= 6,
{
    reveal(head);
    reveal_strlit("{\"ts\":");
    let opening = "{\"ts\":";
    assert(opening.is_ascii());
    vstd::string::is_ascii_spec_bytes(opening);
    assert(opening.spec_bytes().len() == 6);
}

/// No record fits a budget of five bytes or less: the opening of a line is
/// longer. Under the policy to skip, such a record gives no chunk and is
/// never counted as appended.
pub proof fn lemma_tiny_budget_skips(s: SerializerView, rec: DumpRecordView, params: DumpParams)
    requires
        params.max_size <= 5,
        params.on_overflow == OnOverflow::Skip,
    ensures
        verdict(rec, s.class, s.node_no, params) is Skipped,
        s.append(rec, params).1 is None,
        s.append(rec, params).0.buffered == s.buffered,
        s.append(rec, params).0.report.appended == s.report.appended,
        params.on_overflow_log is Some ==> s.append(rec, params).0.report.overflow_count(
            rec.message_protocol,
            rec.message_name,
            false,
        ) == s.report.overflow_count(rec.message_protocol, rec.message_name, false) + 1,
{
    lemma_head_opens(rec, s.class, s.node_no);
}

/// A record that is kept makes the buffer longer: its line is not empty.
pub proof fn lemma_added_line_is_not_empty(
    rec: DumpRecordView,
    class: Seq<char>,
    node_no: u16,
    params: DumpParams,
)
    ensures
        verdict(rec, class, node_no, params).line() matches Some(line) ==> line.len() >= 6,
{
    lemma_head_opens(rec, class, node_no);
}

/// Every appended record has left at least its line terminator in the
/// buffer: if the report counts no more records than the buffer has bytes,
/// this is still so after the next call, whatever it is.
pub proof fn lemma_appended_records_are_buffered(
    s: SerializerView,
    rec: DumpRecordView,
    params: DumpParams,
)
    requires
        s.report.appended <= s.buffered.len(),
    ensures
        s.append(rec, params).0.report.appended <= s.append(rec, params).0.buffered.len(),
        s.take().0.report.appended <= s.take().0.buffered.len(),
        s.append(rec, params).1 matches Some(chunk) ==> chunk.1.appended <= chunk.0.len(),
        s.take().1 matches Some(chunk) ==> chunk.1.appended <= chunk.0.len(),
{
}

/// Handing a record over is all or nothing for the buffer. Either the
/// buffer stays as it was and no chunk is given, or one line and its
/// terminator are added; the buffer is then kept if it is no longer than
/// the chunk size, and handed out whole if it is.
pub proof fn lemma_append_adds_a_line_or_nothing(
    s: SerializerView,
    rec: DumpRecordView,
    params: DumpParams,
)
    ensures
        verdict(rec, s.class, s.node_no, params).line() is None ==> s.append(rec, params).0.buffered
            == s.buffered && s.append(rec, params).1 is None,
        verdict(rec, s.class, s.node_no, params).line() matches Some(line) ==> (s.append(
            rec,
            params,
        ).1 is None && s.append(rec, params).0.buffered == s.buffered + line + seq![10u8]
            && s.append(rec, params).0.buffered.len() <= s.chunk_size) || (s.append(
            rec,
            params,
        ).1 matches Some(chunk) && chunk.0 == s.buffered + line + seq![10u8] && chunk.0.len()
            > s.chunk_size && s.append(rec, params).0.buffered.len() == 0),
{
}

/// The counts of a merge do not depend on which report is merged into
/// which.
pub proof fn lemma_merge_counts_commute(ours: ReportView, theirs: ReportView)
    ensures
        ours.merged(theirs).appended == theirs.merged(ours).appended,
        ours.merged(theirs).failed.dom() == theirs.merged(ours).failed.dom(),
        ours.merged(theirs).overflow.dom() == theirs.merged(ours).overflow.dom(),
        forall|k: (Seq<char>, Seq<char>)|
            #![trigger ours.merged(theirs).failed_count(k.0, k.1)]
            ours.merged(theirs).failed_count(k.0, k.1) == theirs.merged(ours).failed_count(
                k.0,
                k.1,
            ),
        forall|k: (Seq<char>, Seq<char>, bool)|
            #![trigger ours.merged(theirs).overflow_count(k.0, k.1, k.2)]
            ours.merged(theirs).overflow_count(k.0, k.1, k.2) == theirs.merged(
                ours,
            ).overflow_count(k.0, k.1, k.2),
{
    assert(ours.merged(theirs).failed.dom() =~= theirs.merged(ours).failed.dom());
    assert(ours.merged(theirs).overflow.dom() =~= theirs.merged(ours).overflow.dom());
}

/// The counts of a merge of three reports do not depend on which two are
/// merged first.
pub proof fn lemma_merge_counts_associate(a: ReportView, b: ReportView, c: ReportView)
    ensures
        a.merged(b).merged(c).appended == a.merged(b.merged(c)).appended,
        a.merged(b).merged(c).failed.dom() == a.merged(b.merged(c)).failed.dom(),
        a.merged(b).merged(c).overflow.dom() == a.merged(b.merged(c)).overflow.dom(),
        forall|k: (Seq<char>, Seq<char>)|
            #![trigger a.merged(b).merged(c).failed_count(k.0, k.1)]
            a.merged(b).merged(c).failed_count(k.0, k.1) == a.merged(b.merged(c)).failed_count(
                k.0,
                k.1,
            ),
        forall|k: (Seq<char>, Seq<char>, bool)|
            #![trigger a.merged(b).merged(c).overflow_count(k.0, k.1, k.2)]
            a.merged(b).merged(c).overflow_count(k.0, k.1, k.2) == a.merged(
                b.merged(c),
            ).overflow_count(k.0, k.1, k.2),
{
    assert(a.merged(b).merged(c).failed.dom() =~= a.merged(b.merged(c)).failed.dom());
    assert(a.merged(b).merged(c).overflow.dom() =~= a.merged(b.merged(c)).overflow.dom());
}

} // verus!
