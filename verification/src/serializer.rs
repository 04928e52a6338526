//! The serializer: it encodes records into one buffer, line by line, and
//! hands the buffer out in chunks.

use vstd::prelude::*;
use vstd::string::StringExecFns;
use crate::encoder::{attempt, encode_payload, encode_record, record_text, EncodeError, Outcome};
use crate::json::{decode_lossy, lossy_text};
use crate::params::{DumpParams, OnOverflow};
use crate::payload::{accepted, PayloadView};
use crate::record::{DumpRecord, DumpRecordView};
use crate::report::{Report, ReportView};
use crate::writer::BoundedWriter;

verus! {

/// The chunk size of a serializer made by [`Serializer::new`].
pub const DEFAULT_CHUNK_SIZE: usize = 131072;

/// What becomes of a record that is handed to the serializer.
pub enum Verdict {
    /// The record fits its budget; this is its line.
    Appended(Seq<u8>),
    /// The record does not fit, and is kept with its payload cut short;
    /// this is its line.
    Truncated(Seq<u8>),
    /// The record does not fit, and is dropped.
    Skipped,
    /// The record cannot be encoded; this is why.
    Failed(Seq<char>),
}

impl Verdict {
    /// The line that the record adds to the buffer, if it adds one.
    pub open spec fn line(self) -> Option<Seq<u8>> {
        match self {
            Verdict::Appended(line) => Some(line),
            Verdict::Truncated(line) => Some(line),
            Verdict::Skipped => None,
            Verdict::Failed(_) => None,
        }
    }
}

/// The text that stands in for a payload that does not fit `max_size`: what
/// a writer with that budget accepts of the payload, read as text, and the
/// marker.
pub open spec fn truncated_text(message: PayloadView, max_size: nat) -> Seq<char> {
    lossy_text(accepted(message.pieces, max_size)) + " TRUNCATED"@
}

/// What becomes of `rec` under `params`.
///
/// The record is first written under the budget `max_size`. If the budget
/// is exhausted and the policy is to truncate, it is written once more,
/// without a budget and with [`truncated_text`] in the place of the payload.
pub open spec fn verdict(rec: DumpRecordView, class: Seq<char>, node_no: u16, params: DumpParams)
    -> Verdict {
    match attempt(rec, class, node_no, None, params.max_size as nat) {
        Outcome::Written => Verdict::Appended(record_text(rec, class, node_no, None)),
        Outcome::Malformed => Verdict::Failed(rec.message.defect.unwrap()),
        Outcome::Exhausted => if params.on_overflow == OnOverflow::Skip {
            Verdict::Skipped
        } else {
            let text = truncated_text(rec.message, params.max_size as nat);
            if attempt(rec, class, node_no, Some(text), usize::MAX as nat) is Written {
                Verdict::Truncated(record_text(rec, class, node_no, Some(text)))
            } else {
                Verdict::Failed("failed to write whole buffer"@)
            }
        },
    }
}

/// The buffer after a record with `verdict`: longer by the line, if there is
/// one.
spec fn grown(buffer: Seq<u8>, verdict: Verdict) -> Seq<u8> {
    match verdict.line() {
        Some(line) => buffer + line,
        None => buffer,
    }
}

/// The report after the overflow of `verdict`, if it is one, was counted
/// for `rec`.
spec fn overflow_counted(
    report: ReportView,
    verdict: Verdict,
    rec: DumpRecordView,
    params: DumpParams,
) -> ReportView {
    match verdict {
        Verdict::Truncated(_) => report.with_overflow(
            rec.message_protocol,
            rec.message_name,
            true,
            params.on_overflow_log,
        ),
        Verdict::Skipped => report.with_overflow(
            rec.message_protocol,
            rec.message_name,
            false,
            params.on_overflow_log,
        ),
        _ => report,
    }
}

/// Whether `res` says what `verdict` is: that a line was added, that the
/// record was dropped, or why it failed.
spec fn tells(res: Result<bool, String>, verdict: Verdict) -> bool {
    match verdict {
        Verdict::Appended(_) => res == Ok::<bool, String>(true),
        Verdict::Truncated(_) => res == Ok::<bool, String>(true),
        Verdict::Skipped => res == Ok::<bool, String>(false),
        Verdict::Failed(detail) => res matches Err(error) && error@ == detail,
    }
}

/// The report after the event of `verdict` was counted for `rec`.
pub open spec fn counted(
    report: ReportView,
    verdict: Verdict,
    rec: DumpRecordView,
    params: DumpParams,
) -> ReportView {
    match verdict {
        Verdict::Appended(_) => report.with_appended(),
        Verdict::Truncated(_) => report.with_overflow(
            rec.message_protocol,
            rec.message_name,
            true,
            params.on_overflow_log,
        ).with_appended(),
        Verdict::Skipped => report.with_overflow(
            rec.message_protocol,
            rec.message_name,
            false,
            params.on_overflow_log,
        ),
        Verdict::Failed(detail) => report.with_failed(
            rec.message_protocol,
            rec.message_name,
            params.on_failure_log,
            detail,
        ),
    }
}

/// Whether the overflow of `verdict`, if it is one, can be counted for `rec`
/// without the count leaving the range of `usize`.
spec fn overflow_countable(
    report: ReportView,
    verdict: Verdict,
    rec: DumpRecordView,
    params: DumpParams,
) -> bool {
    match verdict {
        Verdict::Truncated(_) => params.on_overflow_log is Some ==> report.overflow_count(
            rec.message_protocol,
            rec.message_name,
            true,
        ) < usize::MAX,
        Verdict::Skipped => params.on_overflow_log is Some ==> report.overflow_count(
            rec.message_protocol,
            rec.message_name,
            false,
        ) < usize::MAX,
        _ => true,
    }
}

/// Whether the event of `verdict` can be counted for `rec` without a count
/// leaving the range of `usize`.
pub open spec fn countable(
    report: ReportView,
    verdict: Verdict,
    rec: DumpRecordView,
    params: DumpParams,
) -> bool {
    match verdict {
        Verdict::Appended(_) => report.appended < usize::MAX,
        Verdict::Truncated(_) => report.appended < usize::MAX && (params.on_overflow_log is Some
            ==> report.overflow_count(rec.message_protocol, rec.message_name, true) < usize::MAX),
        Verdict::Skipped => params.on_overflow_log is Some ==> report.overflow_count(
            rec.message_protocol,
            rec.message_name,
            false,
        ) < usize::MAX,
        Verdict::Failed(_) => params.on_failure_log is Some ==> report.failed_count(
            rec.message_protocol,
            rec.message_name,
        ) < usize::MAX,
    }
}

/// The mathematical content of a [`Serializer`].
#[verifier::ext_equal]
pub struct SerializerView {
    /// The value of the field `cl` of every line.
    pub class: Seq<char>,
    /// The value of the field `n` of every line.
    pub node_no: u16,
    /// The length above which the buffer is handed out.
    pub chunk_size: nat,
    /// The lines that have not been handed out yet.
    pub buffered: Seq<u8>,
    /// What happened since the buffer was last handed out.
    pub report: ReportView,
}

impl SerializerView {
    /// This serializer after its buffer was handed out.
    pub open spec fn drained(self) -> SerializerView {
        SerializerView { buffered: Seq::empty(), report: ReportView::empty(), ..self }
    }

    /// The serializer after `rec` was handed to it, and the chunk that it
    /// gives back, if any.
    ///
    /// A record that yields a line adds it to the buffer, with a line
    /// terminator. If the buffer is then longer than the chunk size, it is
    /// handed out with the report, and both start anew.
    pub open spec fn append(self, rec: DumpRecordView, params: DumpParams) -> (
        SerializerView,
        Option<(Seq<u8>, ReportView)>,
    ) {
        let verdict = verdict(rec, self.class, self.node_no, params);
        let report = counted(self.report, verdict, rec, params);
        match verdict.line() {
            Some(line) => {
                let buffered = self.buffered + line + seq![10u8];
                if buffered.len() > self.chunk_size {
                    (self.drained(), Some((buffered, report)))
                } else {
                    (SerializerView { buffered, report, ..self }, None)
                }
            },
            None => (SerializerView { report, ..self }, None),
        }
    }

    /// The serializer after a forced hand-out, and the chunk that it gives
    /// back: everything buffered, unless that is nothing.
    pub open spec fn take(self) -> (SerializerView, Option<(Seq<u8>, ReportView)>) {
        if self.buffered.len() > 0 {
            (self.drained(), Some((self.buffered, self.report)))
        } else {
            (self, None)
        }
    }
}

/// A chunk as a mathematical value.
pub open spec fn chunk_view(chunk: Option<(&[u8], Report)>) -> Option<(Seq<u8>, ReportView)> {
    match chunk {
        Some((bytes, report)) => Some((bytes@, report@)),
        None => None,
    }
}

/// Encodes records into a buffer and hands the buffer out in chunks.
pub struct Serializer {
    class: &'static str,
    node_no: u16,
    chunk_size: usize,
    /// Holds the cut of a payload that does not fit its budget.
    message_buffer: Vec<u8>,
    output: Vec<u8>,
    /// Set when `output` was handed out: it is cleared on the next call.
    need_to_clear: bool,
    report: Report,
}

impl View for Serializer {
    type V = SerializerView;

    closed spec fn view(&self) -> SerializerView {
        SerializerView {
            class: self.class@,
            node_no: self.node_no,
            chunk_size: self.chunk_size as nat,
            buffered: if self.need_to_clear {
                Seq::empty()
            } else {
                self.output@
            },
            report: self.report@,
        }
    }
}

impl Serializer {
    /// A serializer with the default chunk size.
    pub fn new(class: &'static str, node_no: u16) -> (serializer: Self)
        ensures
            serializer@ == (SerializerView {
                class: class@,
                node_no,
                chunk_size: DEFAULT_CHUNK_SIZE as nat,
                buffered: Seq::empty(),
                report: ReportView::empty(),
            }),
    {
        Self::with_chunk_size(DEFAULT_CHUNK_SIZE, class, node_no)
    }

    /// A serializer that hands its buffer out once it is longer than
    /// `chunk_size`. The buffer starts with room for one chunk and a half.
    pub fn with_chunk_size(
        chunk_size: usize,
        class: &'static str,
        node_no: u16,
    ) -> (serializer: Self)
        requires
            chunk_size * 3 <= usize::MAX,
        ensures
            serializer@ == (SerializerView {
                class: class@,
                node_no,
                chunk_size: chunk_size as nat,
                buffered: Seq::empty(),
                report: ReportView::empty(),
            }),
    {
        let initial_chunk_capacity = chunk_size * 3 / 2;
        Serializer {
            class,
            node_no,
            chunk_size,
            message_buffer: Vec::new(),
            output: Vec::with_capacity(initial_chunk_capacity),
            need_to_clear: false,
            report: Report::default(),
        }
    }

    /// Clears the buffer if it was handed out by the previous call.
    fn clear_if_needed(&mut self)
        ensures
            final(self)@ == old(self)@,
            !final(self).need_to_clear,
            final(self).output@ == old(self)@.buffered,
    {
        if self.need_to_clear {
            self.output.clear();
            self.need_to_clear = false;
        }
    }

    /// Hands the buffer out, with the report, if it is longer than `limit`.
    fn take_if_limit_exceeded(&mut self, limit: usize) -> (chunk: Option<(&[u8], Report)>)
        requires
            !old(self).need_to_clear,
        ensures
            old(self)@.buffered.len() > limit ==> final(self)@ == old(self)@.drained()
                && chunk_view(chunk) == Some((old(self)@.buffered, old(self)@.report)),
            old(self)@.buffered.len() <= limit ==> final(self)@ == old(self)@ && chunk is None,
    {
        if self.output.len() > limit {
            self.need_to_clear = true;
            let mut report = Report::default();
            std::mem::swap(&mut report, &mut self.report);
            Some((self.output.as_slice(), report))
        } else {
            None
        }
    }

    /// Tries to add the line of `record` to `output`. Gives `Ok(true)` when
    /// the line was added, `Ok(false)` when the record was dropped for its
    /// size, and the detail of the failure when it cannot be encoded.
    ///
    /// The buffer grows by the line or stays as it was. Overflows are
    /// counted here; appended and failed records are left to the caller.
    fn do_append(
        output: &mut Vec<u8>,
        message_buffer: &mut Vec<u8>,
        report: &mut Report,
        class: &str,
        node_no: u16,
        record: &DumpRecord,
        params: &DumpParams,
    ) -> (res: Result<bool, String>)
        requires
            overflow_countable(
                old(report)@,
                verdict(record@, class@, node_no, *params),
                record@,
                *params,
            ),
        ensures
            final(output)@ == grown(old(output)@, verdict(record@, class@, node_no, *params)),
            final(report)@ == overflow_counted(
                old(report)@,
                verdict(record@, class@, node_no, *params),
                record@,
                *params,
            ),
            final(report).appended == old(report).appended,
            tells(res, verdict(record@, class@, node_no, *params)),
    {
        let prev_len = output.len();

        // Write straight into the buffer, under the budget of the record.
        let mut sink: Vec<u8> = Vec::new();
        std::mem::swap(&mut sink, output);
        let mut writer = BoundedWriter::new(sink, params.max_size);
        let first = encode_record(&mut writer, record, class, node_no, None);
        *output = writer.into_sink();
        match first {
            Ok(()) => {
                return Ok(true);
            },
            Err(error) => {
                // Exhausted or malformed: either way the buffer is rolled back.
                output.truncate(prev_len);
                assert(output@ == old(output)@);
                if let EncodeError::Malformed(detail) = error {
                    return Err(detail);
                }
            },
        }

        if params.on_overflow == OnOverflow::Skip {
            report.add_overflow(record, false, params);
            return Ok(false);
        }

        // Cut the payload to what the budget covers, and mark it.
        message_buffer.clear();
        let mut scratch: Vec<u8> = Vec::new();
        std::mem::swap(&mut scratch, message_buffer);
        let mut cut = BoundedWriter::new(scratch, params.max_size);
        let _ = encode_payload(&mut cut, &record.message);
        *message_buffer = cut.into_sink();
        assert(message_buffer@ =~= accepted(record@.message.pieces, params.max_size as nat));
        let mut message = decode_lossy(message_buffer.as_slice());
        message.append(" TRUNCATED");
        assert(message@ == truncated_text(record@.message, params.max_size as nat));

        // Write the record once more, with the marked text as its payload.
        let mut sink: Vec<u8> = Vec::new();
        std::mem::swap(&mut sink, output);
        let mut writer = BoundedWriter::new(sink, usize::MAX);
        let second = encode_record(&mut writer, record, class, node_no, Some(message.as_str()));
        *output = writer.into_sink();
        match second {
            Ok(()) => {
                report.add_overflow(record, true, params);
                Ok(true)
            },
            Err(_) => {
                output.truncate(prev_len);
                assert(output@ == old(output)@);
                Err("failed to write whole buffer".to_owned())
            },
        }
    }

    /// Hands `record` to the serializer.
    ///
    /// The record is encoded under the budget and the policy of `params`,
    /// and what becomes of it is counted in the report. When the buffer has
    /// grown longer than the chunk size, it is handed out with the report,
    /// and both start anew.
    ///
    /// The bytes stay as they are until the next call of `append` or `take`.
    pub fn append(&mut self, record: &DumpRecord, params: &DumpParams) -> (chunk: Option<
        (&[u8], Report),
    >)
        requires
            countable(
                old(self)@.report,
                verdict(record@, old(self)@.class, old(self)@.node_no, *params),
                record@,
                *params,
            ),
        ensures
            final(self)@ == old(self)@.append(record@, *params).0,
            chunk_view(chunk) == old(self)@.append(record@, *params).1,
    {
        self.clear_if_needed();
        let done = Self::do_append(
            &mut self.output,
            &mut self.message_buffer,
            &mut self.report,
            self.class,
            self.node_no,
            record,
            params,
        );
        match done {
            Ok(true) => {
                self.output.push(10u8);
                self.report.appended = self.report.appended + 1;
                self.take_if_limit_exceeded(self.chunk_size)
            },
            Ok(false) => None,
            Err(error) => {
                self.report.add_failed(record, error, params);
                None
            },
        }
    }

    /// Whether every count that `record` may add to has room for one more.
    pub fn has_room(&self, record: &DumpRecord) -> (room: bool)
        ensures
            room == self@.report.has_room(record@.message_protocol, record@.message_name),
    {
        self.report.has_room(record.message_protocol.as_str(), record.message_name.as_str())
    }

    /// Hands `record` to the serializer if every count that it may add to
    /// has room for one more, and gives what `append` gives. Otherwise
    /// nothing changes and nothing is given.
    pub fn try_append(&mut self, record: &DumpRecord, params: &DumpParams) -> (res: Option<
        Option<(&[u8], Report)>,
    >)
        ensures
            res is Some <==> old(self)@.report.has_room(
                record@.message_protocol,
                record@.message_name,
            ),
            res matches Some(chunk) ==> final(self)@ == old(self)@.append(record@, *params).0
                && chunk_view(chunk) == old(self)@.append(record@, *params).1,
            res is None ==> final(self)@ == old(self)@,
    {
        if !self.has_room(record) {
            return None;
        }
        Some(self.append(record, params))
    }

    /// Hands out everything that is buffered, with the report, whatever the
    /// chunk size. Gives nothing if nothing is buffered.
    ///
    /// The bytes stay as they are until the next call of `append` or `take`.
    pub fn take(&mut self) -> (chunk: Option<(&[u8], Report)>)
        ensures
            final(self)@ == old(self)@.take().0,
            chunk_view(chunk) == old(self)@.take().1,
    {
        self.clear_if_needed();
        self.take_if_limit_exceeded(0)
    }
}

} // verus!
