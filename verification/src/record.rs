//! The record handed to the serializer: one message that passed between
//! actors, with its metadata and its encoded payload.

use vstd::prelude::*;
use crate::payload::{Payload, PayloadView};

verus! {

/// Whether the message was received or sent by the actor that dumped it.
#[derive(Clone, Copy, Debug, PartialEq, Eq, Structural)]
pub enum Direction {
    In,
    Out,
}

/// The role of the message in an exchange. Requests and responses carry the
/// identifier that ties them together.
#[derive(Clone, Copy, Debug, PartialEq, Eq, Structural)]
pub enum MessageKind {
    Regular,
    Request(u64),
    Response(u64),
}

impl MessageKind {
    /// The identifier that ties a request to its response, if the message is
    /// one of the two.
    pub open spec fn correlation(self) -> Option<u64> {
        match self {
            MessageKind::Regular => None,
            MessageKind::Request(id) => Some(id),
            MessageKind::Response(id) => Some(id),
        }
    }
}

/// One dumped message.
#[derive(Clone, Debug)]
pub struct DumpRecord {
    /// Nanoseconds since the Unix epoch.
    pub timestamp: u64,
    /// The group of the actor.
    pub group: String,
    /// The key of the actor inside its group; may be empty.
    pub key: String,
    /// Position of the record among those of its producer.
    pub sequence_no: u64,
    pub trace_id: u64,
    pub thread_id: u64,
    pub direction: Direction,
    /// The name of the message, already written out in full.
    pub message_name: String,
    pub message_protocol: String,
    pub message_kind: MessageKind,
    /// The message itself, encoded.
    pub message: Payload,
}

/// The mathematical content of a [`DumpRecord`].
pub struct DumpRecordView {
    pub timestamp: u64,
    pub group: Seq<char>,
    pub key: Seq<char>,
    pub sequence_no: u64,
    pub trace_id: u64,
    pub thread_id: u64,
    pub direction: Direction,
    pub message_name: Seq<char>,
    pub message_protocol: Seq<char>,
    pub message_kind: MessageKind,
    pub message: PayloadView,
}

impl View for DumpRecord {
    type V = DumpRecordView;

    open spec fn view(&self) -> DumpRecordView {
        DumpRecordView {
            timestamp: self.timestamp,
            group: self.group@,
            key: self.key@,
            sequence_no: self.sequence_no,
            trace_id: self.trace_id,
            thread_id: self.thread_id,
            direction: self.direction,
            message_name: self.message_name@,
            message_protocol: self.message_protocol@,
            message_kind: self.message_kind,
            message: self.message@,
        }
    }
}

} // verus!
