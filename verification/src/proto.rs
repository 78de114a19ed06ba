//! The message shapes carried over the internal relay protocol: the messenger
//! pipeline's request/response pair and stored record, and the encryption
//! pipeline's forwarding shapes.

use vstd::prelude::*;

verus! {

/// An inbound record submission: the payload, who sent it, and when.
#[derive(Debug)]
pub struct MessageRequest {
    pub content: String,
    pub sender: String,
    pub timestamp: i64,
}

/// Acknowledgment for one accepted record: the identifier assigned at the
/// point of durable acceptance.
#[derive(Debug)]
pub struct MessageResponse {
    pub success: bool,
    pub id: String,
}

/// One record as the terminal store keeps it. Immutable once appended.
#[derive(Debug)]
pub struct StoredMessage {
    pub id: String,
    pub content: String,
    pub sender: String,
    pub timestamp: i64,
}

/// A full-store snapshot, in arrival order.
#[derive(Debug)]
pub struct MessagesResponse {
    pub messages: Vec<StoredMessage>,
}

/// Mathematical image of one stored record.
pub struct StoredMessageView {
    pub id: Seq<char>,
    pub content: Seq<char>,
    pub sender: Seq<char>,
    pub timestamp: int,
}

impl View for StoredMessage {
    type V = StoredMessageView;

    open spec fn view(&self) -> StoredMessageView {
        StoredMessageView {
            id: self.id@,
            content: self.content@,
            sender: self.sender@,
            timestamp: self.timestamp as int,
        }
    }
}

/// The record a request's fields become when the store accepts it under a
/// given identifier.
pub open spec fn accepted_record(req: MessageRequest, id: Seq<char>) -> StoredMessageView {
    StoredMessageView {
        id: id,
        content: req.content@,
        sender: req.sender@,
        timestamp: req.timestamp as int,
    }
}

/// An inbound payload entering the encryption pipeline, tagged with the
/// correlation id assigned where it entered the trusted side.
#[derive(Debug)]
pub struct DataRequest {
    pub json_data: String,
    pub source_id: String,
}

/// The gateway's acknowledgment up the chain: the correlation id of the
/// request it answers, and whether the terminal hop acknowledged.
#[derive(Debug)]
pub struct DataResponse {
    pub success: bool,
    pub request_id: String,
}

/// The request the gateway sends one hop further down, carrying the payload
/// and correlation id unchanged.
#[derive(Debug)]
pub struct DisplayRequest {
    pub json_data: String,
    pub request_id: String,
}

/// The terminal hop's acknowledgment of a displayed payload.
#[derive(Debug)]
pub struct DisplayResponse {
    pub success: bool,
    pub display_id: String,
}

/// Mathematical image of a downstream request.
pub struct DisplayRequestView {
    pub json_data: Seq<char>,
    pub request_id: Seq<char>,
}

impl View for DisplayRequest {
    type V = DisplayRequestView;

    open spec fn view(&self) -> DisplayRequestView {
        DisplayRequestView { json_data: self.json_data@, request_id: self.request_id@ }
    }
}

/// Mathematical image of an acknowledgment.
pub struct DataResponseView {
    pub success: bool,
    pub request_id: Seq<char>,
}

impl View for DataResponse {
    type V = DataResponseView;

    open spec fn view(&self) -> DataResponseView {
        DataResponseView { success: self.success, request_id: self.request_id@ }
    }
}

/// A steady-state call failure, surfaced to the immediate caller with a
/// textual summary and never retried.
#[derive(Debug)]
pub struct RelayError {
    pub detail: String,
}

} // verus!
