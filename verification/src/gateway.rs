//! The relay gateway's decision logic: assign or keep the correlation id for
//! an inbound request, build the downstream request around the payload
//! unchanged, and translate the downstream outcome for the caller.
//!
//! The gateway never retries a steady-state call: a failed forward is
//! reported to the caller at once (retry policy lives only in bootstrap).
//! The owning process performs the transport call itself between `prepare`
//! and `reply`, holding the shared channel's single-flight claim throughout.

use vstd::prelude::*;
use vstd::string::StringExecFns;

use crate::channel::{ChannelEvent, SecureChannel};
use crate::ids::{current_timestamp, new_correlation_id};
use crate::proto::{
    DataRequest, DataResponse, DataResponseView, DisplayRequest, DisplayRequestView,
    DisplayResponse, MessageRequest, MessageResponse, MessagesResponse, RelayError, StoredMessage,
};

verus! {

/// The ingress caller's reply on the encryption pipeline.
pub struct ProcessResponse {
    pub success: bool,
    pub request_id: String,
    pub message: String,
}

/// The ingress caller's reply on the messenger pipeline.
pub struct SendResponse {
    pub success: bool,
    pub id: String,
    pub message: String,
}

/// The downstream request built when a payload is forwarded under a given
/// correlation id: payload and id go out exactly as they came in.
pub open spec fn forward_request_spec(json_data: Seq<char>, id: Seq<char>) -> DisplayRequestView {
    DisplayRequestView { json_data: json_data, request_id: id }
}

/// The acknowledgment sent up the chain once the downstream hop has acked
/// the request with the given correlation id.
pub open spec fn success_reply_spec(id: Seq<char>) -> DataResponseView {
    DataResponseView { success: true, request_id: id }
}

/// The canonical correlation id for a request entering a gateway: an id
/// already assigned by the hop above is kept unchanged; a request arriving
/// with none gets a fresh one now, canonical for the rest of its lifetime.
pub fn assign_correlation_id(upstream: Option<String>) -> (r: String)
    ensures
        upstream is Some ==> r@ == upstream->Some_0@,
        upstream is None ==> r@.len() == 36,
{
    match upstream {
        Option::Some(id) => id,
        Option::None => new_correlation_id(),
    }
}

/// First half of the ingress hop: the raw payload enters the trusted side
/// here, so a fresh correlation id is assigned; the outbound request carries
/// the payload unchanged under that id. Returns the request and the id, which
/// stays canonical for the acknowledgment.
pub fn prepare_ingress(json_data: String) -> (r: (DataRequest, String))
    ensures
        r.0.json_data@ == json_data@,
        r.0.source_id@ == r.1@,
        r.1@.len() == 36,
{
    let source_id = assign_correlation_id(Option::None);
    let req = DataRequest { json_data, source_id: source_id.clone() };
    (req, source_id)
}

/// First half of an intermediate hop: the correlation id assigned upstream is
/// kept, and the payload is forwarded under it unchanged.
pub fn prepare_forward(req: DataRequest) -> (r: DisplayRequest)
    ensures
        r@ == forward_request_spec(req.json_data@, req.source_id@),
{
    let id = assign_correlation_id(Some(req.source_id));
    DisplayRequest { json_data: req.json_data, request_id: id }
}

/// Second half of an intermediate hop: the downstream outcome, translated for
/// the hop above. A success acknowledges with exactly the correlation id the
/// request was forwarded under; a failure is surfaced as it stands, never
/// retried.
pub fn forward_reply(request_id: String, outcome: Result<DisplayResponse, RelayError>) -> (r:
    Result<DataResponse, RelayError>)
    ensures
        outcome is Ok ==> r is Ok && r->Ok_0@ == success_reply_spec(request_id@),
        outcome is Err ==> r is Err && r->Err_0.detail@ == outcome->Err_0.detail@,
{
    match outcome {
        Result::Ok(_ack) => Result::Ok(DataResponse { success: true, request_id }),
        Result::Err(e) => Result::Err(e),
    }
}

/// Second half of the ingress hop: the acknowledgment shown to the external
/// caller. On success the downstream flag and correlation id pass through
/// unchanged; on failure the caller sees a failed reply with an empty id and
/// a textual summary, never transport internals beyond that.
pub fn ingress_reply(outcome: Result<DataResponse, RelayError>) -> (r: ProcessResponse)
    ensures
        outcome is Ok ==> r.success == outcome->Ok_0.success && r.request_id@
            == outcome->Ok_0.request_id@ && r.message@
            == "Data processed and forwarded successfully"@,
        outcome is Err ==> !r.success && r.request_id@.len() == 0 && r.message@
            == "Failed to process: "@ + outcome->Err_0.detail@,
{
    match outcome {
        Result::Ok(res) => ProcessResponse {
            success: res.success,
            request_id: res.request_id,
            message: "Data processed and forwarded successfully".to_owned(),
        },
        Result::Err(e) => ProcessResponse {
            success: false,
            request_id: String::new(),
            message: "Failed to process: ".to_owned().concat(e.detail.as_str()),
        },
    }
}

/// First half of the messenger ingress: stamp the payload with the arrival
/// time; content and sender go downstream unchanged.
pub fn prepare_send(content: String, sender: String) -> (r: MessageRequest)
    ensures
        r.content@ == content@,
        r.sender@ == sender@,
{
    let timestamp = current_timestamp();
    MessageRequest { content, sender, timestamp }
}

/// Second half of the messenger ingress: the acknowledgment shown to the
/// external caller, with the record id assigned at the terminal hop passed
/// through unchanged on success, and an empty id with a textual summary on
/// failure.
pub fn send_reply(outcome: Result<MessageResponse, RelayError>) -> (r: SendResponse)
    ensures
        outcome is Ok ==> r.success == outcome->Ok_0.success && r.id@ == outcome->Ok_0.id@
            && r.message@ == "Message sent successfully!"@,
        outcome is Err ==> !r.success && r.id@.len() == 0 && r.message@ == "Failed to send: "@
            + outcome->Err_0.detail@,
{
    match outcome {
        Result::Ok(res) => SendResponse {
            success: res.success,
            id: res.id,
            message: "Message sent successfully!".to_owned(),
        },
        Result::Err(e) => SendResponse {
            success: false,
            id: String::new(),
            message: "Failed to send: ".to_owned().concat(e.detail.as_str()),
        },
    }
}

/// The read-back reply shown to the external caller: the snapshot, or a
/// structured failure that cannot be mistaken for an empty store.
#[derive(Debug)]
pub struct MessagesReply {
    pub success: bool,
    pub messages: Vec<StoredMessage>,
    pub message: String,
}

/// The read-back reply: a successful snapshot passes through unchanged and in
/// order; a failed query is surfaced as a structured failure with its cause —
/// never silently absorbed into an empty list.
pub fn messages_reply(outcome: Result<MessagesResponse, RelayError>) -> (r: MessagesReply)
    ensures
        outcome is Ok ==> r.success && r.messages@ == outcome->Ok_0.messages@ && r.message@
            == Seq::<char>::empty(),
        outcome is Err ==> !r.success && r.messages@.len() == 0 && r.message@
            == "Failed to fetch messages: "@ + outcome->Err_0.detail@,
{
    match outcome {
        Result::Ok(m) => MessagesReply { success: true, messages: m.messages, message: String::new() },
        Result::Err(e) => MessagesReply {
            success: false,
            messages: Vec::new(),
            message: "Failed to fetch messages: ".to_owned().concat(e.detail.as_str()),
        },
    }
}

/// The intermediate relay hop: owns the one long-lived channel to the next
/// hop and forwards exactly one inbound request at a time through it. The
/// owning process locks the whole service across one call, performing the
/// transport send between the two halves below.
pub struct MyEncryptionService {
    channel: SecureChannel,
}

impl MyEncryptionService {
    /// Whether no forward is in flight, so a call may begin.
    pub closed spec fn idle(&self) -> bool {
        self.channel.in_flight_id() is None
    }

    /// The correlation id of the forward now in flight, if any.
    pub closed spec fn in_flight(&self) -> Option<Seq<char>> {
        self.channel.in_flight_id()
    }

    /// Everything ever forwarded through this hop's channel, in order.
    pub closed spec fn history(&self) -> Seq<ChannelEvent> {
        self.channel.history()
    }

    /// The channel discipline holds of this hop's history.
    pub closed spec fn wf(&self) -> bool {
        self.channel.wf()
    }

    /// A fresh hop around an established channel, idle and with an empty
    /// history.
    pub fn new() -> (r: Self)
        ensures
            r.wf(),
            r.idle(),
            r.history() == Seq::<ChannelEvent>::empty(),
    {
        MyEncryptionService { channel: SecureChannel::new() }
    }

    /// Whether no forward is in flight right now.
    pub fn is_idle(&self) -> (r: bool)
        ensures
            r == self.idle(),
    {
        self.channel.is_free()
    }

    /// First half of one forwarded request: the correlation id assigned
    /// upstream is kept, the payload goes downstream under it unchanged, and
    /// the channel is claimed for this call until the outcome is back.
    pub fn begin_process(&mut self, req: DataRequest) -> (r: DisplayRequest)
        requires
            old(self).wf(),
            old(self).idle(),
        ensures
            final(self).wf(),
            r@ == forward_request_spec(req.json_data@, req.source_id@),
            final(self).in_flight() == Some(r.request_id@),
            final(self).history() == old(self).history().push(
                ChannelEvent::Begin { id: r.request_id@ },
            ),
    {
        let fwd = prepare_forward(req);
        self.channel.begin_call(&fwd.request_id);
        fwd
    }

    /// Second half: the downstream outcome is paired with the id that was in
    /// flight — a success acknowledges with exactly that id, a failure is
    /// surfaced as it stands — and the channel is freed for the next caller.
    pub fn finish_process(&mut self, outcome: Result<DisplayResponse, RelayError>) -> (r: Result<
        DataResponse,
        RelayError,
    >)
        requires
            old(self).wf(),
            old(self).in_flight() is Some,
        ensures
            final(self).wf(),
            final(self).idle(),
            outcome is Ok ==> r is Ok && r->Ok_0@ == success_reply_spec(
                old(self).in_flight()->Some_0,
            ),
            outcome is Err ==> r is Err && r->Err_0.detail@ == outcome->Err_0.detail@,
            final(self).history() == old(self).history().push(
                ChannelEvent::Finish { id: old(self).in_flight()->Some_0 },
            ),
    {
        let paired = self.channel.finish_call(outcome.is_ok());
        forward_reply(paired.correlation_id, outcome)
    }
}

/// One gateway call at the correlation-id level: the id canonical for the
/// request when it entered, the id on the request sent downstream, and the
/// id on the acknowledgment returned to the caller.
pub struct CorrelationTrace {
    pub assigned: Seq<char>,
    pub forwarded: Seq<char>,
    pub replied: Seq<char>,
}

/// The three correlation ids of one successfully forwarded request.
pub open spec fn gateway_trace(json_data: Seq<char>, id: Seq<char>) -> CorrelationTrace {
    CorrelationTrace {
        assigned: id,
        forwarded: forward_request_spec(json_data, id).request_id,
        replied: success_reply_spec(id).request_id,
    }
}

/// Law: a correlation id is never altered mid-flight. Whatever id became
/// canonical when a request entered a gateway is the id the gateway forwards
/// downstream and the id it acknowledges with to its caller.
pub proof fn lemma_correlation_id_stable(json_data: Seq<char>, id: Seq<char>)
    ensures
        gateway_trace(json_data, id).forwarded == gateway_trace(json_data, id).assigned,
        gateway_trace(json_data, id).replied == gateway_trace(json_data, id).assigned,
{
}

} // verus!
