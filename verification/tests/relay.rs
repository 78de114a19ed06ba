use relay_core::bootstrap::{
    bootstrap_start, bootstrap_step, AttemptOutcome, BootstrapAction, BootstrapState,
    MAX_ATTEMPTS, RETRY_BACKOFF_SECS,
};
use relay_core::channel::SecureChannel;
use relay_core::gateway::{
    MyEncryptionService,
    assign_correlation_id, forward_reply, ingress_reply, messages_reply, prepare_forward,
    prepare_ingress, prepare_send, send_reply,
};
use relay_core::proto::{
    DataRequest, DataResponse, DisplayResponse, MessageRequest, RelayError,
};
use relay_core::store::MyMessenger;

fn message(content: &str, sender: &str, timestamp: i64) -> MessageRequest {
    MessageRequest {
        content: content.to_string(),
        sender: sender.to_string(),
        timestamp,
    }
}

#[test]
fn store_starts_empty() {
    let store = MyMessenger::new();
    let snap = store.get_messages();
    assert_eq!(snap.messages.len(), 0);
}

#[test]
fn append_then_snapshot_returns_the_record() {
    let mut store = MyMessenger::new();
    let ack = store.send_message(message("hello", "alice", 7));
    assert!(ack.success);
    assert_eq!(ack.id.len(), 36);
    let snap = store.get_messages();
    assert_eq!(snap.messages.len(), 1);
    assert_eq!(snap.messages[0].id, ack.id);
    assert_eq!(snap.messages[0].content, "hello");
    assert_eq!(snap.messages[0].sender, "alice");
    assert_eq!(snap.messages[0].timestamp, 7);
}

#[test]
fn snapshot_after_k_appends_has_k_records_in_order() {
    let mut store = MyMessenger::new();
    let mut acks = Vec::new();
    for k in 0..5i64 {
        let content = format!("payload-{}", k);
        acks.push(store.send_message(message(&content, "bob", 100 + k)));
    }
    let snap = store.get_messages();
    assert_eq!(snap.messages.len(), 5);
    for k in 0..5usize {
        assert_eq!(snap.messages[k].content, format!("payload-{}", k));
        assert_eq!(snap.messages[k].timestamp, 100 + k as i64);
        assert_eq!(snap.messages[k].id, acks[k].id);
    }
}

#[test]
fn appended_records_get_distinct_ids() {
    let mut store = MyMessenger::new();
    for _ in 0..8 {
        store.send_message(message("same payload", "carol", 1));
    }
    let snap = store.get_messages();
    assert_eq!(snap.messages.len(), 8);
    for i in 0..snap.messages.len() {
        assert_eq!(snap.messages[i].id.len(), 36);
        for j in 0..i {
            assert_ne!(snap.messages[i].id, snap.messages[j].id);
        }
    }
}

#[test]
fn snapshot_is_a_copy_not_a_live_view() {
    let mut store = MyMessenger::new();
    store.send_message(message("first", "dave", 1));
    let snap = store.get_messages();
    store.send_message(message("second", "dave", 2));
    assert_eq!(snap.messages.len(), 1);
    assert_eq!(store.get_messages().messages.len(), 2);
}

#[test]
fn bootstrap_succeeds_on_third_attempt() {
    let (mut state, action) = bootstrap_start();
    assert_eq!(action, BootstrapAction::Attempt);
    assert_eq!(state, BootstrapState::Attempting { attempt: 1 });
    for n in 1..3u32 {
        let (next, action) = bootstrap_step(state, AttemptOutcome::NotReady);
        assert_eq!(
            action,
            BootstrapAction::RetryAfter { seconds: RETRY_BACKOFF_SECS }
        );
        assert_eq!(next, BootstrapState::Attempting { attempt: n + 1 });
        state = next;
    }
    let (finished, action) = bootstrap_step(state, AttemptOutcome::Connected);
    assert_eq!(finished, BootstrapState::Connected { attempts_used: 3 });
    assert_eq!(action, BootstrapAction::Serve);
}

#[test]
fn bootstrap_fails_after_exactly_the_cap() {
    let (mut state, _) = bootstrap_start();
    for n in 1..MAX_ATTEMPTS {
        let (next, action) = bootstrap_step(state, AttemptOutcome::NotReady);
        assert_eq!(next, BootstrapState::Attempting { attempt: n + 1 });
        assert_eq!(action, BootstrapAction::RetryAfter { seconds: 2 });
        state = next;
    }
    assert_eq!(state, BootstrapState::Attempting { attempt: MAX_ATTEMPTS });
    let (finished, action) = bootstrap_step(state, AttemptOutcome::NotReady);
    assert_eq!(finished, BootstrapState::Failed);
    assert_eq!(action, BootstrapAction::GiveUp);
}

#[test]
fn bootstrap_config_error_is_fatal_at_once() {
    let (state, _) = bootstrap_start();
    let (finished, action) = bootstrap_step(state, AttemptOutcome::BadConfig);
    assert_eq!(finished, BootstrapState::Failed);
    assert_eq!(action, BootstrapAction::GiveUp);
}

#[test]
fn channel_pairs_each_response_with_its_request() {
    let mut channel = SecureChannel::new();
    channel.begin_call(&"id-a".to_string());
    let outcome_a = channel.finish_call(true);
    assert!(outcome_a.success);
    assert_eq!(outcome_a.correlation_id, "id-a");
    channel.begin_call(&"id-b".to_string());
    let outcome_b = channel.finish_call(false);
    assert!(!outcome_b.success);
    assert_eq!(outcome_b.correlation_id, "id-b");
}

#[test]
fn correlation_id_from_upstream_is_kept() {
    let kept = assign_correlation_id(Some("upstream-id".to_string()));
    assert_eq!(kept, "upstream-id");
    let fresh = assign_correlation_id(None);
    assert_eq!(fresh.len(), 36);
    assert_eq!(fresh.matches('-').count(), 4);
}

#[test]
fn ingress_assigns_a_fresh_id_and_keeps_the_payload() {
    let (req, id) = prepare_ingress("{\"k\":1}".to_string());
    assert_eq!(req.json_data, "{\"k\":1}");
    assert_eq!(req.source_id, id);
    assert_eq!(id.len(), 36);
}

#[test]
fn forward_keeps_payload_and_correlation_id_unchanged() {
    let req = DataRequest {
        json_data: "{\"x\":true}".to_string(),
        source_id: "fixed-id".to_string(),
    };
    let fwd = prepare_forward(req);
    assert_eq!(fwd.json_data, "{\"x\":true}");
    assert_eq!(fwd.request_id, "fixed-id");
}

#[test]
fn forward_reply_acknowledges_with_the_forwarded_id() {
    let ack = DisplayResponse { success: true, display_id: "node-7".to_string() };
    let reply = forward_reply("fixed-id".to_string(), Ok(ack));
    let reply = reply.expect("a downstream ack must become a success reply");
    assert!(reply.success);
    assert_eq!(reply.request_id, "fixed-id");
}

#[test]
fn forward_reply_surfaces_failure_unretried() {
    let err = RelayError { detail: "connection reset".to_string() };
    let reply = forward_reply("fixed-id".to_string(), Err(err));
    let err = reply.expect_err("a downstream failure must stay a failure");
    assert_eq!(err.detail, "connection reset");
}

#[test]
fn ingress_reply_passes_the_ack_through() {
    let ack = DataResponse { success: true, request_id: "abc".to_string() };
    let reply = ingress_reply(Ok(ack));
    assert!(reply.success);
    assert_eq!(reply.request_id, "abc");
    assert_eq!(reply.message, "Data processed and forwarded successfully");
}

#[test]
fn ingress_reply_reports_failure_with_empty_id() {
    let reply = ingress_reply(Err(RelayError { detail: "peer gone".to_string() }));
    assert!(!reply.success);
    assert_eq!(reply.request_id, "");
    assert_eq!(reply.message, "Failed to process: peer gone");
}

#[test]
fn send_reply_reports_failure_with_empty_id() {
    let reply = send_reply(Err(RelayError { detail: "handshake failed".to_string() }));
    assert!(!reply.success);
    assert_eq!(reply.id, "");
    assert_eq!(reply.message, "Failed to send: handshake failed");
}

#[test]
fn read_back_failure_is_surfaced_not_absorbed() {
    let reply = messages_reply(Err(RelayError { detail: "peer gone".to_string() }));
    assert!(!reply.success);
    assert_eq!(reply.messages.len(), 0);
    assert_eq!(reply.message, "Failed to fetch messages: peer gone");
}

#[test]
fn read_back_success_passes_the_snapshot_through() {
    let mut store = MyMessenger::new();
    store.send_message(message("kept", "frank", 3));
    let reply = messages_reply(Ok(store.get_messages()));
    assert!(reply.success);
    assert_eq!(reply.message, "");
    assert_eq!(reply.messages.len(), 1);
    assert_eq!(reply.messages[0].content, "kept");
}

#[test]
fn prepare_send_stamps_a_real_timestamp() {
    let req = prepare_send("hi".to_string(), "erin".to_string());
    assert_eq!(req.content, "hi");
    assert_eq!(req.sender, "erin");
    // the arrival stamp comes from the wall clock, well past 2023
    assert!(req.timestamp > 1_700_000_000);
}

#[test]
fn end_to_end_hello_from_alice() {
    // caller posts { "content": "hello", "sender": "alice" } at the ingress
    let req = prepare_send("hello".to_string(), "alice".to_string());
    let posted_at = req.timestamp;

    // the terminal endpoint accepts it and assigns the record id
    let mut endpoint = MyMessenger::new();
    let ack = endpoint.send_message(req);
    let record_id = ack.id.clone();

    // the caller receives { success: true, id: X }
    let reply = send_reply(Ok(ack));
    assert!(reply.success);
    assert_eq!(reply.id, record_id);
    assert_eq!(reply.message, "Message sent successfully!");

    // a subsequent read-back succeeds and returns exactly that record
    let snapshot = messages_reply(Ok(endpoint.get_messages()));
    assert!(snapshot.success);
    assert_eq!(snapshot.messages.len(), 1);
    assert_eq!(snapshot.messages[0].id, record_id);
    assert_eq!(snapshot.messages[0].content, "hello");
    assert_eq!(snapshot.messages[0].sender, "alice");
    assert_eq!(snapshot.messages[0].timestamp, posted_at);
}

#[test]
fn encryption_service_forwards_one_call_at_a_time() {
    let mut hop = MyEncryptionService::new();
    assert!(hop.is_idle());
    let req = DataRequest {
        json_data: "{\"v\":42}".to_string(),
        source_id: "upstream-1".to_string(),
    };
    let fwd = hop.begin_process(req);
    assert_eq!(fwd.json_data, "{\"v\":42}");
    assert_eq!(fwd.request_id, "upstream-1");
    assert!(!hop.is_idle());
    let ack = DisplayResponse { success: true, display_id: "node-1".to_string() };
    let reply = hop.finish_process(Ok(ack));
    let reply = reply.expect("an acked forward must become a success reply");
    assert!(reply.success);
    assert_eq!(reply.request_id, "upstream-1");
    assert!(hop.is_idle());
}

#[test]
fn encryption_service_surfaces_downstream_failure() {
    let mut hop = MyEncryptionService::new();
    let req = DataRequest {
        json_data: "{}".to_string(),
        source_id: "upstream-2".to_string(),
    };
    let _fwd = hop.begin_process(req);
    let err = RelayError { detail: "display unreachable".to_string() };
    let reply = hop.finish_process(Err(err));
    let err = reply.expect_err("a failed forward must stay a failure");
    assert_eq!(err.detail, "display unreachable");
    assert!(hop.is_idle());
}
