use sura::client::Client;
use sura::client::ClientError;
use sura::client::DispatchOutcome;
use sura::client::Lifecycle;
use sura::client::ProtocolFault;
use sura::client::WireEvent;
use sura::message::Notification;
use sura::message::Response;
use sura::message::ServerMessage;

fn response(id: u64) -> ServerMessage {
    ServerMessage::Response(Response {
        jsonrpc: String::from("2.0"),
        id,
        result: String::from("{}"),
        error: None,
    })
}

fn note(method: &str) -> ServerMessage {
    ServerMessage::Notification(Notification::new(method, "{}"))
}

/// A client brought to `Ready` through the initialize handshake.
fn ready_client() -> Client<u32> {
    let mut client: Client<u32> = Client::new();
    let req = client.initialize(0).unwrap();
    match client.on_wire_event(WireEvent::Message(response(req.id))) {
        DispatchOutcome::Deliver { handle, .. } => assert_eq!(handle, 0),
        _ => panic!("the initialize response must be delivered"),
    }
    client.initialized().unwrap();
    client
}

#[test]
fn initialize_handshake_reaches_ready() {
    let mut client: Client<u32> = Client::new();
    assert_eq!(client.phase(), Lifecycle::Uninitialized);

    let req = client.initialize(7).unwrap();
    assert_eq!(req.method, "initialize");
    assert_eq!(req.id, 1);
    assert_eq!(req.jsonrpc, "2.0");
    assert_eq!(req.params, "{\"capabilities\":{}}");
    assert_eq!(client.phase(), Lifecycle::Initializing);

    // The peer replies with the matching identifier; the registered handle
    // comes back with the response.
    match client.on_wire_event(WireEvent::Message(response(1))) {
        DispatchOutcome::Deliver { handle, response } => {
            assert_eq!(handle, 7);
            assert_eq!(response.id, 1);
        }
        _ => panic!("the initialize response must be delivered"),
    }

    // Only then may the initialized notification follow; it is observed on
    // the peer's inbound side with the fixed method name.
    let note = client.initialized().unwrap();
    assert_eq!(note.method, "initialized");
    assert_eq!(note.params, "{}");
    assert_eq!(client.phase(), Lifecycle::Ready);
}

#[test]
fn initialized_before_response_is_refused() {
    let mut client: Client<u32> = Client::new();
    client.initialize(7).unwrap();
    assert_eq!(client.initialized().unwrap_err(), ClientError::ResponsePending);
}

#[test]
fn request_outside_ready_is_refused() {
    let mut client: Client<u32> = Client::new();
    assert_eq!(client.request("m", "{}", 1).unwrap_err(), ClientError::InvalidState);
    client.initialize(0).unwrap();
    assert_eq!(client.request("m", "{}", 1).unwrap_err(), ClientError::InvalidState);
    assert_eq!(client.notify("m", "{}").unwrap_err(), ClientError::InvalidState);
}

#[test]
fn out_of_order_responses_reach_their_callers() {
    let mut client = ready_client();
    let req_a = client.request("alpha", "{}", 11).unwrap();
    let req_b = client.request("beta", "{}", 22).unwrap();
    assert_ne!(req_a.id, req_b.id);
    assert_eq!(client.pending_count(), 2);

    // The peer answers B first, then A; each caller gets its own handle.
    match client.on_wire_event(WireEvent::Message(response(req_b.id))) {
        DispatchOutcome::Deliver { handle, response } => {
            assert_eq!(handle, 22);
            assert_eq!(response.id, req_b.id);
        }
        _ => panic!("the response to B must be delivered"),
    }
    match client.on_wire_event(WireEvent::Message(response(req_a.id))) {
        DispatchOutcome::Deliver { handle, response } => {
            assert_eq!(handle, 11);
            assert_eq!(response.id, req_a.id);
        }
        _ => panic!("the response to A must be delivered"),
    }
    assert_eq!(client.pending_count(), 0);
}

#[test]
fn notification_leaves_pending_request_unresolved() {
    let mut client = ready_client();
    let req = client.request("alpha", "{}", 5).unwrap();
    match client.on_wire_event(WireEvent::Message(note("window/logMessage"))) {
        DispatchOutcome::Publish { note } => assert_eq!(note.method, "window/logMessage"),
        _ => panic!("the notification must be published"),
    }
    assert_eq!(client.pending_count(), 1);
    match client.on_wire_event(WireEvent::Message(response(req.id))) {
        DispatchOutcome::Deliver { handle, .. } => assert_eq!(handle, 5),
        _ => panic!("the pending request must still resolve"),
    }
}

#[test]
fn notifications_are_published_in_wire_order() {
    let mut client = ready_client();
    let req = client.request("alpha", "{}", 5).unwrap();
    let inbound = vec![note("one"), response(req.id), note("two"), note("three")];
    let mut published = Vec::new();
    for msg in inbound {
        if let DispatchOutcome::Publish { note } = client.on_wire_event(WireEvent::Message(msg)) {
            published.push(note.method);
        }
    }
    assert_eq!(published, vec![
        String::from("one"),
        String::from("two"),
        String::from("three"),
    ]);
}

#[test]
fn unknown_identifier_is_a_protocol_violation() {
    let mut client = ready_client();
    client.request("alpha", "{}", 5).unwrap();
    match client.on_wire_event(WireEvent::Message(response(4242))) {
        DispatchOutcome::Teardown { fault, abandoned } => {
            assert!(matches!(fault, ProtocolFault::UnknownId { id: 4242 }));
            // The still-pending caller is failed rather than left blocked.
            assert_eq!(abandoned, vec![5]);
        }
        _ => panic!("an unknown identifier must tear the client down"),
    }
    assert_eq!(client.phase(), Lifecycle::Exited);
}

#[test]
fn disconnect_sweeps_all_pending_callers() {
    let mut client = ready_client();
    client.request("alpha", "{}", 1).unwrap();
    client.request("beta", "{}", 2).unwrap();
    client.request("gamma", "{}", 3).unwrap();
    match client.on_wire_event(WireEvent::Closed) {
        DispatchOutcome::Teardown { fault, abandoned } => {
            assert!(matches!(fault, ProtocolFault::Disconnected));
            assert_eq!(abandoned, vec![1, 2, 3]);
        }
        _ => panic!("a closed transport must tear the client down"),
    }
    assert_eq!(client.phase(), Lifecycle::Exited);
    assert_eq!(client.pending_count(), 0);
}

#[test]
fn peer_exit_after_did_open_fails_the_pending_caller() {
    let mut client = ready_client();
    let open_note = client.did_open("rust", "file:///main.rs", "fn main() {}").unwrap();
    assert_eq!(open_note.method, "textDocument/didOpen");
    let req = client.request("textDocument/completion", "{}", 77).unwrap();
    // The process exits before answering: the reader observes end-of-file.
    match client.on_wire_event(WireEvent::Closed) {
        DispatchOutcome::Teardown { fault, abandoned } => {
            assert!(matches!(fault, ProtocolFault::Disconnected));
            assert_eq!(abandoned, vec![77]);
            let _ = req;
        }
        _ => panic!("the caller must receive a disconnect error"),
    }
}

#[test]
fn garbled_inbound_data_tears_down() {
    let mut client = ready_client();
    client.request("alpha", "{}", 8).unwrap();
    match client.on_wire_event(WireEvent::Garbled) {
        DispatchOutcome::Teardown { fault, abandoned } => {
            assert!(matches!(fault, ProtocolFault::Malformed));
            assert_eq!(abandoned, vec![8]);
        }
        _ => panic!("garbled input must tear the client down"),
    }
}

#[test]
fn request_identifiers_are_monotonic() {
    let mut client = ready_client();
    let a = client.request("a", "{}", 0).unwrap();
    let b = client.request("b", "{}", 0).unwrap();
    let c = client.request("c", "{}", 0).unwrap();
    assert!(a.id < b.id && b.id < c.id);
}

#[test]
fn notify_reports_flushed_content() {
    let client = ready_client();
    let note = client.notify("window/showMessage", "{\"message\":\"hi\"}").unwrap();
    assert_eq!(note.jsonrpc, "2.0");
    assert_eq!(note.method, "window/showMessage");
    assert_eq!(note.params, "{\"message\":\"hi\"}");
}

#[test]
fn did_open_params_carry_the_document() {
    let client = ready_client();
    let note = client.did_open("rust", "file:///a.rs", "let x = \"y\";\n").unwrap();
    let v: serde_json::Value = serde_json::from_str(&note.params).unwrap();
    let doc = v.get("textDocument").unwrap();
    assert_eq!(doc.get("uri").unwrap().as_str(), Some("file:///a.rs"));
    assert_eq!(doc.get("languageId").unwrap().as_str(), Some("rust"));
    assert_eq!(doc.get("version").unwrap().as_u64(), Some(1));
    assert_eq!(doc.get("text").unwrap().as_str(), Some("let x = \"y\";\n"));
}

#[test]
fn did_close_params_carry_the_uri() {
    let client = ready_client();
    let note = client.did_close("file:///b.rs").unwrap();
    assert_eq!(note.method, "textDocument/didClose");
    let v: serde_json::Value = serde_json::from_str(&note.params).unwrap();
    let doc = v.get("textDocument").unwrap();
    assert_eq!(doc.get("uri").unwrap().as_str(), Some("file:///b.rs"));
    assert_eq!(doc.as_object().unwrap().len(), 1);
}

#[test]
fn shutdown_awaits_acknowledgement_before_exit() {
    let mut client = ready_client();
    let req = client.shutdown(1).unwrap();
    assert_eq!(req.method, "shutdown");
    assert_eq!(req.params, "null");
    assert_eq!(client.phase(), Lifecycle::ShuttingDown);

    // The exit notification is refused until the acknowledgement arrives.
    assert_eq!(client.exit().unwrap_err(), ClientError::ResponsePending);

    match client.on_wire_event(WireEvent::Message(response(req.id))) {
        DispatchOutcome::Deliver { handle, .. } => assert_eq!(handle, 1),
        _ => panic!("the shutdown acknowledgement must be delivered"),
    }
    let note = client.exit().unwrap();
    assert_eq!(note.method, "exit");
    assert_eq!(note.params, "null");
    assert_eq!(client.phase(), Lifecycle::Exited);
}

#[test]
fn application_level_error_is_an_ordinary_response() {
    let mut client = ready_client();
    let req = client.request("textDocument/definition", "{}", 3).unwrap();
    let reply = ServerMessage::Response(Response {
        jsonrpc: String::from("2.0"),
        id: req.id,
        result: String::from("null"),
        error: Some(sura::message::ResponseError {
            code: -32601,
            message: String::from("method not found"),
            data: String::from("null"),
        }),
    });
    match client.on_wire_event(WireEvent::Message(reply)) {
        DispatchOutcome::Deliver { handle, response } => {
            assert_eq!(handle, 3);
            let err = response.error.unwrap();
            assert_eq!(err.code, -32601);
            assert_eq!(err.message, "method not found");
        }
        _ => panic!("an error response still belongs to its caller"),
    }
    // The client is not torn down by an application-level error.
    assert_eq!(client.phase(), Lifecycle::Ready);
}
