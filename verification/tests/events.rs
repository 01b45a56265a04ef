use pj::events::{
    client_text_parsed, event_line, line_parsed, read_from_client, relay_to_browser, relay_to_socket, server_sent_event,
    BrowserEvent, ChatActivityState, ChatChange, ClientStep, Delivery, EventClient, LineRead, Polled, PublishFailure,
    ReaderStep, Received, RelayStep, SocketRead,
};

fn bytes(s: &str) -> SocketRead {
    SocketRead::Bytes(s.as_bytes().to_vec())
}

fn line(received: Received) -> String {
    match received {
        Received::Line(line) => String::from_utf8(line).unwrap(),
        other => panic!("{other:?}"),
    }
}

#[test]
fn a_change_travels_in_a_line() {
    assert_eq!(event_line("{\"Upsert\":{\"id\":1}}"), "{\"Upsert\":{\"id\":1}}\n");
    assert_eq!(server_sent_event("{}"), "data: {}\n\n");
}

#[test]
fn lines_come_out_whole() {
    let mut client = EventClient::connect(9);
    assert_eq!(client.ino, 9);
    assert!(matches!(client.try_recv(bytes("{\"a\"")), Received::More));
    assert_eq!(line(client.try_recv(bytes(":1}\n{\"b\":2}\n{"))), "{\"a\":1}");
    assert_eq!(client.buf, b"{\"b\":2}\n{");
    assert!(matches!(client.try_recv(SocketRead::Blocked), Received::Nothing));
    assert_eq!(line(client.try_recv(bytes("}"))), "{\"b\":2}");
    assert_eq!(line(client.try_recv(bytes("\n"))), "{}");
    assert!(client.buf.is_empty());
}

#[test]
fn the_stream_is_conserved() {
    let stream = "one\ntwo\n\nthree and more";
    let mut client = EventClient::connect(1);
    let mut seen = String::new();
    for chunk in stream.as_bytes().chunks(3) {
        if let Received::Line(line) = client.try_recv(SocketRead::Bytes(chunk.to_vec())) {
            seen.push_str(&String::from_utf8(line).unwrap());
            seen.push('\n');
        }
    }
    seen.push_str(&String::from_utf8(client.buf.clone()).unwrap());
    assert_eq!(seen, stream);
}

#[test]
fn a_closed_or_broken_connection_is_told() {
    let mut client = EventClient::connect(1);
    assert!(matches!(client.try_recv(bytes("")), Received::Closed));
    assert!(matches!(client.try_recv(SocketRead::Failed), Received::Closed));
}

#[test]
fn a_client_knows_its_socket() {
    let client = EventClient::connect(4);
    assert!(client.is_current(Some(4)));
    assert!(!client.is_current(Some(5)));
    assert!(!client.is_current(None));
}

#[test]
fn failures_to_publish_are_put_in_words() {
    let connect = PublishFailure::Connect { path: "/s".to_string(), reason: "no".to_string() };
    assert_eq!(connect.text(), "Failed to connect to event socket /s: no");
    assert_eq!(PublishFailure::Serialize { reason: "x".to_string() }.text(), "Serialize event: x");
    assert_eq!(PublishFailure::Send { reason: "x".to_string() }.text(), "Failed to publish event: x");
}

#[test]
fn changes_are_compared() {
    let change = ChatChange::Activity { id: 1, state: ChatActivityState::Idle };
    assert_eq!(change, change.clone());
    assert_ne!(change, ChatChange::Upsert { id: 1 });
    assert_ne!(ChatChange::Deleted { id: 1 }, ChatChange::Deleted { id: 2 });
}

#[test]
fn changes_are_relayed_over_the_socket() {
    let step = relay_to_socket(Delivery::Change("{}".to_string()));
    assert!(matches!(step, RelayStep::Send(line) if line == "{}\n"));
    assert!(matches!(relay_to_socket(Delivery::Lagged), RelayStep::Skip));
    assert!(matches!(relay_to_socket(Delivery::Closed), RelayStep::Stop));
}

#[test]
fn changes_are_relayed_to_browsers() {
    let sent = |event| match relay_to_browser(event) {
        RelayStep::Send(text) => text,
        other => panic!("{other:?}"),
    };
    assert_eq!(sent(BrowserEvent::Connected), "event: connected\ndata: {}\n\n");
    assert_eq!(sent(BrowserEvent::Heartbeat), "event: ping\ndata: {}\n\n");
    assert_eq!(
        sent(BrowserEvent::Delivered(Delivery::Change("[1]".to_string()))),
        "data: [1]\n\n"
    );
    assert!(matches!(relay_to_browser(BrowserEvent::Delivered(Delivery::Lagged)), RelayStep::Skip));
    assert!(matches!(relay_to_browser(BrowserEvent::Delivered(Delivery::Closed)), RelayStep::Stop));
}

#[test]
fn lines_of_clients_are_read() {
    let step = read_from_client(LineRead::Line("{} \r\n".to_string()));
    assert!(matches!(step, ReaderStep::Parse(text) if text == "{}"));
    assert!(matches!(read_from_client(LineRead::End), ReaderStep::Stop));
    assert!(matches!(read_from_client(LineRead::Failed), ReaderStep::Stop));
}

#[test]
fn texts_of_clients_are_published_or_passed_over() {
    let change = ChatChange::Upsert { id: 3 };
    assert_eq!(client_text_parsed(Some(change)), ClientStep::Publish(change));
    assert_eq!(client_text_parsed(None), ClientStep::Skip);
    assert_eq!(line_parsed(Some(change)), Polled::Change(change));
    assert_eq!(line_parsed(None), Polled::Quiet);
}
