//! End-to-end exchanges: client writers and demultiplexers on one side,
//! router, registry and server writers on the other, with every frame
//! passing through its wire encoding in between.

use rspc::client::{ClientRouter, ReplyAction};
use rspc::frame::{ReplyFrame, ReplyHeader, RequestFrame, RequestHeader};
use rspc::registry::ServiceTable;
use rspc::router::{RouteAction, Router};
use rspc::stream::{ClientWriter, ServerWriter};

fn wire_request(f: &RequestFrame) -> Vec<u8> {
    let mut out = f.header.encode_to_array().to_vec();
    out.extend_from_slice(&f.body);
    out
}

fn wire_reply(f: &ReplyFrame) -> Vec<u8> {
    let mut out = f.header.encode_to_array().to_vec();
    out.extend_from_slice(&f.body);
    out
}

fn read_request(wire: &[u8], at: usize) -> (RequestHeader, Vec<u8>, usize) {
    let header = RequestHeader::decode(&wire[at..]).unwrap();
    let start = at + 16;
    let end = start + header.body_len as usize;
    (header, wire[start..end].to_vec(), end)
}

fn read_reply(wire: &[u8], at: usize) -> (ReplyHeader, Vec<u8>, usize) {
    let header = ReplyHeader::decode(&wire[at..]).unwrap();
    let start = at + 16;
    let end = start + header.body_len as usize;
    (header, wire[start..end].to_vec(), end)
}

fn hello_table() -> ServiceTable {
    let mut table = ServiceTable::new();
    table.register_service(
        "HelloServer",
        &vec!["hello".to_string(), "hello_stream".to_string()],
    );
    table
}

#[test]
fn unary_hello_exchange() {
    let table = hello_table();
    let mut server = Router::new();
    let mut client = ClientRouter::new();

    // Client: open the call and send method 0 the body "hello", FIRST+EOS.
    let id = client.open_call();
    let mut writer = ClientWriter::new(id, 0);
    let request = writer.write_last(b"hello".to_vec());
    assert!(request.header.is_first());
    assert!(request.header.is_eos());
    let wire = wire_request(&request);

    // Server: decode, route, dispatch the hello handler.
    let (header, body, used) = read_request(&wire, 0);
    assert_eq!(used, wire.len());
    assert_eq!(header, request.header);
    let action = server.route(&header, &table).unwrap();
    assert_eq!(
        action,
        RouteAction::Open {
            service_index: 0,
            method_index: 0,
            deliver: true,
            retain: false,
        }
    );

    // Handler: one payload in, one reply out with status 0.
    assert_eq!(body, b"hello");
    let count = 0;
    let server_writer = ServerWriter::new(header.request_id);
    let reply = server_writer.write(0, format!("{} hello reply", count).into_bytes());
    let reply_wire = wire_reply(&reply);

    // Client: decode and demultiplex the reply back to the call.
    let (reply_header, reply_body, reply_used) = read_reply(&reply_wire, 0);
    assert_eq!(reply_used, reply_wire.len());
    let reply_action = client.route_reply(&reply_header).unwrap();
    assert_eq!(reply_action, ReplyAction::Forward { deliver: true });

    // The caller's read yields exactly this pair, once.
    assert_eq!(reply_header.status_code, 0);
    assert_eq!(reply_body, b"0 hello reply");
}

#[test]
fn streaming_hello_exchange() {
    let table = hello_table();
    let mut server = Router::new();
    let mut client = ClientRouter::new();

    // Client: open a streaming call on method 1 and write two payloads,
    // the second terminal.
    let id = client.open_call();
    let mut writer = ClientWriter::new(id, 1);
    let f1 = writer.write(b"stream hello1".to_vec());
    let f2 = writer.write_last(b"stream hello2".to_vec());
    assert!(f1.header.is_first());
    assert!(!f2.header.is_first());
    assert!(f2.header.is_eos());

    let mut wire = wire_request(&f1);
    wire.extend_from_slice(&wire_request(&f2));

    // Server: route both frames; the handler reads the delivered bodies.
    let mut handler_inbox: Vec<Vec<u8>> = Vec::new();
    let mut dispatches = 0;
    let mut at = 0;
    while at < wire.len() {
        let (header, body, next) = read_request(&wire, at);
        at = next;
        match server.route(&header, &table).unwrap() {
            RouteAction::Open { service_index, method_index, deliver, retain } => {
                dispatches += 1;
                assert_eq!((service_index, method_index), (0, 1));
                assert!(retain);
                if deliver {
                    handler_inbox.push(body);
                }
            }
            RouteAction::Forward { deliver } | RouteAction::Close { deliver } => {
                if deliver {
                    handler_inbox.push(body);
                }
            }
        }
    }
    assert_eq!(dispatches, 1);
    assert_eq!(handler_inbox, vec![b"stream hello1".to_vec(), b"stream hello2".to_vec()]);

    // Handler: echo each payload, then append the end marker as the last
    // frame of the reply stream.
    let server_writer = ServerWriter::new(id);
    let mut reply_wire: Vec<u8> = Vec::new();
    for payload in &handler_inbox {
        reply_wire.extend_from_slice(&wire_reply(&server_writer.write(0, payload.clone())));
    }
    let count = 0;
    reply_wire.extend_from_slice(&wire_reply(
        &server_writer.write_last(0, format!("{} stream end", count).into_bytes()),
    ));

    // Client: demultiplex the replies; the reader yields exactly the two
    // echoes and the final marker, in order, and the call then closes.
    let mut received: Vec<(u32, Vec<u8>)> = Vec::new();
    let mut closed = false;
    let mut at = 0;
    while at < reply_wire.len() {
        let (header, body, next) = read_reply(&reply_wire, at);
        at = next;
        match client.route_reply(&header).unwrap() {
            ReplyAction::Forward { deliver } => {
                assert!(!closed);
                if deliver {
                    received.push((header.status_code, body));
                }
            }
            ReplyAction::Close { deliver } => {
                if deliver {
                    received.push((header.status_code, body));
                }
                closed = true;
            }
        }
    }
    assert!(closed);
    assert_eq!(
        received,
        vec![
            (0, b"stream hello1".to_vec()),
            (0, b"stream hello2".to_vec()),
            (0, b"0 stream end".to_vec()),
        ]
    );
}

#[test]
fn write_complete_closes_without_payload() {
    let table = hello_table();
    let mut server = Router::new();
    let mut client = ClientRouter::new();

    let id = client.open_call();
    let mut writer = ClientWriter::new(id, 1);
    let f1 = writer.write(b"only".to_vec());
    let f2 = writer.write_complete();
    assert!(f2.header.is_eos());
    assert!(f2.header.is_signal());
    assert!(!f2.header.is_first());
    assert_eq!(f2.header.body_len, 0);

    let a1 = server.route(&f1.header, &table).unwrap();
    assert!(matches!(a1, RouteAction::Open { deliver: true, retain: true, .. }));
    let a2 = server.route(&f2.header, &table).unwrap();
    // The SIGNAL close drives the lifecycle but delivers nothing.
    assert_eq!(a2, RouteAction::Close { deliver: false });
}

#[test]
fn three_interleaved_streaming_calls_stay_isolated() {
    let table = hello_table();
    let mut server = Router::new();
    let mut client = ClientRouter::new();

    // Three concurrent calls on one connection.
    let ids = [client.open_call(), client.open_call(), client.open_call()];
    let mut writers =
        [ClientWriter::new(ids[0], 1), ClientWriter::new(ids[1], 1), ClientWriter::new(ids[2], 1)];

    // Interleave the request frames arbitrarily on the wire.
    let mut wire: Vec<u8> = Vec::new();
    let plan: Vec<(usize, Option<&str>)> = vec![
        (0, Some("a1")),
        (1, Some("b1")),
        (2, Some("c1")),
        (0, Some("a2")),
        (2, None),
        (1, Some("b2")),
        (0, None),
        (1, None),
    ];
    for (call, body) in plan {
        let frame = match body {
            Some(text) => writers[call].write(text.as_bytes().to_vec()),
            None => writers[call].write_complete(),
        };
        wire.extend_from_slice(&wire_request(&frame));
    }

    // Server side: each call's stream sees only its own bodies, in order.
    let mut inboxes: Vec<Vec<Vec<u8>>> = vec![Vec::new(), Vec::new(), Vec::new()];
    let mut dispatches = [0usize; 3];
    let mut at = 0;
    while at < wire.len() {
        let (header, body, next) = read_request(&wire, at);
        at = next;
        let call = ids.iter().position(|&i| i == header.request_id).unwrap();
        let deliver = match server.route(&header, &table).unwrap() {
            RouteAction::Open { deliver, .. } => {
                dispatches[call] += 1;
                deliver
            }
            RouteAction::Forward { deliver } => deliver,
            RouteAction::Close { deliver } => deliver,
        };
        if deliver {
            inboxes[call].push(body);
        }
    }
    assert_eq!(dispatches, [1, 1, 1]);
    assert_eq!(inboxes[0], vec![b"a1".to_vec(), b"a2".to_vec()]);
    assert_eq!(inboxes[1], vec![b"b1".to_vec(), b"b2".to_vec()]);
    assert_eq!(inboxes[2], vec![b"c1".to_vec()]);
}
