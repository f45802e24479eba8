use rspc::client::{ClientRouter, ReplyAction};
use rspc::error::{ClientError, ServerError};
use rspc::frame::{
    FrameFlag, ReplyFlag, ReplyHeader, RequestFlag, RequestHeader, FLAG_EOS_MASK, FLAG_FIRST_MASK,
    FLAG_SIGNAL_MASK,
};
use rspc::registry::ServiceTable;
use rspc::router::{RouteAction, Router};

fn req(request_id: u32, flag_bits: u32, method_id: u32) -> RequestHeader {
    RequestHeader::new(request_id, RequestFlag::decode(flag_bits), method_id, 0)
}

fn rep(request_id: u32, flag_bits: u32, status_code: u32) -> ReplyHeader {
    ReplyHeader::new(request_id, ReplyFlag::decode(flag_bits), status_code, 0)
}

fn hello_table() -> ServiceTable {
    let mut table = ServiceTable::new();
    table.register_service(
        "HelloServer",
        &vec!["hello".to_string(), "hello_stream".to_string()],
    );
    table
}

#[test]
fn unary_call_dispatches_once_and_leaves_no_record() {
    let table = hello_table();
    let mut router = Router::new();

    let action = router.route(&req(9, FLAG_FIRST_MASK | FLAG_EOS_MASK, 0), &table);
    assert_eq!(
        action,
        Ok(RouteAction::Open {
            service_index: 0,
            method_index: 0,
            deliver: true,
            retain: false,
        })
    );

    // No residual entry: a continuation for the same id is a violation.
    let follow = router.route(&req(9, 0, 0), &table);
    assert_eq!(follow, Err(ServerError::ServiceRecordError()));
}

#[test]
fn unary_signal_call_delivers_nothing() {
    let table = hello_table();
    let mut router = Router::new();
    let action = router.route(
        &req(3, FLAG_FIRST_MASK | FLAG_EOS_MASK | FLAG_SIGNAL_MASK, 1),
        &table,
    );
    assert_eq!(
        action,
        Ok(RouteAction::Open {
            service_index: 0,
            method_index: 1,
            deliver: false,
            retain: false,
        })
    );
}

#[test]
fn streaming_call_runs_first_forward_close() {
    let table = hello_table();
    let mut router = Router::new();

    let open = router.route(&req(5, FLAG_FIRST_MASK, 1), &table);
    assert_eq!(
        open,
        Ok(RouteAction::Open {
            service_index: 0,
            method_index: 1,
            deliver: true,
            retain: true,
        })
    );

    assert_eq!(
        router.route(&req(5, 0, 0), &table),
        Ok(RouteAction::Forward { deliver: true })
    );
    assert_eq!(
        router.route(&req(5, FLAG_SIGNAL_MASK, 0), &table),
        Ok(RouteAction::Forward { deliver: false })
    );
    assert_eq!(
        router.route(&req(5, FLAG_EOS_MASK, 0), &table),
        Ok(RouteAction::Close { deliver: true })
    );

    // Removed on EOS: nothing more may reference the id.
    assert_eq!(
        router.route(&req(5, FLAG_EOS_MASK, 0), &table),
        Err(ServerError::ServiceRecordError())
    );
}

#[test]
fn unknown_method_id_is_rejected_without_a_record() {
    let table = hello_table();
    let mut router = Router::new();
    assert_eq!(
        router.route(&req(1, FLAG_FIRST_MASK, 7), &table),
        Err(ServerError::ErrorServiceMethodId())
    );
    // The failed FIRST recorded nothing.
    assert_eq!(
        router.route(&req(1, 0, 0), &table),
        Err(ServerError::ServiceRecordError())
    );
}

#[test]
fn unknown_call_id_does_not_stall_other_calls() {
    let table = hello_table();
    let mut router = Router::new();

    assert_eq!(
        router.route(&req(77, 0, 0), &table),
        Err(ServerError::ServiceRecordError())
    );
    assert_eq!(
        router.route(&req(78, FLAG_EOS_MASK, 0), &table),
        Err(ServerError::ServiceRecordError())
    );

    // Processing goes on: a fresh call on another id is served normally.
    assert_eq!(
        router.route(&req(1, FLAG_FIRST_MASK, 0), &table),
        Ok(RouteAction::Open {
            service_index: 0,
            method_index: 0,
            deliver: true,
            retain: true,
        })
    );
    assert_eq!(
        router.route(&req(1, FLAG_EOS_MASK, 0), &table),
        Ok(RouteAction::Close { deliver: true })
    );
}

#[test]
fn interleaved_calls_each_see_their_own_bodies_in_order() {
    let table = hello_table();
    let mut router = Router::new();

    // Three concurrent streaming calls, frames interleaved arbitrarily.
    // (call id, flag bits, body tag)
    let wire: Vec<(u32, u32, &str)> = vec![
        (1, FLAG_FIRST_MASK, "a1"),
        (2, FLAG_FIRST_MASK, "b1"),
        (1, 0, "a2"),
        (3, FLAG_FIRST_MASK, "c1"),
        (2, 0, "b2"),
        (1, 0, "a3"),
        (3, FLAG_SIGNAL_MASK, "c-signal"),
        (2, FLAG_EOS_MASK, "b3"),
        (1, FLAG_EOS_MASK, "a4"),
        (3, FLAG_EOS_MASK, "c2"),
    ];

    let mut delivered: Vec<Vec<&str>> = vec![Vec::new(), Vec::new(), Vec::new()];
    let mut dispatches = [0usize; 3];
    for (id, bits, body) in wire {
        let action = router.route(&req(id, bits, 1), &table).unwrap();
        let deliver = match action {
            RouteAction::Open { deliver, .. } => {
                dispatches[(id - 1) as usize] += 1;
                deliver
            }
            RouteAction::Forward { deliver } => deliver,
            RouteAction::Close { deliver } => deliver,
        };
        if deliver {
            delivered[(id - 1) as usize].push(body);
        }
    }

    assert_eq!(dispatches, [1, 1, 1]);
    assert_eq!(delivered[0], vec!["a1", "a2", "a3", "a4"]);
    assert_eq!(delivered[1], vec!["b1", "b2", "b3"]);
    assert_eq!(delivered[2], vec!["c1", "c2"]);
}

#[test]
fn client_ids_are_fresh_and_monotonic() {
    let mut client = ClientRouter::new();
    assert_eq!(client.open_call(), 0);
    assert_eq!(client.open_call(), 1);
    assert_eq!(client.open_call(), 2);
}

#[test]
fn reply_routing_forwards_and_closes() {
    let mut client = ClientRouter::new();
    let id = client.open_call();

    assert_eq!(
        client.route_reply(&rep(id, 0, 0)),
        Ok(ReplyAction::Forward { deliver: true })
    );
    assert_eq!(
        client.route_reply(&rep(id, FLAG_SIGNAL_MASK, 0)),
        Ok(ReplyAction::Forward { deliver: false })
    );
    assert_eq!(
        client.route_reply(&rep(id, FLAG_EOS_MASK, 0)),
        Ok(ReplyAction::Close { deliver: true })
    );
    // Closed: further replies for the id are violations.
    assert_eq!(
        client.route_reply(&rep(id, 0, 0)),
        Err(ClientError::ClientRecordError())
    );
}

#[test]
fn reply_for_unknown_id_is_an_error_and_others_continue() {
    let mut client = ClientRouter::new();
    let id = client.open_call();
    assert_eq!(
        client.route_reply(&rep(id + 5, 0, 0)),
        Err(ClientError::ClientRecordError())
    );
    assert_eq!(
        client.route_reply(&rep(id, FLAG_EOS_MASK, 0)),
        Ok(ReplyAction::Close { deliver: true })
    );
}
