//! The serving-side demultiplexer. It owns the set of call ids with an open
//! logical stream and decides, frame by frame, what the connection must do:
//! dispatch a handler on FIRST, forward a continuation, close on EOS, or
//! report a protocol violation. Dispatch happens exactly once per call, on
//! its FIRST frame; an id is recorded only on FIRST and removed only on EOS;
//! SIGNAL frames drive the lifecycle without delivering a payload.

use vstd::prelude::*;

use std::collections::HashSet;

use crate::error::ServerError;
use crate::frame::{
    lemma_flag_words, RequestFlag, RequestFrameView, RequestHeader, FLAG_EOS_MASK,
    FLAG_FIRST_MASK,
};
use crate::registry::{ServiceMethod, ServiceTable};

verus! {

broadcast use vstd::std_specs::hash::group_hash_axioms;

/// What the connection must do with one inbound request frame.
///
/// `deliver` is false exactly for SIGNAL frames: they drive the lifecycle
/// but never reach the handler's read side.
#[derive(Debug, Clone, Copy, PartialEq, Eq, Structural)]
pub enum RouteAction {
    /// A FIRST frame: spawn the handler the method id names on a new logical
    /// stream; forward the body when `deliver`; keep the stream recorded for
    /// continuations when `retain` (false for a single-frame FIRST+EOS call).
    Open { service_index: usize, method_index: u32, deliver: bool, retain: bool },
    /// A continuation frame for an open call: forward the body when `deliver`.
    Forward { deliver: bool },
    /// An EOS frame for an open call: forward the body when `deliver`, then
    /// drop the stream; the call id is no longer recorded.
    Close { deliver: bool },
}

/// One routing step over the mathematical state: from the set of recorded
/// call ids and one request header to the new set and the decision.
pub open spec fn route_spec(
    working: Set<u32>,
    h: RequestHeader,
    table: Seq<ServiceMethod>,
) -> (Set<u32>, Result<RouteAction, ServerError>) {
    if h.spec_is_first() {
        if h.method_id < table.len() {
            let act = RouteAction::Open {
                service_index: table[h.method_id as int].service_index,
                method_index: table[h.method_id as int].method_index,
                deliver: !h.spec_is_signal(),
                retain: !h.spec_is_eos(),
            };
            if h.spec_is_eos() {
                (working, Ok(act))
            } else {
                (working.insert(h.request_id), Ok(act))
            }
        } else {
            (working, Err(ServerError::ErrorServiceMethodId()))
        }
    } else if h.spec_is_eos() {
        if working.contains(h.request_id) {
            (
                working.remove(h.request_id),
                Ok(RouteAction::Close { deliver: !h.spec_is_signal() }),
            )
        } else {
            (working, Err(ServerError::ServiceRecordError()))
        }
    } else {
        if working.contains(h.request_id) {
            (working, Ok(RouteAction::Forward { deliver: !h.spec_is_signal() }))
        } else {
            (working, Err(ServerError::ServiceRecordError()))
        }
    }
}

/// The serving-side router: the set of call ids whose logical stream is
/// still open in the inbound direction.
pub struct Router {
    working: HashSet<u32>,
}

impl View for Router {
    type V = Set<u32>;

    closed spec fn view(&self) -> Set<u32> {
        self.working@
    }
}

impl Router {
    /// A router with no open call.
    pub fn new() -> (r: Self)
        ensures
            r@ == Set::<u32>::empty(),
    {
        Router { working: HashSet::new() }
    }

    /// Routes one inbound request frame's header: exactly the step
    /// `route_spec` describes. On an error the state is unchanged, so the
    /// connection can keep serving its other calls.
    pub fn route(&mut self, header: &RequestHeader, table: &ServiceTable) -> (r: Result<
        RouteAction,
        ServerError,
    >)
        ensures
            final(self)@ == route_spec(old(self)@, *header, table@).0,
            r == route_spec(old(self)@, *header, table@).1,
            r is Err ==> final(self)@ == old(self)@,
    {
        if header.is_first() {
            match table.get_service(header.method_id) {
                Ok(m) => {
                    let act = RouteAction::Open {
                        service_index: m.service_index,
                        method_index: m.method_index,
                        deliver: !header.is_signal(),
                        retain: !header.is_eos(),
                    };
                    if !header.is_eos() {
                        self.working.insert(header.request_id);
                    }
                    Ok(act)
                },
                Err(e) => Err(e),
            }
        } else if header.is_eos() {
            if self.working.remove(&header.request_id) {
                Ok(RouteAction::Close { deliver: !header.is_signal() })
            } else {
                proof {
                    assert(old(self)@.remove(header.request_id) =~= old(self)@);
                }
                Err(ServerError::ServiceRecordError())
            }
        } else {
            if self.working.contains(&header.request_id) {
                Ok(RouteAction::Forward { deliver: !header.is_signal() })
            } else {
                Err(ServerError::ServiceRecordError())
            }
        }
    }
}

/// True when the decision hands the frame's body on to a logical stream.
pub open spec fn spec_delivers(r: Result<RouteAction, ServerError>) -> bool {
    match r {
        Ok(RouteAction::Open { deliver, .. }) => deliver,
        Ok(RouteAction::Forward { deliver }) => deliver,
        Ok(RouteAction::Close { deliver }) => deliver,
        Err(_) => false,
    }
}

/// True when the decision dispatches a handler.
pub open spec fn spec_opens(r: Result<RouteAction, ServerError>) -> bool {
    r matches Ok(RouteAction::Open { .. })
}

/// The router's record obeys the lifecycle bits: no step touches another
/// call's id, an id is added only by a FIRST frame that is not EOS, an id
/// is removed only by a non-FIRST EOS frame, and a SIGNAL frame never has
/// its body delivered.
pub proof fn lemma_record_discipline(
    working: Set<u32>,
    h: RequestHeader,
    table: Seq<ServiceMethod>,
)
    ensures
        forall|k: u32|
            k != h.request_id ==> route_spec(working, h, table).0.contains(k) == working.contains(
                k,
            ),
        route_spec(working, h, table).0.contains(h.request_id) && !working.contains(h.request_id)
            ==> h.spec_is_first() && !h.spec_is_eos(),
        !route_spec(working, h, table).0.contains(h.request_id) && working.contains(h.request_id)
            ==> !h.spec_is_first() && h.spec_is_eos(),
        h.spec_is_signal() ==> !spec_delivers(route_spec(working, h, table).1),
{
}

/// The recorded-id set after routing a whole frame sequence in order.
pub open spec fn process_spec(
    working: Set<u32>,
    frames: Seq<RequestFrameView>,
    table: Seq<ServiceMethod>,
) -> Set<u32>
    decreases frames.len(),
{
    if frames.len() == 0 {
        working
    } else {
        process_spec(
            route_spec(working, frames.first().header, table).0,
            frames.drop_first(),
            table,
        )
    }
}

/// The bodies delivered to call `c`'s logical stream while routing `frames`
/// in order, in arrival order.
pub open spec fn call_deliveries(
    working: Set<u32>,
    frames: Seq<RequestFrameView>,
    table: Seq<ServiceMethod>,
    c: u32,
) -> Seq<Seq<u8>>
    decreases frames.len(),
{
    if frames.len() == 0 {
        Seq::empty()
    } else {
        let f = frames.first();
        let step = route_spec(working, f.header, table);
        let rest = call_deliveries(step.0, frames.drop_first(), table, c);
        if f.header.request_id == c && spec_delivers(step.1) {
            seq![f.body] + rest
        } else {
            rest
        }
    }
}

/// How many times a handler is dispatched for call `c` while routing
/// `frames` in order.
pub open spec fn call_dispatches(
    working: Set<u32>,
    frames: Seq<RequestFrameView>,
    table: Seq<ServiceMethod>,
    c: u32,
) -> nat
    decreases frames.len(),
{
    if frames.len() == 0 {
        0
    } else {
        let f = frames.first();
        let step = route_spec(working, f.header, table);
        (if f.header.request_id == c && spec_opens(step.1) {
            1nat
        } else {
            0nat
        }) + call_dispatches(step.0, frames.drop_first(), table, c)
    }
}

/// A legal frame sequence for one call `c`: every frame carries `c`, the
/// first and only the first is FIRST, the last and only the last is EOS.
pub open spec fn call_frames_wf(frames: Seq<RequestFrameView>, c: u32) -> bool {
    &&& frames.len() >= 1
    &&& forall|i: int| 0 <= i < frames.len() ==> (#[trigger] frames[i]).header.request_id == c
    &&& frames[0].header.spec_is_first()
    &&& forall|i: int| 1 <= i < frames.len() ==> !(#[trigger] frames[i]).header.spec_is_first()
    &&& frames[frames.len() - 1].header.spec_is_eos()
    &&& forall|i: int| 0 <= i < frames.len() - 1 ==> !(#[trigger] frames[i]).header.spec_is_eos()
}

/// The bodies of the non-SIGNAL frames of a sequence, in order: what a
/// handler's read side is owed.
pub open spec fn non_signal_bodies(frames: Seq<RequestFrameView>) -> Seq<Seq<u8>>
    decreases frames.len(),
{
    if frames.len() == 0 {
        Seq::empty()
    } else if !frames.first().header.spec_is_signal() {
        seq![frames.first().body] + non_signal_bodies(frames.drop_first())
    } else {
        non_signal_bodies(frames.drop_first())
    }
}

/// The subsequence of `frames` that carries call id `c`, in order.
pub open spec fn frames_for_call(frames: Seq<RequestFrameView>, c: u32) -> Seq<RequestFrameView>
    decreases frames.len(),
{
    if frames.len() == 0 {
        Seq::empty()
    } else {
        let rest = frames_for_call(frames.drop_first(), c);
        if frames.first().header.request_id == c {
            seq![frames.first()] + rest
        } else {
            rest
        }
    }
}

/// Routing the continuation phase of a call: once `c` is recorded and the
/// remaining frames are `c`'s non-FIRST frames ending in its one EOS, no
/// further handler is dispatched, exactly the non-SIGNAL bodies are
/// delivered in order, and `c` ends up removed.
proof fn lemma_continuation_run(
    working: Set<u32>,
    frames: Seq<RequestFrameView>,
    table: Seq<ServiceMethod>,
    c: u32,
)
    requires
        frames.len() >= 1,
        forall|i: int| 0 <= i < frames.len() ==> (#[trigger] frames[i]).header.request_id == c,
        forall|i: int| 0 <= i < frames.len() ==> !(#[trigger] frames[i]).header.spec_is_first(),
        frames[frames.len() - 1].header.spec_is_eos(),
        forall|i: int| 0 <= i < frames.len() - 1 ==> !(#[trigger] frames[i]).header.spec_is_eos(),
        working.contains(c),
    ensures
        call_dispatches(working, frames, table, c) == 0,
        call_deliveries(working, frames, table, c) == non_signal_bodies(frames),
        process_spec(working, frames, table) == working.remove(c),
    decreases frames.len(),
{
    let f = frames.first();
    let step = route_spec(working, f.header, table);
    if frames.len() == 1 {
        assert(f.header.spec_is_eos());
        assert(step.0 == working.remove(c));
        assert(frames.drop_first().len() == 0);
        assert(call_deliveries(step.0, frames.drop_first(), table, c)
            == Seq::<Seq<u8>>::empty());
        assert(call_dispatches(step.0, frames.drop_first(), table, c) == 0);
        assert(non_signal_bodies(frames.drop_first()) == Seq::<Seq<u8>>::empty());
        assert(process_spec(step.0, frames.drop_first(), table) == step.0);
        assert(call_deliveries(working, frames, table, c) =~= non_signal_bodies(frames));
    } else {
        assert(!f.header.spec_is_eos());
        assert(step.0 == working);
        lemma_continuation_run(step.0, frames.drop_first(), table, c);
    }
}

/// A legal frame sequence for one fresh call, whose FIRST frame names a
/// registered method, dispatches its handler exactly once, delivers exactly
/// its non-SIGNAL bodies in arrival order, and leaves no record of the call
/// behind; calls with other ids are untouched by it.
pub proof fn lemma_call_dispatched_once(
    working: Set<u32>,
    frames: Seq<RequestFrameView>,
    table: Seq<ServiceMethod>,
    c: u32,
)
    requires
        call_frames_wf(frames, c),
        frames[0].header.method_id < table.len(),
        !working.contains(c),
    ensures
        call_dispatches(working, frames, table, c) == 1,
        call_deliveries(working, frames, table, c) == non_signal_bodies(frames),
        !process_spec(working, frames, table).contains(c),
        forall|k: u32|
            k != c ==> process_spec(working, frames, table).contains(k) == working.contains(k),
{
    let f = frames.first();
    let step = route_spec(working, f.header, table);
    assert(spec_opens(step.1));
    if frames.len() == 1 {
        assert(f.header.spec_is_eos());
        assert(step.0 == working);
        assert(frames.drop_first().len() == 0);
        assert(call_deliveries(step.0, frames.drop_first(), table, c)
            == Seq::<Seq<u8>>::empty());
        assert(call_dispatches(step.0, frames.drop_first(), table, c) == 0);
        assert(non_signal_bodies(frames.drop_first()) == Seq::<Seq<u8>>::empty());
        assert(process_spec(step.0, frames.drop_first(), table) == step.0);
        assert(call_deliveries(working, frames, table, c) =~= non_signal_bodies(frames));
    } else {
        assert(!f.header.spec_is_eos());
        assert(step.0 == working.insert(c));
        lemma_continuation_run(step.0, frames.drop_first(), table, c);
        assert(process_spec(working, frames, table) == working.insert(c).remove(c));
        assert(!working.insert(c).remove(c).contains(c));
    }
}

/// A single frame marked both FIRST and EOS is a whole unary-shaped call:
/// one handler dispatch, one body delivered unless the frame is SIGNAL,
/// and no record of the call id is left in the router.
pub proof fn lemma_unary_call(
    working: Set<u32>,
    frame: RequestFrameView,
    table: Seq<ServiceMethod>,
)
    requires
        frame.header.spec_is_first(),
        frame.header.spec_is_eos(),
        frame.header.method_id < table.len(),
    ensures
        route_spec(working, frame.header, table).0 == working,
        spec_opens(route_spec(working, frame.header, table).1),
        spec_delivers(route_spec(working, frame.header, table).1)
            == !frame.header.spec_is_signal(),
{
}

/// A continuation or close frame for an id with no open stream is the
/// protocol violation `ServiceRecordError`: the router reports it, keeps its
/// state, and the routing of every other call, before or after, is exactly
/// what it would have been had the frame never arrived.
pub proof fn lemma_unknown_continuation(
    working: Set<u32>,
    frame: RequestFrameView,
    rest: Seq<RequestFrameView>,
    table: Seq<ServiceMethod>,
    c: u32,
)
    requires
        !frame.header.spec_is_first(),
        !working.contains(frame.header.request_id),
    ensures
        route_spec(working, frame.header, table).1 == Err::<RouteAction, ServerError>(
            ServerError::ServiceRecordError(),
        ),
        route_spec(working, frame.header, table).0 == working,
        frame.header.request_id != c ==> call_deliveries(working, seq![frame] + rest, table, c)
            == call_deliveries(working, rest, table, c),
        frame.header.request_id != c ==> call_dispatches(working, seq![frame] + rest, table, c)
            == call_dispatches(working, rest, table, c),
{
    if frame.header.spec_is_eos() {
        assert(working.remove(frame.header.request_id) =~= working);
    }
    let all = seq![frame] + rest;
    assert(all.first() == frame);
    assert(all.drop_first() =~= rest);
}

/// What call `c` receives depends on the router state only through whether
/// `c` itself is recorded: two states agreeing on `c` route the same
/// deliveries and dispatches to it.
proof fn lemma_deliveries_local(
    w1: Set<u32>,
    w2: Set<u32>,
    frames: Seq<RequestFrameView>,
    table: Seq<ServiceMethod>,
    c: u32,
)
    requires
        w1.contains(c) == w2.contains(c),
    ensures
        call_deliveries(w1, frames, table, c) == call_deliveries(w2, frames, table, c),
        call_dispatches(w1, frames, table, c) == call_dispatches(w2, frames, table, c),
    decreases frames.len(),
{
    if frames.len() > 0 {
        let f = frames.first();
        let s1 = route_spec(w1, f.header, table);
        let s2 = route_spec(w2, f.header, table);
        assert(s1.0.contains(c) == s2.0.contains(c));
        if f.header.request_id == c {
            assert(spec_delivers(s1.1) == spec_delivers(s2.1));
            assert(spec_opens(s1.1) == spec_opens(s2.1));
        }
        lemma_deliveries_local(s1.0, s2.0, frames.drop_first(), table, c);
    }
}

/// Demultiplexing isolates calls: what call `c` receives from an
/// arbitrarily interleaved frame sequence is exactly what it would receive
/// from its own subsequence alone, in the same relative order.
pub proof fn lemma_call_isolation(
    working: Set<u32>,
    frames: Seq<RequestFrameView>,
    table: Seq<ServiceMethod>,
    c: u32,
)
    ensures
        call_deliveries(working, frames, table, c) == call_deliveries(
            working,
            frames_for_call(frames, c),
            table,
            c,
        ),
        call_dispatches(working, frames, table, c) == call_dispatches(
            working,
            frames_for_call(frames, c),
            table,
            c,
        ),
    decreases frames.len(),
{
    if frames.len() > 0 {
        let f = frames.first();
        let step = route_spec(working, f.header, table);
        let sub = frames_for_call(frames, c);
        if f.header.request_id == c {
            assert(sub == seq![f] + frames_for_call(frames.drop_first(), c));
            assert(sub.first() == f);
            assert(sub.drop_first() =~= frames_for_call(frames.drop_first(), c));
            lemma_call_isolation(step.0, frames.drop_first(), table, c);
        } else {
            assert(step.0.contains(c) == working.contains(c));
            lemma_call_isolation(step.0, frames.drop_first(), table, c);
            lemma_deliveries_local(step.0, working, frames_for_call(frames.drop_first(), c), table, c);
        }
    }
}

/// The request frames of a streaming call that sends `bodies` and marks
/// the last one terminal: frame `i` carries `bodies[i]`, the first frame
/// carries FIRST, the last EOS, none SIGNAL. This is exactly the sequence
/// a fresh `ClientWriter` emits from `write` on every body but the last
/// and `write_last` on the last; one body alone gives the single
/// FIRST+EOS frame of a unary-shaped call.
pub open spec fn streaming_call_frames(
    request_id: u32,
    method_id: u32,
    bodies: Seq<Seq<u8>>,
) -> Seq<RequestFrameView>
    recommends
        bodies.len() >= 1,
        forall|i: int| 0 <= i < bodies.len() ==> bodies[i].len() <= u32::MAX,
{
    Seq::new(
        bodies.len(),
        |i: int|
            RequestFrameView {
                header: RequestHeader {
                    request_id,
                    flag: (RequestFlag {
                        flag: if bodies.len() == 1 {
                            FLAG_EOS_MASK | FLAG_FIRST_MASK
                        } else if i == 0 {
                            FLAG_FIRST_MASK
                        } else if i == bodies.len() - 1 {
                            FLAG_EOS_MASK
                        } else {
                            0u32
                        },
                    }),
                    method_id,
                    body_len: bodies[i].len() as u32,
                },
                body: bodies[i],
            },
    )
}

/// On a sequence without SIGNAL frames, every body is delivered: the owed
/// bodies are just the frames' bodies.
proof fn lemma_non_signal_bodies_all(frames: Seq<RequestFrameView>)
    requires
        forall|i: int|
            0 <= i < frames.len() ==> !(#[trigger] frames[i]).header.spec_is_signal(),
    ensures
        non_signal_bodies(frames) == frames.map_values(|f: RequestFrameView| f.body),
    decreases frames.len(),
{
    if frames.len() == 0 {
        assert(non_signal_bodies(frames) =~= frames.map_values(
            |f: RequestFrameView| f.body,
        ));
    } else {
        lemma_non_signal_bodies_all(frames.drop_first());
        assert(frames.drop_first().map_values(|f: RequestFrameView| f.body) =~= frames.map_values(
            |f: RequestFrameView| f.body,
        ).drop_first());
        assert(non_signal_bodies(frames) =~= frames.map_values(|f: RequestFrameView| f.body));
    }
}

/// A client that streams `bodies` on a fresh call against a registered
/// method is served exactly: its handler is dispatched once, its stream
/// receives exactly `bodies` in order, and no record of the call is left.
pub proof fn lemma_streaming_call_served(
    working: Set<u32>,
    request_id: u32,
    method_id: u32,
    bodies: Seq<Seq<u8>>,
    table: Seq<ServiceMethod>,
)
    requires
        bodies.len() >= 1,
        method_id < table.len(),
        !working.contains(request_id),
    ensures
        call_dispatches(
            working,
            streaming_call_frames(request_id, method_id, bodies),
            table,
            request_id,
        ) == 1,
        call_deliveries(
            working,
            streaming_call_frames(request_id, method_id, bodies),
            table,
            request_id,
        ) == bodies,
        !process_spec(working, streaming_call_frames(request_id, method_id, bodies), table)
            .contains(request_id),
{
    let frames = streaming_call_frames(request_id, method_id, bodies);
    lemma_flag_words();
    assert(call_frames_wf(frames, request_id));
    assert forall|i: int| 0 <= i < frames.len() implies !(#[trigger] frames[i])
        .header.spec_is_signal() by {}
    lemma_call_dispatched_once(working, frames, table, request_id);
    lemma_non_signal_bodies_all(frames);
    assert(frames.map_values(|f: RequestFrameView| f.body) =~= bodies);
}

/// Concurrent calls interleaved on one connection do not disturb each
/// other: when `c`'s own frames form a legal call on a registered method
/// and `c` starts fresh, `c`'s handler runs exactly once and its stream
/// receives exactly `c`'s non-SIGNAL bodies in the order they arrived,
/// whatever other calls are interleaved around them.
pub proof fn lemma_interleaved_calls(
    working: Set<u32>,
    frames: Seq<RequestFrameView>,
    table: Seq<ServiceMethod>,
    c: u32,
)
    requires
        call_frames_wf(frames_for_call(frames, c), c),
        frames_for_call(frames, c)[0].header.method_id < table.len(),
        !working.contains(c),
    ensures
        call_dispatches(working, frames, table, c) == 1,
        call_deliveries(working, frames, table, c) == non_signal_bodies(
            frames_for_call(frames, c),
        ),
{
    lemma_call_isolation(working, frames, table, c);
    lemma_call_dispatched_once(working, frames_for_call(frames, c), table, c);
}

} // verus!
