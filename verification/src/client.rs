//! The calling side of a connection: allocation of fresh call ids, and the
//! demultiplexer that routes inbound reply frames back to the logical stream
//! of the call they answer. An id is recorded when the call is opened and
//! removed when its EOS reply arrives; a reply for an unrecorded id is the
//! protocol violation `ClientRecordError`.

use vstd::prelude::*;

use std::collections::HashSet;

use crate::error::ClientError;
use crate::frame::{
    lemma_flag_words, ReplyFlag, ReplyFrameView, ReplyHeader, FLAG_EOS_MASK,
};

verus! {

broadcast use vstd::std_specs::hash::group_hash_axioms;

/// What a generated client stub needs to reach its service: the first
/// method id of the service's contiguous range, communicated out of band.
pub trait ClientStub {
    fn first_method_id(&self) -> u32;
}

/// What the connection must do with one inbound reply frame. `deliver` is
/// false exactly for SIGNAL frames, which never reach the caller's read.
#[derive(Debug, Clone, Copy, PartialEq, Eq, Structural)]
pub enum ReplyAction {
    /// A reply for an open call that keeps the call open: hand the status
    /// code and body to the call's reader when `deliver`.
    Forward { deliver: bool },
    /// The EOS reply of an open call: hand the status code and body to the
    /// call's reader when `deliver`, then drop the stream; the call id is
    /// no longer recorded.
    Close { deliver: bool },
}

/// One reply-routing step over the mathematical state: from the set of open
/// call ids and one reply header to the new set and the decision.
pub open spec fn route_reply_spec(working: Set<u32>, h: ReplyHeader) -> (
    Set<u32>,
    Result<ReplyAction, ClientError>,
) {
    if h.spec_is_eos() {
        if working.contains(h.request_id) {
            (working.remove(h.request_id), Ok(ReplyAction::Close { deliver: !h.spec_is_signal() }))
        } else {
            (working, Err(ClientError::ClientRecordError()))
        }
    } else {
        if working.contains(h.request_id) {
            (working, Ok(ReplyAction::Forward { deliver: !h.spec_is_signal() }))
        } else {
            (working, Err(ClientError::ClientRecordError()))
        }
    }
}

/// The calling-side router: the set of call ids still awaiting replies and
/// the counter the next call id comes from.
pub struct ClientRouter {
    working: HashSet<u32>,
    next_request_id: u32,
}

impl ClientRouter {
    /// The set of call ids with an open logical stream.
    pub closed spec fn spec_working(&self) -> Set<u32> {
        self.working@
    }

    /// The id the next opened call will get.
    pub closed spec fn spec_next_id(&self) -> u32 {
        self.next_request_id
    }

    /// Every open id is below the counter, so the counter's next value is
    /// never an id that is still open.
    pub open spec fn wf(&self) -> bool {
        forall|k: u32| self.spec_working().contains(k) ==> k < self.spec_next_id()
    }

    /// A router with no open call; ids are handed out from 0 up.
    pub fn new() -> (r: Self)
        ensures
            r.spec_working() == Set::<u32>::empty(),
            r.spec_next_id() == 0,
            r.wf(),
    {
        ClientRouter { working: HashSet::new(), next_request_id: 0 }
    }

    /// Opens a call: allocates the next id, fresh among the open ones, and
    /// records it as awaiting replies.
    pub fn open_call(&mut self) -> (id: u32)
        requires
            old(self).wf(),
            old(self).spec_next_id() < u32::MAX,
        ensures
            final(self).wf(),
            id == old(self).spec_next_id(),
            !old(self).spec_working().contains(id),
            final(self).spec_working() == old(self).spec_working().insert(id),
            final(self).spec_next_id() == old(self).spec_next_id() + 1,
    {
        let id = self.next_request_id;
        self.next_request_id = id + 1;
        self.working.insert(id);
        proof {
            assert forall|k: u32| self.spec_working().contains(k) implies k
                < self.spec_next_id() by {
                if k != id {
                    assert(old(self).spec_working().contains(k));
                }
            }
        }
        id
    }

    /// Routes one inbound reply frame's header: exactly the step
    /// `route_reply_spec` describes. On an error the state is unchanged, so
    /// the connection can keep serving its other calls.
    pub fn route_reply(&mut self, header: &ReplyHeader) -> (r: Result<ReplyAction, ClientError>)
        ensures
            final(self).spec_working() == route_reply_spec(
                old(self).spec_working(),
                *header,
            ).0,
            r == route_reply_spec(old(self).spec_working(), *header).1,
            final(self).spec_next_id() == old(self).spec_next_id(),
            old(self).wf() ==> final(self).wf(),
            r is Err ==> final(self).spec_working() == old(self).spec_working(),
    {
        if header.is_eos() {
            if self.working.remove(&header.request_id) {
                Ok(ReplyAction::Close { deliver: !header.is_signal() })
            } else {
                proof {
                    assert(old(self).spec_working().remove(header.request_id) =~= old(
                        self,
                    ).spec_working());
                }
                Err(ClientError::ClientRecordError())
            }
        } else {
            if self.working.contains(&header.request_id) {
                Ok(ReplyAction::Forward { deliver: !header.is_signal() })
            } else {
                Err(ClientError::ClientRecordError())
            }
        }
    }
}

/// True when the decision hands the reply on to the call's reader.
pub open spec fn spec_reply_delivers(r: Result<ReplyAction, ClientError>) -> bool {
    match r {
        Ok(ReplyAction::Forward { deliver }) => deliver,
        Ok(ReplyAction::Close { deliver }) => deliver,
        Err(_) => false,
    }
}

/// The `(status_code, body)` pairs delivered to call `c`'s reader while
/// routing `frames` in order, in arrival order.
pub open spec fn reply_deliveries(working: Set<u32>, frames: Seq<ReplyFrameView>, c: u32) -> Seq<
    (u32, Seq<u8>),
>
    decreases frames.len(),
{
    if frames.len() == 0 {
        Seq::empty()
    } else {
        let f = frames.first();
        let step = route_reply_spec(working, f.header);
        let rest = reply_deliveries(step.0, frames.drop_first(), c);
        if f.header.request_id == c && spec_reply_delivers(step.1) {
            seq![(f.header.status_code, f.body)] + rest
        } else {
            rest
        }
    }
}

/// The open-id set after routing a whole reply sequence in order.
pub open spec fn process_replies_spec(working: Set<u32>, frames: Seq<ReplyFrameView>) -> Set<u32>
    decreases frames.len(),
{
    if frames.len() == 0 {
        working
    } else {
        process_replies_spec(
            route_reply_spec(working, frames.first().header).0,
            frames.drop_first(),
        )
    }
}

/// The `(status_code, body)` pairs of the non-SIGNAL replies of a sequence,
/// in order: what the caller's read side is owed.
pub open spec fn non_signal_replies(frames: Seq<ReplyFrameView>) -> Seq<(u32, Seq<u8>)>
    decreases frames.len(),
{
    if frames.len() == 0 {
        Seq::empty()
    } else if !frames.first().header.spec_is_signal() {
        seq![(frames.first().header.status_code, frames.first().body)] + non_signal_replies(
            frames.drop_first(),
        )
    } else {
        non_signal_replies(frames.drop_first())
    }
}

/// The subsequence of `frames` that answers call id `c`, in order.
pub open spec fn replies_for_call(frames: Seq<ReplyFrameView>, c: u32) -> Seq<ReplyFrameView>
    decreases frames.len(),
{
    if frames.len() == 0 {
        Seq::empty()
    } else {
        let rest = replies_for_call(frames.drop_first(), c);
        if frames.first().header.request_id == c {
            seq![frames.first()] + rest
        } else {
            rest
        }
    }
}

/// A legal reply sequence for one call `c`: every frame answers `c`, the
/// last and only the last is EOS.
pub open spec fn reply_frames_wf(frames: Seq<ReplyFrameView>, c: u32) -> bool {
    &&& frames.len() >= 1
    &&& forall|i: int| 0 <= i < frames.len() ==> (#[trigger] frames[i]).header.request_id == c
    &&& frames[frames.len() - 1].header.spec_is_eos()
    &&& forall|i: int| 0 <= i < frames.len() - 1 ==> !(#[trigger] frames[i]).header.spec_is_eos()
}

/// Routing a legal reply sequence for an open call delivers exactly its
/// non-SIGNAL `(status, body)` pairs in arrival order and closes the call;
/// other calls' records are untouched.
pub proof fn lemma_reply_run(working: Set<u32>, frames: Seq<ReplyFrameView>, c: u32)
    requires
        reply_frames_wf(frames, c),
        working.contains(c),
    ensures
        reply_deliveries(working, frames, c) == non_signal_replies(frames),
        process_replies_spec(working, frames) == working.remove(c),
    decreases frames.len(),
{
    let f = frames.first();
    let step = route_reply_spec(working, f.header);
    if frames.len() == 1 {
        assert(f.header.spec_is_eos());
        assert(step.0 == working.remove(c));
        assert(frames.drop_first().len() == 0);
        assert(reply_deliveries(step.0, frames.drop_first(), c) == Seq::<(u32, Seq<u8>)>::empty());
        assert(non_signal_replies(frames.drop_first()) == Seq::<(u32, Seq<u8>)>::empty());
        assert(process_replies_spec(step.0, frames.drop_first()) == step.0);
        assert(reply_deliveries(working, frames, c) =~= non_signal_replies(frames));
    } else {
        assert(!f.header.spec_is_eos());
        assert(step.0 == working);
        lemma_reply_run(step.0, frames.drop_first(), c);
    }
}

/// What call `c`'s reader receives depends on the state only through
/// whether `c` itself is open.
proof fn lemma_reply_deliveries_local(
    w1: Set<u32>,
    w2: Set<u32>,
    frames: Seq<ReplyFrameView>,
    c: u32,
)
    requires
        w1.contains(c) == w2.contains(c),
    ensures
        reply_deliveries(w1, frames, c) == reply_deliveries(w2, frames, c),
    decreases frames.len(),
{
    if frames.len() > 0 {
        let f = frames.first();
        let s1 = route_reply_spec(w1, f.header);
        let s2 = route_reply_spec(w2, f.header);
        assert(s1.0.contains(c) == s2.0.contains(c));
        if f.header.request_id == c {
            assert(spec_reply_delivers(s1.1) == spec_reply_delivers(s2.1));
        }
        lemma_reply_deliveries_local(s1.0, s2.0, frames.drop_first(), c);
    }
}

/// Reply demultiplexing isolates calls: what call `c`'s reader receives
/// from an arbitrarily interleaved reply sequence is exactly what it would
/// receive from its own replies alone, in the same relative order.
pub proof fn lemma_reply_isolation(working: Set<u32>, frames: Seq<ReplyFrameView>, c: u32)
    ensures
        reply_deliveries(working, frames, c) == reply_deliveries(
            working,
            replies_for_call(frames, c),
            c,
        ),
    decreases frames.len(),
{
    if frames.len() > 0 {
        let f = frames.first();
        let step = route_reply_spec(working, f.header);
        let sub = replies_for_call(frames, c);
        if f.header.request_id == c {
            assert(sub == seq![f] + replies_for_call(frames.drop_first(), c));
            assert(sub.first() == f);
            assert(sub.drop_first() =~= replies_for_call(frames.drop_first(), c));
            lemma_reply_isolation(step.0, frames.drop_first(), c);
        } else {
            assert(step.0.contains(c) == working.contains(c));
            lemma_reply_isolation(step.0, frames.drop_first(), c);
            lemma_reply_deliveries_local(step.0, working, replies_for_call(frames.drop_first(), c), c);
        }
    }
}

/// The reply frames of a streaming answer that sends the `(status, body)`
/// pairs and marks the last one terminal: frame `i` carries `pairs[i]`,
/// the last frame carries EOS, none SIGNAL. This is exactly the sequence
/// a `ServerWriter` emits from `write` on every pair but the last and
/// `write_last` on the last.
pub open spec fn streaming_reply_frames(request_id: u32, pairs: Seq<(u32, Seq<u8>)>) -> Seq<
    ReplyFrameView,
>
    recommends
        pairs.len() >= 1,
        forall|i: int| 0 <= i < pairs.len() ==> pairs[i].1.len() <= u32::MAX,
{
    Seq::new(
        pairs.len(),
        |i: int|
            ReplyFrameView {
                header: ReplyHeader {
                    request_id,
                    flag: (ReplyFlag {
                        flag: if i == pairs.len() - 1 {
                            FLAG_EOS_MASK
                        } else {
                            0u32
                        },
                    }),
                    status_code: pairs[i].0,
                    body_len: pairs[i].1.len() as u32,
                },
                body: pairs[i].1,
            },
    )
}

/// On a reply sequence without SIGNAL frames, every pair is delivered: the
/// owed pairs are just the frames' status codes and bodies.
proof fn lemma_non_signal_replies_all(frames: Seq<ReplyFrameView>)
    requires
        forall|i: int|
            0 <= i < frames.len() ==> !(#[trigger] frames[i]).header.spec_is_signal(),
    ensures
        non_signal_replies(frames) == frames.map_values(
            |f: ReplyFrameView| (f.header.status_code, f.body),
        ),
    decreases frames.len(),
{
    if frames.len() == 0 {
        assert(non_signal_replies(frames) =~= frames.map_values(
            |f: ReplyFrameView| (f.header.status_code, f.body),
        ));
    } else {
        lemma_non_signal_replies_all(frames.drop_first());
        assert(frames.drop_first().map_values(|f: ReplyFrameView| (f.header.status_code, f.body))
            =~= frames.map_values(|f: ReplyFrameView| (f.header.status_code, f.body)).drop_first());
        assert(non_signal_replies(frames) =~= frames.map_values(
            |f: ReplyFrameView| (f.header.status_code, f.body),
        ));
    }
}

/// A caller whose open call is answered by the streamed `(status, body)`
/// pairs reads exactly those pairs in order, and the call then closes.
pub proof fn lemma_streaming_replies_received(
    working: Set<u32>,
    request_id: u32,
    pairs: Seq<(u32, Seq<u8>)>,
)
    requires
        pairs.len() >= 1,
        working.contains(request_id),
    ensures
        reply_deliveries(working, streaming_reply_frames(request_id, pairs), request_id) == pairs,
        process_replies_spec(working, streaming_reply_frames(request_id, pairs))
            == working.remove(request_id),
{
    let frames = streaming_reply_frames(request_id, pairs);
    lemma_flag_words();
    assert(reply_frames_wf(frames, request_id));
    assert forall|i: int| 0 <= i < frames.len() implies !(#[trigger] frames[i])
        .header.spec_is_signal() by {}
    lemma_reply_run(working, frames, request_id);
    lemma_non_signal_replies_all(frames);
    assert(frames.map_values(|f: ReplyFrameView| (f.header.status_code, f.body)) =~= pairs);
}

/// Interleaved replies to concurrent calls do not disturb each other: when
/// `c`'s own replies form a legal sequence and `c` is open, `c`'s reader
/// receives exactly `c`'s non-SIGNAL `(status, body)` pairs in the order
/// they arrived, whatever other calls' replies are interleaved around them.
pub proof fn lemma_interleaved_replies(working: Set<u32>, frames: Seq<ReplyFrameView>, c: u32)
    requires
        reply_frames_wf(replies_for_call(frames, c), c),
        working.contains(c),
    ensures
        reply_deliveries(working, frames, c) == non_signal_replies(replies_for_call(frames, c)),
{
    lemma_reply_isolation(working, frames, c);
    lemma_reply_run(working, replies_for_call(frames, c), c);
}

} // verus!
