//! The per-call logical stream, write side: builders that turn payloads
//! into correctly flagged frames for one call. A client writer stamps FIRST
//! on the very first frame it produces and never again; `write_last` marks
//! EOS with a final payload; `write_complete` closes with an EOS+SIGNAL
//! frame carrying no payload. Server writers answer an existing call, so
//! they never set FIRST. Queueing the frames on the connection's outbound
//! channel is the connection's business, not the builders'.

use vstd::prelude::*;

use crate::frame::{
    ReplyFlag, ReplyFrame, ReplyHeader, RequestFlag, RequestFrame, RequestHeader, FLAG_EOS_MASK,
    FLAG_FIRST_MASK, FLAG_SIGNAL_MASK,
};

verus! {

/// Write side of one call's logical stream on the calling side: builds the
/// request frames of call `request_id` against method `method_id`.
#[derive(Debug, Clone, Copy, PartialEq, Eq, Structural)]
pub struct ClientWriter {
    pub request_id: u32,
    pub method_id: u32,
    pub have_write: bool,
}

impl ClientWriter {
    /// A writer for a fresh call: nothing written yet, so the next frame
    /// will carry FIRST.
    pub fn new(request_id: u32, method_id: u32) -> (r: Self)
        ensures
            r == (ClientWriter { request_id, method_id, have_write: false }),
    {
        Self { request_id, method_id, have_write: false }
    }

    /// Builds a non-terminal request frame carrying `request_body`; FIRST
    /// is set exactly when this is the writer's first frame.
    pub fn write(&mut self, request_body: Vec<u8>) -> (f: RequestFrame)
        requires
            request_body@.len() <= u32::MAX,
        ensures
            f.header == (RequestHeader {
                request_id: old(self).request_id,
                flag: (RequestFlag {
                    flag: if old(self).have_write {
                        0u32
                    } else {
                        FLAG_FIRST_MASK
                    },
                }),
                method_id: old(self).method_id,
                body_len: request_body@.len() as u32,
            }),
            f.body@ == request_body@,
            f.wf(),
            *final(self) == (ClientWriter { have_write: true, ..*old(self) }),
    {
        let flag_bits: u32 = if self.have_write {
            0
        } else {
            FLAG_FIRST_MASK
        };
        self.have_write = true;
        let body_len = request_body.len() as u32;
        RequestFrame {
            header: RequestHeader {
                request_id: self.request_id,
                flag: RequestFlag { flag: flag_bits },
                method_id: self.method_id,
                body_len,
            },
            body: request_body,
        }
    }

    /// Builds the terminal request frame carrying the final payload: EOS is
    /// set, and FIRST too when nothing was written before (a one-frame,
    /// unary-shaped call).
    pub fn write_last(&mut self, request_body: Vec<u8>) -> (f: RequestFrame)
        requires
            request_body@.len() <= u32::MAX,
        ensures
            f.header == (RequestHeader {
                request_id: old(self).request_id,
                flag: (RequestFlag {
                    flag: if old(self).have_write {
                        FLAG_EOS_MASK
                    } else {
                        FLAG_EOS_MASK | FLAG_FIRST_MASK
                    },
                }),
                method_id: old(self).method_id,
                body_len: request_body@.len() as u32,
            }),
            f.body@ == request_body@,
            f.wf(),
            *final(self) == (ClientWriter { have_write: true, ..*old(self) }),
    {
        let flag_bits: u32 = if self.have_write {
            FLAG_EOS_MASK
        } else {
            FLAG_EOS_MASK | FLAG_FIRST_MASK
        };
        self.have_write = true;
        let body_len = request_body.len() as u32;
        RequestFrame {
            header: RequestHeader {
                request_id: self.request_id,
                flag: RequestFlag { flag: flag_bits },
                method_id: self.method_id,
                body_len,
            },
            body: request_body,
        }
    }

    /// Builds the payload-free closing frame: EOS and SIGNAL are set, and
    /// FIRST too when nothing was written before (a call that opens and
    /// closes with no data).
    pub fn write_complete(&mut self) -> (f: RequestFrame)
        ensures
            f.header == (RequestHeader {
                request_id: old(self).request_id,
                flag: (RequestFlag {
                    flag: if old(self).have_write {
                        FLAG_EOS_MASK | FLAG_SIGNAL_MASK
                    } else {
                        FLAG_EOS_MASK | FLAG_SIGNAL_MASK | FLAG_FIRST_MASK
                    },
                }),
                method_id: old(self).method_id,
                body_len: 0,
            }),
            f.body@ == Seq::<u8>::empty(),
            f.wf(),
            *final(self) == (ClientWriter { have_write: true, ..*old(self) }),
    {
        let flag_bits: u32 = if self.have_write {
            FLAG_EOS_MASK | FLAG_SIGNAL_MASK
        } else {
            FLAG_EOS_MASK | FLAG_SIGNAL_MASK | FLAG_FIRST_MASK
        };
        self.have_write = true;
        let body: Vec<u8> = Vec::new();
        RequestFrame {
            header: RequestHeader {
                request_id: self.request_id,
                flag: RequestFlag { flag: flag_bits },
                method_id: self.method_id,
                body_len: 0,
            },
            body,
        }
    }
}

/// Write side of one call's logical stream on the serving side: builds the
/// reply frames answering call `request_id`. The server never opens a call,
/// so no reply carries FIRST.
#[derive(Debug, Clone, Copy, PartialEq, Eq, Structural)]
pub struct ServerWriter {
    pub request_id: u32,
}

impl ServerWriter {
    /// A writer answering the call `request_id`.
    pub fn new(request_id: u32) -> (r: Self)
        ensures
            r == (ServerWriter { request_id }),
    {
        Self { request_id }
    }

    /// Builds a non-terminal reply frame carrying `status_code` and
    /// `reply_body`.
    pub fn write(&self, status_code: u32, reply_body: Vec<u8>) -> (f: ReplyFrame)
        requires
            reply_body@.len() <= u32::MAX,
        ensures
            f.header == (ReplyHeader {
                request_id: self.request_id,
                flag: (ReplyFlag { flag: 0 }),
                status_code,
                body_len: reply_body@.len() as u32,
            }),
            f.body@ == reply_body@,
            f.wf(),
    {
        let body_len = reply_body.len() as u32;
        ReplyFrame {
            header: ReplyHeader {
                request_id: self.request_id,
                flag: ReplyFlag { flag: 0 },
                status_code,
                body_len,
            },
            body: reply_body,
        }
    }

    /// Builds the terminal reply frame: EOS is set, the final payload and
    /// status travel with it.
    pub fn write_last(&self, status_code: u32, reply_body: Vec<u8>) -> (f: ReplyFrame)
        requires
            reply_body@.len() <= u32::MAX,
        ensures
            f.header == (ReplyHeader {
                request_id: self.request_id,
                flag: (ReplyFlag { flag: FLAG_EOS_MASK }),
                status_code,
                body_len: reply_body@.len() as u32,
            }),
            f.body@ == reply_body@,
            f.wf(),
    {
        let body_len = reply_body.len() as u32;
        ReplyFrame {
            header: ReplyHeader {
                request_id: self.request_id,
                flag: ReplyFlag { flag: FLAG_EOS_MASK },
                status_code,
                body_len,
            },
            body: reply_body,
        }
    }

    /// Builds the payload-free closing reply: EOS and SIGNAL set, status 0,
    /// empty body; used when no final payload exists.
    pub fn write_complete(&self) -> (f: ReplyFrame)
        ensures
            f.header == (ReplyHeader {
                request_id: self.request_id,
                flag: (ReplyFlag { flag: FLAG_EOS_MASK | FLAG_SIGNAL_MASK }),
                status_code: 0,
                body_len: 0,
            }),
            f.body@ == Seq::<u8>::empty(),
            f.wf(),
    {
        let body: Vec<u8> = Vec::new();
        ReplyFrame {
            header: ReplyHeader {
                request_id: self.request_id,
                flag: ReplyFlag { flag: FLAG_EOS_MASK | FLAG_SIGNAL_MASK },
                status_code: 0,
                body_len: 0,
            },
            body,
        }
    }
}

} // verus!
