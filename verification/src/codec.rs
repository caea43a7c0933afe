//! Framing over the byte stream to and from the daemon.
//!
//! Each frame is a 4-byte little-endian length prefix followed by exactly
//! that many bytes of UTF-8 JSON text (the byte order the supported daemons
//! use on their own hosts).  [`encode_request`] builds a complete outbound
//! frame; [`FrameBuf`] assembles inbound frames from however small the reads
//! happen to be, and [`decode_payload`] turns a completed payload into a
//! [`Response`].

use vstd::prelude::*;
use vstd::bytes::spec_u32_from_le_bytes;
use vstd::bytes::spec_u32_to_le_bytes;
use vstd::bytes::u32_from_le_bytes;
use vstd::bytes::u32_to_le_bytes;
use vstd::slice::slice_subrange;
use vstd::string::StringSliceAdditionalSpecFns;
use vstd::utf8::decode_utf8;
use vstd::utf8::encode_utf8;
use vstd::utf8::valid_utf8;
use crate::json::encode_request_json;
use crate::json::denotes_response;
use crate::json::parse_response_json;
use crate::json::request_text;
use crate::json::response_text;
use crate::protocol::Request;
use crate::protocol::RequestView;
use crate::protocol::Response;
use crate::protocol::ResponseView;

verus! {

/// Why an inbound payload could not be decoded.
#[derive(Clone, Copy, Debug, PartialEq, Eq, Structural)]
pub enum DecodeError {
    /// The payload is not valid UTF-8.
    MalformedFrame,
    /// The payload is UTF-8 text that denotes no response.
    ProtocolDecodeError,
}

/// Relies on `std::str::from_utf8`: it returns `Ok` exactly when the bytes
/// are valid UTF-8, and the returned slice views those same bytes.
#[verifier::external_body]
fn bytes_as_str(bytes: &[u8]) -> (r: Option<&str>)
    ensures
        match r {
            Some(s) => s.spec_bytes() == bytes@,
            None => !valid_utf8(bytes@),
        },
{
    match std::str::from_utf8(bytes) {
        Ok(s) => Some(s),
        Err(_) => None,
    }
}

/// Decodes one complete frame payload into a [`Response`].
///
/// Succeeds exactly when the payload is UTF-8 text that denotes a response
/// under the JSON reading — any whitespace, member order or escape
/// spelling — and then returns that response, the only one the text
/// denotes ([`crate::json::lemma_denotes_unique`]).  `MalformedFrame`
/// reports bytes that are not UTF-8 at all; `ProtocolDecodeError` reports
/// well-formed text that denotes no response.
pub fn decode_payload(payload: &[u8]) -> (r: Result<Response, DecodeError>)
    ensures
        match r {
            Ok(resp) => valid_utf8(payload@) && denotes_response(decode_utf8(payload@), resp@),
            Err(e) => match e {
                DecodeError::MalformedFrame => !valid_utf8(payload@),
                DecodeError::ProtocolDecodeError => valid_utf8(payload@) && forall|
                    rv: ResponseView,
                |
                    !denotes_response(decode_utf8(payload@), rv),
            },
        },
{
    match bytes_as_str(payload) {
        Some(s) => {
            proof {
                vstd::utf8::encode_utf8_valid_utf8(s@);
                vstd::utf8::encode_utf8_decode_utf8(s@);
            }
            match parse_response_json(s) {
                Some(resp) => Ok(resp),
                None => Err(DecodeError::ProtocolDecodeError),
            }
        },
        None => Err(DecodeError::MalformedFrame),
    }
}

/// The complete wire frame of a request: length prefix plus payload.
pub open spec fn request_frame(r: RequestView) -> Seq<u8>
    recommends
        encode_utf8(request_text(r)).len() <= u32::MAX,
{
    spec_u32_to_le_bytes(encode_utf8(request_text(r)).len() as u32) + encode_utf8(request_text(r))
}

/// Builds the complete wire frame for an outbound request.
///
/// `None` exactly when the JSON payload does not fit the 32-bit length
/// prefix, which the frame format cannot represent.
pub fn encode_request(req: &Request) -> (r: Option<Vec<u8>>)
    ensures
        match r {
            Some(frame) => encode_utf8(request_text(req@)).len() <= u32::MAX && frame@
                == request_frame(req@),
            None => encode_utf8(request_text(req@)).len() > u32::MAX,
        },
{
    let mut payload = encode_request_json(req);
    if payload.len() > u32::MAX as usize {
        return None;
    }
    let len32: u32 = payload.len() as u32;
    let mut frame = u32_to_le_bytes(len32);
    frame.append(&mut payload);
    Some(frame)
}

/// True when `s` starts with a complete frame: a full length prefix and at
/// least that many payload bytes after it.
pub open spec fn frame_ready(s: Seq<u8>) -> bool {
    &&& s.len() >= 4
    &&& s.len() >= 4 + spec_u32_from_le_bytes(s.subrange(0, 4))
}

/// The payload of the complete frame at the front of `s`.
pub open spec fn frame_payload(s: Seq<u8>) -> Seq<u8>
    recommends
        frame_ready(s),
{
    s.subrange(4, 4 + spec_u32_from_le_bytes(s.subrange(0, 4)))
}

/// What remains of `s` after the complete frame at its front.
pub open spec fn frame_rest(s: Seq<u8>) -> Seq<u8>
    recommends
        frame_ready(s),
{
    s.subrange(4 + spec_u32_from_le_bytes(s.subrange(0, 4)), s.len() as int)
}

/// Assembles frames from a byte stream delivered in arbitrary pieces.
///
/// The assembler holds only the bytes of the frame being gathered (plus
/// whatever arrived beyond it); what it produces depends on nothing but the
/// concatenation of everything fed in, so reads may be as small as a single
/// byte.
pub struct FrameBuf {
    buf: Vec<u8>,
}

impl FrameBuf {
    /// The bytes received and not yet handed out as frames.
    pub closed spec fn pending(&self) -> Seq<u8> {
        self.buf@
    }

    /// An empty assembler: decoding starts at a clean frame boundary.
    pub fn new() -> (r: FrameBuf)
        ensures
            r.pending() == Seq::<u8>::empty(),
    {
        let buf: Vec<u8> = Vec::new();
        proof {
            assert(buf@ =~= Seq::<u8>::empty());
        }
        FrameBuf { buf }
    }

    /// Adds the bytes of one read, however few, to the pending stream.
    pub fn feed(&mut self, chunk: &[u8])
        ensures
            final(self).pending() == old(self).pending() + chunk@,
    {
        self.buf.extend_from_slice(chunk);
    }

    /// Removes and returns the payload of the first pending frame, when a
    /// complete one has arrived; otherwise leaves the pending bytes alone.
    pub fn next_frame(&mut self) -> (r: Option<Vec<u8>>)
        ensures
            match r {
                Some(p) => frame_ready(old(self).pending()) && p@ == frame_payload(
                    old(self).pending(),
                ) && final(self).pending() == frame_rest(old(self).pending()),
                None => !frame_ready(old(self).pending()) && final(self).pending() == old(
                    self,
                ).pending(),
            },
    {
        if self.buf.len() < 4 {
            return None;
        }
        let prefix = slice_subrange(self.buf.as_slice(), 0, 4);
        let len = u32_from_le_bytes(prefix) as usize;
        if self.buf.len() - 4 < len {
            return None;
        }
        let rest = self.buf.split_off(4 + len);
        let payload = self.buf.split_off(4);
        self.buf = rest;
        proof {
            let s = old(self).pending();
            let m = 4 + spec_u32_from_le_bytes(s.subrange(0, 4));
            assert(payload@ =~= s.subrange(0, m).subrange(4, m));
            assert(payload@ =~= frame_payload(s));
        }
        Some(payload)
    }
}

/// The concatenation of a sequence of byte chunks.
pub open spec fn concat_chunks(cs: Seq<Seq<u8>>) -> Seq<u8>
    decreases cs.len(),
{
    if cs.len() == 0 {
        Seq::empty()
    } else {
        cs[0] + concat_chunks(cs.drop_first())
    }
}

/// The pending bytes after feeding each chunk of `cs`, in order, into an
/// assembler whose pending bytes were `s0`.
pub open spec fn pending_after(s0: Seq<u8>, cs: Seq<Seq<u8>>) -> Seq<u8>
    decreases cs.len(),
{
    if cs.len() == 0 {
        s0
    } else {
        pending_after(s0 + cs[0], cs.drop_first())
    }
}

/// The codec round-trips every response.  The bytes of a response's
/// canonical text — what [`crate::json::encode_response_json`] returns —
/// meet [`decode_payload`]'s success contract for exactly that response:
/// they are valid UTF-8, they decode to a text that denotes the response,
/// and no other response is denoted by it.
pub proof fn lemma_response_round_trip(r: ResponseView)
    ensures
        valid_utf8(encode_utf8(response_text(r))),
        decode_utf8(encode_utf8(response_text(r))) == response_text(r),
        denotes_response(response_text(r), r),
        forall|r2: ResponseView| denotes_response(response_text(r), r2) ==> r2 == r,
{
    vstd::utf8::encode_utf8_valid_utf8(response_text(r));
    vstd::utf8::encode_utf8_decode_utf8(response_text(r));
    crate::json::lemma_canonical_denotes(r);
    assert forall|r2: ResponseView| denotes_response(response_text(r), r2) implies r2 == r by {
        crate::json::lemma_denotes_unique(response_text(r), r, r2);
    }
}

/// Feeding a stream chunk by chunk — however it was split, down to single
/// bytes — leaves exactly the pending bytes of feeding it whole.  Since a
/// frame's readiness, payload and remainder are functions of the pending
/// bytes alone, the frames decoded from a split stream are identical to
/// those decoded from the contiguous one.
pub proof fn lemma_chunked_feed(s0: Seq<u8>, cs: Seq<Seq<u8>>)
    ensures
        pending_after(s0, cs) == s0 + concat_chunks(cs),
    decreases cs.len(),
{
    if cs.len() == 0 {
        assert(s0 + concat_chunks(cs) =~= s0);
    } else {
        lemma_chunked_feed(s0 + cs[0], cs.drop_first());
        assert((s0 + cs[0]) + concat_chunks(cs.drop_first()) =~= s0 + (cs[0] + concat_chunks(
            cs.drop_first(),
        )));
    }
}

} // verus!
