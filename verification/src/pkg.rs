//! The frame codec: one `Pkg` to and from its bytes on the wire.
//!
//! A frame is a little-endian `u32` length, then that many bytes: the command,
//! the credential flag, and the sixteen bytes of the correlation identifier.

use crate::ids::{id_from_slice, id_to_bytes, uuid_bytes};
use crate::wire::{
    buffer_bytes, buffer_new, buffer_put_slice, buffer_put_u32_le, buffer_put_u8, le_bytes,
    le_value, lemma_le_round_trip, read_u32_le,
};
use bytes::BytesMut;
use uuid::Uuid;
use vstd::prelude::*;
use vstd::slice::slice_subrange;

verus! {

/// Bytes of the length prefix.
pub const PREFIX_SIZE: usize = 4;

/// Bytes of a frame's header: command, credential flag, correlation identifier.
pub const HEADER_SIZE: u32 = 18;

/// One frame of the protocol.
pub struct Pkg {
    /// Opcode; a higher layer gives it its meaning.
    pub cmd: u8,
    /// Ties a request to its response.
    pub correlation: Uuid,
}

/// What a frame is to the verifier: its command and the bytes of its identifier.
pub ghost struct PkgView {
    pub cmd: u8,
    pub correlation: Seq<u8>,
}

impl PkgView {
    /// The identifier is sixteen bytes long, as that of every `Pkg` is.
    pub open spec fn well_formed(self) -> bool {
        self.correlation.len() == 16
    }
}

impl View for Pkg {
    type V = PkgView;

    open spec fn view(&self) -> PkgView {
        PkgView { cmd: self.cmd, correlation: uuid_bytes(self.correlation) }
    }
}

/// Why a stream of bytes gave no frame.
#[derive(Clone, Copy, Debug, PartialEq, Eq, Structural)]
pub enum FrameError {
    /// The stream ended cleanly, before the first byte of a frame.
    Closed,
    /// The stream ended inside the length prefix or inside the declared body.
    Truncated,
    /// The declared length leaves no room for a header.
    Malformed,
}

/// The bytes of a frame on the wire.
pub open spec fn encoded(p: PkgView) -> Seq<u8> {
    le_bytes(HEADER_SIZE) + seq![p.cmd, 0u8] + p.correlation
}

/// The frame that a body of bytes (what follows the length prefix) holds.
pub open spec fn decoded_body(body: Seq<u8>) -> Result<PkgView, FrameError> {
    if body.len() < HEADER_SIZE {
        Err(FrameError::Malformed)
    } else {
        Ok(PkgView { cmd: body[0], correlation: body.subrange(2, 18) })
    }
}

/// The first frame of a stream of which `stream` is all that will ever come.
/// The declared body is read in full before its header is looked at.
pub open spec fn decoded(stream: Seq<u8>) -> Result<PkgView, FrameError> {
    if stream.len() == 0 {
        Err(FrameError::Closed)
    } else if stream.len() < PREFIX_SIZE || stream.len() - PREFIX_SIZE < le_value(stream) {
        Err(FrameError::Truncated)
    } else {
        decoded_body(stream.subrange(PREFIX_SIZE as int, PREFIX_SIZE + le_value(stream)))
    }
}

/// Whether an outcome of decoding is the one that the model gives.
pub open spec fn agrees(out: Result<Pkg, FrameError>, model: Result<PkgView, FrameError>) -> bool {
    match model {
        Ok(v) => out matches Ok(p) && p@ == v,
        Err(e) => out matches Err(f) && f == e,
    }
}

impl Pkg {
    /// A frame with this command and correlation identifier.
    pub fn new(cmd: u8, correlation: Uuid) -> (out: Pkg)
        ensures
            out.cmd == cmd,
            out.correlation == correlation,
    {
        Pkg { cmd, correlation }
    }

    /// The length that the prefix of this frame declares.
    pub fn size(&self) -> (out: u32)
        ensures
            out == HEADER_SIZE,
    {
        HEADER_SIZE
    }

    /// A new frame with this frame's command and correlation identifier.
    pub fn copy_headers_only(&self) -> (out: Pkg)
        ensures
            out.cmd == self.cmd,
            out.correlation == self.correlation,
    {
        Pkg { cmd: self.cmd, correlation: self.correlation }
    }

    /// The frame's bytes on the wire: the length, the command, a zero
    /// credential flag, the identifier.
    pub fn to_bytes(&self) -> (out: BytesMut)
        ensures
            buffer_bytes(out) == encoded(self@),
            buffer_bytes(out).len() == PREFIX_SIZE + HEADER_SIZE,
            le_value(buffer_bytes(out)) == buffer_bytes(out).len() - PREFIX_SIZE,
            self@.well_formed(),
    {
        let mut buf = buffer_new();
        buffer_put_u32_le(&mut buf, self.size());
        buffer_put_u8(&mut buf, self.cmd);
        buffer_put_u8(&mut buf, 0);
        let raw = id_to_bytes(&self.correlation);
        buffer_put_slice(&mut buf, raw.as_slice());
        proof {
            assert(buffer_bytes(buf) =~= encoded(self@));
            lemma_length_prefix(self@);
        }
        buf
    }

    /// The length that a prefix declares for the body after it.
    pub fn declared_size(prefix: &[u8; 4]) -> (out: u32)
        ensures
            out == le_value(prefix@),
    {
        read_u32_le(prefix.as_slice())
    }

    /// Reads a frame from its body, the bytes after the length prefix.
    pub fn from_body(body: &[u8]) -> (out: Result<Pkg, FrameError>)
        ensures
            agrees(out, decoded_body(body@)),
    {
        if body.len() < HEADER_SIZE as usize {
            return Err(FrameError::Malformed);
        }
        let cmd = body[0];
        match id_from_slice(slice_subrange(body, 2, 18)) {
            Ok(correlation) => Ok(Pkg::new(cmd, correlation)),
            Err(_) => Err(FrameError::Malformed),
        }
    }

    /// Reads the first frame of a stream that holds `stream` and then ends.
    pub fn from_stream(stream: &[u8]) -> (out: Result<Pkg, FrameError>)
        ensures
            agrees(out, decoded(stream@)),
    {
        if stream.len() == 0 {
            return Err(FrameError::Closed);
        }
        if stream.len() < PREFIX_SIZE {
            return Err(FrameError::Truncated);
        }
        let declared = read_u32_le(stream) as usize;
        if stream.len() - PREFIX_SIZE < declared {
            return Err(FrameError::Truncated);
        }
        Pkg::from_body(slice_subrange(stream, PREFIX_SIZE, PREFIX_SIZE + declared))
    }
}

/// Decoding the bytes of a frame gives the frame back.
pub proof fn lemma_round_trip(p: PkgView)
    requires
        p.well_formed(),
    ensures
        decoded(encoded(p)) == Ok::<PkgView, FrameError>(p),
{
    lemma_length_prefix(p);
    let s = encoded(p);
    let body = s.subrange(PREFIX_SIZE as int, PREFIX_SIZE + le_value(s));
    assert(body[0] == p.cmd);
    assert(body.subrange(2, 18) =~= p.correlation);
}

/// The bytes of a frame start with four bytes that hold, least significant
/// byte first, the number of bytes that follow them.
pub proof fn lemma_length_prefix(p: PkgView)
    requires
        p.well_formed(),
    ensures
        encoded(p).len() >= PREFIX_SIZE,
        encoded(p).subrange(0, PREFIX_SIZE as int) == le_bytes(
            (encoded(p).len() - PREFIX_SIZE) as u32,
        ),
        le_value(encoded(p)) == encoded(p).len() - PREFIX_SIZE,
{
    lemma_le_round_trip(HEADER_SIZE);
    let s = encoded(p);
    assert(s.len() == 22);
    assert(s.subrange(0, 4) =~= le_bytes(HEADER_SIZE));
    assert(le_value(s) == le_value(le_bytes(HEADER_SIZE)));
}

/// A stream whose prefix declares fewer bytes than a header takes gives no
/// frame; where the declared bytes are all there, it is malformed.
pub proof fn lemma_short_declared_length_rejected(stream: Seq<u8>)
    requires
        le_value(stream) < HEADER_SIZE,
    ensures
        decoded(stream) is Err,
        stream.len() >= PREFIX_SIZE + le_value(stream) ==> decoded(stream) == Err::<
            PkgView,
            FrameError,
        >(FrameError::Malformed),
{
}

/// A stream that ends before the declared length is reached gives no frame.
pub proof fn lemma_truncated_stream_rejected(stream: Seq<u8>)
    requires
        stream.len() < PREFIX_SIZE + le_value(stream),
    ensures
        decoded(stream) is Err,
        stream.len() > 0 ==> decoded(stream) == Err::<PkgView, FrameError>(FrameError::Truncated),
{
}

} // verus!
