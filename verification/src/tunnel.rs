//! A byte stream over a channel of messages.
//!
//! A tunneled console delivers discrete frames: binary, text, close and others. The adapter
//! keeps the bytes of a binary frame that a read did not take, and says for each frame what
//! the reader of bytes gets to see. Whoever owns the channel fetches the frames.

use vstd::prelude::*;

verus! {

/// The code that a close frame carries.
#[derive(Clone, Copy, Debug, PartialEq, Eq, Structural)]
pub enum CloseCode {
    /// The purpose of the connection has been fulfilled.
    Normal,
    /// The peer is going away.
    Away,
    /// The peer found a protocol error.
    Protocol,
    /// The peer received data of a kind it cannot accept.
    Unsupported,
    /// No status code was given.
    Status,
    /// The connection was dropped.
    Abnormal,
    /// The peer received data that does not fit its message's type.
    Invalid,
    /// The peer received a message that violates its policy.
    Policy,
    /// The peer received a message too big to process.
    Size,
    /// The server did not negotiate an extension that the client needs.
    Extension,
    /// The server met a condition that kept it from fulfilling the request.
    Error,
    /// The server is restarting.
    Restart,
    /// The server is overloaded; try again later.
    Again,
    /// The TLS handshake failed.
    Tls,
    /// A code in a reserved range.
    Reserved(u16),
    /// A code registered for public use.
    Iana(u16),
    /// A code for private use.
    Library(u16),
    /// A code outside every defined range.
    Bad(u16),
}

/// A close frame's code and the text that explains it.
#[derive(Debug, PartialEq, Eq)]
pub struct CloseReason {
    /// The code.
    pub code: CloseCode,
    /// The explanation.
    pub reason: String,
}

/// A frame that arrived on the channel.
#[derive(Debug, PartialEq, Eq)]
pub enum Inbound {
    /// Bytes of the stream.
    Binary(Vec<u8>),
    /// Text, which is no part of the stream.
    Text,
    /// The peer closes the channel, with or without a reason.
    Close(Option<CloseReason>),
    /// A frame of any other kind.
    Other,
}

/// What a read of the byte stream comes to.
#[derive(Debug, PartialEq, Eq)]
pub enum ReadStep {
    /// These bytes are read.
    Data(Vec<u8>),
    /// Nothing to read yet: the next frame is needed.
    NeedFrame,
    /// The stream has ended: the read returns no bytes.
    EndOfStream,
    /// The peer closed the channel on an error: the read fails with this code and reason.
    Failed(CloseReason),
    /// Nothing was read and nothing is lost: the read is to be tried again.
    TryAgain,
}

/// The close codes that report an error.
pub open spec fn is_error_class(code: CloseCode) -> bool {
    match code {
        CloseCode::Error => true,
        CloseCode::Protocol => true,
        CloseCode::Unsupported => true,
        CloseCode::Abnormal => true,
        CloseCode::Invalid => true,
        CloseCode::Policy => true,
        CloseCode::Size => true,
        CloseCode::Extension => true,
        CloseCode::Restart => true,
        CloseCode::Again => true,
        _ => false,
    }
}

/// The smaller of two counts.
pub open spec fn least(a: int, b: int) -> int {
    if a < b {
        a
    } else {
        b
    }
}

/// The bytes that a reader of the stream sees when `frames` arrive in this order and nothing
/// after them: the contents of the binary frames up to the first close frame, end to end.
pub open spec fn byte_stream(frames: Seq<Inbound>) -> Seq<u8>
    decreases frames.len(),
{
    if frames.len() == 0 {
        Seq::empty()
    } else {
        match frames[0] {
            Inbound::Binary(bytes) => bytes@ + byte_stream(frames.skip(1)),
            Inbound::Close(_) => Seq::empty(),
            _ => byte_stream(frames.skip(1)),
        }
    }
}

/// The error that ends the stream of `frames`, if it does not end cleanly: the reason of the
/// first close frame, where its code reports an error.
pub open spec fn stream_failure(frames: Seq<Inbound>) -> Option<CloseReason>
    decreases frames.len(),
{
    if frames.len() == 0 {
        None
    } else {
        match frames[0] {
            Inbound::Close(Some(reason)) => if is_error_class(reason.code) {
                Some(reason)
            } else {
                None
            },
            Inbound::Close(None) => None,
            _ => stream_failure(frames.skip(1)),
        }
    }
}

impl CloseCode {
    /// Whether the code reports an error rather than an orderly end.
    pub fn is_error(self) -> (error: bool)
        ensures
            error == is_error_class(self),
    {
        match self {
            CloseCode::Error
            | CloseCode::Protocol
            | CloseCode::Unsupported
            | CloseCode::Abnormal
            | CloseCode::Invalid
            | CloseCode::Policy
            | CloseCode::Size
            | CloseCode::Extension
            | CloseCode::Restart
            | CloseCode::Again => true,
            _ => false,
        }
    }
}

/// The reading side of the adapter: the bytes of the last binary frame that no read has
/// taken yet.
pub struct TunnelReader {
    residual: Vec<u8>,
}

impl View for TunnelReader {
    type V = Seq<u8>;

    closed spec fn view(&self) -> Seq<u8> {
        self.residual@
    }
}

impl TunnelReader {
    /// An adapter that holds no bytes.
    pub fn new() -> (reader: TunnelReader)
        ensures
            reader@ == Seq::<u8>::empty(),
    {
        TunnelReader { residual: Vec::new() }
    }

    /// Takes up to `want` of the bytes held, from the front.
    fn take_front(&mut self, want: usize) -> (data: Vec<u8>)
        ensures
            data@ == old(self)@.take(least(want as int, old(self)@.len() as int)),
            final(self)@ == old(self)@.skip(least(want as int, old(self)@.len() as int)),
    {
        let held = self.residual.len();
        let count: usize = if want < held {
            want
        } else {
            held
        };
        let mut data = self.residual.split_off(count);
        std::mem::swap(&mut self.residual, &mut data);
        assert(data@ =~= old(self)@.take(count as int));
        assert(self.residual@ =~= old(self)@.skip(count as int));
        data
    }

    /// Serves a read of up to `want` bytes from the bytes held. `None` when none are held: the
    /// next frame is needed then.
    pub fn read_buffered(&mut self, want: usize) -> (data: Option<Vec<u8>>)
        ensures
            old(self)@.len() == 0 ==> data.is_none() && final(self)@ == old(self)@,
            old(self)@.len() > 0 ==> data.is_some() && data.unwrap()@ == old(self)@.take(
                least(want as int, old(self)@.len() as int),
            ) && final(self)@ == old(self)@.skip(least(want as int, old(self)@.len() as int)),
    {
        if self.residual.len() == 0 {
            None
        } else {
            Some(self.take_front(want))
        }
    }

    /// Takes the frame that arrived, or `None` where the channel ended without one, and says
    /// what a read of up to `want` bytes comes to. To be called when no bytes are held.
    ///
    /// A binary frame with contents is read from, and what the read leaves is held. An empty
    /// binary frame and a text frame give nothing to read: the next frame is needed. A close
    /// frame ends the stream, as an error where its code reports one. A frame of another kind
    /// leaves the read to be tried again.
    pub fn accept(&mut self, frame: Option<Inbound>, want: usize) -> (step: ReadStep)
        requires
            old(self)@.len() == 0,
        ensures
            match frame {
                Some(Inbound::Binary(bytes)) => {
                    let count = least(want as int, bytes@.len() as int);
                    if bytes@.len() == 0 {
                        step == ReadStep::NeedFrame && final(self)@ == Seq::<u8>::empty()
                    } else {
                        &&& step matches ReadStep::Data(data)
                        &&& data@ == bytes@.take(count)
                        &&& final(self)@ == bytes@.skip(count)
                    }
                },
                Some(Inbound::Text) => step == ReadStep::NeedFrame && final(self)@ == old(self)@,
                Some(Inbound::Close(Some(reason))) => final(self)@ == old(self)@ && step == (
                if is_error_class(reason.code) {
                    ReadStep::Failed(reason)
                } else {
                    ReadStep::EndOfStream
                }),
                Some(Inbound::Close(None)) => step == ReadStep::EndOfStream && final(self)@
                    == old(self)@,
                Some(Inbound::Other) => step == ReadStep::TryAgain && final(self)@ == old(self)@,
                None => step == ReadStep::EndOfStream && final(self)@ == old(self)@,
            },
    {
        match frame {
            Some(Inbound::Binary(bytes)) => {
                if bytes.len() == 0 {
                    ReadStep::NeedFrame
                } else {
                    self.residual = bytes;
                    ReadStep::Data(self.take_front(want))
                }
            },
            Some(Inbound::Text) => ReadStep::NeedFrame,
            Some(Inbound::Close(Some(reason))) => {
                if reason.code.is_error() {
                    ReadStep::Failed(reason)
                } else {
                    ReadStep::EndOfStream
                }
            },
            Some(Inbound::Close(None)) => ReadStep::EndOfStream,
            Some(Inbound::Other) => ReadStep::TryAgain,
            None => ReadStep::EndOfStream,
        }
    }
}

/// All that a reader of bytes got from a channel.
#[derive(Debug, PartialEq, Eq)]
pub struct Drained {
    /// The bytes read, in order.
    pub bytes: Vec<u8>,
    /// The error that the last read failed with; `None` where the stream ended cleanly.
    pub failure: Option<CloseReason>,
}

/// Reads the stream that `frames` carry to its end. The reads ask for the sizes in
/// `read_sizes` in turn, over and over.
///
/// Whatever the sizes of the reads, the bytes come out as one stream: binary frames end to
/// end, empty ones and text frames leaving no trace.
pub fn read_to_end(frames: Vec<Inbound>, read_sizes: &[usize]) -> (drained: Drained)
    requires
        read_sizes@.len() >= 1,
        forall|i: int| 0 <= i < read_sizes@.len() ==> read_sizes@[i] >= 1,
    ensures
        drained.bytes@ == byte_stream(frames@),
        drained.failure == stream_failure(frames@),
{
    let mut pending = frames;
    let mut reader = TunnelReader::new();
    let mut bytes: Vec<u8> = Vec::new();
    let mut turn: usize = 0;
    loop
        invariant
            turn < read_sizes@.len(),
            forall|i: int| 0 <= i < read_sizes@.len() ==> read_sizes@[i] >= 1,
            bytes@ + reader@ + byte_stream(pending@) == byte_stream(frames@),
            stream_failure(pending@) == stream_failure(frames@),
        decreases pending@.len(), reader@.len(),
    {
        let ghost before = bytes@;
        let ghost held = reader@;
        let ghost queue = pending@;
        let want = read_sizes[turn];
        turn = if turn + 1 < read_sizes.len() {
            turn + 1
        } else {
            0
        };
        match reader.read_buffered(want) {
            Some(mut data) => {
                bytes.append(&mut data);
                assert(bytes@ + reader@ =~= before + held);
                continue ;
            },
            None => {},
        }
        let frame = if pending.len() == 0 {
            None
        } else {
            Some(pending.remove(0))
        };
        proof {
            if queue.len() > 0 {
                assert(pending@ =~= queue.skip(1));
                assert(frame == Some(queue[0]));
            }
            assert(before + held =~= before);
        }
        match reader.accept(frame, want) {
            ReadStep::Data(mut data) => {
                bytes.append(&mut data);
                assert(bytes@ + reader@ + byte_stream(pending@) =~= before + byte_stream(queue));
            },
            ReadStep::EndOfStream => {
                assert(bytes@ =~= before + byte_stream(queue));
                return Drained { bytes, failure: None };
            },
            ReadStep::Failed(reason) => {
                assert(bytes@ =~= before + byte_stream(queue));
                return Drained { bytes, failure: Some(reason) };
            },
            _ => {
                assert(bytes@ + reader@ + byte_stream(pending@) =~= before + byte_stream(queue));
            },
        }
    }
}

/// The writing side of the adapter: each write goes out whole as one binary frame, and all
/// of its bytes count as written.
pub fn frame_for_write(buf: &[u8]) -> (out: (Vec<u8>, usize))
    ensures
        out.0@ == buf@,
        out.1 == buf@.len(),
{
    let mut frame: Vec<u8> = Vec::new();
    frame.extend_from_slice(buf);
    assert(frame@ =~= buf@);
    (frame, buf.len())
}

} // verus!
