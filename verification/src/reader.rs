//! Reading frames: from a stream, piece by piece, and from memory.

use crate::protocol::{
    decoded, frame_length, le32_value, lemma_round_trip, read_consumed, read_outcome, CodecError,
    Message, HEADER_LEN, MAX_MESSAGE_SIZE,
};
use vstd::prelude::*;
use vstd::slice::slice_subrange;

verus! {

/// Reads one frame from a stream in the two pieces in which it comes: it
/// says how many bytes it wants next, is given them, and in the end says
/// what was read. The payload is wanted only after the length prefix has
/// passed the size check.
#[derive(Clone, Copy, Debug, PartialEq, Eq, Structural)]
pub enum FrameReader {
    /// The length prefix is wanted.
    Header,
    /// The prefix announced `len` bytes of payload; they are wanted.
    Payload { len: usize },
    /// The frame has been read or refused; nothing more is wanted.
    Finished,
}

impl FrameReader {
    /// The number of bytes that are wanted next.
    pub open spec fn wanted(self) -> nat {
        match self {
            FrameReader::Header => 4,
            FrameReader::Payload { len } => len as nat,
            FrameReader::Finished => 0,
        }
    }

    /// The reader after it was given `bytes` for what it wanted, and the
    /// outcome of the read if that has settled it. Fewer bytes than wanted
    /// mean that the stream has ended. Bytes beyond those wanted are not
    /// looked at.
    pub open spec fn after(self, bytes: Seq<u8>) -> (FrameReader, Option<Result<Message, CodecError>>) {
        match self {
            FrameReader::Header => if bytes.len() < 4 {
                (FrameReader::Finished, Some(Err(CodecError::UnexpectedEof)))
            } else if le32_value(bytes) > MAX_MESSAGE_SIZE {
                (FrameReader::Finished, Some(Err(CodecError::MessageTooLarge)))
            } else {
                (FrameReader::Payload { len: le32_value(bytes) as usize }, None)
            },
            FrameReader::Payload { len } => if bytes.len() < len {
                (FrameReader::Finished, Some(Err(CodecError::UnexpectedEof)))
            } else {
                (FrameReader::Finished, Some(decoded(bytes.take(len as int))))
            },
            FrameReader::Finished => (FrameReader::Finished, None),
        }
    }

    /// A reader that wants the length prefix of a frame.
    pub fn new() -> (r: Self)
        ensures
            r == FrameReader::Header,
    {
        FrameReader::Header
    }

    /// The number of bytes to read next and hand to `supply`.
    pub fn want(&self) -> (r: usize)
        ensures
            r == self.wanted(),
    {
        match self {
            FrameReader::Header => HEADER_LEN,
            FrameReader::Payload { len } => *len,
            FrameReader::Finished => 0,
        }
    }

    /// Takes in the bytes that were read for what the reader wanted.
    /// Returns the outcome of the read once it is settled, `None` while
    /// more bytes are wanted.
    pub fn supply(&mut self, bytes: &[u8]) -> (r: Option<Result<Message, CodecError>>)
        ensures
            (*final(self), r) == old(self).after(bytes@),
    {
        match *self {
            FrameReader::Header => {
                if bytes.len() < HEADER_LEN {
                    *self = FrameReader::Finished;
                    return Some(Err(CodecError::UnexpectedEof));
                }
                let header: [u8; 4] = [bytes[0], bytes[1], bytes[2], bytes[3]];
                assert(le32_value(header@) == le32_value(bytes@));
                match frame_length(header) {
                    Ok(len) => {
                        *self = FrameReader::Payload { len };
                        None
                    },
                    Err(e) => {
                        *self = FrameReader::Finished;
                        Some(Err(e))
                    },
                }
            },
            FrameReader::Payload { len } => {
                *self = FrameReader::Finished;
                if bytes.len() < len {
                    return Some(Err(CodecError::UnexpectedEof));
                }
                let payload = slice_subrange(bytes, 0, len);
                assert(payload@ =~= bytes@.take(len as int));
                Some(Message::decode_payload(payload))
            },
            FrameReader::Finished => None,
        }
    }
}

/// The first `n` bytes of `input`, or all of it where it is shorter.
pub open spec fn up_to(input: Seq<u8>, n: nat) -> Seq<u8> {
    if input.len() < n {
        input
    } else {
        input.take(n as int)
    }
}

/// The outcome of reading a frame from `input` piece by piece: the reader is
/// given what it wants from the front of the input, as far as the input
/// reaches.
pub open spec fn read_in_pieces(input: Seq<u8>) -> Option<Result<Message, CodecError>> {
    let start = FrameReader::Header;
    let head = up_to(input, start.wanted());
    match start.after(head) {
        (_, Some(outcome)) => Some(outcome),
        (reader, None) => {
            let body = up_to(input.skip(head.len() as int), reader.wanted());
            reader.after(body).1
        },
    }
}

/// Reading piece by piece reads the frame at the front of the input: two
/// pieces settle every read, and the outcome is that of reading the frame in
/// one go.
pub proof fn lemma_pieces_make_the_frame(input: Seq<u8>)
    ensures
        read_in_pieces(input) == Some(read_outcome(input)),
{
    let head = up_to(input, 4);
    if input.len() >= 4 {
        assert(le32_value(head) == le32_value(input));
        let len = le32_value(input);
        if len <= MAX_MESSAGE_SIZE {
            let body = up_to(input.skip(4), len);
            if input.len() >= 4 + len {
                assert(body.take(len as int) =~= input.subrange(4, 4 + len as int));
            }
        }
    }
}

/// What is written can be read piece by piece: from an input that starts
/// with the frame of a message, the two pieces give that message back.
pub proof fn lemma_pieces_read_what_is_written(m: Message, rest: Seq<u8>)
    ensures
        read_in_pieces(m.frame() + rest) == Some(Ok::<Message, CodecError>(m)),
{
    lemma_round_trip(m, rest);
    lemma_pieces_make_the_frame(m.frame() + rest);
}

/// A length prefix that announces more than `MAX_MESSAGE_SIZE` bytes ends
/// the read at once: the reader refuses the frame and wants no byte of the
/// payload.
pub proof fn lemma_oversize_wants_no_payload(header: Seq<u8>)
    requires
        header.len() >= 4,
        le32_value(header) > MAX_MESSAGE_SIZE,
    ensures
        FrameReader::Header.after(header) == (
            FrameReader::Finished,
            Some(Err::<Message, CodecError>(CodecError::MessageTooLarge)),
        ),
        FrameReader::Header.after(header).0.wanted() == 0,
{
}

/// An in-memory source of bytes that is read front to back.
pub struct ByteReader {
    data: Vec<u8>,
    pos: usize,
}

impl ByteReader {
    /// The read position lies inside the data.
    pub closed spec fn wf(&self) -> bool {
        self.pos <= self.data.len()
    }

    /// The bytes that have not been read yet.
    pub closed spec fn remaining(&self) -> Seq<u8> {
        self.data@.skip(self.pos as int)
    }

    /// A reader positioned at the first byte of `data`.
    pub fn new(data: Vec<u8>) -> (r: Self)
        ensures
            r.wf(),
            r.remaining() == data@,
    {
        let r = ByteReader { data, pos: 0 };
        assert(r.data@.skip(0) =~= r.data@);
        r
    }

    /// The number of bytes that have not been read yet.
    pub fn remaining_len(&self) -> (n: usize)
        requires
            self.wf(),
        ensures
            n == self.remaining().len(),
    {
        self.data.len() - self.pos
    }

    /// Reads exactly `n` bytes. Where fewer are left, the reader is drained
    /// and the read fails with `UnexpectedEof`.
    pub fn read_exact(&mut self, n: usize) -> (r: Result<Vec<u8>, CodecError>)
        requires
            old(self).wf(),
        ensures
            final(self).wf(),
            match r {
                Ok(bytes) => {
                    &&& n <= old(self).remaining().len()
                    &&& bytes@ == old(self).remaining().take(n as int)
                    &&& final(self).remaining() == old(self).remaining().skip(n as int)
                },
                Err(e) => {
                    &&& e == CodecError::UnexpectedEof
                    &&& n > old(self).remaining().len()
                    &&& final(self).remaining() == Seq::<u8>::empty()
                },
            },
    {
        let left = self.data.len() - self.pos;
        if n > left {
            self.pos = self.data.len();
            assert(self.data@.skip(self.pos as int) =~= Seq::<u8>::empty());
            return Err(CodecError::UnexpectedEof);
        }
        let start = self.pos;
        let mut out: Vec<u8> = Vec::new();
        out.extend_from_slice(slice_subrange(self.data.as_slice(), start, start + n));
        self.pos = start + n;
        assert(out@ =~= self.data@.skip(start as int).take(n as int));
        assert(self.data@.skip(self.pos as int) =~= self.data@.skip(start as int).skip(n as int));
        Ok(out)
    }
}

impl Message {
    /// Reads one frame from `reader`: the length prefix, then as many bytes
    /// as it announces, then the message in them. The reader is left behind
    /// what was read.
    pub fn read_from(reader: &mut ByteReader) -> (r: Result<Message, CodecError>)
        requires
            old(reader).wf(),
        ensures
            final(reader).wf(),
            r == read_outcome(old(reader).remaining()),
            final(reader).remaining() == old(reader).remaining().skip(
                read_consumed(old(reader).remaining()) as int,
            ),
    {
        let ghost input = reader.remaining();
        let mut frame = FrameReader::new();
        let head = match reader.read_exact(frame.want()) {
            Ok(head) => head,
            Err(e) => {
                assert(input.skip(input.len() as int) =~= Seq::<u8>::empty());
                return Err(e);
            },
        };
        assert(le32_value(head@) == le32_value(input));
        match frame.supply(head.as_slice()) {
            Some(outcome) => {
                return outcome;
            },
            None => {},
        }
        let body = match reader.read_exact(frame.want()) {
            Ok(body) => body,
            Err(e) => {
                assert(input.skip(input.len() as int) =~= Seq::<u8>::empty());
                return Err(e);
            },
        };
        let ghost len = le32_value(input) as int;
        assert(body@.take(len) =~= input.subrange(4, 4 + len));
        assert(input.skip(4).skip(len) =~= input.skip(4 + len));
        match frame.supply(body.as_slice()) {
            Some(outcome) => outcome,
            None => Err(CodecError::UnexpectedEof),
        }
    }
}

} // verus!
