//! The four messages of the tunnel protocol and their spelling on the wire:
//! a little-endian length of four bytes, then a JSON object whose `type` key
//! names the message.

use crate::json::{
    as_text, as_unsigned, json_document, json_member, json_text, json_unsigned, member,
    parse_document,
};
use vstd::prelude::*;
use vstd::string::*;

verus! {

/// Largest payload, in bytes, that a frame may announce.
pub const MAX_MESSAGE_SIZE: u32 = 1_048_576;

/// Number of bytes in the length prefix of a frame.
pub const HEADER_LEN: usize = 4;

/// The four messages of the tunnel protocol.
#[derive(Clone, Copy, Debug, PartialEq, Eq, Structural)]
pub enum Message {
    /// Client to server, first message on a control channel.
    TunnelRequest { local_port: u16 },
    /// Server to client, the answer to `TunnelRequest`.
    TunnelResponse { assigned_port: u16 },
    /// Server to client: open a new data channel.
    CreateDataChannel,
    /// Liveness probe in both directions; the receiver echoes it.
    Heartbeat,
}

/// Why a frame could not be read.
#[derive(Clone, Copy, Debug, PartialEq, Eq, Structural)]
pub enum CodecError {
    /// The length prefix announces more than `MAX_MESSAGE_SIZE` bytes.
    MessageTooLarge,
    /// The payload is not a JSON object that spells one of the four messages.
    MalformedMessage,
    /// The input ended inside the length prefix or inside the payload.
    UnexpectedEof,
}

/// The bytes of an ASCII text, one per character.
pub open spec fn ascii(text: Seq<char>) -> Seq<u8> {
    Seq::new(text.len(), |i: int| text[i] as u8)
}

/// The decimal digits of `n` as ASCII bytes, without leading zeros.
pub open spec fn decimal(n: nat) -> Seq<u8>
    decreases n,
{
    if n < 10 {
        seq![(48 + n) as u8]
    } else {
        decimal(n / 10).push((48 + n % 10) as u8)
    }
}

/// The four bytes of `n`, least significant first.
pub open spec fn le32(n: nat) -> Seq<u8> {
    seq![
        (n % 256) as u8,
        (n / 256 % 256) as u8,
        (n / 65536 % 256) as u8,
        (n / 16777216 % 256) as u8,
    ]
}

/// The number that the first four bytes of `header` spell, least significant first.
pub open spec fn le32_value(header: Seq<u8>) -> nat
    recommends
        header.len() >= 4,
{
    (header[0] as nat) + 256 * (header[1] as nat) + 65536 * (header[2] as nat) + 16777216 * (
    header[3] as nat)
}

/// A payload behind its length prefix.
pub open spec fn framed(payload: Seq<u8>) -> Seq<u8> {
    le32(payload.len()) + payload
}

impl Message {
    /// The value of the `type` key under which this message travels.
    pub open spec fn tag(self) -> Seq<char> {
        match self {
            Message::TunnelRequest { .. } => "TunnelRequest"@,
            Message::TunnelResponse { .. } => "TunnelResponse"@,
            Message::CreateDataChannel => "CreateDataChannel"@,
            Message::Heartbeat => "Heartbeat"@,
        }
    }

    /// The JSON text of this message: an object with the `type` key first and
    /// the variant's field, if it has one, after it.
    pub open spec fn payload(self) -> Seq<u8> {
        match self {
            Message::TunnelRequest { local_port } => ascii(
                "{\"type\":\"TunnelRequest\",\"local_port\":"@,
            ) + decimal(local_port as nat) + ascii("}"@),
            Message::TunnelResponse { assigned_port } => ascii(
                "{\"type\":\"TunnelResponse\",\"assigned_port\":"@,
            ) + decimal(assigned_port as nat) + ascii("}"@),
            Message::CreateDataChannel => ascii("{\"type\":\"CreateDataChannel\"}"@),
            Message::Heartbeat => ascii("{\"type\":\"Heartbeat\"}"@),
        }
    }

    /// The value of the `local_port` key, for the variant that has one.
    pub open spec fn local_port_field(self) -> Option<u64> {
        match self {
            Message::TunnelRequest { local_port } => Some(local_port as u64),
            _ => None,
        }
    }

    /// The value of the `assigned_port` key, for the variant that has one.
    pub open spec fn assigned_port_field(self) -> Option<u64> {
        match self {
            Message::TunnelResponse { assigned_port } => Some(assigned_port as u64),
            _ => None,
        }
    }

    /// The message that carries `port`: a tunnel request if `request`, a
    /// tunnel response otherwise.
    pub open spec fn with_port(request: bool, port: u16) -> Message {
        if request {
            Message::TunnelRequest { local_port: port }
        } else {
            Message::TunnelResponse { assigned_port: port }
        }
    }

    /// The bytes of this message on the wire: length prefix, then payload.
    pub open spec fn frame(self) -> Seq<u8> {
        framed(self.payload())
    }
}

/// A decimal rendering of a 16-bit number has between one and five digits.
pub proof fn lemma_decimal_len(n: nat)
    requires
        n <= 65535,
    ensures
        1 <= decimal(n).len() <= 5,
{
    reveal_with_fuel(decimal, 6);
}

/// Ten to the power of `n`.
pub open spec fn pow10(n: nat) -> nat
    decreases n,
{
    if n == 0 {
        1
    } else {
        10 * pow10((n - 1) as nat)
    }
}

/// A decimal rendering consists of digits, at least one of them, and of two
/// or more from ten on.
pub proof fn lemma_decimal_digits(n: nat)
    ensures
        decimal(n).len() >= 1,
        n >= 10 ==> decimal(n).len() >= 2,
        forall|i: int| 0 <= i < decimal(n).len() ==> 48 <= #[trigger] decimal(n)[i] <= 57,
    decreases n,
{
    if n >= 10 {
        lemma_decimal_digits(n / 10);
    }
}

/// Reading a decimal rendering gives the number back.
pub proof fn lemma_digits_value_of_decimal(n: nat)
    ensures
        digits_value(decimal(n)) == n,
    decreases n,
{
    if n < 10 {
        assert(decimal(n).drop_last() =~= Seq::<u8>::empty());
        assert(digits_value(decimal(n).drop_last()) == 0);
    } else {
        lemma_digits_value_of_decimal(n / 10);
        assert(decimal(n).drop_last() =~= decimal(n / 10));
    }
}

/// Where a spelling shows which message it is of: the tenth byte is the
/// first letter of the tag, and the eighteenth tells a tunnel request from a
/// tunnel response.
pub proof fn lemma_spelling_marks(m: Message)
    ensures
        m.payload().len() >= 20,
        match m {
            Message::TunnelRequest { local_port } => {
                &&& m.payload()[9] == 84
                &&& m.payload()[17] == 113
                &&& m.payload().len() >= 39
                &&& m.payload().subrange(37, m.payload().len() - 1) == decimal(local_port as nat)
            },
            Message::TunnelResponse { assigned_port } => {
                &&& m.payload()[9] == 84
                &&& m.payload()[17] == 115
                &&& m.payload().len() >= 43
                &&& m.payload().subrange(41, m.payload().len() - 1) == decimal(
                    assigned_port as nat,
                )
            },
            Message::CreateDataChannel => m.payload()[9] == 67,
            Message::Heartbeat => m.payload()[9] == 72,
        },
{
    reveal_strlit("{\"type\":\"TunnelRequest\",\"local_port\":");
    reveal_strlit("{\"type\":\"TunnelResponse\",\"assigned_port\":");
    reveal_strlit("{\"type\":\"CreateDataChannel\"}");
    reveal_strlit("{\"type\":\"Heartbeat\"}");
    reveal_strlit("}");
    match m {
        Message::TunnelRequest { local_port } => {
            let head = ascii("{\"type\":\"TunnelRequest\",\"local_port\":"@);
            lemma_decimal_len(local_port as nat);
            assert(head.len() == 37);
            assert(m.payload()[9] == head[9]);
            assert(m.payload()[17] == head[17]);
            assert(m.payload().subrange(37, m.payload().len() - 1) =~= decimal(
                local_port as nat,
            ));
        },
        Message::TunnelResponse { assigned_port } => {
            let head = ascii("{\"type\":\"TunnelResponse\",\"assigned_port\":"@);
            lemma_decimal_len(assigned_port as nat);
            assert(head.len() == 41);
            assert(m.payload()[9] == head[9]);
            assert(m.payload()[17] == head[17]);
            assert(m.payload().subrange(41, m.payload().len() - 1) =~= decimal(
                assigned_port as nat,
            ));
        },
        Message::CreateDataChannel => {},
        Message::Heartbeat => {},
    }
}

/// Two messages with the same spelling are the same message.
pub proof fn lemma_spelling_tells_message(a: Message, b: Message)
    requires
        a.payload() == b.payload(),
    ensures
        a == b,
{
    lemma_spelling_marks(a);
    lemma_spelling_marks(b);
    match (a, b) {
        (Message::TunnelRequest { local_port: p }, Message::TunnelRequest { local_port: q }) => {
            lemma_digits_value_of_decimal(p as nat);
            lemma_digits_value_of_decimal(q as nat);
        },
        (
            Message::TunnelResponse { assigned_port: p },
            Message::TunnelResponse { assigned_port: q },
        ) => {
            lemma_digits_value_of_decimal(p as nat);
            lemma_digits_value_of_decimal(q as nat);
        },
        (Message::CreateDataChannel, Message::Heartbeat) => {
            assert(a.payload()[9] != b.payload()[9]);
        },
        _ => {},
    }
}

/// Appends the bytes of an ASCII text to `out`.
fn push_ascii(out: &mut Vec<u8>, text: &str)
    requires
        is_ascii(text),
    ensures
        final(out)@ == old(out)@ + ascii(text@),
{
    broadcast use is_ascii_spec_bytes;

    let bytes = text.as_bytes();
    assert(bytes@ =~= ascii(text@));
    out.extend_from_slice(bytes);
}

/// Appends the decimal digits of `n` to `out`.
fn push_decimal(out: &mut Vec<u8>, n: u16)
    ensures
        final(out)@ == old(out)@ + decimal(n as nat),
{
    let mut digits: Vec<u8> = Vec::new();
    let mut rest: u16 = n;
    // The digits come out last one first; `digits` collects them reversed.
    while rest >= 10
        invariant
            rest <= n,
            decimal(n as nat) == decimal(rest as nat) + digits@.reverse(),
        decreases rest,
    {
        let digit: u8 = (48 + rest % 10) as u8;
        proof {
            let d = digits@;
            assert(d.push(digit).reverse() =~= seq![digit] + d.reverse());
            assert(decimal(rest as nat) == decimal((rest / 10) as nat).push(digit));
            assert(decimal((rest / 10) as nat).push(digit) + d.reverse() =~= decimal(
                (rest / 10) as nat,
            ) + (seq![digit] + d.reverse()));
        }
        digits.push(digit);
        rest = rest / 10;
    }
    let lead: u8 = (48 + rest) as u8;
    out.push(lead);
    let ghost base = out@;
    assert(base == old(out)@ + decimal(rest as nat));
    let mut i: usize = digits.len();
    while i > 0
        invariant
            i <= digits.len(),
            out@ == base + digits@.reverse().subrange(0, digits.len() - i),
        decreases i,
    {
        i = i - 1;
        out.push(digits[i]);
        proof {
            let r = digits@.reverse();
            let k = digits.len() - i - 1;
            assert(r[k] == digits@[i as int]);
            assert(r.subrange(0, k + 1) =~= r.subrange(0, k).push(r[k]));
            assert(base + r.subrange(0, k + 1) =~= (base + r.subrange(0, k)).push(r[k]));
        }
    }
    proof {
        let r = digits@.reverse();
        assert(r.subrange(0, digits.len() as int) =~= r);
        assert(old(out)@ + decimal(rest as nat) + r =~= old(out)@ + (decimal(rest as nat) + r));
    }
}

/// Appends the four bytes of `n`, least significant first.
fn push_le32(out: &mut Vec<u8>, n: u32)
    ensures
        final(out)@ == old(out)@ + le32(n as nat),
{
    out.push((n % 256) as u8);
    out.push((n / 256 % 256) as u8);
    out.push((n / 65536 % 256) as u8);
    out.push((n / 16777216 % 256) as u8);
    assert(out@ =~= old(out)@ + le32(n as nat));
}

impl Message {
    /// A payload has between 20 and 47 bytes: the shortest is the heartbeat,
    /// the longest a tunnel response with a port of five digits.
    pub proof fn lemma_payload_len(self)
        ensures
            20 <= self.payload().len() <= 47,
    {
        reveal_strlit("{\"type\":\"TunnelRequest\",\"local_port\":");
        reveal_strlit("{\"type\":\"TunnelResponse\",\"assigned_port\":");
        reveal_strlit("{\"type\":\"CreateDataChannel\"}");
        reveal_strlit("{\"type\":\"Heartbeat\"}");
        reveal_strlit("}");
        match self {
            Message::TunnelRequest { local_port } => lemma_decimal_len(local_port as nat),
            Message::TunnelResponse { assigned_port } => lemma_decimal_len(assigned_port as nat),
            _ => {},
        }
    }

    /// The JSON text of this message.
    pub fn encode_payload(&self) -> (r: Vec<u8>)
        ensures
            r@ == self.payload(),
    {
        let mut out: Vec<u8> = Vec::new();
        proof {
            reveal_strlit("{\"type\":\"TunnelRequest\",\"local_port\":");
            reveal_strlit("{\"type\":\"TunnelResponse\",\"assigned_port\":");
            reveal_strlit("{\"type\":\"CreateDataChannel\"}");
            reveal_strlit("{\"type\":\"Heartbeat\"}");
            reveal_strlit("}");
        }
        match self {
            Message::TunnelRequest { local_port } => {
                push_ascii(&mut out, "{\"type\":\"TunnelRequest\",\"local_port\":");
                push_decimal(&mut out, *local_port);
                push_ascii(&mut out, "}");
            },
            Message::TunnelResponse { assigned_port } => {
                push_ascii(&mut out, "{\"type\":\"TunnelResponse\",\"assigned_port\":");
                push_decimal(&mut out, *assigned_port);
                push_ascii(&mut out, "}");
            },
            Message::CreateDataChannel => {
                push_ascii(&mut out, "{\"type\":\"CreateDataChannel\"}");
            },
            Message::Heartbeat => {
                push_ascii(&mut out, "{\"type\":\"Heartbeat\"}");
            },
        }
        assert(out@ =~= self.payload());
        out
    }

    /// The frame of this message: its payload behind the length prefix.
    pub fn encode(&self) -> (r: Vec<u8>)
        ensures
            r@ == self.frame(),
    {
        let payload = self.encode_payload();
        proof {
            self.lemma_payload_len();
        }
        let mut out: Vec<u8> = Vec::new();
        push_le32(&mut out, payload.len() as u32);
        out.extend_from_slice(payload.as_slice());
        assert(out@ =~= self.frame());
        out
    }

    /// Appends the frame of this message to `writer`. Writing to memory cannot
    /// fail, so the result is always `Ok`.
    pub fn write_to(&self, writer: &mut Vec<u8>) -> (r: Result<(), CodecError>)
        ensures
            r is Ok,
            final(writer)@ == old(writer)@ + self.frame(),
    {
        let frame = self.encode();
        writer.extend_from_slice(frame.as_slice());
        Ok(())
    }
}

/// The text under `key` in `doc`, where `doc` has a member there and it is a string.
pub open spec fn member_text(doc: serde_json::Value, key: Seq<char>) -> Option<Seq<char>> {
    match json_member(doc, key) {
        Some(value) => json_text(value),
        None => None,
    }
}

/// The number under `key` in `doc`, where `doc` has a member there and it is
/// a non-negative integer.
pub open spec fn member_unsigned(doc: serde_json::Value, key: Seq<char>) -> Option<u64> {
    match json_member(doc, key) {
        Some(value) => json_unsigned(value),
        None => None,
    }
}

/// A port read from a message field: present and within 16 bits.
pub open spec fn port_of(field: Option<u64>) -> Option<u16> {
    match field {
        Some(n) if n <= 65535 => Some(n as u16),
        _ => None,
    }
}

/// The message that a tag and the two port fields spell. A message needs a
/// known tag and, for the two variants that carry a port, that port's field;
/// fields that the variant does not use are ignored.
pub open spec fn message_of_fields(
    tag: Option<Seq<char>>,
    local_port: Option<u64>,
    assigned_port: Option<u64>,
) -> Result<Message, CodecError> {
    match tag {
        None => Err(CodecError::MalformedMessage),
        Some(t) => if t == "TunnelRequest"@ {
            match port_of(local_port) {
                Some(port) => Ok(Message::TunnelRequest { local_port: port }),
                None => Err(CodecError::MalformedMessage),
            }
        } else if t == "TunnelResponse"@ {
            match port_of(assigned_port) {
                Some(port) => Ok(Message::TunnelResponse { assigned_port: port }),
                None => Err(CodecError::MalformedMessage),
            }
        } else if t == "CreateDataChannel"@ {
            Ok(Message::CreateDataChannel)
        } else if t == "Heartbeat"@ {
            Ok(Message::Heartbeat)
        } else {
            Err(CodecError::MalformedMessage)
        },
    }
}

/// The message that the JSON reader finds in a payload: the payload must
/// parse as JSON, and the members `type`, `local_port` and `assigned_port` of
/// the document must spell a message.
pub open spec fn parsed(payload: Seq<u8>) -> Result<Message, CodecError> {
    match json_document(payload) {
        None => Err(CodecError::MalformedMessage),
        Some(doc) => message_of_fields(
            member_text(doc, "type"@),
            member_unsigned(doc, "local_port"@),
            member_unsigned(doc, "assigned_port"@),
        ),
    }
}

/// The message of which `payload` is this library's own spelling, if it is
/// the spelling of one.
pub open spec fn spelled(payload: Seq<u8>) -> Option<Message> {
    if exists|m: Message| #[trigger] m.payload() == payload {
        Some(choose|m: Message| #[trigger] m.payload() == payload)
    } else {
        None
    }
}

/// The message that a payload holds. A payload in this library's own
/// spelling is taken at its word, so that what the library writes it can
/// read whatever the JSON reader does; every other payload holds what the
/// JSON reader finds in it.
pub open spec fn decoded(payload: Seq<u8>) -> Result<Message, CodecError> {
    match spelled(payload) {
        Some(m) => Ok(m),
        None => parsed(payload),
    }
}

/// The number that a row of decimal digits spells.
pub open spec fn digits_value(digits: Seq<u8>) -> int
    decreases digits.len(),
{
    if digits.len() == 0 {
        0
    } else {
        digits_value(digits.drop_last()) * 10 + (digits.last() - 48)
    }
}

/// The outcome of reading one frame from the front of `input`.
pub open spec fn read_outcome(input: Seq<u8>) -> Result<Message, CodecError> {
    if input.len() < 4 {
        Err(CodecError::UnexpectedEof)
    } else if le32_value(input) > MAX_MESSAGE_SIZE {
        Err(CodecError::MessageTooLarge)
    } else if input.len() < 4 + le32_value(input) {
        Err(CodecError::UnexpectedEof)
    } else {
        decoded(input.subrange(4, 4 + le32_value(input) as int))
    }
}

/// The number of bytes that reading one frame takes from the front of
/// `input`: the whole frame when it is there, only the length prefix when it
/// announces too much, and everything when the input ends early.
pub open spec fn read_consumed(input: Seq<u8>) -> nat {
    if input.len() < 4 {
        input.len()
    } else if le32_value(input) > MAX_MESSAGE_SIZE {
        4
    } else if input.len() < 4 + le32_value(input) {
        input.len()
    } else {
        4 + le32_value(input)
    }
}

/// Whether two texts are the same.
fn same_text(a: &str, b: &str) -> (r: bool)
    ensures
        r == (a@ == b@),
{
    let x: String = a.to_owned();
    let y: String = b.to_owned();
    x == y
}

/// The port in a message field, if it is present and fits 16 bits.
fn port_from(field: Option<u64>) -> (r: Option<u16>)
    ensures
        r == port_of(field),
{
    match field {
        Some(n) => if n <= 65535 {
            Some(n as u16)
        } else {
            None
        },
        None => None,
    }
}

/// Reads the length prefix of a frame. A length above `MAX_MESSAGE_SIZE` is
/// refused here, before any byte of the payload has been asked for.
pub fn frame_length(header: [u8; 4]) -> (r: Result<usize, CodecError>)
    ensures
        match r {
            Ok(n) => n == le32_value(header@) && n <= MAX_MESSAGE_SIZE,
            Err(e) => e == CodecError::MessageTooLarge && le32_value(header@) > MAX_MESSAGE_SIZE,
        },
{
    let n: u64 = header[0] as u64 + 256 * (header[1] as u64) + 65536 * (header[2] as u64) + 16777216
        * (header[3] as u64);
    if n > MAX_MESSAGE_SIZE as u64 {
        Err(CodecError::MessageTooLarge)
    } else {
        Ok(n as usize)
    }
}

impl Message {
    /// Builds the message that a tag and the two port fields spell.
    pub fn from_fields(tag: Option<&str>, local_port: Option<u64>, assigned_port: Option<u64>) -> (r:
        Result<Message, CodecError>)
        ensures
            r == message_of_fields(
                match tag {
                    Some(t) => Some(t@),
                    None => None,
                },
                local_port,
                assigned_port,
            ),
    {
        let t = match tag {
            Some(t) => t,
            None => {
                return Err(CodecError::MalformedMessage);
            },
        };
        if same_text(t, "TunnelRequest") {
            match port_from(local_port) {
                Some(port) => Ok(Message::TunnelRequest { local_port: port }),
                None => Err(CodecError::MalformedMessage),
            }
        } else if same_text(t, "TunnelResponse") {
            match port_from(assigned_port) {
                Some(port) => Ok(Message::TunnelResponse { assigned_port: port }),
                None => Err(CodecError::MalformedMessage),
            }
        } else if same_text(t, "CreateDataChannel") {
            Ok(Message::CreateDataChannel)
        } else if same_text(t, "Heartbeat") {
            Ok(Message::Heartbeat)
        } else {
            Err(CodecError::MalformedMessage)
        }
    }

    /// The message with a port, of the kind that `request` picks, of which
    /// `payload` is the spelling.
    fn recognize_with_port(payload: &[u8], request: bool) -> (r: Option<Message>)
        ensures
            match r {
                Some(m) => m.payload() == payload@,
                None => forall|port: u16|
                    #![trigger decimal(port as nat)]
                    Message::with_port(request, port).payload() != payload@,
            },
    {
        let prefix = if request {
            "{\"type\":\"TunnelRequest\",\"local_port\":"
        } else {
            "{\"type\":\"TunnelResponse\",\"assigned_port\":"
        };
        proof {
            reveal_strlit("{\"type\":\"TunnelRequest\",\"local_port\":");
            reveal_strlit("{\"type\":\"TunnelResponse\",\"assigned_port\":");
            reveal_strlit("}");
        }
        let skip = prefix.as_bytes().len();
        let len = payload.len();
        proof {
            broadcast use is_ascii_spec_bytes;

            if request {
                assert(is_ascii("{\"type\":\"TunnelRequest\",\"local_port\":"));
            } else {
                assert(is_ascii("{\"type\":\"TunnelResponse\",\"assigned_port\":"));
            }
            assert(prefix.spec_bytes() =~= ascii(prefix@));
            assert(skip == prefix@.len());
            assert forall|port: u16|
                #![trigger decimal(port as nat)]
                Message::with_port(request, port).payload() == payload@ implies skip + 2 <= len
                <= skip + 6 && payload@.subrange(skip as int, len - 1) == decimal(port as nat) by {
                lemma_decimal_len(port as nat);
                let whole = Message::with_port(request, port).payload();
                assert(whole == ascii(prefix@) + decimal(port as nat) + ascii("}"@));
                assert(whole.subrange(skip as int, whole.len() - 1) =~= decimal(port as nat));
            }
        }
        if len < skip + 2 || len > skip + 6 {
            return None;
        }
        let port = match read_decimal(payload, skip, len - 1) {
            Some(port) => port,
            None => {
                return None;
            },
        };
        let candidate = if request {
            Message::TunnelRequest { local_port: port }
        } else {
            Message::TunnelResponse { assigned_port: port }
        };
        let spelling = candidate.encode_payload();
        if same_bytes(payload, spelling.as_slice()) {
            Some(candidate)
        } else {
            None
        }
    }

    /// The message of which `payload` is this library's own spelling.
    fn recognize(payload: &[u8]) -> (r: Option<Message>)
        ensures
            r == spelled(payload@),
    {
        let found = if same_bytes(payload, Message::Heartbeat.encode_payload().as_slice()) {
            Some(Message::Heartbeat)
        } else if same_bytes(payload, Message::CreateDataChannel.encode_payload().as_slice()) {
            Some(Message::CreateDataChannel)
        } else {
            match Message::recognize_with_port(payload, true) {
                Some(m) => Some(m),
                None => Message::recognize_with_port(payload, false),
            }
        };
        proof {
            match found {
                Some(m) => {
                    let other = choose|other: Message| #[trigger] other.payload() == payload@;
                    lemma_spelling_tells_message(m, other);
                },
                None => {
                    assert forall|m: Message| #[trigger] m.payload() != payload@ by {
                        match m {
                            Message::TunnelRequest { local_port } => {
                                assert(m == Message::with_port(true, local_port));
                                assert(decimal(local_port as nat) == decimal(local_port as nat));
                            },
                            Message::TunnelResponse { assigned_port } => {
                                assert(m == Message::with_port(false, assigned_port));
                                assert(decimal(assigned_port as nat) == decimal(
                                    assigned_port as nat,
                                ));
                            },
                            _ => {},
                        }
                    }
                },
            }
        }
        found
    }

    /// Reads a message from the payload of a frame.
    pub fn decode_payload(payload: &[u8]) -> (r: Result<Message, CodecError>)
        ensures
            r == decoded(payload@),
    {
        match Message::recognize(payload) {
            Some(m) => {
                return Ok(m);
            },
            None => {},
        }
        let doc = match parse_document(payload) {
            Ok(doc) => doc,
            Err(_) => {
                return Err(CodecError::MalformedMessage);
            },
        };
        let tag = match member(&doc, "type") {
            Some(value) => as_text(value),
            None => None,
        };
        let local_port = match member(&doc, "local_port") {
            Some(value) => as_unsigned(value),
            None => None,
        };
        let assigned_port = match member(&doc, "assigned_port") {
            Some(value) => as_unsigned(value),
            None => None,
        };
        Message::from_fields(tag, local_port, assigned_port)
    }
}

/// Whether two rows of bytes are the same.
fn same_bytes(a: &[u8], b: &[u8]) -> (r: bool)
    ensures
        r == (a@ == b@),
{
    if a.len() != b.len() {
        return false;
    }
    let mut i: usize = 0;
    while i < a.len()
        invariant
            i <= a.len(),
            a.len() == b.len(),
            forall|k: int| 0 <= k < i ==> a@[k] == b@[k],
        decreases a.len() - i,
    {
        if a[i] != b[i] {
            return false;
        }
        i = i + 1;
    }
    assert(a@ =~= b@);
    true
}

/// The port that the digits in `bytes[from..to]` spell, where they are the
/// decimal rendering of one.
fn read_decimal(bytes: &[u8], from: usize, to: usize) -> (r: Option<u16>)
    requires
        from <= to <= bytes.len(),
        to - from <= 5,
    ensures
        forall|port: u16|
            bytes@.subrange(from as int, to as int) == #[trigger] decimal(port as nat) ==> r
                == Some(port),
{
    let ghost digits = bytes@.subrange(from as int, to as int);
    let mut value: u32 = 0;
    let mut i: usize = from;
    while i < to
        invariant
            from <= i <= to <= bytes.len(),
            to - from <= 5,
            digits == bytes@.subrange(from as int, to as int),
            value == digits_value(digits.take(i - from)),
            value < pow10((i - from) as nat),
        decreases to - i,
    {
        let byte = bytes[i];
        if byte < 48 || byte > 57 {
            proof {
                assert forall|port: u16| digits != #[trigger] decimal(port as nat) by {
                    lemma_decimal_digits(port as nat);
                    assert(digits[i - from] == byte);
                }
            }
            return None;
        }
        proof {
            let k = i - from;
            assert(digits.take(k + 1).drop_last() =~= digits.take(k));
            assert(digits.take(k + 1).last() == byte);
            reveal_with_fuel(pow10, 6);
        }
        value = value * 10 + (byte - 48) as u32;
        i = i + 1;
    }
    proof {
        assert(digits.take(to - from) =~= digits);
        reveal_with_fuel(pow10, 6);
        assert forall|port: u16| digits == #[trigger] decimal(port as nat) implies value
            == port by {
            lemma_digits_value_of_decimal(port as nat);
        }
    }
    if value <= 65535 {
        Some(value as u16)
    } else {
        None
    }
}

/// The length prefix of a frame spells the length of its payload.
pub proof fn lemma_le32_value(n: nat, rest: Seq<u8>)
    requires
        n < 0x1_0000_0000,
    ensures
        le32_value(le32(n) + rest) == n,
{
    let s = le32(n) + rest;
    assert(s[0] == le32(n)[0] && s[1] == le32(n)[1] && s[2] == le32(n)[2] && s[3] == le32(n)[3]);
}

/// Reading a frame gives back the payload that was framed: whatever follows
/// the frame, the read takes the frame and nothing more, and its outcome is
/// the message in the payload.
pub proof fn lemma_frame_round_trip(payload: Seq<u8>, rest: Seq<u8>)
    requires
        payload.len() <= MAX_MESSAGE_SIZE,
    ensures
        le32_value(framed(payload) + rest) == payload.len(),
        (framed(payload) + rest).subrange(4, 4 + payload.len() as int) == payload,
        read_consumed(framed(payload) + rest) == framed(payload).len(),
        (framed(payload) + rest).skip(read_consumed(framed(payload) + rest) as int) == rest,
        read_outcome(framed(payload) + rest) == decoded(payload),
{
    let input = framed(payload) + rest;
    lemma_le32_value(payload.len(), payload + rest);
    assert(input =~= le32(payload.len()) + (payload + rest));
    assert(input.subrange(4, 4 + payload.len() as int) =~= payload);
    assert(input.skip(4 + payload.len() as int) =~= rest);
}

/// The fields that a message is written with spell that message again.
pub proof fn lemma_fields_round_trip(m: Message)
    ensures
        message_of_fields(Some(m.tag()), m.local_port_field(), m.assigned_port_field()) == Ok::<
            Message,
            CodecError,
        >(m),
{
    reveal_strlit("TunnelRequest");
    reveal_strlit("TunnelResponse");
    reveal_strlit("CreateDataChannel");
    reveal_strlit("Heartbeat");
    assert("TunnelRequest"@.len() != "TunnelResponse"@.len());
    assert("TunnelRequest"@.len() != "CreateDataChannel"@.len());
    assert("TunnelRequest"@.len() != "Heartbeat"@.len());
    assert("TunnelResponse"@.len() != "CreateDataChannel"@.len());
    assert("TunnelResponse"@.len() != "Heartbeat"@.len());
    assert("CreateDataChannel"@.len() != "Heartbeat"@.len());
}

/// What is written can be read: reading the frame of a message gives that
/// message back, takes exactly the frame from the input, and leaves what
/// follows it untouched.
pub proof fn lemma_round_trip(m: Message, rest: Seq<u8>)
    ensures
        read_outcome(m.frame() + rest) == Ok::<Message, CodecError>(m),
        read_consumed(m.frame() + rest) == m.frame().len(),
        (m.frame() + rest).skip(read_consumed(m.frame() + rest) as int) == rest,
        decoded(m.payload()) == Ok::<Message, CodecError>(m),
{
    m.lemma_payload_len();
    lemma_frame_round_trip(m.payload(), rest);
    let found = choose|found: Message| #[trigger] found.payload() == m.payload();
    lemma_spelling_tells_message(found, m);
}

/// A frame that announces more than `MAX_MESSAGE_SIZE` bytes is refused on
/// its length prefix alone: the outcome is the same whatever follows the
/// prefix, and only the prefix is taken from the input.
pub proof fn lemma_oversize_rejected(header: Seq<u8>, rest: Seq<u8>)
    requires
        header.len() == 4,
        le32_value(header) > MAX_MESSAGE_SIZE,
    ensures
        read_outcome(header + rest) == Err::<Message, CodecError>(CodecError::MessageTooLarge),
        read_consumed(header + rest) == 4,
        (header + rest).skip(read_consumed(header + rest) as int) == rest,
{
    let input = header + rest;
    assert(input[0] == header[0] && input[1] == header[1] && input[2] == header[2] && input[3]
        == header[3]);
    assert(input.skip(4) =~= rest);
}

} // verus!
