//! The frame codec: typed messages to and from wire bytes.
//!
//! A frame is one discriminant byte followed by a payload of zero to two
//! bytes, with no delimiter, length prefix or checksum; the link below is
//! expected to hand over exactly one aligned frame at a time. Two closed
//! vocabularies share this shape: [`Message`] travels from the controller
//! to the car, [`Answer`] travels back.

use vstd::prelude::*;

verus! {

/// How decoding or encoding a frame can fail. Every case is local and
/// recoverable: the caller drops the frame or asks for it again.
#[derive(Debug, PartialEq, Eq)]
pub enum TransportError {
    /// The first byte of the buffer names no variant of the vocabulary.
    InvalidDiscriminant,
    /// The discriminant is known but the payload bytes are malformed.
    InvalidPayload,
    /// The buffer is too short for the frame being written or read.
    BufferTooShort,
}

/// The two's-complement wire byte of a signed 8-bit value.
pub open spec fn byte_of_i8(v: i8) -> u8 {
    if v >= 0 {
        v as u8
    } else {
        (v + 256) as u8
    }
}

/// The signed 8-bit value a wire byte stands for, read as two's complement.
pub open spec fn i8_of_byte(b: u8) -> i8 {
    if b < 128 {
        b as i8
    } else {
        (b - 256) as i8
    }
}

/// Reading a signed value's wire byte back gives the value: the two
/// conversions are inverses.
pub proof fn lemma_i8_byte_round_trip(v: i8, b: u8)
    ensures
        i8_of_byte(byte_of_i8(v)) == v,
        byte_of_i8(i8_of_byte(b)) == b,
{
}

/// Encodes a signed 8-bit value as its two's-complement wire byte.
pub fn i8_to_wire(v: i8) -> (b: u8)
    ensures
        b == byte_of_i8(v),
{
    if v >= 0 {
        v as u8
    } else {
        ((v as i16) + 256) as u8
    }
}

/// Reads a two's-complement wire byte back as a signed 8-bit value.
pub fn wire_to_i8(b: u8) -> (v: i8)
    ensures
        v == i8_of_byte(b),
{
    if b < 128 {
        b as i8
    } else {
        ((b as i16) - 256) as i8
    }
}

/// Holds when `post` is `pre` with `data` written at index `at` and every
/// byte outside that window unchanged.
pub open spec fn seq_written(pre: Seq<u8>, post: Seq<u8>, at: int, data: Seq<u8>) -> bool {
    &&& post.len() == pre.len()
    &&& post.subrange(at, at + data.len()) == data
    &&& forall|i: int| 0 <= i < pre.len() && !(at <= i < at + data.len()) ==> post[i] == pre[i]
}

/// One closed vocabulary of typed messages and its frame codec.
///
/// A frame is `spec_serial`: the variant's discriminant byte followed by
/// its payload of at most `spec_max_payload_size` bytes. Encoding writes a
/// value's frame into a caller-owned buffer; decoding reads a frame back
/// with strict validation and never panics on malformed bytes. Every
/// implementor proves that the two directions are exact inverses.
pub trait Transport: Sized {
    /// The greatest payload length any value of the vocabulary encodes to.
    spec fn spec_max_payload_size() -> nat;

    /// The wire frame of this value: its discriminant byte, then its
    /// payload.
    spec fn spec_serial(&self) -> Seq<u8>;

    /// The value, or the error, that decoding a buffer yields.
    spec fn spec_deserialize(buffer: Seq<u8>) -> Result<Self, TransportError>;

    /// Every frame holds the discriminant and at most the vocabulary's
    /// maximum payload.
    proof fn lemma_serial_len(&self)
        ensures
            1 <= self.spec_serial().len() <= Self::spec_max_payload_size() + 1,
    ;

    /// Round trip: a value's own frame decodes back to the value itself.
    proof fn lemma_round_trip(&self)
        ensures
            Self::spec_deserialize(self.spec_serial()) == Ok::<Self, TransportError>(*self),
    ;

    /// The number of bytes this value's frame occupies on the wire.
    fn serial_size(&self) -> (n: usize)
        ensures
            n == self.spec_serial().len(),
    ;

    /// The discriminant byte of this value's variant.
    fn id(&self) -> (id: u8)
        ensures
            id == self.spec_serial()[0],
    ;

    /// Writes the payload bytes into `buffer[at..]` and returns how many
    /// were written; `BufferTooShort` leaves the buffer untouched.
    fn encode(&self, buffer: &mut [u8], at: usize) -> (r: Result<u8, TransportError>)
        ensures
            match r {
                Ok(n) => {
                    &&& at + self.spec_serial().len() - 1 <= old(buffer)@.len()
                    &&& n + 1 == self.spec_serial().len()
                    &&& seq_written(old(buffer)@, final(buffer)@, at as int, self.spec_serial().skip(1))
                },
                Err(e) => {
                    &&& e == TransportError::BufferTooShort
                    &&& at + self.spec_serial().len() - 1 > old(buffer)@.len()
                    &&& final(buffer)@ == old(buffer)@
                },
            },
    ;

    /// Writes the full frame at the start of the buffer and returns the
    /// frame length; `BufferTooShort` leaves the buffer untouched.
    fn serialize(&self, buffer: &mut [u8]) -> (r: Result<usize, TransportError>)
        ensures
            match r {
                Ok(n) => {
                    &&& self.spec_serial().len() <= old(buffer)@.len()
                    &&& n == self.spec_serial().len()
                    &&& seq_written(old(buffer)@, final(buffer)@, 0, self.spec_serial())
                },
                Err(e) => {
                    &&& e == TransportError::BufferTooShort
                    &&& self.spec_serial().len() > old(buffer)@.len()
                    &&& final(buffer)@ == old(buffer)@
                },
            },
    {
        let frame_len = self.serial_size();
        if buffer.len() < frame_len {
            return Err(TransportError::BufferTooShort);
        }
        proof {
            self.lemma_serial_len();
        }
        let ghost pre = buffer@;
        let id = self.id();
        buffer[0] = id;
        let ghost mid = buffer@;
        match self.encode(buffer, 1) {
            Ok(written) => {
                proof {
                    let s = self.spec_serial();
                    assert(buffer@.subrange(0, s.len() as int) =~= s) by {
                        assert(buffer@.subrange(1, s.len() as int) == s.skip(1));
                        assert(forall|i: int| 1 <= i < s.len() ==> buffer@[i] == s.skip(1)[i - 1]);
                        assert(buffer@[0] == mid[0] == s[0]);
                    }
                    assert(seq_written(pre, buffer@, 0, s));
                }
                Ok(1 + written as usize)
            },
            Err(_) => {
                proof {
                    // encode cannot run out of room: the length test above
                    // admitted the whole frame.
                    assert(false);
                }
                Err(TransportError::BufferTooShort)
            },
        }
    }

    /// Reads one frame from the start of the buffer back into a typed
    /// value, validating the discriminant and the payload.
    fn deserialize(buffer: &[u8]) -> (r: Result<Self, TransportError>)
        requires
            buffer@.len() >= 1,
        ensures
            r == Self::spec_deserialize(buffer@),
    ;
}

/// Greatest payload length a [`Message`] encodes to.
pub const MESSAGE_MAX_PAYLOAD_SIZE: usize = 1;

/// Bytes a buffer needs in order to hold any [`Message`] frame.
pub const MESSAGE_BUFFER_SIZE: usize = MESSAGE_MAX_PAYLOAD_SIZE + 1;

/// Messages sent by the controller to the car.
#[derive(Debug, PartialEq, Eq)]
pub enum Message {
    /// Ping the car; it answers with [`Answer::Pong`].
    Ping,
    /// Ask for the current speed; answered with [`Answer::Speed`].
    GetSpeed,
    /// Ask for the current direction; answered with [`Answer::Direction`].
    GetDirection,
    /// Ask for the battery level; answered with [`Answer::BatteryLevel`].
    GetBatteryLevel,
    /// Ask for the last ultrasonic range reading; answered with
    /// [`Answer::UltrasonicDistance`].
    GetUltrasonicDistance,
    /// Set the speed; acknowledged with [`Answer::AckSpeed`].
    SetSpeed(i8),
    /// Set the direction; acknowledged with [`Answer::AckDirection`].
    SetDirection(i8),
}

/// The discriminant byte of each [`Message`] variant: queries sit in the
/// low band, mutating commands in the high band at 100.
pub open spec fn message_id(m: Message) -> u8 {
    match m {
        Message::GetSpeed => 0,
        Message::GetDirection => 1,
        Message::GetBatteryLevel => 2,
        Message::GetUltrasonicDistance => 3,
        Message::Ping => 4,
        Message::SetSpeed(_) => 100,
        Message::SetDirection(_) => 101,
    }
}

/// The payload bytes of each [`Message`] variant.
pub open spec fn message_payload(m: Message) -> Seq<u8> {
    match m {
        Message::SetSpeed(v) => seq![byte_of_i8(v)],
        Message::SetDirection(v) => seq![byte_of_i8(v)],
        _ => seq![],
    }
}

/// Which bytes name a [`Message`] variant.
pub open spec fn message_known_id(b: u8) -> bool {
    b == 0 || b == 1 || b == 2 || b == 3 || b == 4 || b == 100 || b == 101
}

impl Transport for Message {
    open spec fn spec_max_payload_size() -> nat {
        MESSAGE_MAX_PAYLOAD_SIZE as nat
    }

    open spec fn spec_serial(&self) -> Seq<u8> {
        seq![message_id(*self)] + message_payload(*self)
    }

    open spec fn spec_deserialize(buffer: Seq<u8>) -> Result<Message, TransportError> {
        if buffer.len() < 1 {
            Err(TransportError::BufferTooShort)
        } else if buffer[0] == 0 {
            Ok(Message::GetSpeed)
        } else if buffer[0] == 1 {
            Ok(Message::GetDirection)
        } else if buffer[0] == 2 {
            Ok(Message::GetBatteryLevel)
        } else if buffer[0] == 3 {
            Ok(Message::GetUltrasonicDistance)
        } else if buffer[0] == 4 {
            Ok(Message::Ping)
        } else if buffer[0] == 100 {
            if buffer.len() < 2 {
                Err(TransportError::BufferTooShort)
            } else {
                Ok(Message::SetSpeed(i8_of_byte(buffer[1])))
            }
        } else if buffer[0] == 101 {
            if buffer.len() < 2 {
                Err(TransportError::BufferTooShort)
            } else {
                Ok(Message::SetDirection(i8_of_byte(buffer[1])))
            }
        } else {
            Err(TransportError::InvalidDiscriminant)
        }
    }

    proof fn lemma_serial_len(&self) {
        match *self {
            Message::SetSpeed(_) | Message::SetDirection(_) => {
                assert(Self::spec_max_payload_size() == 1);
            },
            _ => (),
        }
    }

    proof fn lemma_round_trip(&self) {
        match *self {
            Message::SetSpeed(v) => lemma_i8_byte_round_trip(v, 0),
            Message::SetDirection(v) => lemma_i8_byte_round_trip(v, 0),
            _ => (),
        }
    }

    fn serial_size(&self) -> (n: usize) {
        match self {
            Message::SetSpeed(_) | Message::SetDirection(_) => 2,
            _ => 1,
        }
    }

    fn id(&self) -> (id: u8) {
        match self {
            Message::GetSpeed => 0,
            Message::GetDirection => 1,
            Message::GetBatteryLevel => 2,
            Message::GetUltrasonicDistance => 3,
            Message::Ping => 4,
            Message::SetSpeed(_) => 100,
            Message::SetDirection(_) => 101,
        }
    }

    fn encode(&self, buffer: &mut [u8], at: usize) -> (r: Result<u8, TransportError>) {
        match self {
            Message::SetSpeed(v) | Message::SetDirection(v) => {
                if at >= buffer.len() {
                    return Err(TransportError::BufferTooShort);
                }
                buffer[at] = i8_to_wire(*v);
                proof {
                    assert(buffer@.subrange(at as int, at + 1) =~= self.spec_serial().skip(1));
                }
                Ok(1)
            },
            _ => {
                if at > buffer.len() {
                    return Err(TransportError::BufferTooShort);
                }
                proof {
                    assert(buffer@.subrange(at as int, at as int) =~= self.spec_serial().skip(1));
                }
                Ok(0)
            },
        }
    }

    fn deserialize(buffer: &[u8]) -> (r: Result<Message, TransportError>) {
        match buffer[0] {
            0 => Ok(Message::GetSpeed),
            1 => Ok(Message::GetDirection),
            2 => Ok(Message::GetBatteryLevel),
            3 => Ok(Message::GetUltrasonicDistance),
            4 => Ok(Message::Ping),
            100 => {
                if buffer.len() < 2 {
                    Err(TransportError::BufferTooShort)
                } else {
                    Ok(Message::SetSpeed(wire_to_i8(buffer[1])))
                }
            },
            101 => {
                if buffer.len() < 2 {
                    Err(TransportError::BufferTooShort)
                } else {
                    Ok(Message::SetDirection(wire_to_i8(buffer[1])))
                }
            },
            _ => Err(TransportError::InvalidDiscriminant),
        }
    }
}

/// Greatest payload length an [`Answer`] encodes to.
pub const ANSWER_MAX_PAYLOAD_SIZE: usize = 2;

/// Bytes a buffer needs in order to hold any [`Answer`] frame.
pub const ANSWER_BUFFER_SIZE: usize = ANSWER_MAX_PAYLOAD_SIZE + 1;

/// Messages sent by the car back to the controller.
#[derive(Debug, PartialEq, Eq)]
pub enum Answer {
    /// Acknowledge a [`Message::Ping`]; also serves as a liveness check.
    Pong,
    /// The current speed, answering [`Message::GetSpeed`].
    Speed(i8),
    /// The current direction, answering [`Message::GetDirection`].
    Direction(i8),
    /// The battery level, answering [`Message::GetBatteryLevel`].
    BatteryLevel(u8),
    /// The last ultrasonic range reading, answering
    /// [`Message::GetUltrasonicDistance`]; `None` when nothing was
    /// measured yet.
    UltrasonicDistance(Option<u8>),
    /// Acknowledge a [`Message::SetSpeed`].
    AckSpeed,
    /// Acknowledge a [`Message::SetDirection`].
    AckDirection,
}

/// The discriminant byte of each [`Answer`] variant: replies sit in the
/// low band, acknowledgements in the high band at 100.
pub open spec fn answer_id(a: Answer) -> u8 {
    match a {
        Answer::Speed(_) => 0,
        Answer::Direction(_) => 1,
        Answer::BatteryLevel(_) => 2,
        Answer::UltrasonicDistance(_) => 3,
        Answer::Pong => 4,
        Answer::AckSpeed => 100,
        Answer::AckDirection => 101,
    }
}

/// The payload bytes of each [`Answer`] variant. An absent ultrasonic
/// reading still fills both payload bytes, with a zero value byte.
pub open spec fn answer_payload(a: Answer) -> Seq<u8> {
    match a {
        Answer::Speed(v) => seq![byte_of_i8(v)],
        Answer::Direction(v) => seq![byte_of_i8(v)],
        Answer::BatteryLevel(level) => seq![level],
        Answer::UltrasonicDistance(None) => seq![0u8, 0u8],
        Answer::UltrasonicDistance(Some(d)) => seq![1u8, d],
        _ => seq![],
    }
}

/// Which bytes name an [`Answer`] variant.
pub open spec fn answer_known_id(b: u8) -> bool {
    b == 0 || b == 1 || b == 2 || b == 3 || b == 4 || b == 100 || b == 101
}

impl Transport for Answer {
    open spec fn spec_max_payload_size() -> nat {
        ANSWER_MAX_PAYLOAD_SIZE as nat
    }

    open spec fn spec_serial(&self) -> Seq<u8> {
        seq![answer_id(*self)] + answer_payload(*self)
    }

    open spec fn spec_deserialize(buffer: Seq<u8>) -> Result<Answer, TransportError> {
        if buffer.len() < 1 {
            Err(TransportError::BufferTooShort)
        } else if buffer[0] == 0 {
            if buffer.len() < 2 {
                Err(TransportError::BufferTooShort)
            } else {
                Ok(Answer::Speed(i8_of_byte(buffer[1])))
            }
        } else if buffer[0] == 1 {
            if buffer.len() < 2 {
                Err(TransportError::BufferTooShort)
            } else {
                Ok(Answer::Direction(i8_of_byte(buffer[1])))
            }
        } else if buffer[0] == 2 {
            if buffer.len() < 2 {
                Err(TransportError::BufferTooShort)
            } else {
                Ok(Answer::BatteryLevel(buffer[1]))
            }
        } else if buffer[0] == 3 {
            if buffer.len() < 3 {
                Err(TransportError::BufferTooShort)
            } else if buffer[1] == 0 {
                Ok(Answer::UltrasonicDistance(None))
            } else if buffer[1] == 1 {
                Ok(Answer::UltrasonicDistance(Some(buffer[2])))
            } else {
                Err(TransportError::InvalidPayload)
            }
        } else if buffer[0] == 4 {
            Ok(Answer::Pong)
        } else if buffer[0] == 100 {
            Ok(Answer::AckSpeed)
        } else if buffer[0] == 101 {
            Ok(Answer::AckDirection)
        } else {
            Err(TransportError::InvalidDiscriminant)
        }
    }

    proof fn lemma_serial_len(&self) {
        match *self {
            Answer::UltrasonicDistance(_) => {
                assert(Self::spec_max_payload_size() == 2);
            },
            Answer::Speed(_) | Answer::Direction(_) | Answer::BatteryLevel(_) => {
                assert(Self::spec_max_payload_size() == 2);
            },
            _ => {
                assert(Self::spec_max_payload_size() == 2);
            },
        }
    }

    proof fn lemma_round_trip(&self) {
        match *self {
            Answer::Speed(v) => lemma_i8_byte_round_trip(v, 0),
            Answer::Direction(v) => lemma_i8_byte_round_trip(v, 0),
            _ => (),
        }
    }

    fn serial_size(&self) -> (n: usize) {
        match self {
            Answer::UltrasonicDistance(_) => 3,
            Answer::Speed(_) | Answer::Direction(_) | Answer::BatteryLevel(_) => 2,
            _ => 1,
        }
    }

    fn id(&self) -> (id: u8) {
        match self {
            Answer::Speed(_) => 0,
            Answer::Direction(_) => 1,
            Answer::BatteryLevel(_) => 2,
            Answer::UltrasonicDistance(_) => 3,
            Answer::Pong => 4,
            Answer::AckSpeed => 100,
            Answer::AckDirection => 101,
        }
    }

    fn encode(&self, buffer: &mut [u8], at: usize) -> (r: Result<u8, TransportError>) {
        match self {
            Answer::Speed(v) | Answer::Direction(v) => {
                if at >= buffer.len() {
                    return Err(TransportError::BufferTooShort);
                }
                buffer[at] = i8_to_wire(*v);
                proof {
                    assert(buffer@.subrange(at as int, at + 1) =~= self.spec_serial().skip(1));
                }
                Ok(1)
            },
            Answer::BatteryLevel(level) => {
                if at >= buffer.len() {
                    return Err(TransportError::BufferTooShort);
                }
                buffer[at] = *level;
                proof {
                    assert(buffer@.subrange(at as int, at + 1) =~= self.spec_serial().skip(1));
                }
                Ok(1)
            },
            Answer::UltrasonicDistance(distance) => {
                if at >= buffer.len() || at + 1 >= buffer.len() {
                    return Err(TransportError::BufferTooShort);
                }
                match distance {
                    Some(d) => {
                        buffer[at] = 1;
                        buffer[at + 1] = *d;
                    },
                    None => {
                        buffer[at] = 0;
                        buffer[at + 1] = 0;
                    },
                }
                proof {
                    assert(buffer@.subrange(at as int, at + 2) =~= self.spec_serial().skip(1));
                }
                Ok(2)
            },
            _ => {
                if at > buffer.len() {
                    return Err(TransportError::BufferTooShort);
                }
                proof {
                    assert(buffer@.subrange(at as int, at as int) =~= self.spec_serial().skip(1));
                }
                Ok(0)
            },
        }
    }

    fn deserialize(buffer: &[u8]) -> (r: Result<Answer, TransportError>) {
        match buffer[0] {
            0 => {
                if buffer.len() < 2 {
                    Err(TransportError::BufferTooShort)
                } else {
                    Ok(Answer::Speed(wire_to_i8(buffer[1])))
                }
            },
            1 => {
                if buffer.len() < 2 {
                    Err(TransportError::BufferTooShort)
                } else {
                    Ok(Answer::Direction(wire_to_i8(buffer[1])))
                }
            },
            2 => {
                if buffer.len() < 2 {
                    Err(TransportError::BufferTooShort)
                } else {
                    Ok(Answer::BatteryLevel(buffer[1]))
                }
            },
            3 => {
                if buffer.len() < 3 {
                    Err(TransportError::BufferTooShort)
                } else {
                    match buffer[1] {
                        0 => Ok(Answer::UltrasonicDistance(None)),
                        1 => Ok(Answer::UltrasonicDistance(Some(buffer[2]))),
                        _ => Err(TransportError::InvalidPayload),
                    }
                }
            },
            4 => Ok(Answer::Pong),
            100 => Ok(Answer::AckSpeed),
            101 => Ok(Answer::AckDirection),
            _ => Err(TransportError::InvalidDiscriminant),
        }
    }
}

/// Holds when the two messages are of the same variant, whatever payload
/// each carries.
pub open spec fn message_same_variant(a: Message, b: Message) -> bool {
    match (a, b) {
        (Message::Ping, Message::Ping) => true,
        (Message::GetSpeed, Message::GetSpeed) => true,
        (Message::GetDirection, Message::GetDirection) => true,
        (Message::GetBatteryLevel, Message::GetBatteryLevel) => true,
        (Message::GetUltrasonicDistance, Message::GetUltrasonicDistance) => true,
        (Message::SetSpeed(_), Message::SetSpeed(_)) => true,
        (Message::SetDirection(_), Message::SetDirection(_)) => true,
        _ => false,
    }
}

/// Holds when the two answers are of the same variant, whatever payload
/// each carries.
pub open spec fn answer_same_variant(a: Answer, b: Answer) -> bool {
    match (a, b) {
        (Answer::Pong, Answer::Pong) => true,
        (Answer::Speed(_), Answer::Speed(_)) => true,
        (Answer::Direction(_), Answer::Direction(_)) => true,
        (Answer::BatteryLevel(_), Answer::BatteryLevel(_)) => true,
        (Answer::UltrasonicDistance(_), Answer::UltrasonicDistance(_)) => true,
        (Answer::AckSpeed, Answer::AckSpeed) => true,
        (Answer::AckDirection, Answer::AckDirection) => true,
        _ => false,
    }
}

/// No two [`Message`] variants share a discriminant byte: equal
/// discriminants mean the same variant.
pub proof fn lemma_message_discriminants_unique(a: Message, b: Message)
    ensures
        message_id(a) == message_id(b) ==> message_same_variant(a, b),
{
}

/// No two [`Answer`] variants share a discriminant byte: equal
/// discriminants mean the same variant.
pub proof fn lemma_answer_discriminants_unique(a: Answer, b: Answer)
    ensures
        answer_id(a) == answer_id(b) ==> answer_same_variant(a, b),
{
}

/// `MESSAGE_MAX_PAYLOAD_SIZE` is the true maximum: every [`Message`]
/// payload fits it and some payload reaches it, so no frame outgrows
/// `MESSAGE_BUFFER_SIZE`.
pub proof fn lemma_message_max_payload_size()
    ensures
        forall|m: Message| (#[trigger] message_payload(m)).len() <= MESSAGE_MAX_PAYLOAD_SIZE,
        exists|m: Message| (#[trigger] message_payload(m)).len() == MESSAGE_MAX_PAYLOAD_SIZE,
        forall|m: Message| (#[trigger] m.spec_serial()).len() <= MESSAGE_BUFFER_SIZE,
{
    assert(message_payload(Message::SetSpeed(0)).len() == MESSAGE_MAX_PAYLOAD_SIZE);
    assert forall|m: Message| (#[trigger] m.spec_serial()).len() <= MESSAGE_BUFFER_SIZE by {
        m.lemma_serial_len();
    }
}

/// `ANSWER_MAX_PAYLOAD_SIZE` is the true maximum: every [`Answer`]
/// payload fits it and some payload reaches it, so no frame outgrows
/// `ANSWER_BUFFER_SIZE`.
pub proof fn lemma_answer_max_payload_size()
    ensures
        forall|a: Answer| (#[trigger] answer_payload(a)).len() <= ANSWER_MAX_PAYLOAD_SIZE,
        exists|a: Answer| (#[trigger] answer_payload(a)).len() == ANSWER_MAX_PAYLOAD_SIZE,
        forall|a: Answer| (#[trigger] a.spec_serial()).len() <= ANSWER_BUFFER_SIZE,
{
    assert(answer_payload(Answer::UltrasonicDistance(None)).len() == ANSWER_MAX_PAYLOAD_SIZE);
    assert forall|a: Answer| (#[trigger] a.spec_serial()).len() <= ANSWER_BUFFER_SIZE by {
        a.lemma_serial_len();
    }
}

/// A buffer whose first byte names no [`Message`] variant decodes to
/// `InvalidDiscriminant`, whatever follows that byte.
pub proof fn lemma_message_unknown_id_rejected(buffer: Seq<u8>)
    requires
        buffer.len() >= 1,
        !message_known_id(buffer[0]),
    ensures
        Message::spec_deserialize(buffer) == Err::<Message, TransportError>(
            TransportError::InvalidDiscriminant,
        ),
{
}

/// A buffer whose first byte names no [`Answer`] variant decodes to
/// `InvalidDiscriminant`, whatever follows that byte.
pub proof fn lemma_answer_unknown_id_rejected(buffer: Seq<u8>)
    requires
        buffer.len() >= 1,
        !answer_known_id(buffer[0]),
    ensures
        Answer::spec_deserialize(buffer) == Err::<Answer, TransportError>(
            TransportError::InvalidDiscriminant,
        ),
{
}

/// An ultrasonic-distance frame whose presence byte is neither 0 nor 1
/// decodes to `InvalidPayload`, whatever its value byte holds.
pub proof fn lemma_answer_bad_presence_rejected(buffer: Seq<u8>)
    requires
        buffer.len() >= 3,
        buffer[0] == answer_id(Answer::UltrasonicDistance(None)),
        buffer[1] != 0,
        buffer[1] != 1,
    ensures
        Answer::spec_deserialize(buffer) == Err::<Answer, TransportError>(
            TransportError::InvalidPayload,
        ),
{
}

} // verus!
