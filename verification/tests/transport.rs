use car_transport::transport::{
    Answer, Message, Transport, TransportError, ANSWER_BUFFER_SIZE, ANSWER_MAX_PAYLOAD_SIZE,
    MESSAGE_BUFFER_SIZE, MESSAGE_MAX_PAYLOAD_SIZE,
};

#[test]
fn message_max_payload_size_is_right() {
    let messages = [
        Message::GetSpeed,
        Message::GetDirection,
        Message::GetBatteryLevel,
        Message::GetUltrasonicDistance,
        Message::SetSpeed(0),
        Message::SetDirection(0),
    ];

    let mut buffer = [0u8; MESSAGE_MAX_PAYLOAD_SIZE + 1];

    let max_length = messages
        .iter()
        .map(|message| message.encode(&mut buffer, 0).unwrap())
        .max()
        .unwrap();

    assert_eq!(usize::from(max_length), MESSAGE_MAX_PAYLOAD_SIZE);
}

#[test]
fn answer_max_payload_size_is_right() {
    let messages = [
        Answer::Speed(0),
        Answer::Direction(0),
        Answer::BatteryLevel(0),
        Answer::UltrasonicDistance(None),
        Answer::AckSpeed,
        Answer::AckDirection,
    ];

    let mut buffer = [0u8; ANSWER_MAX_PAYLOAD_SIZE];

    let max_length = messages
        .iter()
        .map(|message| message.encode(&mut buffer, 0).unwrap())
        .max()
        .unwrap();

    assert_eq!(usize::from(max_length), ANSWER_MAX_PAYLOAD_SIZE);
}

#[test]
fn can_serialize_message() {
    let message = Message::GetSpeed;
    let mut buffer = [0u8; MESSAGE_MAX_PAYLOAD_SIZE + 1];

    let length = message.serialize(&mut buffer).unwrap();
    assert_eq!(length, 1);
    assert_eq!(&buffer[..length], &[0u8]);

    let message = Message::deserialize(&buffer[..length]).unwrap();
    assert_eq!(message, Message::GetSpeed);
}

#[test]
fn can_serialize_message_with_data() {
    let message = Message::SetSpeed(100);
    let mut buffer = [0u8; MESSAGE_MAX_PAYLOAD_SIZE + 1];

    let length = message.serialize(&mut buffer).unwrap();
    assert_eq!(length, 2);
    assert_eq!(&buffer[..length], &[100u8, 100i8.to_be_bytes()[0]]);

    let message = Message::deserialize(&buffer[..length]).unwrap();
    assert_eq!(message, Message::SetSpeed(100));
}

#[test]
fn can_serialize_answer() {
    let answer = Answer::AckSpeed;
    let mut buffer = [0u8; ANSWER_MAX_PAYLOAD_SIZE + 1];

    let length = answer.serialize(&mut buffer).unwrap();
    assert_eq!(length, 1);
    assert_eq!(&buffer[..length], &[100u8]);

    let deserialized_message = Answer::deserialize(&buffer[..length]).unwrap();
    assert_eq!(deserialized_message, Answer::AckSpeed);
}

#[test]
fn can_serialize_answer_with_data() {
    let answer = Answer::Direction(100);
    let mut buffer = [0u8; MESSAGE_MAX_PAYLOAD_SIZE + 1];

    let length = answer.serialize(&mut buffer).unwrap();
    assert_eq!(length, 2);
    assert_eq!(&buffer[..length], &[1u8, 100i8.to_be_bytes()[0]]);

    let answer = Answer::deserialize(&buffer[..length]).unwrap();
    assert_eq!(answer, Answer::Direction(100));
}

#[test]
fn can_serialize_message_with_signed_integer() {
    let answer = Answer::Direction(-100);
    let mut buffer = [0u8; MESSAGE_MAX_PAYLOAD_SIZE + 1];

    let length = answer.serialize(&mut buffer).unwrap();
    assert_eq!(length, 2);
    assert_eq!(&buffer[..length], &[1u8, (-100i8).to_be_bytes()[0]]);

    let answer = Answer::deserialize(&buffer[..length]).unwrap();
    assert_eq!(answer, Answer::Direction(-100));
}

#[test]
fn buffer_size_covers_payload_and_id() {
    assert_eq!(MESSAGE_BUFFER_SIZE, MESSAGE_MAX_PAYLOAD_SIZE + 1);
    assert_eq!(ANSWER_BUFFER_SIZE, ANSWER_MAX_PAYLOAD_SIZE + 1);
}

#[test]
fn every_message_round_trips() {
    let messages = [
        Message::Ping,
        Message::GetSpeed,
        Message::GetDirection,
        Message::GetBatteryLevel,
        Message::GetUltrasonicDistance,
        Message::SetSpeed(-128),
        Message::SetSpeed(-100),
        Message::SetSpeed(0),
        Message::SetSpeed(127),
        Message::SetDirection(-1),
        Message::SetDirection(42),
    ];
    for message in messages {
        let mut buffer = [0u8; MESSAGE_BUFFER_SIZE];
        let length = message.serialize(&mut buffer).unwrap();
        assert_eq!(Message::deserialize(&buffer[..length]).unwrap(), message);
    }
}

#[test]
fn every_answer_round_trips() {
    let answers = [
        Answer::Pong,
        Answer::Speed(-128),
        Answer::Speed(127),
        Answer::Direction(-100),
        Answer::BatteryLevel(0),
        Answer::BatteryLevel(255),
        Answer::UltrasonicDistance(None),
        Answer::UltrasonicDistance(Some(0)),
        Answer::UltrasonicDistance(Some(255)),
        Answer::AckSpeed,
        Answer::AckDirection,
    ];
    for answer in answers {
        let mut buffer = [0u8; ANSWER_BUFFER_SIZE];
        let length = answer.serialize(&mut buffer).unwrap();
        assert_eq!(Answer::deserialize(&buffer[..length]).unwrap(), answer);
    }
}

#[test]
fn message_discriminants_are_unique() {
    let messages = [
        Message::Ping,
        Message::GetSpeed,
        Message::GetDirection,
        Message::GetBatteryLevel,
        Message::GetUltrasonicDistance,
        Message::SetSpeed(0),
        Message::SetDirection(0),
    ];
    let ids: Vec<u8> = messages.iter().map(Message::id).collect();
    for (i, a) in ids.iter().enumerate() {
        for (j, b) in ids.iter().enumerate() {
            if i != j {
                assert_ne!(a, b);
            }
        }
    }
}

#[test]
fn answer_discriminants_are_unique() {
    let answers = [
        Answer::Pong,
        Answer::Speed(0),
        Answer::Direction(0),
        Answer::BatteryLevel(0),
        Answer::UltrasonicDistance(None),
        Answer::AckSpeed,
        Answer::AckDirection,
    ];
    let ids: Vec<u8> = answers.iter().map(Answer::id).collect();
    for (i, a) in ids.iter().enumerate() {
        for (j, b) in ids.iter().enumerate() {
            if i != j {
                assert_ne!(a, b);
            }
        }
    }
}

#[test]
fn negative_speed_uses_twos_complement() {
    let message = Message::SetSpeed(-100);
    let mut buffer = [0u8; MESSAGE_BUFFER_SIZE];

    let length = message.serialize(&mut buffer).unwrap();
    assert_eq!(&buffer[..length], &[0x64, 0x9C]);
    assert_eq!(Message::deserialize(&buffer[..length]).unwrap(), Message::SetSpeed(-100));
}

#[test]
fn absent_distance_zeroes_both_payload_bytes() {
    let answer = Answer::UltrasonicDistance(None);
    let mut buffer = [0xAAu8; ANSWER_BUFFER_SIZE];

    let length = answer.serialize(&mut buffer).unwrap();
    assert_eq!(&buffer[..length], &[3, 0x00, 0x00]);
    assert_eq!(Answer::deserialize(&buffer[..length]).unwrap(), answer);
}

#[test]
fn present_distance_carries_flag_and_value() {
    let answer = Answer::UltrasonicDistance(Some(42));
    let mut buffer = [0u8; ANSWER_BUFFER_SIZE];

    let length = answer.serialize(&mut buffer).unwrap();
    assert_eq!(&buffer[..length], &[3, 0x01, 0x2A]);
    assert_eq!(Answer::deserialize(&buffer[..length]).unwrap(), answer);
}

#[test]
fn unknown_discriminant_is_rejected() {
    assert_eq!(Message::deserialize(&[0xFF]), Err(TransportError::InvalidDiscriminant));
    assert_eq!(Answer::deserialize(&[0xFF]), Err(TransportError::InvalidDiscriminant));
    assert_eq!(Message::deserialize(&[5]), Err(TransportError::InvalidDiscriminant));
    assert_eq!(Answer::deserialize(&[99, 1, 2]), Err(TransportError::InvalidDiscriminant));
}

#[test]
fn bad_presence_flag_is_rejected() {
    assert_eq!(Answer::deserialize(&[3, 2, 0]), Err(TransportError::InvalidPayload));
    assert_eq!(Answer::deserialize(&[3, 0xFF, 42]), Err(TransportError::InvalidPayload));
}

#[test]
fn truncated_payload_is_rejected_not_a_crash() {
    assert_eq!(Message::deserialize(&[100]), Err(TransportError::BufferTooShort));
    assert_eq!(Message::deserialize(&[101]), Err(TransportError::BufferTooShort));
    assert_eq!(Answer::deserialize(&[0]), Err(TransportError::BufferTooShort));
    assert_eq!(Answer::deserialize(&[3]), Err(TransportError::BufferTooShort));
    assert_eq!(Answer::deserialize(&[3, 1]), Err(TransportError::BufferTooShort));
}

#[test]
fn serialize_into_short_buffer_is_rejected() {
    let mut buffer = [7u8; 1];
    assert_eq!(
        Message::SetSpeed(5).serialize(&mut buffer),
        Err(TransportError::BufferTooShort)
    );
    assert_eq!(buffer, [7u8; 1]);

    let mut buffer = [9u8; 2];
    assert_eq!(
        Answer::UltrasonicDistance(Some(1)).serialize(&mut buffer),
        Err(TransportError::BufferTooShort)
    );
    assert_eq!(buffer, [9u8; 2]);
}

#[test]
fn serialize_leaves_bytes_past_the_frame_alone() {
    let mut buffer = [0x55u8; 4];
    let length = Answer::Pong.serialize(&mut buffer).unwrap();
    assert_eq!(length, 1);
    assert_eq!(buffer, [4, 0x55, 0x55, 0x55]);
}

#[test]
fn ping_and_pong_round_trip() {
    let mut buffer = [0u8; MESSAGE_BUFFER_SIZE];
    let length = Message::Ping.serialize(&mut buffer).unwrap();
    assert_eq!(length, 1);
    assert_eq!(Message::deserialize(&buffer[..length]).unwrap(), Message::Ping);

    let mut buffer = [0u8; ANSWER_BUFFER_SIZE];
    let length = Answer::Pong.serialize(&mut buffer).unwrap();
    assert_eq!(length, 1);
    assert_eq!(Answer::deserialize(&buffer[..length]).unwrap(), Answer::Pong);
}

#[test]
fn battery_level_is_plain_binary() {
    let answer = Answer::BatteryLevel(200);
    let mut buffer = [0u8; ANSWER_BUFFER_SIZE];

    let length = answer.serialize(&mut buffer).unwrap();
    assert_eq!(&buffer[..length], &[2, 200]);
    assert_eq!(Answer::deserialize(&buffer[..length]).unwrap(), answer);
}

#[test]
fn serial_size_matches_serialized_length() {
    let mut buffer = [0u8; ANSWER_BUFFER_SIZE];
    let answers = [
        Answer::Pong,
        Answer::Speed(3),
        Answer::UltrasonicDistance(Some(9)),
    ];
    for answer in answers {
        assert_eq!(answer.serial_size(), answer.serialize(&mut buffer).unwrap());
    }
}

#[test]
fn extra_trailing_bytes_are_ignored_by_decode() {
    assert_eq!(Message::deserialize(&[0, 0xAB]).unwrap(), Message::GetSpeed);
    assert_eq!(Answer::deserialize(&[100, 1, 2]).unwrap(), Answer::AckSpeed);
}
