//! The concrete wire messages, the placeholder directions, the log
//! level policy and the admission bookkeeping.

use overcast_core::admission::{AdmissionControl, AdmissionDecision};
use overcast_core::log::{format_log_line, LogLevel};
use overcast_core::message::{
    const_max, ClientToServerTcpMessage, ClientToServerUdpMessage, Header,
    ServerToClientTcpMessage, ServerToClientUdpMessage, HEADER_SERIALIZED_SIZE,
    MAX_CLIENT_MESSAGE_SIZE, MAX_SERVER_MESSAGE_SIZE,
};
use overcast_core::serialization::{DecodeError, Serializable};

#[test]
fn tcp_message_tags_are_declaration_order() {
    let mut buffer = vec![0u8; 1];
    for (message, tag) in [
        (ServerToClientTcpMessage::WelcomeIn, 0u8),
        (ServerToClientTcpMessage::ServerFull, 1u8),
        (ServerToClientTcpMessage::ServerClosing, 2u8),
    ] {
        let written = message.serialize(&mut buffer, 0);
        assert_eq!(written, 1);
        assert_eq!(buffer[0], tag);
        assert_eq!(ServerToClientTcpMessage::deserialize(&buffer), Ok(message));
    }
}

#[test]
fn tcp_message_decode_failures() {
    assert_eq!(
        ServerToClientTcpMessage::deserialize(&[]),
        Err(DecodeError::SourceTooShort)
    );
    assert_eq!(
        ServerToClientTcpMessage::deserialize(&[3]),
        Err(DecodeError::UnrecognizedTag)
    );
    assert_eq!(
        ServerToClientTcpMessage::deserialize(&[255]),
        Err(DecodeError::UnrecognizedTag)
    );
}

#[test]
fn placeholder_directions_never_decode() {
    assert_eq!(ServerToClientUdpMessage::max_bin_size(), 1);
    assert_eq!(ClientToServerTcpMessage::max_bin_size(), 1);
    assert_eq!(ClientToServerUdpMessage::max_bin_size(), 1);

    assert_eq!(
        ServerToClientUdpMessage::deserialize(&[]).unwrap_err(),
        DecodeError::SourceTooShort
    );
    for tag in [0u8, 1, 200, 255] {
        assert_eq!(
            ServerToClientUdpMessage::deserialize(&[tag]).unwrap_err(),
            DecodeError::UnrecognizedTag
        );
        assert_eq!(
            ClientToServerTcpMessage::deserialize(&[tag]).unwrap_err(),
            DecodeError::UnrecognizedTag
        );
        assert_eq!(
            ClientToServerUdpMessage::deserialize(&[tag]).unwrap_err(),
            DecodeError::UnrecognizedTag
        );
    }
}

#[test]
fn size_constants_cover_the_directions() {
    assert_eq!(HEADER_SERIALIZED_SIZE, Header::max_bin_size());
    assert_eq!(
        MAX_SERVER_MESSAGE_SIZE,
        const_max(
            ServerToClientTcpMessage::max_bin_size(),
            ServerToClientUdpMessage::max_bin_size()
        )
    );
    assert_eq!(
        MAX_CLIENT_MESSAGE_SIZE,
        const_max(
            ClientToServerTcpMessage::max_bin_size(),
            ClientToServerUdpMessage::max_bin_size()
        )
    );
    assert_eq!(const_max(3, 11), 11);
    assert_eq!(const_max(11, 3), 11);
    assert_eq!(const_max(4, 4), 4);
}

#[test]
fn log_levels_order_by_severity() {
    assert!(LogLevel::Critical.passes(LogLevel::Critical));
    assert!(!LogLevel::Warning.passes(LogLevel::Critical));
    assert!(LogLevel::Warning.passes(LogLevel::Info));
    assert!(LogLevel::Info.passes(LogLevel::Info));
    assert!(!LogLevel::Debug.passes(LogLevel::Info));
    assert!(LogLevel::Debug.passes(LogLevel::Debug));
}

#[test]
fn log_level_names() {
    assert_eq!(LogLevel::Critical.name(), "CRITICAL");
    assert_eq!(LogLevel::Warning.name(), "WARNING");
    assert_eq!(LogLevel::Info.name(), "INFO");
    assert_eq!(LogLevel::Debug.name(), "DEBUG");
}

#[test]
fn log_line_layout() {
    assert_eq!(
        format_log_line(LogLevel::Info, "logger_1 message_1"),
        "#INFO: logger_1 message_1\n"
    );
    assert_eq!(
        format_log_line(LogLevel::Critical, "logger_2 message_1"),
        "#CRITICAL: logger_2 message_1\n"
    );
}

#[test]
fn admission_accepts_until_full() {
    let mut control = AdmissionControl::new(2);
    assert_eq!(
        control.decide(0),
        AdmissionDecision::Accept { id: 0, reply: ServerToClientTcpMessage::WelcomeIn }
    );
    assert_eq!(
        control.decide(1),
        AdmissionDecision::Accept { id: 1, reply: ServerToClientTcpMessage::WelcomeIn }
    );
    assert_eq!(
        control.decide(2),
        AdmissionDecision::Reject { reply: ServerToClientTcpMessage::ServerFull }
    );
    // a freed slot lets the next connection in, under a fresh id
    assert_eq!(
        control.decide(1),
        AdmissionDecision::Accept { id: 2, reply: ServerToClientTcpMessage::WelcomeIn }
    );
}

#[test]
fn admission_ids_wrap_at_the_end_of_the_space() {
    let mut control = AdmissionControl::new(8);
    let (first, wrapped) = control.get_next_id();
    assert_eq!(first, 0);
    assert!(!wrapped);
    let mut control = AdmissionControl::resume(8, u32::MAX);
    let (last, wrapped) = control.get_next_id();
    assert_eq!(last, u32::MAX);
    assert!(wrapped);
    let (reused, wrapped) = control.get_next_id();
    assert_eq!(reused, 0);
    assert!(!wrapped);
}
