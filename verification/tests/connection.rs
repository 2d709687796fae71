use pihole_api::connection::{Connect, FtlConnection, FtlConnectionType, Reply, TextRead};
use pihole_api::error::{Expected, Found, FtlError};
use pihole_api::string_map::StringMap;
use pihole_api::testing::write_eom;
use rmp::encode;

fn text(s: &str) -> Result<TextRead, FtlError> {
    Ok(TextRead::Text(s.to_owned()))
}

#[test]
fn write_eom_appends_the_sentinel() {
    let mut data = vec![1u8, 2];
    write_eom(&mut data);
    assert_eq!(data, vec![1, 2, 0xc1]);
    write_eom(&mut data);
    assert_eq!(data, vec![1, 2, 0xc1, 0xc1]);
    assert_eq!(pihole_api::wire::END_OF_MESSAGE, 0xc1);
}

#[test]
fn read_str_reads_strings_up_to_the_sentinel() {
    let mut data = Vec::new();
    encode::write_str(&mut data, "Unpacking").unwrap();
    encode::write_str(&mut data, "").unwrap();
    encode::write_str(&mut data, "strings").unwrap();
    write_eom(&mut data);
    let mut con = FtlConnection::new(data);
    let mut buffer = vec![0u8; 16];
    assert_eq!(con.remaining(), 20);
    assert_eq!(con.read_str(&mut buffer), text("Unpacking"));
    assert_eq!(&buffer[..9], b"Unpacking");
    assert_eq!(con.remaining(), 10);
    assert_eq!(con.read_str(&mut buffer), text(""));
    assert_eq!(&buffer[..9], b"Unpacking");
    assert_eq!(con.read_str(&mut buffer), text("strings"));
    assert_eq!(&buffer[..9], b"stringsng");
    assert_eq!(con.remaining(), 1);
    assert_eq!(con.read_str(&mut buffer), Ok(TextRead::EndOfMessage));
    assert_eq!(con.remaining(), 0);
    assert_eq!(buffer.len(), 16);
    assert_eq!(
        con.read_str(&mut buffer),
        Err(FtlError::DecodeError { expected: Expected::Text, found: Found::EndOfStream })
    );
}

#[test]
fn read_str_takes_every_form_of_header() {
    for len in [0usize, 1, 31, 32, 255, 256, 65535, 65536, 70000] {
        let written = "z".repeat(len);
        let mut data = Vec::new();
        encode::write_str(&mut data, &written).unwrap();
        let header = if len < 32 {
            1
        } else if len < 256 {
            2
        } else if len < 65536 {
            3
        } else {
            5
        };
        assert_eq!(data.len(), header + len);
        data.push(7);
        let mut con = FtlConnection::new(data);
        let mut buffer = vec![0u8; 70000];
        assert_eq!(con.read_str(&mut buffer), text(&written));
        assert_eq!(con.remaining(), 1);
    }
}

#[test]
fn read_str_takes_a_longer_header_than_needed() {
    let mut con = FtlConnection::new(vec![0xd9, 2, b'h', b'i', 0xda, 0, 1, b'a', 0xdb, 0, 0, 0, 1, b'b']);
    let mut buffer = vec![0u8; 4];
    assert_eq!(con.read_str(&mut buffer), text("hi"));
    assert_eq!(con.read_str(&mut buffer), text("a"));
    assert_eq!(con.read_str(&mut buffer), text("b"));
    assert_eq!(con.remaining(), 0);
}

#[test]
fn read_str_reads_big_endian_lengths() {
    let mut data = vec![0xda, 0x01, 0x02];
    data.extend(std::iter::repeat(b'q').take(0x0102));
    data.push(0xc1);
    let mut con = FtlConnection::new(data);
    let mut buffer = vec![0u8; 0x0102];
    assert_eq!(con.read_str(&mut buffer), text(&"q".repeat(0x0102)));
    assert_eq!(con.remaining(), 1);

    let mut con = FtlConnection::new(vec![0xdb, 0x01, 0x02, 0x03, 0x04]);
    assert_eq!(
        con.read_str(&mut buffer),
        Err(FtlError::DecodeError {
            expected: Expected::Text,
            found: Found::Oversized(0x0102_0304)
        })
    );
}

#[test]
fn a_failed_read_takes_nothing() {
    let mut data = Vec::new();
    encode::write_f32(&mut data, 2.5).unwrap();
    let mut con = FtlConnection::new(data);
    let mut buffer = vec![0u8; 8];
    assert_eq!(
        con.read_str(&mut buffer),
        Err(FtlError::DecodeError { expected: Expected::Text, found: Found::Marker(0xca) })
    );
    assert_eq!(con.remaining(), 5);
    assert_eq!(con.read_f32(), Ok(2.5f32.to_bits()));
    assert_eq!(con.remaining(), 0);
    assert_eq!(
        con.read_f32(),
        Err(FtlError::DecodeError { expected: Expected::Float32, found: Found::EndOfStream })
    );

    let mut con = FtlConnection::new(vec![0xa3, b'a', b'b']);
    assert_eq!(
        con.read_str(&mut buffer),
        Err(FtlError::DecodeError { expected: Expected::Text, found: Found::Truncated })
    );
    assert_eq!(con.remaining(), 3);

    let mut con = FtlConnection::new(vec![0xa3, b'a', b'b', b'c']);
    let mut small = vec![0u8; 2];
    assert_eq!(
        con.read_str(&mut small),
        Err(FtlError::DecodeError { expected: Expected::Text, found: Found::Oversized(3) })
    );
    assert_eq!(con.remaining(), 4);
    assert_eq!(small.len(), 2);
}

#[test]
fn read_f32_gives_the_bits_in_big_endian() {
    let mut con = FtlConnection::new(vec![0xca, 0x01, 0x02, 0x03, 0x04, 0xca, 0x3e, 0xcc, 0xcc, 0xcd]);
    assert_eq!(con.read_f32(), Ok(0x0102_0304));
    assert_eq!(con.read_f32(), Ok(0.4f32.to_bits()));
    assert_eq!(con.remaining(), 0);
}

#[test]
fn read_f32_takes_the_sentinel_for_a_wrong_marker() {
    let mut con = FtlConnection::new(vec![0xc1]);
    assert_eq!(
        con.read_f32(),
        Err(FtlError::DecodeError { expected: Expected::Float32, found: Found::Marker(0xc1) })
    );
    assert_eq!(con.remaining(), 1);
    let mut con = FtlConnection::new(vec![0xca, 0, 0, 0]);
    assert_eq!(
        con.read_f32(),
        Err(FtlError::DecodeError { expected: Expected::Float32, found: Found::Truncated })
    );
}

#[test]
fn every_marker_but_a_string_and_the_sentinel_is_handed_on_as_read() {
    for byte in 0u8..=255 {
        let mut con = FtlConnection::new(vec![byte, 0, 0, 0, 0]);
        let mut buffer = vec![0u8; 0];
        let read = con.read_str(&mut buffer);
        if (0xa0..=0xbf).contains(&byte) || (0xd9..=0xdb).contains(&byte) {
            if byte == 0xa0 || byte >= 0xd9 {
                assert_eq!(read, text(""));
            } else {
                assert_eq!(
                    read,
                    Err(FtlError::DecodeError {
                        expected: Expected::Text,
                        found: Found::Oversized((byte - 0xa0) as u32)
                    })
                );
            }
        } else if byte == 0xc1 {
            assert_eq!(read, Ok(TextRead::EndOfMessage));
        } else {
            assert_eq!(
                read,
                Err(FtlError::DecodeError { expected: Expected::Text, found: Found::Marker(byte) })
            );
        }
    }
}

#[test]
fn fixed_data_answers_its_commands() {
    let mut responses = StringMap::new();
    responses.insert("forward-dest".to_owned(), vec![0xc1]);
    responses.insert("stats".to_owned(), vec![0xa1, b'x']);
    let ftl = FtlConnectionType::Test(responses);
    match ftl.connect("stats") {
        Ok(Connect::Ready(mut con)) => {
            let mut buffer = vec![0u8; 4];
            assert_eq!(con.read_str(&mut buffer), text("x"));
        }
        other => panic!("{:?}", other),
    }
    match ftl.connect("forward-dest") {
        Ok(Connect::Ready(con)) => assert_eq!(con.remaining(), 1),
        other => panic!("{:?}", other),
    }
    match ftl.connect("unknown") {
        Err(FtlError::UnknownCommand) => {}
        other => panic!("{:?}", other),
    }
    match FtlConnectionType::Test(StringMap::new()).connect("forward-dest") {
        Err(FtlError::UnknownCommand) => {}
        other => panic!("{:?}", other),
    }
}

#[test]
fn the_socket_is_asked_with_the_command_as_a_string() {
    for command in ["forward-dest", "", "a-command-name-that-is-longer-than-thirty-one-bytes"] {
        match FtlConnectionType::Socket.connect(command) {
            Ok(Connect::Send(frame)) => {
                let mut expected = Vec::new();
                encode::write_str(&mut expected, command).unwrap();
                assert_eq!(frame, expected);
                let mut con = FtlConnection::new(frame);
                let mut buffer = vec![0u8; 64];
                assert_eq!(con.read_str(&mut buffer), text(command));
                assert_eq!(con.remaining(), 0);
            }
            other => panic!("{:?}", other),
        }
    }
    match FtlConnectionType::Socket.connect("forward-dest") {
        Ok(Connect::Send(frame)) => assert_eq!(frame, b"\xacforward-dest".to_vec()),
        other => panic!("{:?}", other),
    }
}

#[test]
fn each_failure_of_the_transport_has_its_error() {
    assert_eq!(
        FtlConnection::receive(Reply::Unreachable).unwrap_err(),
        FtlError::ConnectionUnavailable
    );
    assert_eq!(FtlConnection::receive(Reply::Rejected).unwrap_err(), FtlError::UnknownCommand);
    assert_eq!(FtlConnection::receive(Reply::TimedOut).unwrap_err(), FtlError::Timeout);
    let mut con = FtlConnection::receive(Reply::Stream(vec![0xca, 0, 0, 0, 1])).unwrap();
    assert_eq!(con.read_f32(), Ok(1));
}

#[test]
fn only_a_short_stream_can_still_be_completed() {
    let ended = [Found::EndOfStream, Found::Truncated];
    let other = [Found::Marker(0xc1), Found::Oversized(5000), Found::InvalidText];
    for expected in [Expected::Text, Expected::Float32] {
        for found in ended {
            assert!(FtlError::DecodeError { expected, found }.stream_ended_early());
        }
        for found in other {
            assert!(!FtlError::DecodeError { expected, found }.stream_ended_early());
        }
    }
    assert!(!FtlError::ConnectionUnavailable.stream_ended_early());
    assert!(!FtlError::UnknownCommand.stream_ended_early());
    assert!(!FtlError::CorruptRecord.stream_ended_early());
    assert!(!FtlError::Timeout.stream_ended_early());
}
