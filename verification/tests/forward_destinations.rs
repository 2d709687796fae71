use pihole_api::connection::{Connect, FtlConnection, FtlConnectionType};
use pihole_api::error::{Expected, Found, FtlError};
use pihole_api::stats::forward_destinations::{
    forward_destinations, key_for, read_destination, read_destinations, ForwardDestination,
    BUFFER_SIZE, COMMAND,
};
use pihole_api::string_map::StringMap;
use pihole_api::testing::write_eom;
use rmp::encode;

/// Answers `endpoint` from fixed data for `ftl_command` and holds the reply
/// against the expected JSON.
fn test_endpoint(endpoint: &str, ftl_command: &str, ftl_data: Vec<u8>, expected: &str) {
    // Add the test data
    let mut data = StringMap::new();
    data.insert(ftl_command.to_owned(), ftl_data);
    let ftl = FtlConnectionType::Test(data);

    // Get the response
    let reply = match endpoint {
        "/admin/api/stats/forward_destinations" => {
            let mut con = match ftl.connect(COMMAND) {
                Ok(Connect::Ready(con)) => con,
                other => panic!("no connection: {:?}", other),
            };
            forward_destinations(&mut con)
        }
        _ => panic!("no such endpoint"),
    };
    let shares = reply.unwrap();
    let mut map = serde_json::Map::new();
    let mut index = 0;
    while let Some((key, bits)) = shares.entry(index) {
        map.insert(
            key.to_owned(),
            serde_json::Value::from(f32::from_bits(*bits)),
        );
        index += 1;
    }
    let mut body = serde_json::Map::new();
    body.insert("data".to_owned(), serde_json::Value::Object(map));
    body.insert("errors".to_owned(), serde_json::Value::Array(Vec::new()));
    let body = serde_json::to_string(&serde_json::Value::Object(body)).unwrap();

    // Check that it is correct JSON
    let parsed: serde_json::Value = serde_json::from_str(&body).unwrap();
    let expected: serde_json::Value = serde_json::from_str(expected).unwrap();

    // Check that is is the same as the expected JSON
    assert_eq!(expected, parsed);
}

fn three_destinations() -> Vec<u8> {
    let mut data = Vec::new();
    encode::write_str(&mut data, "google-dns-alt").unwrap();
    encode::write_str(&mut data, "8.8.4.4").unwrap();
    encode::write_f32(&mut data, 0.4).unwrap();
    encode::write_str(&mut data, "google-dns").unwrap();
    encode::write_str(&mut data, "8.8.8.8").unwrap();
    encode::write_f32(&mut data, 0.3).unwrap();
    encode::write_str(&mut data, "local").unwrap();
    encode::write_str(&mut data, "local").unwrap();
    encode::write_f32(&mut data, 0.3).unwrap();
    data
}

fn text_error(found: Found) -> FtlError {
    FtlError::DecodeError { expected: Expected::Text, found }
}

fn float_error(found: Found) -> FtlError {
    FtlError::DecodeError { expected: Expected::Float32, found }
}

#[test]
fn test_forward_destinations() {
    let mut data = Vec::new();
    encode::write_str(&mut data, "google-dns-alt").unwrap();
    encode::write_str(&mut data, "8.8.4.4").unwrap();
    encode::write_f32(&mut data, 0.4).unwrap();
    encode::write_str(&mut data, "google-dns").unwrap();
    encode::write_str(&mut data, "8.8.8.8").unwrap();
    encode::write_f32(&mut data, 0.3).unwrap();
    encode::write_str(&mut data, "local").unwrap();
    encode::write_str(&mut data, "local").unwrap();
    encode::write_f32(&mut data, 0.3).unwrap();
    write_eom(&mut data);

    test_endpoint(
        "/admin/api/stats/forward_destinations",
        "forward-dest",
        data,
        "{\
         \"data\":{\
         \"google-dns-alt|8.8.4.4\":0.4000000059604645,\
         \"google-dns|8.8.8.8\":0.30000001192092898,\
         \"local|local\":0.30000001192092898\
         },\
         \"errors\":[]\
         }",
    );
}

#[test]
fn the_command_has_its_name() {
    assert_eq!(COMMAND, "forward-dest");
    assert_eq!(BUFFER_SIZE, 4096);
}

#[test]
fn forward_destinations_keeps_the_bits_and_the_order() {
    let mut data = three_destinations();
    write_eom(&mut data);
    let mut con = FtlConnection::new(data);
    let shares = forward_destinations(&mut con).unwrap();
    assert_eq!(shares.len(), 3);
    assert_eq!(shares.get("google-dns-alt|8.8.4.4"), Some(&0.4f32.to_bits()));
    assert_eq!(shares.get("google-dns|8.8.8.8"), Some(&0.3f32.to_bits()));
    assert_eq!(shares.get("local|local"), Some(&0.3f32.to_bits()));
    assert_eq!(shares.get("local"), None);
    assert_eq!(shares.entry(0), Some(("google-dns-alt|8.8.4.4", &0x3ecc_cccd)));
    assert_eq!(shares.entry(1), Some(("google-dns|8.8.8.8", &0x3e99_999a)));
    assert_eq!(shares.entry(2), Some(("local|local", &0x3e99_999a)));
    assert_eq!(shares.entry(3), None);
    assert_eq!(con.remaining(), 0);
}

#[test]
fn read_destinations_gives_what_was_written_in_order() {
    let mut data = three_destinations();
    write_eom(&mut data);
    let mut con = FtlConnection::new(data);
    let mut buffer = vec![0u8; BUFFER_SIZE];
    let found = read_destinations(&mut con, &mut buffer).unwrap();
    let expected = vec![
        ForwardDestination {
            name: "google-dns-alt".to_owned(),
            ip: "8.8.4.4".to_owned(),
            percentage: 0.4f32.to_bits(),
        },
        ForwardDestination {
            name: "google-dns".to_owned(),
            ip: "8.8.8.8".to_owned(),
            percentage: 0.3f32.to_bits(),
        },
        ForwardDestination {
            name: "local".to_owned(),
            ip: "local".to_owned(),
            percentage: 0.3f32.to_bits(),
        },
    ];
    assert_eq!(found, expected);
    assert_eq!(buffer.len(), BUFFER_SIZE);
}

#[test]
fn a_triple_comes_back_bit_for_bit() {
    for bits in [0u32, 1, 0x3ecc_cccd, 0x7fc0_0001, 0xffff_ffff, 0x8000_0000, 0x0102_0304] {
        let mut data = Vec::new();
        encode::write_str(&mut data, "h\u{f6}st \u{1f600}").unwrap();
        encode::write_str(&mut data, "::1").unwrap();
        encode::write_f32(&mut data, f32::from_bits(bits)).unwrap();
        let written = data.len();
        data.extend_from_slice(&[1, 2, 3]);
        let mut con = FtlConnection::new(data);
        let mut buffer = vec![0u8; 64];
        let found = read_destination(&mut con, &mut buffer).unwrap().unwrap();
        assert_eq!(found.name, "h\u{f6}st \u{1f600}");
        assert_eq!(found.ip, "::1");
        assert_eq!(found.percentage, bits);
        assert_eq!(con.remaining(), 3);
        assert_eq!(written + 3, 11 + 4 + 5 + 3);
    }
}

#[test]
fn an_empty_list_is_a_list() {
    let mut data = Vec::new();
    write_eom(&mut data);
    data.push(0xc1);
    let mut con = FtlConnection::new(data);
    let shares = forward_destinations(&mut con).unwrap();
    assert_eq!(shares.len(), 0);
    assert_eq!(con.remaining(), 1);
}

#[test]
fn reading_stops_behind_the_sentinel() {
    let mut data = three_destinations();
    write_eom(&mut data);
    encode::write_str(&mut data, "next").unwrap();
    let mut con = FtlConnection::new(data);
    let shares = forward_destinations(&mut con).unwrap();
    assert_eq!(shares.len(), 3);
    assert_eq!(con.remaining(), 5);
}

#[test]
fn the_key_of_an_empty_address_is_the_name() {
    let mut data = Vec::new();
    encode::write_str(&mut data, "local").unwrap();
    encode::write_str(&mut data, "").unwrap();
    encode::write_f32(&mut data, 1.0).unwrap();
    write_eom(&mut data);
    let mut con = FtlConnection::new(data);
    let shares = forward_destinations(&mut con).unwrap();
    assert_eq!(shares.len(), 1);
    assert_eq!(shares.get("local"), Some(&1.0f32.to_bits()));
    assert_eq!(shares.get("local|"), None);
}

#[test]
fn key_for_joins_name_and_address() {
    assert_eq!(key_for("google-dns".to_owned(), "8.8.8.8"), "google-dns|8.8.8.8");
    assert_eq!(key_for("local".to_owned(), ""), "local");
    assert_eq!(key_for("".to_owned(), "1.1.1.1"), "|1.1.1.1");
    assert_eq!(key_for("".to_owned(), ""), "");
    assert_eq!(key_for("a|b".to_owned(), "c"), "a|b|c");
}

#[test]
fn of_two_destinations_with_one_key_the_later_stays() {
    let mut data = Vec::new();
    encode::write_str(&mut data, "a").unwrap();
    encode::write_str(&mut data, "1").unwrap();
    encode::write_f32(&mut data, 0.25).unwrap();
    encode::write_str(&mut data, "b").unwrap();
    encode::write_str(&mut data, "2").unwrap();
    encode::write_f32(&mut data, 0.5).unwrap();
    encode::write_str(&mut data, "a").unwrap();
    encode::write_str(&mut data, "1").unwrap();
    encode::write_f32(&mut data, 0.75).unwrap();
    write_eom(&mut data);
    let mut con = FtlConnection::new(data);
    let shares = forward_destinations(&mut con).unwrap();
    assert_eq!(shares.len(), 2);
    assert_eq!(shares.entry(0), Some(("a|1", &0.75f32.to_bits())));
    assert_eq!(shares.entry(1), Some(("b|2", &0.5f32.to_bits())));
}

#[test]
fn a_stream_without_sentinel_is_an_error() {
    let mut con = FtlConnection::new(three_destinations());
    let error = forward_destinations(&mut con).unwrap_err();
    assert_eq!(error, text_error(Found::EndOfStream));
    assert!(error.stream_ended_early());

    let mut con = FtlConnection::new(Vec::new());
    assert_eq!(forward_destinations(&mut con).unwrap_err(), text_error(Found::EndOfStream));
}

#[test]
fn every_cut_of_a_list_is_an_error() {
    let mut data = three_destinations();
    write_eom(&mut data);
    for cut in 0..data.len() {
        let mut con = FtlConnection::new(data[..cut].to_vec());
        let error = forward_destinations(&mut con).unwrap_err();
        assert!(error.stream_ended_early(), "cut at {}: {:?}", cut, error);
    }
}

#[test]
fn a_cut_float_is_an_error() {
    let mut data = Vec::new();
    encode::write_str(&mut data, "a").unwrap();
    encode::write_str(&mut data, "b").unwrap();
    data.extend_from_slice(&[0xca, 0x3f, 0x80]);
    let mut con = FtlConnection::new(data);
    assert_eq!(forward_destinations(&mut con).unwrap_err(), float_error(Found::Truncated));
    assert_eq!(con.remaining(), 3);
}

#[test]
fn a_cut_string_is_an_error() {
    let mut con = FtlConnection::new(vec![0xa5, b'l', b'o']);
    assert_eq!(forward_destinations(&mut con).unwrap_err(), text_error(Found::Truncated));
    let mut con = FtlConnection::new(vec![0xd9]);
    assert_eq!(forward_destinations(&mut con).unwrap_err(), text_error(Found::Truncated));
    let mut con = FtlConnection::new(vec![0xda, 0x00]);
    assert_eq!(forward_destinations(&mut con).unwrap_err(), text_error(Found::Truncated));
    let mut con = FtlConnection::new(vec![0xdb, 0x00, 0x00, 0x00]);
    assert_eq!(forward_destinations(&mut con).unwrap_err(), text_error(Found::Truncated));
}

#[test]
fn a_value_of_another_type_is_an_error() {
    let mut data = Vec::new();
    encode::write_bool(&mut data, true).unwrap();
    write_eom(&mut data);
    let mut con = FtlConnection::new(data);
    let error = forward_destinations(&mut con).unwrap_err();
    assert_eq!(error, text_error(Found::Marker(0xc3)));
    assert!(!error.stream_ended_early());

    let mut data = Vec::new();
    encode::write_str(&mut data, "a").unwrap();
    encode::write_str(&mut data, "b").unwrap();
    encode::write_f64(&mut data, 0.5).unwrap();
    write_eom(&mut data);
    let mut con = FtlConnection::new(data);
    assert_eq!(forward_destinations(&mut con).unwrap_err(), float_error(Found::Marker(0xcb)));

    let mut data = Vec::new();
    encode::write_str(&mut data, "a").unwrap();
    encode::write_f32(&mut data, 0.5).unwrap();
    let mut con = FtlConnection::new(data);
    assert_eq!(forward_destinations(&mut con).unwrap_err(), text_error(Found::Marker(0xca)));
}

#[test]
fn the_sentinel_ends_the_list_only_in_the_place_of_a_name() {
    let mut data = Vec::new();
    encode::write_str(&mut data, "a").unwrap();
    write_eom(&mut data);
    let mut con = FtlConnection::new(data);
    assert_eq!(forward_destinations(&mut con).unwrap_err(), text_error(Found::Marker(0xc1)));

    let mut data = Vec::new();
    encode::write_str(&mut data, "a").unwrap();
    encode::write_str(&mut data, "b").unwrap();
    write_eom(&mut data);
    let mut con = FtlConnection::new(data);
    assert_eq!(forward_destinations(&mut con).unwrap_err(), float_error(Found::Marker(0xc1)));
}

#[test]
fn a_sentinel_byte_inside_a_value_does_not_end_the_list() {
    let mut data = Vec::new();
    encode::write_str(&mut data, "a").unwrap();
    encode::write_str(&mut data, "b").unwrap();
    encode::write_f32(&mut data, f32::from_bits(0xc1c1_c1c1)).unwrap();
    write_eom(&mut data);
    let mut con = FtlConnection::new(data);
    let shares = forward_destinations(&mut con).unwrap();
    assert_eq!(shares.get("a|b"), Some(&0xc1c1_c1c1));
}

#[test]
fn a_string_longer_than_the_buffer_is_an_error() {
    let long = "x".repeat(BUFFER_SIZE + 1);
    let mut data = Vec::new();
    encode::write_str(&mut data, &long).unwrap();
    encode::write_str(&mut data, "ip").unwrap();
    encode::write_f32(&mut data, 0.5).unwrap();
    write_eom(&mut data);
    let mut con = FtlConnection::new(data);
    assert_eq!(forward_destinations(&mut con).unwrap_err(), text_error(Found::Oversized(4097)));

    let full = "y".repeat(BUFFER_SIZE);
    let mut data = Vec::new();
    encode::write_str(&mut data, &full).unwrap();
    encode::write_str(&mut data, "").unwrap();
    encode::write_f32(&mut data, 0.5).unwrap();
    write_eom(&mut data);
    let mut con = FtlConnection::new(data);
    let shares = forward_destinations(&mut con).unwrap();
    assert_eq!(shares.get(&full), Some(&0.5f32.to_bits()));
}

#[test]
fn a_length_beyond_the_buffer_is_refused_before_the_text_is_missed() {
    let mut con = FtlConnection::new(vec![0xdb, 0xff, 0xff, 0xff, 0xff, b'a']);
    assert_eq!(
        forward_destinations(&mut con).unwrap_err(),
        text_error(Found::Oversized(u32::MAX))
    );
}

#[test]
fn text_that_is_not_utf8_is_an_error() {
    let mut con = FtlConnection::new(vec![0xa2, 0xc3, 0x28, 0xc1]);
    assert_eq!(forward_destinations(&mut con).unwrap_err(), text_error(Found::InvalidText));
    let mut con = FtlConnection::new(vec![0xa1, 0xff, 0xc1]);
    assert_eq!(forward_destinations(&mut con).unwrap_err(), text_error(Found::InvalidText));
}
