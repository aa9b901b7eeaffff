use dronelink::envelope::{decode, encode, DecodeError};
use dronelink::numtext::{format_i32, format_u32, parse_i32, parse_u32};
use dronelink::telemetry::{parse_record, serialize_record, VehicleState};
use dronelink::text::trim_line;

fn sample_state() -> VehicleState {
    VehicleState {
        elapsed_time_bits: 0x41400000, // 12.0f32
        acc_x_bits: 0x3DCCCCCD,        // 0.1f32
        acc_y_bits: 0x3E4CCCCD,        // 0.2f32
        acc_z_bits: 0x3F800000,        // 1.0f32
        gyro_x_bits: 0,
        gyro_y_bits: 1,
        gyro_z_bits: u32::MAX,
        mag_x_bits: 7,
        mag_y_bits: 8,
        mag_z_bits: 9,
        altitude_bits: 0x42C80000, // 100.0f32
        temp_bits: 0x41B80000,     // 23.0f32
        yaw: -180,
        pitch: 0,
        roll: i32::MAX,
        rc_throttle: 1500,
        rc_yaw: 1500,
        rc_pitch: 1000,
        rc_roll: 2000,
        front_right: 55,
        back_right: -55,
        back_left: i32::MIN,
        front_left: 1,
        kp_r_bits: 0x3F000000, // 0.5f32
        ki_r_bits: 0,
        kd_r_bits: 3,
    }
}

#[test]
fn format_u32_exact_values() {
    assert_eq!(format_u32(0), "0");
    assert_eq!(format_u32(7), "7");
    assert_eq!(format_u32(10), "10");
    assert_eq!(format_u32(4294967295), "4294967295");
}

#[test]
fn format_i32_exact_values() {
    assert_eq!(format_i32(0), "0");
    assert_eq!(format_i32(-5), "-5");
    assert_eq!(format_i32(2147483647), "2147483647");
    assert_eq!(format_i32(-2147483648), "-2147483648");
}

#[test]
fn parse_u32_round_trip_and_strictness() {
    for n in [0u32, 1, 9, 10, 99, 100, 12345, u32::MAX] {
        assert_eq!(parse_u32(&format_u32(n)), Some(n));
    }
    assert_eq!(parse_u32(""), None);
    assert_eq!(parse_u32("01"), None); // leading zero is not canonical
    assert_eq!(parse_u32("+1"), None);
    assert_eq!(parse_u32("1a"), None);
    assert_eq!(parse_u32("4294967296"), None); // one past the range
    assert_eq!(parse_u32("99999999999999999999"), None);
}

#[test]
fn parse_i32_round_trip_and_strictness() {
    for n in [0i32, 1, -1, 42, -42, i32::MAX, i32::MIN] {
        assert_eq!(parse_i32(&format_i32(n)), Some(n));
    }
    assert_eq!(parse_i32("-0"), None); // "-0" is not canonical
    assert_eq!(parse_i32("-"), None);
    assert_eq!(parse_i32("2147483648"), None); // one past either end
    assert_eq!(parse_i32("-2147483649"), None);
    assert_eq!(parse_i32("--1"), None);
}

#[test]
fn record_round_trips_field_for_field() {
    let st = sample_state();
    let text = serialize_record(&st);
    assert_eq!(parse_record(&text), Some(st));
}

#[test]
fn record_rejects_wrong_shapes() {
    assert_eq!(parse_record(""), None);
    assert_eq!(parse_record("hello"), None);
    assert_eq!(parse_record("1,2,3"), None); // too few fields
    let st = sample_state();
    let mut text = serialize_record(&st);
    text.push_str(",0"); // one field too many
    assert_eq!(parse_record(&text), None);
}

#[test]
fn envelope_round_trips_tags_and_payload() {
    let tags: Vec<u32> = vec![1, 2, 3];
    let wire = encode(&tags, "any payload, with | and , inside");
    let env = decode(&wire).unwrap();
    assert_eq!(env.tags, tags);
    assert_eq!(env.payload, "any payload, with | and , inside");
}

#[test]
fn envelope_round_trips_empty_tags_and_empty_payload() {
    let tags: Vec<u32> = Vec::new();
    let wire = encode(&tags, "");
    assert_eq!(wire, "|");
    let env = decode(&wire).unwrap();
    assert!(env.tags.is_empty());
    assert_eq!(env.payload, "");
}

#[test]
fn full_round_trip_decode_of_encoded_snapshot() {
    let st = sample_state();
    let tags: Vec<u32> = vec![1, 2, 3];
    let wire = encode(&tags, &serialize_record(&st));
    let env = decode(&wire).unwrap();
    assert_eq!(env.tags, tags);
    assert_eq!(parse_record(&env.payload), Some(st));
}

#[test]
fn wire_texts_are_exactly_as_specified() {
    assert_eq!(encode(&vec![1, 2], "hi"), "1,2|hi");
    assert_eq!(encode(&vec![10], "a|b"), "10|a|b");
    let zeros = serialize_record(&VehicleState::zeroed());
    assert_eq!(zeros, ["0"; 26].join(","));
}

#[test]
fn malformed_envelopes_are_rejected() {
    assert_eq!(decode("").unwrap_err(), DecodeError::MalformedEnvelope); // no divider
    assert_eq!(decode("1,2,3").unwrap_err(), DecodeError::MalformedEnvelope);
    assert_eq!(decode("a|x").unwrap_err(), DecodeError::MalformedEnvelope); // tag text not decimal
    assert_eq!(decode("1,,2|x").unwrap_err(), DecodeError::MalformedEnvelope); // empty tag
    assert_eq!(decode("01|x").unwrap_err(), DecodeError::MalformedEnvelope); // non-canonical tag
    assert_eq!(decode("1,|x").unwrap_err(), DecodeError::MalformedEnvelope); // trailing comma
}

#[test]
fn trim_line_strips_edges_only() {
    assert_eq!(trim_line("  hello world \r\n"), "hello world");
    assert_eq!(trim_line("hello"), "hello");
    assert_eq!(trim_line("\n"), "");
    assert_eq!(trim_line(""), "");
    assert_eq!(trim_line("\ta b\t"), "a b");
}
