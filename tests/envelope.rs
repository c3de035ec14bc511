use kv_node::envelope::{has_no_newline, Envelope, Lane};

fn round_trip(lane: Lane, payload: &str) {
    let envelope = Envelope { lane, payload: payload.to_string() };
    let line = envelope.encode();
    assert!(line.ends_with('\n'));
    let back = Envelope::decode(&line).expect("a frame decodes");
    assert_eq!(back.lane, lane);
    assert_eq!(back.payload, payload);
}

#[test]
fn envelope_round_trip_on_every_lane() {
    round_trip(Lane::Election, "{\"to\":2,\"from\":1,\"ballot\":3}");
    round_trip(Lane::Replication, "{\"to\":3,\"msg\":{\"Accept\":[1,2]}}");
    round_trip(
        Lane::Command,
        "{\"operation\":\"Put\",\"key\":\"key\",\"value\":0}",
    );
    round_trip(Lane::Command, "null");
    round_trip(Lane::Election, "{\"text\":\"}\\\"lane\\\"\"}");
}

#[test]
fn encode_writes_the_frame() {
    let envelope = Envelope { lane: Lane::Command, payload: "{\"a\":1}".to_string() };
    assert_eq!(envelope.encode(), "{\"lane\":\"Command\",\"payload\":{\"a\":1}}\n");
    let envelope = Envelope { lane: Lane::Replication, payload: "7".to_string() };
    assert_eq!(envelope.encode(), "{\"lane\":\"Replication\",\"payload\":7}\n");
}

#[test]
fn decode_accepts_a_frame_cut_at_end_of_stream() {
    let e = Envelope::decode("{\"lane\":\"Election\",\"payload\":{\"to\":1}}").unwrap();
    assert_eq!(e.lane, Lane::Election);
    assert_eq!(e.payload, "{\"to\":1}");
}

#[test]
fn decode_rejects_malformed_lines() {
    assert!(Envelope::decode("").is_none());
    assert!(Envelope::decode("\n").is_none());
    assert!(Envelope::decode("{\"lane\":\"Gossip\",\"payload\":1}\n").is_none());
    assert!(Envelope::decode("{\"lane\":\"Command\",\"payload\":1\n").is_none());
    assert!(Envelope::decode("{\"lane\":\"Command\",\"payload\":1}\n\n").is_none());
    assert!(Envelope::decode("{\"lane\":\"Command\",\"payload\":1\n2}\n").is_none());
    assert!(Envelope::decode("{\"types\":\"CMD\",\"msg\":{}}\n").is_none());
}

#[test]
fn newline_detection() {
    assert!(has_no_newline("abc"));
    assert!(has_no_newline(""));
    assert!(!has_no_newline("a\nb"));
}

#[test]
fn decode_rejects_a_payload_that_is_not_json() {
    assert!(Envelope::decode("{\"lane\":\"Command\",\"payload\":x}\n").is_none());
    assert!(Envelope::decode("{\"lane\":\"Command\",\"payload\":}\n").is_none());
    assert!(Envelope::decode("{\"lane\":\"Election\",\"payload\":{\"to\":}}\n").is_none());
    let e = Envelope::parse_frame("{\"lane\":\"Command\",\"payload\":x}\n").unwrap();
    assert_eq!(e.lane, Lane::Command);
    assert_eq!(e.payload, "x");
}

#[test]
fn decode_and_parse_frame_agree_on_json_payloads() {
    let line = "{\"lane\":\"Replication\",\"payload\":[1,2,3]}\n";
    let a = Envelope::decode(line).unwrap();
    let b = Envelope::parse_frame(line).unwrap();
    assert_eq!(a.lane, b.lane);
    assert_eq!(a.payload, b.payload);
    assert_eq!(a.payload, "[1,2,3]");
}
