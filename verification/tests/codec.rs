use prediction_market_event::hex::{byte_array_to_hex_string, hex_string_to_byte_array};
use prediction_market_event::{
    Error, Event, EventHashHex, EventPayout, Information, NostrPublicKeyHex, V1,
};
use sha2::{Digest, Sha256};

fn plain_v1() -> V1 {
    V1 {
        title: "my event".into(),
        description: "a description of my event".into(),
        outcome_titles: vec!["outcome 1".into(), "outcome 2".into(), "outcome 3".into()],
        expected_payout_unix_seconds: 1725388253,
    }
}

fn event_with(information: Information) -> Event {
    Event { nonce: [0xab; 32], outcome_count: 3, units_to_payout: 1, information }
}

fn empty_json(nonce: &str, outcome_count: &str, units_to_payout: &str) -> String {
    format!(
        "{{\"nonce\":\"{nonce}\",\"outcome_count\":{outcome_count},\"units_to_payout\":{units_to_payout},\"information\":\"empty\"}}"
    )
}

#[test]
fn event_json_of_v1_is_exact() {
    let json = event_with(Information::V1(plain_v1())).try_to_json_string().unwrap();
    let expected = format!(
        "{{\"nonce\":\"{}\",\"outcome_count\":3,\"units_to_payout\":1,\"information\":{{\"v1\":{{\"title\":\"my event\",\"description\":\"a description of my event\",\"outcome_titles\":[\"outcome 1\",\"outcome 2\",\"outcome 3\"],\"expected_payout_unix_seconds\":1725388253}}}}}}",
        "ab".repeat(32)
    );
    assert_eq!(json, expected);
}

#[test]
fn event_json_of_empty_is_exact() {
    let json = event_with(Information::Empty).try_to_json_string().unwrap();
    assert_eq!(json, empty_json(&"ab".repeat(32), "3", "1"));
}

#[test]
fn event_json_writes_largest_numbers() {
    let event = Event {
        nonce: [0xff; 32],
        outcome_count: u16::MAX,
        units_to_payout: u32::MAX,
        information: Information::V1(V1 {
            title: String::new(),
            description: String::new(),
            outcome_titles: vec![],
            expected_payout_unix_seconds: u64::MAX,
        }),
    };
    let json = event.try_to_json_string().unwrap();
    let expected = format!(
        "{{\"nonce\":\"{}\",\"outcome_count\":65535,\"units_to_payout\":4294967295,\"information\":{{\"v1\":{{\"title\":\"\",\"description\":\"\",\"outcome_titles\":[],\"expected_payout_unix_seconds\":18446744073709551615}}}}}}",
        "ff".repeat(32)
    );
    assert_eq!(json, expected);
    assert_eq!(Event::try_from_json_str(&json).unwrap(), event);
}

#[test]
fn strings_are_escaped_as_serde_json_does() {
    let title = "quote \" solidus \\ / tab \t newline \n return \r bell \u{7} backspace \u{8} feed \u{c} unit \u{1f} delete \u{7f} umlaut \u{e4} clef \u{1d11e}";
    let v1 = V1 {
        title: title.into(),
        description: "\u{0}".into(),
        outcome_titles: vec!["\"".into(), "\\".into()],
        expected_payout_unix_seconds: 0,
    };
    let event = event_with(Information::V1(v1));
    let json = event.try_to_json_string().unwrap();
    let expected = format!(
        "{{\"nonce\":\"{}\",\"outcome_count\":3,\"units_to_payout\":1,\"information\":{{\"v1\":{{\"title\":{},\"description\":{},\"outcome_titles\":{},\"expected_payout_unix_seconds\":0}}}}}}",
        "ab".repeat(32),
        serde_json::to_string(title).unwrap(),
        serde_json::to_string("\u{0}").unwrap(),
        serde_json::to_string(&vec!["\"", "\\"]).unwrap(),
    );
    assert_eq!(json, expected);
    assert!(json.contains("\\u0007"));
    assert!(json.contains("\\u001f"));
    assert!(json.contains("\\u0000"));
    assert!(json.contains("\\b") && json.contains("\\f") && json.contains("\\t"));
    assert!(json.contains("delete \u{7f} umlaut \u{e4} clef \u{1d11e}"));
    assert_eq!(Event::try_from_json_str(&json).unwrap(), event);
}

#[test]
fn event_json_is_read_back_by_serde_json() {
    let event = event_with(Information::V1(plain_v1()));
    let json = event.try_to_json_string().unwrap();
    let value: serde_json::Value = serde_json::from_str(&json).unwrap();
    assert_eq!(value["nonce"].as_str().unwrap(), "ab".repeat(32));
    assert_eq!(value["outcome_count"].as_u64().unwrap(), 3);
    assert_eq!(value["units_to_payout"].as_u64().unwrap(), 1);
    assert_eq!(value["information"]["v1"]["title"].as_str().unwrap(), "my event");
    assert_eq!(value["information"]["v1"]["outcome_titles"][2].as_str().unwrap(), "outcome 3");
    assert_eq!(
        value["information"]["v1"]["expected_payout_unix_seconds"].as_u64().unwrap(),
        1725388253
    );
}

#[test]
fn event_round_trip_keeps_every_field() {
    let mut nonce = [0u8; 32];
    for (i, b) in nonce.iter_mut().enumerate() {
        *b = (i * 8 + 3) as u8;
    }
    let event = Event {
        nonce,
        outcome_count: 2,
        units_to_payout: 1000,
        information: Information::V1(V1 {
            title: "t".into(),
            description: "d, with \"quotes\"".into(),
            outcome_titles: vec!["yes".into(), "no".into()],
            expected_payout_unix_seconds: 42,
        }),
    };
    let json = event.try_to_json_string().unwrap();
    let back = Event::try_from_json_str(&json).unwrap();
    assert_eq!(back, event);
    assert_eq!(back.try_to_json_string().unwrap(), json);
    let empty = Event { information: Information::Empty, ..event };
    let json = empty.try_to_json_string().unwrap();
    assert_eq!(Event::try_from_json_str(&json).unwrap(), empty);
}

#[test]
fn event_is_read_from_canonical_json_only() {
    let nonce = "00".repeat(32);
    let good = empty_json(&nonce, "2", "1");
    assert!(Event::try_from_json_str(&good).is_ok());
    let refused = [
        String::new(),
        "{}".to_string(),
        format!(" {good}"),
        format!("{good} "),
        format!("{good}}}"),
        good.replace("\"outcome_count\":2", "\"outcome_count\": 2"),
        good.replace("\"outcome_count\":2", "\"outcome_count\":02"),
        good.replace("\"outcome_count\":2", "\"outcome_count\":2.0"),
        good.replace("\"outcome_count\":2", "\"outcome_count\":-2"),
        good.replace("\"outcome_count\":2", "\"outcome_count\":"),
        good.replace("\"outcome_count\":2", "\"outcome_count\":\"2\""),
        good.replace("\"empty\"", "\"none\""),
        good.replace("\"empty\"", "{\"empty\":null}"),
        good.replace("\"empty\"", "\"v1\""),
        empty_json(&"0G".repeat(32), "2", "1"),
        empty_json(&"AB".repeat(32), "2", "1"),
        empty_json(&"00".repeat(31), "2", "1"),
        empty_json(&"00".repeat(33), "2", "1"),
        empty_json(&nonce, "65536", "1"),
        empty_json(&nonce, "2", "4294967296"),
        format!(
            "{{\"outcome_count\":2,\"nonce\":\"{nonce}\",\"units_to_payout\":1,\"information\":\"empty\"}}"
        ),
        format!(
            "{{\"nonce\":\"{nonce}\",\"outcome_count\":2,\"units_to_payout\":1,\"information\":\"empty\",\"more\":1}}"
        ),
    ];
    for json in refused {
        let res = Event::try_from_json_str(&json);
        assert!(matches!(res, Err(Error::Encoding)), "{json}");
    }
    assert!(Event::try_from_json_str(&empty_json(&nonce, "65535", "4294967295")).is_ok());
    assert!(Event::try_from_json_str(&empty_json(&nonce, "0", "0")).is_ok());
}

#[test]
fn v1_is_read_from_canonical_json_only() {
    let event = event_with(Information::V1(plain_v1()));
    let good = event.try_to_json_string().unwrap();
    let refused = [
        good.replace("\"my event\"", "\"my\\u0020event\""),
        good.replace("\"my event\"", "\"my\\/event\""),
        good.replace("\"my event\"", "\"my\tevent\""),
        good.replace("\"my event\"", "\"my\\u000aevent\""),
        good.replace("\"my event\"", "\"my\\u001Fevent\""),
        good.replace("\"my event\"", "\"my event"),
        good.replace("\"my event\"", "my event"),
        good.replace("\"my event\"", "\"my\\"),
        good.replace("\"outcome 1\",", "\"outcome 1\", "),
        good.replace("\"outcome 3\"]", "\"outcome 3\",]"),
        good.replace("1725388253", "18446744073709551616"),
        good.replace("1725388253", "01725388253"),
        good.replace("{\"v1\":", "{\"V1\":"),
        good.replace(",\"description\":\"a description of my event\"", ""),
    ];
    for json in refused {
        let res = Event::try_from_json_str(&json);
        assert!(matches!(res, Err(Error::Encoding)), "{json}");
    }
    let escaped = good.replace("\"my event\"", "\"my\\u001fevent\\n\"");
    let read = Event::try_from_json_str(&escaped).unwrap();
    match read.information {
        Information::V1(v1) => assert_eq!(v1.title, "my\u{1f}event\n"),
        Information::Empty => panic!("the information has data"),
    }
}

#[test]
fn payout_json_is_exact() {
    let payout = EventPayout {
        event_hash_hex: EventHashHex("cd".repeat(32)),
        units_per_outcome: vec![0, 10, 4294967295],
    };
    let json = payout.try_to_json_string().unwrap();
    assert_eq!(
        json,
        format!(
            "{{\"event_hash_hex\":\"{}\",\"units_per_outcome\":[0,10,4294967295]}}",
            "cd".repeat(32)
        )
    );
    assert_eq!(EventPayout::try_from_json_str(&json).unwrap(), payout);
    let none = EventPayout { event_hash_hex: EventHashHex("\"".into()), units_per_outcome: vec![] };
    let json = none.try_to_json_string().unwrap();
    assert_eq!(json, "{\"event_hash_hex\":\"\\\"\",\"units_per_outcome\":[]}");
    assert_eq!(EventPayout::try_from_json_str(&json).unwrap(), none);
}

#[test]
fn payout_is_read_from_canonical_json_only() {
    let good = "{\"event_hash_hex\":\"ab\",\"units_per_outcome\":[1,2]}";
    assert!(EventPayout::try_from_json_str(good).is_ok());
    let refused = [
        "{\"event_hash_hex\":\"ab\",\"units_per_outcome\":[1, 2]}",
        "{\"event_hash_hex\":\"ab\",\"units_per_outcome\":[1,2,]}",
        "{\"event_hash_hex\":\"ab\",\"units_per_outcome\":[1,02]}",
        "{\"event_hash_hex\":\"ab\",\"units_per_outcome\":[1,4294967296]}",
        "{\"event_hash_hex\":\"ab\",\"units_per_outcome\":[1,2]",
        "{\"event_hash_hex\":\"ab\",\"units_per_outcome\":[1,2]}x",
        "{\"units_per_outcome\":[1,2],\"event_hash_hex\":\"ab\"}",
        "{\"event_hash_hex\":ab,\"units_per_outcome\":[1,2]}",
        "",
    ];
    for json in refused {
        let res = EventPayout::try_from_json_str(json);
        assert!(matches!(res, Err(Error::Encoding)), "{json}");
    }
}

#[test]
fn hash_is_sha256_of_the_json_bytes() {
    let event = event_with(Information::V1(V1 { title: "\u{e4}\u{1d11e}".into(), ..plain_v1() }));
    let json = event.try_to_json_string().unwrap();
    let digest = Sha256::digest(json.as_bytes());
    let expected: String = digest.iter().map(|b| format!("{b:02x}")).collect();
    assert_eq!(event.hash_hex().unwrap().0, expected);
    assert_eq!(event.hash_sha256().unwrap().to_vec(), digest.to_vec());
    assert_eq!(expected.len(), 64);
}

#[test]
fn hash_of_a_known_event() {
    let event = Event {
        nonce: [0; 32],
        outcome_count: 2,
        units_to_payout: 1,
        information: Information::Empty,
    };
    assert_eq!(
        event.try_to_json_string().unwrap(),
        empty_json(&"00".repeat(32), "2", "1")
    );
    let first = event.hash_hex().unwrap();
    let second = event.clone().hash_hex().unwrap();
    assert_eq!(first, second);
    assert!(EventHashHex::is_valid_format(&first.0));
    assert_eq!(first.0, first.0.to_lowercase());
}

#[test]
fn hash_changes_with_every_field() {
    let event = event_with(Information::V1(plain_v1()));
    let hash = event.hash_hex().unwrap();
    let mut nonce = event.nonce;
    nonce[31] ^= 1;
    let others = [
        Event { nonce, ..event.clone() },
        Event { outcome_count: 4, ..event.clone() },
        Event { units_to_payout: 2, ..event.clone() },
        Event { information: Information::Empty, ..event.clone() },
        Event {
            information: Information::V1(V1 { expected_payout_unix_seconds: 1, ..plain_v1() }),
            ..event.clone()
        },
    ];
    for other in others {
        assert_ne!(other.hash_hex().unwrap(), hash);
        assert_ne!(other.try_to_json_string().unwrap(), event.try_to_json_string().unwrap());
    }
}

#[test]
fn new_events_differ_in_their_nonce() {
    let a = Event::new_with_random_nonce(2, 1, Information::Empty);
    let b = Event::new_with_random_nonce(2, 1, Information::Empty);
    assert_eq!(a.outcome_count, 2);
    assert_eq!(a.units_to_payout, 1);
    assert_eq!(a.information, Information::Empty);
    assert_ne!(a.nonce, b.nonce);
    assert_ne!(a.hash_hex().unwrap(), b.hash_hex().unwrap());
}

#[test]
fn bytes_to_hex_and_back() {
    assert_eq!(byte_array_to_hex_string(&[]), "");
    assert_eq!(byte_array_to_hex_string(&[0x00, 0xff, 0x1a, 0xa1, 0x09]), "00ff1aa109");
    assert_eq!(hex_string_to_byte_array("00ff1aa109"), Ok(vec![0x00, 0xff, 0x1a, 0xa1, 0x09]));
    assert_eq!(hex_string_to_byte_array("00FF1Aa1"), Ok(vec![0x00, 0xff, 0x1a, 0xa1]));
    assert_eq!(hex_string_to_byte_array(""), Ok(vec![]));
    assert_eq!(hex_string_to_byte_array("0"), Err("invalid hex string"));
    assert_eq!(hex_string_to_byte_array("0g"), Err("invalid hex string"));
    assert_eq!(hex_string_to_byte_array("+f"), Err("invalid hex string"));
    assert_eq!(hex_string_to_byte_array("\u{e4}0"), Err("invalid hex string"));
    let all: Vec<u8> = (0..=255).collect();
    assert_eq!(hex_string_to_byte_array(&byte_array_to_hex_string(&all)), Ok(all));
}

#[test]
fn identifiers_are_64_hex_digits() {
    let good = "0123456789abcdefABCDEF".to_string() + &"0".repeat(42);
    assert_eq!(good.len(), 64);
    for is_valid in [EventHashHex::is_valid_format, NostrPublicKeyHex::is_valid_format] {
        assert!(is_valid(&good));
        assert!(is_valid(&"f".repeat(64)));
        assert!(!is_valid(&"f".repeat(63)));
        assert!(!is_valid(&"f".repeat(65)));
        assert!(!is_valid(""));
        assert!(!is_valid(&("g".to_string() + &"f".repeat(63))));
        assert!(!is_valid(&("f".repeat(63) + " ")));
        assert!(!is_valid(&"\u{e4}".repeat(32)));
        assert!(!is_valid(&"\u{e4}".repeat(64)));
    }
    assert_eq!(EventHashHex::new_checked(&good), Some(EventHashHex(good.clone())));
    assert_eq!(EventHashHex::new_checked("ab"), None);
    assert_eq!(EventHashHex::from_hex_str(&good), Ok(EventHashHex(good.clone())));
    assert_eq!(EventHashHex::from_hex_str("ab"), Err(Error::Format));
    assert_eq!(NostrPublicKeyHex::new_checked(&good), Some(NostrPublicKeyHex(good.clone())));
    assert_eq!(NostrPublicKeyHex::new_checked("ab"), None);
    assert_eq!(NostrPublicKeyHex::from_hex_str(&good), Ok(NostrPublicKeyHex(good)));
    assert_eq!(NostrPublicKeyHex::from_hex_str(""), Err(Error::Format));
}
