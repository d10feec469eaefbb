use prediction_market_event::{
    Empty, Error, ErrorKind, Event, EventHashHex, EventPayout, Information, ProtocolViolation,
    Violation, V1,
};

fn xs(n: usize) -> String {
    "x".repeat(n)
}

fn v1(outcome_titles: Vec<String>) -> V1 {
    V1 { title: xs(1), description: xs(1), outcome_titles, expected_payout_unix_seconds: 0 }
}

fn event(outcome_count: u16, units_to_payout: u32, information: Information) -> Event {
    Event { nonce: [7; 32], outcome_count, units_to_payout, information }
}

fn violation(res: Result<(), Error>) -> Violation {
    match res {
        Err(Error::Validation(v)) => v,
        other => panic!("no violation: {other:?}"),
    }
}

#[test]
fn event_rules_come_in_order() {
    let all = Information::ALL_VARIANT_IDS;
    let long = Information::V1(V1 { title: xs(257), ..v1(vec![]) });
    assert_eq!(violation(event(1, 0, long.clone()).validate(&[])), Violation::OutcomeCount);
    assert_eq!(violation(event(0, 1, Information::Empty).validate(&all)), Violation::OutcomeCount);
    assert_eq!(violation(event(2, 0, long.clone()).validate(&[])), Violation::UnitsToPayout);
    assert_eq!(violation(event(2, 1, long.clone()).validate(&[])), Violation::VariantNotAccepted);
    assert_eq!(violation(event(2, 1, long).validate(&all)), Violation::TitleTooLong);
    assert_eq!(event(2, 1, Information::Empty).validate(&all), Ok(()));
    assert_eq!(event(u16::MAX, u32::MAX, Information::Empty).validate(&all), Ok(()));
}

#[test]
fn information_rules_come_in_order() {
    let titles = vec![xs(65), xs(65)];
    let everything = V1 {
        title: xs(257),
        description: xs(10241),
        outcome_titles: titles.clone(),
        expected_payout_unix_seconds: 0,
    };
    assert_eq!(violation(everything.validate(3)), Violation::TitleTooLong);
    let description = V1 { title: xs(256), ..everything.clone() };
    assert_eq!(violation(description.validate(3)), Violation::DescriptionTooLong);
    let count = V1 { description: xs(10240), ..description };
    assert_eq!(violation(count.validate(3)), Violation::OutcomeTitleCount);
    assert_eq!(violation(count.validate(1)), Violation::OutcomeTitleCount);
    assert_eq!(violation(count.validate(2)), Violation::OutcomeTitleTooLong(0));
    let second = V1 { outcome_titles: vec![xs(64), xs(65)], ..count.clone() };
    assert_eq!(violation(second.validate(2)), Violation::OutcomeTitleTooLong(1));
    let fine = V1 { outcome_titles: vec![xs(64), xs(0)], ..count };
    assert_eq!(fine.validate(2), Ok(()));
    assert_eq!(v1(vec![]).validate(0), Ok(()));
}

#[test]
fn lengths_count_characters() {
    let wide = V1 {
        title: "\u{e4}".repeat(256),
        description: "\u{1d11e}".repeat(10240),
        outcome_titles: vec!["\u{20ac}".repeat(64), xs(64)],
        expected_payout_unix_seconds: 0,
    };
    assert_eq!(wide.validate(2), Ok(()));
    let too_wide = V1 { title: "\u{e4}".repeat(257), ..wide };
    assert_eq!(violation(too_wide.validate(2)), Violation::TitleTooLong);
}

#[test]
fn variants_are_accepted_by_identifier() {
    assert_eq!(Empty::ID, "empty");
    assert_eq!(V1::ID, "v1");
    assert_eq!(Information::ALL_VARIANT_IDS, ["empty", "v1"]);
    let empty = Information::Empty;
    let first = Information::V1(v1(vec![xs(1), xs(1)]));
    assert_eq!(empty.information_variant_id(), "empty");
    assert_eq!(first.information_variant_id(), "v1");
    assert_eq!(empty.validate(&["empty"], 2, 1), Ok(()));
    assert_eq!(empty.validate(&["v1", "empty"], 2, 1), Ok(()));
    assert_eq!(violation(empty.validate(&["v1"], 2, 1)), Violation::VariantNotAccepted);
    assert_eq!(violation(empty.validate(&["Empty", "empty ", ""], 2, 1)), Violation::VariantNotAccepted);
    assert_eq!(first.validate(&["v1"], 2, 1), Ok(()));
    assert_eq!(first.validate(&["v2", "v1", "empty"], 2, 1), Ok(()));
    assert_eq!(violation(first.validate(&["empty"], 2, 1)), Violation::VariantNotAccepted);
    assert_eq!(violation(first.validate(&[], 2, 1)), Violation::VariantNotAccepted);
    assert_eq!(violation(first.validate(&["v1"], 3, 1)), Violation::OutcomeTitleCount);
}

#[test]
fn payout_must_add_up_exactly() {
    let event = event(3, 10, Information::Empty);
    let check = |units: Vec<u32>| EventPayout::new(&event, units).unwrap().validate(&event);
    assert_eq!(check(vec![0, 0, 10]), Ok(()));
    assert_eq!(check(vec![10, 0, 0]), Ok(()));
    assert_eq!(check(vec![3, 3, 4]), Ok(()));
    assert_eq!(violation(check(vec![3, 3, 3])), Violation::UnitSum);
    assert_eq!(violation(check(vec![3, 3, 5])), Violation::UnitSum);
    assert_eq!(violation(check(vec![0, 0, 0])), Violation::UnitSum);
    assert_eq!(violation(check(vec![0, 10])), Violation::PayoutLength);
    assert_eq!(violation(check(vec![0, 10, 0, 0])), Violation::PayoutLength);
    assert_eq!(violation(check(vec![])), Violation::PayoutLength);
    assert_eq!(violation(check(vec![u32::MAX, 1, 10])), Violation::UnitSumOverflow);
    assert_eq!(violation(check(vec![u32::MAX, u32::MAX, u32::MAX])), Violation::UnitSumOverflow);
    assert_eq!(violation(check(vec![1, 10, u32::MAX])), Violation::UnitSumOverflow);
    assert_eq!(violation(check(vec![u32::MAX, 0, 0])), Violation::UnitSum);
}

#[test]
fn payout_may_use_the_whole_range() {
    let event = event(2, u32::MAX, Information::Empty);
    let payout = EventPayout::new(&event, vec![u32::MAX - 1, 1]).unwrap();
    assert_eq!(payout.validate(&event), Ok(()));
    let payout = EventPayout::new(&event, vec![u32::MAX, 1]).unwrap();
    assert_eq!(violation(payout.validate(&event)), Violation::UnitSumOverflow);
}

#[test]
fn payout_is_bound_to_its_event() {
    let first = event(2, 1, Information::Empty);
    let second = Event { nonce: [8; 32], ..first.clone() };
    let payout = EventPayout::new(&first, vec![1, 0]).unwrap();
    assert_eq!(payout.event_hash_hex, first.hash_hex().unwrap());
    assert_eq!(payout.units_per_outcome, vec![1, 0]);
    assert_eq!(payout.validate(&first), Ok(()));
    assert_eq!(violation(payout.validate(&second)), Violation::EventHashMismatch);
    let upper = EventPayout {
        event_hash_hex: EventHashHex(payout.event_hash_hex.0.to_uppercase()),
        units_per_outcome: vec![1, 0],
    };
    assert_eq!(violation(upper.validate(&first)), Violation::EventHashMismatch);
    let wrong_everything = EventPayout::new(&second, vec![5]).unwrap();
    assert_eq!(violation(wrong_everything.validate(&first)), Violation::EventHashMismatch);
}

#[test]
fn failures_are_told_in_words() {
    assert_eq!(Violation::OutcomeCount.message(), "outcome count must be greater than 1");
    assert_eq!(Violation::UnitsToPayout.message(), "units to payout must be greater than 0");
    assert_eq!(
        Violation::OutcomeTitleTooLong(12).message(),
        "information v1: outcome 12 title length is over max"
    );
    assert_eq!(
        Violation::OutcomeTitleTooLong(0).message(),
        "information v1: outcome 0 title length is over max"
    );
    assert_eq!(
        Error::Validation(Violation::UnitSumOverflow).message(),
        "validation failed: unit sum overflow error"
    );
    assert_eq!(
        Error::Protocol(ProtocolViolation::MissingHashTag).message(),
        "protocol error: nostr event does not have any hash tags"
    );
    assert_eq!(ProtocolViolation::HashTagMismatch.message(),
        "nostr event hash tag does not equal hash hex of contained event");
    assert_eq!(Error::Encoding.message(), "not the canonical json of a value");
    assert_eq!(Error::Format.message(), "invalid format");
    assert_eq!(
        Error::SerdeJson("eof".into()).message(),
        "serde_json failed to serialize/deserialize: eof"
    );
    assert_eq!(Error::NostrEvent("bad".into()).message(), "nostr event: bad");
    assert_eq!(Error::NostrEventBuilder("bad".into()).message(), "nostr event builder: bad");
    assert_eq!(Error::NostrKey("bad".into()).message(), "nostr keys: bad");
    let all = [
        Violation::OutcomeCount,
        Violation::UnitsToPayout,
        Violation::VariantNotAccepted,
        Violation::TitleTooLong,
        Violation::DescriptionTooLong,
        Violation::OutcomeTitleCount,
        Violation::OutcomeTitleTooLong(1),
        Violation::EventHashMismatch,
        Violation::PayoutLength,
        Violation::UnitSumOverflow,
        Violation::UnitSum,
    ];
    for (i, a) in all.iter().enumerate() {
        for b in &all[i + 1..] {
            assert_ne!(a.message(), b.message());
        }
    }
}

#[test]
fn identifiers_are_parsed_from_text() {
    let good = "0f".repeat(32);
    assert_eq!(good.parse::<EventHashHex>(), Ok(EventHashHex(good.clone())));
    assert_eq!("0f".parse::<EventHashHex>(), Err(Error::Format));
    assert_eq!(
        good.parse::<prediction_market_event::NostrPublicKeyHex>().map(|k| k.0),
        Ok(good)
    );
    assert_eq!(
        "".parse::<prediction_market_event::NostrPublicKeyHex>(),
        Err(Error::Format)
    );
    assert_eq!(Error::Format.kind(), ErrorKind::Format);
}

#[test]
fn failures_fall_into_kinds() {
    assert_eq!(Error::Encoding.kind(), ErrorKind::Encoding);
    assert_eq!(Error::SerdeJson(String::new()).kind(), ErrorKind::Encoding);
    assert_eq!(Error::Validation(Violation::UnitSum).kind(), ErrorKind::Validation);
    assert_eq!(Error::Format.kind(), ErrorKind::Format);
    assert_eq!(
        Error::Protocol(ProtocolViolation::MalformedHashTag).kind(),
        ErrorKind::Protocol
    );
    assert_eq!(Error::NostrEvent(String::new()).kind(), ErrorKind::Trust);
    assert_eq!(Error::NostrEventBuilder(String::new()).kind(), ErrorKind::Trust);
    assert_eq!(Error::NostrKey(String::new()).kind(), ErrorKind::Trust);
}
