use nostr::nips::nip19::ToBech32;
use nostr::util::JsonUtil;
use prediction_market_event::nostr_event_types::{check_hashtag, find_hashtag};
use prediction_market_event::nostr_event_utils::{
    check_signed_event_json, check_unsigned_event_json, has_hashtag_only, NOT_AS_HANDED_OVER,
};
use prediction_market_event::{
    Error, ErrorKind, Event, EventHashHex, EventPayout, EventPayoutAttestation,
    FutureEventPayoutAttestationPledge, Information, NewEvent, NostrEvent, NostrEventBuilder,
    NostrEventUtils, NostrPublicKeyHex, ProtocolViolation, V1,
};

fn sample_event() -> Event {
    Event {
        nonce: [9; 32],
        outcome_count: 3,
        units_to_payout: 4,
        information: Information::V1(V1 {
            title: "my event".into(),
            description: "a description of my event".into(),
            outcome_titles: vec!["outcome 1".into(), "outcome 2".into(), "outcome 3".into()],
            expected_payout_unix_seconds: 1725388253,
        }),
    }
}

fn hash_of_sample() -> EventHashHex {
    sample_event().hash_hex().unwrap()
}

fn received(hashtags: &[&str], content: &str) -> NostrEvent {
    NostrEvent {
        verification_failure: None,
        pubkey: "ab".repeat(32),
        kind: 1,
        tags: hashtags.iter().map(|t| vec!["t".to_string(), t.to_string()]).collect(),
        content: content.to_string(),
    }
}

fn signed(kind: u16, content: &str, hashtags: &[&str], keys: &nostr::Keys) -> String {
    let tags: Vec<nostr::Tag> = hashtags.iter().map(|t| nostr::Tag::hashtag(*t)).collect();
    nostr::EventBuilder::new(nostr::Kind::from_u16(kind), content)
        .tags(tags)
        .sign_with_keys(keys)
        .unwrap()
        .try_as_json()
        .unwrap()
}

#[test]
fn kinds_are_fixed() {
    assert_eq!(NewEvent::NOSTR_KIND, 6275);
    assert_eq!(FutureEventPayoutAttestationPledge::NOSTR_KIND, 6276);
    assert_eq!(EventPayoutAttestation::NOSTR_KIND, 6277);
}

#[test]
fn filters_ask_for_one_kind() {
    assert_eq!(NewEvent::filter_json(), "{\"kinds\":[6275]}");
    assert_eq!(FutureEventPayoutAttestationPledge::filter_json(), "{\"kinds\":[6276]}");
    assert_eq!(EventPayoutAttestation::filter_json(), "{\"kinds\":[6277]}");
    let filter = nostr::Filter::from_json(NewEvent::filter_json()).unwrap();
    assert_eq!(filter, nostr::Filter::new().kind(nostr::Kind::Custom(6275)));
}

#[test]
fn filters_may_ask_for_one_event() {
    let hash = sample_event().hash_hex().unwrap();
    assert_eq!(
        NewEvent::filter_json_for_event(&hash),
        format!("{{\"kinds\":[6275],\"#t\":[\"{}\"]}}", hash.0)
    );
    assert_eq!(
        FutureEventPayoutAttestationPledge::filter_json_for_event(&hash),
        format!("{{\"kinds\":[6276],\"#t\":[\"{}\"]}}", hash.0)
    );
    assert_eq!(
        EventPayoutAttestation::filter_json_for_event(&EventHashHex("a\"b".into())),
        "{\"kinds\":[6277],\"#t\":[\"a\\\"b\"]}"
    );
    let odd = "tab\t bell\u{7} umlaut \u{e4} clef \u{1d11e} \\ /";
    assert_eq!(
        NewEvent::filter_json_for_event(&EventHashHex(odd.into())),
        format!("{{\"kinds\":[6275],\"#t\":[{}]}}", serde_json::to_string(odd).unwrap())
    );
    assert_eq!(
        NewEvent::filter_json_for_event(&EventHashHex(odd.into())),
        "{\"kinds\":[6275],\"#t\":[\"tab\\t bell\\u0007 umlaut \u{e4} clef \u{1d11e} \\\\ /\"]}"
    );
    let filter = nostr::Filter::from_json(NewEvent::filter_json_for_event(&hash)).unwrap();
    assert_eq!(filter, nostr::Filter::new().kind(nostr::Kind::Custom(6275)).hashtag(hash.0));
}

#[test]
fn bindings_share_one_interface() {
    fn kind_of<T: NostrEventUtils>() -> u16 {
        T::kind()
    }
    fn read<T: NostrEventUtils>(json: &str) -> Result<T::InterpretResult, Error> {
        T::interpret_nostr_event_json(json)
    }
    assert_eq!(kind_of::<NewEvent>(), 6275);
    assert_eq!(kind_of::<FutureEventPayoutAttestationPledge>(), 6276);
    assert_eq!(kind_of::<EventPayoutAttestation>(), 6277);
    let event = sample_event();
    let keys = nostr::Keys::generate();
    let secret = keys.secret_key().to_secret_hex();
    let json = <NewEvent as NostrEventUtils>::create_nostr_signed_event_json(&event, &secret)
        .unwrap();
    assert_eq!(read::<NewEvent>(&json), Ok(event.clone()));
    let hash = event.hash_hex().unwrap();
    let json = <FutureEventPayoutAttestationPledge as NostrEventUtils>::create_nostr_unsigned_event_json(
        &hash,
        &keys.public_key.to_hex(),
    )
    .unwrap();
    let json = nostr::UnsignedEvent::from_json(json)
        .unwrap()
        .sign_with_keys(&keys)
        .unwrap()
        .try_as_json()
        .unwrap();
    assert_eq!(
        read::<FutureEventPayoutAttestationPledge>(&json),
        Ok((NostrPublicKeyHex(keys.public_key.to_hex()), hash))
    );
}

#[test]
fn builders_hold_kind_content_and_hashtag() {
    let event = sample_event();
    let hash = event.hash_hex().unwrap();
    assert_eq!(
        NewEvent::create_nostr_event_builder(&event),
        Ok(NostrEventBuilder {
            kind: 6275,
            content: event.try_to_json_string().unwrap(),
            hashtag: hash.0.clone(),
        })
    );
    assert_eq!(
        FutureEventPayoutAttestationPledge::create_nostr_event_builder(hash.clone()),
        Ok(NostrEventBuilder { kind: 6276, content: String::new(), hashtag: hash.0.clone() })
    );
    let payout = EventPayout::new(&event, vec![1, 0, 3]).unwrap();
    assert_eq!(
        EventPayoutAttestation::create_nostr_event_builder(&payout),
        Ok(NostrEventBuilder { kind: 6277, content: "[1,0,3]".into(), hashtag: hash.0 })
    );
    let large = EventPayout {
        event_hash_hex: hash_of_sample(),
        units_per_outcome: vec![u32::MAX, 0, 10, 4294967294],
    };
    assert_eq!(
        EventPayoutAttestation::create_nostr_event_builder(&large).unwrap().content,
        "[4294967295,0,10,4294967294]"
    );
    let none = EventPayout { event_hash_hex: EventHashHex("x".into()), units_per_outcome: vec![] };
    assert_eq!(
        EventPayoutAttestation::create_nostr_event_builder(&none),
        Ok(NostrEventBuilder { kind: 6277, content: "[]".into(), hashtag: "x".into() })
    );
}

#[test]
fn unsigned_events_carry_what_the_builder_holds() {
    let event = sample_event();
    let keys = nostr::Keys::generate();
    let json =
        NewEvent::create_nostr_unsigned_event_json(&event, &keys.public_key.to_hex()).unwrap();
    let unsigned = nostr::UnsignedEvent::from_json(json).unwrap();
    assert_eq!(unsigned.kind, nostr::Kind::Custom(6275));
    assert_eq!(unsigned.pubkey, keys.public_key);
    assert_eq!(unsigned.content, event.try_to_json_string().unwrap());
    let hashtags: Vec<&str> = unsigned.tags.hashtags().collect();
    assert_eq!(hashtags, vec![event.hash_hex().unwrap().0.as_str()]);
    assert_eq!(unsigned.tags.len(), 1);
}

#[test]
fn signed_events_are_read_back() {
    let event = sample_event();
    let hash = event.hash_hex().unwrap();
    let payout = EventPayout::new(&event, vec![1, 0, 3]).unwrap();
    let keys = nostr::Keys::generate();
    let secret = keys.secret_key().to_secret_hex();
    let author = NostrPublicKeyHex(keys.public_key.to_hex());

    let json = NewEvent::create_nostr_signed_event_json(&event, &secret).unwrap();
    assert_eq!(nostr::Event::from_json(&json).unwrap().kind, nostr::Kind::Custom(6275));
    assert_eq!(NewEvent::interpret_nostr_event_json(&json), Ok(event));

    let json =
        FutureEventPayoutAttestationPledge::create_nostr_signed_event_json(hash.clone(), &secret)
            .unwrap();
    assert_eq!(nostr::Event::from_json(&json).unwrap().kind, nostr::Kind::Custom(6276));
    assert_eq!(
        FutureEventPayoutAttestationPledge::interpret_nostr_event_json(&json),
        Ok((author.clone(), hash))
    );

    let json = EventPayoutAttestation::create_nostr_signed_event_json(&payout, &secret).unwrap();
    assert_eq!(nostr::Event::from_json(&json).unwrap().kind, nostr::Kind::Custom(6277));
    assert_eq!(EventPayoutAttestation::interpret_nostr_event_json(&json), Ok((author, payout)));
}

#[test]
fn refused_keys_are_reported() {
    let event = sample_event();
    let payout = EventPayout::new(&event, vec![4, 0, 0]).unwrap();
    let hash = event.hash_hex().unwrap();
    let not_a_key = "not a key";
    assert!(matches!(
        NewEvent::create_nostr_unsigned_event_json(&event, not_a_key),
        Err(Error::NostrKey(_))
    ));
    assert!(matches!(
        NewEvent::create_nostr_signed_event_json(&event, not_a_key),
        Err(Error::NostrKey(_))
    ));
    assert!(matches!(
        FutureEventPayoutAttestationPledge::create_nostr_unsigned_event_json(
            hash.clone(),
            not_a_key
        ),
        Err(Error::NostrKey(_))
    ));
    assert!(matches!(
        FutureEventPayoutAttestationPledge::create_nostr_signed_event_json(hash, not_a_key),
        Err(Error::NostrKey(_))
    ));
    assert!(matches!(
        EventPayoutAttestation::create_nostr_unsigned_event_json(&payout, not_a_key),
        Err(Error::NostrKey(_))
    ));
    let res = EventPayoutAttestation::create_nostr_signed_event_json(&payout, &"0".repeat(64));
    assert!(matches!(res, Err(Error::NostrKey(_))));
    assert_eq!(res.unwrap_err().kind(), ErrorKind::Trust);
}

#[test]
fn text_that_is_no_signed_event_is_refused() {
    for json in ["", "{}", "[]", "{\"content\":\"\"}"] {
        assert!(matches!(NewEvent::interpret_nostr_event_json(json), Err(Error::NostrEvent(_))));
        assert!(matches!(
            FutureEventPayoutAttestationPledge::interpret_nostr_event_json(json),
            Err(Error::NostrEvent(_))
        ));
        assert!(matches!(
            EventPayoutAttestation::interpret_nostr_event_json(json),
            Err(Error::NostrEvent(_))
        ));
    }
    let keys = nostr::Keys::generate();
    let unsigned = NewEvent::create_nostr_unsigned_event_json(
        &sample_event(),
        &keys.public_key.to_hex(),
    )
    .unwrap();
    assert!(matches!(NewEvent::interpret_nostr_event_json(&unsigned), Err(Error::NostrEvent(_))));
}

#[test]
fn tampered_content_fails_verification() {
    let event = sample_event();
    let keys = nostr::Keys::generate();
    let secret = keys.secret_key().to_secret_hex();
    let json = NewEvent::create_nostr_signed_event_json(&event, &secret).unwrap();
    let tampered = json.replace("my event", "my evenu");
    assert_ne!(tampered, json);
    assert!(matches!(NewEvent::interpret_nostr_event_json(&tampered), Err(Error::NostrEvent(_))));

    let payout = EventPayout::new(&event, vec![1, 0, 3]).unwrap();
    let json = EventPayoutAttestation::create_nostr_signed_event_json(&payout, &secret).unwrap();
    let tampered = json.replace("[1,0,3]", "[3,0,1]");
    assert_ne!(tampered, json);
    let res = EventPayoutAttestation::interpret_nostr_event_json(&tampered);
    assert!(matches!(res, Err(Error::NostrEvent(_))));

    let hash = event.hash_hex().unwrap();
    let json =
        FutureEventPayoutAttestationPledge::create_nostr_signed_event_json(hash.clone(), &secret)
            .unwrap();
    let other = if hash.0.starts_with('0') { "1" } else { "0" };
    let tampered = json.replace(&hash.0, &(other.to_string() + &hash.0[1..]));
    assert_ne!(tampered, json);
    let res = FutureEventPayoutAttestationPledge::interpret_nostr_event_json(&tampered);
    assert!(matches!(res, Err(Error::NostrEvent(_))));
}

#[test]
fn tampered_signature_fails_verification() {
    let event = sample_event();
    let keys = nostr::Keys::generate();
    let secret = keys.secret_key().to_secret_hex();
    let json = NewEvent::create_nostr_signed_event_json(&event, &secret).unwrap();
    let signature = nostr::Event::from_json(&json).unwrap().sig.to_string();
    assert!(json.contains(&signature));
    let flipped = if signature.ends_with('0') { "1" } else { "0" };
    let forged = signature[..signature.len() - 1].to_string() + flipped;
    let tampered = json.replace(&signature, &forged);
    assert_ne!(tampered, json);
    let res = NewEvent::interpret_nostr_event_json(&tampered);
    assert!(matches!(res, Err(Error::NostrEvent(_))));
    assert_eq!(res.unwrap_err().kind(), ErrorKind::Trust);
}

#[test]
fn signature_of_another_author_fails_verification() {
    let event = sample_event();
    let secret = nostr::Keys::generate().secret_key().to_secret_hex();
    let json = NewEvent::create_nostr_signed_event_json(&event, &secret).unwrap();
    let author = nostr::Event::from_json(&json).unwrap().pubkey.to_hex();
    let other = nostr::Keys::generate().public_key.to_hex();
    let tampered = json.replace(&author, &other);
    assert!(matches!(NewEvent::interpret_nostr_event_json(&tampered), Err(Error::NostrEvent(_))));
}

#[test]
fn announcement_under_another_hash_is_refused() {
    let event = sample_event();
    let other = Event { nonce: [1; 32], ..sample_event() };
    let keys = nostr::Keys::generate();
    let content = event.try_to_json_string().unwrap();
    let json = signed(6275, &content, &[&other.hash_hex().unwrap().0], &keys);
    assert_eq!(
        NewEvent::interpret_nostr_event_json(&json),
        Err(Error::Protocol(ProtocolViolation::HashTagMismatch))
    );
    let json = signed(6275, &content, &[&event.hash_hex().unwrap().0], &keys);
    assert_eq!(NewEvent::interpret_nostr_event_json(&json), Ok(event));
}

#[test]
fn signed_events_without_a_proper_hashtag_are_refused() {
    let event = sample_event();
    let keys = nostr::Keys::generate();
    let content = event.try_to_json_string().unwrap();
    let missing = Err(Error::Protocol(ProtocolViolation::MissingHashTag));
    let malformed = Err(Error::Protocol(ProtocolViolation::MalformedHashTag));

    let json = signed(6275, &content, &[], &keys);
    assert_eq!(NewEvent::interpret_nostr_event_json(&json), missing);
    let json = signed(6275, &content, &["market"], &keys);
    assert_eq!(NewEvent::interpret_nostr_event_json(&json), malformed);

    let json = signed(6276, "", &[], &keys);
    assert!(matches!(
        FutureEventPayoutAttestationPledge::interpret_nostr_event_json(&json),
        Err(Error::Protocol(ProtocolViolation::MissingHashTag))
    ));
    let json = signed(6276, "", &[&"f".repeat(63)], &keys);
    assert!(matches!(
        FutureEventPayoutAttestationPledge::interpret_nostr_event_json(&json),
        Err(Error::Protocol(ProtocolViolation::MalformedHashTag))
    ));

    let json = signed(6277, "[1]", &[], &keys);
    assert!(matches!(
        EventPayoutAttestation::interpret_nostr_event_json(&json),
        Err(Error::Protocol(ProtocolViolation::MissingHashTag))
    ));
    let json = signed(6277, "[1]", &[&"g".repeat(64)], &keys);
    let res = EventPayoutAttestation::interpret_nostr_event_json(&json);
    assert!(matches!(res, Err(Error::Protocol(ProtocolViolation::MalformedHashTag))));
    assert_eq!(res.unwrap_err().kind(), ErrorKind::Protocol);
}

#[test]
fn signed_events_with_malformed_content_are_refused() {
    let keys = nostr::Keys::generate();
    let hash = "c".repeat(64);
    let json = signed(6275, "{\"nonce\":1}", &[&hash], &keys);
    assert_eq!(NewEvent::interpret_nostr_event_json(&json), Err(Error::Encoding));
    let json = signed(6276, "pledge", &[&hash], &keys);
    assert_eq!(
        FutureEventPayoutAttestationPledge::interpret_nostr_event_json(&json),
        Err(Error::Encoding)
    );
    for content in ["", "[1,", "[1,-1]", "[4294967296]", "{\"a\":1}", "[\"1\"]"] {
        let json = signed(6277, content, &[&hash], &keys);
        let res = EventPayoutAttestation::interpret_nostr_event_json(&json);
        assert!(matches!(res, Err(Error::SerdeJson(_))), "{content}");
    }
    let json = signed(6277, " [ 1 , 0,\n3 ] ", &[&hash], &keys);
    let (author, payout) = EventPayoutAttestation::interpret_nostr_event_json(&json).unwrap();
    assert_eq!(author.0, keys.public_key.to_hex());
    assert_eq!(payout, EventPayout { event_hash_hex: EventHashHex(hash), units_per_outcome: vec![1, 0, 3] });
}

#[test]
fn received_events_are_read_in_order() {
    let event = sample_event();
    let hash = event.hash_hex().unwrap().0;
    let content = event.try_to_json_string().unwrap();
    let failed = NostrEvent {
        verification_failure: Some("Invalid signature".into()),
        ..received(&[], "not json")
    };
    let refused = Error::NostrEvent("Invalid signature".into());
    assert_eq!(NewEvent::interpret_nostr_event(&failed), Err(refused.clone()));
    assert_eq!(
        FutureEventPayoutAttestationPledge::interpret_nostr_event(&failed),
        Err(refused.clone())
    );
    assert_eq!(EventPayoutAttestation::interpret_nostr_event(&failed), Err(refused));

    let missing = Err(Error::Protocol(ProtocolViolation::MissingHashTag));
    let malformed = Err(Error::Protocol(ProtocolViolation::MalformedHashTag));
    assert_eq!(NewEvent::interpret_nostr_event(&received(&[], "not json")), missing);
    assert_eq!(NewEvent::interpret_nostr_event(&received(&["tag", &hash], &content)), malformed);
    assert_eq!(
        NewEvent::interpret_nostr_event(&received(&[&hash], "not json")),
        Err(Error::Encoding)
    );
    assert_eq!(
        NewEvent::interpret_nostr_event(&received(&[&"0".repeat(64)], &content)),
        Err(Error::Protocol(ProtocolViolation::HashTagMismatch))
    );
    assert_eq!(
        NewEvent::interpret_nostr_event(&received(&[&hash.to_uppercase()], &content)),
        Err(Error::Protocol(ProtocolViolation::HashTagMismatch))
    );
    assert_eq!(
        NewEvent::interpret_nostr_event(&received(&[&hash, "tag"], &content)),
        Ok(event)
    );
}

#[test]
fn pledges_and_attestations_are_read_from_plain_values() {
    let hash = "0123456789abcdef".repeat(4);
    let author = NostrPublicKeyHex("ab".repeat(32));
    assert_eq!(
        FutureEventPayoutAttestationPledge::interpret_nostr_event(&received(&[&hash], "")),
        Ok((author.clone(), EventHashHex(hash.clone())))
    );
    assert_eq!(
        FutureEventPayoutAttestationPledge::interpret_nostr_event(&received(&[&hash], " ")),
        Err(Error::Encoding)
    );
    assert_eq!(
        EventPayoutAttestation::interpret_nostr_event(&received(&[&hash], "[7,0]")),
        Ok((
            author.clone(),
            EventPayout { event_hash_hex: EventHashHex(hash.clone()), units_per_outcome: vec![7, 0] }
        ))
    );
    assert!(matches!(
        EventPayoutAttestation::interpret_nostr_event(&received(&[&hash], "seven")),
        Err(Error::SerdeJson(_))
    ));
    assert_eq!(
        EventPayoutAttestation::payout_from_units(
            &author.0,
            EventHashHex(hash.clone()),
            Ok(vec![1, 2])
        ),
        Ok((
            author.clone(),
            EventPayout { event_hash_hex: EventHashHex(hash.clone()), units_per_outcome: vec![1, 2] }
        ))
    );
    assert_eq!(
        EventPayoutAttestation::payout_from_units(&author.0, EventHashHex(hash), Err("no".into())),
        Err(Error::SerdeJson("no".into()))
    );
}

#[test]
fn one_hashtag_is_told_from_other_tags() {
    let tag = |strings: &[&str]| strings.iter().map(|s| s.to_string()).collect::<Vec<String>>();
    assert!(has_hashtag_only(&vec![tag(&["t", "abc"])], "abc"));
    assert!(has_hashtag_only(&vec![tag(&["t", ""])], ""));
    assert!(has_hashtag_only(&vec![tag(&["t", "ABC"])], "ABC"));
    assert!(!has_hashtag_only(&vec![], "abc"));
    assert!(!has_hashtag_only(&vec![tag(&["t", "abc"]), tag(&["t", "abc"])], "abc"));
    assert!(!has_hashtag_only(&vec![tag(&["t"])], "abc"));
    assert!(!has_hashtag_only(&vec![tag(&["t", "abc", "abc"])], "abc"));
    assert!(!has_hashtag_only(&vec![tag(&["T", "abc"])], "abc"));
    assert!(!has_hashtag_only(&vec![tag(&["e", "abc"])], "abc"));
    assert!(!has_hashtag_only(&vec![tag(&["t", "abd"])], "abc"));
    assert!(!has_hashtag_only(&vec![tag(&["abc", "t"])], "abc"));
}

#[test]
fn made_events_are_checked_against_what_was_handed_over() {
    let keys = nostr::Keys::generate();
    let author = keys.public_key.to_hex();
    let builder =
        NostrEventBuilder { kind: 6276, content: "some content".into(), hashtag: "ABC def".into() };
    let unsigned = nostr::EventBuilder::new(nostr::Kind::from_u16(6276), "some content")
        .tag(nostr::Tag::from(nostr::TagStandard::Hashtag("ABC def".into())))
        .build(keys.public_key);
    let unsigned_json = unsigned.try_as_json().unwrap();
    let signed_json = unsigned.sign_with_keys(&keys).unwrap().try_as_json().unwrap();
    let refused = Err(Error::NostrEvent(NOT_AS_HANDED_OVER.into()));

    assert_eq!(
        check_unsigned_event_json(unsigned_json.clone(), &builder, &author),
        Ok(unsigned_json.clone())
    );
    assert_eq!(
        check_signed_event_json(signed_json.clone(), &builder, &author),
        Ok(signed_json.clone())
    );
    let others = [
        NostrEventBuilder { kind: 6275, ..builder.clone() },
        NostrEventBuilder { content: "some content ".into(), ..builder.clone() },
        NostrEventBuilder { hashtag: "abc def".into(), ..builder.clone() },
    ];
    for other in &others {
        assert_eq!(check_unsigned_event_json(unsigned_json.clone(), other, &author), refused);
        assert_eq!(check_signed_event_json(signed_json.clone(), other, &author), refused);
    }
    let stranger = nostr::Keys::generate().public_key.to_hex();
    assert_eq!(check_unsigned_event_json(unsigned_json.clone(), &builder, &stranger), refused);
    assert_eq!(check_signed_event_json(signed_json.clone(), &builder, &stranger), refused);

    let tampered = signed_json.replace("some content", "some contenu");
    assert_eq!(
        check_signed_event_json(tampered, &NostrEventBuilder { content: "some contenu".into(), ..builder.clone() }, &author),
        refused
    );
    assert!(matches!(
        check_unsigned_event_json("{}".into(), &builder, &author),
        Err(Error::NostrEvent(m)) if m != NOT_AS_HANDED_OVER
    ));
    assert!(matches!(
        check_signed_event_json(unsigned_json, &builder, &author),
        Err(Error::NostrEvent(m)) if m != NOT_AS_HANDED_OVER
    ));
}

#[test]
fn keys_are_taken_in_every_form_that_nostr_reads() {
    let event = sample_event();
    let keys = nostr::Keys::generate();
    let npub = keys.public_key.to_bech32().unwrap();
    let json = NewEvent::create_nostr_unsigned_event_json(&event, &npub).unwrap();
    let unsigned = nostr::UnsignedEvent::from_json(json).unwrap();
    assert_eq!(unsigned.pubkey, keys.public_key);
    assert_eq!(unsigned.kind, nostr::Kind::Custom(6275));

    let nsec = keys.secret_key().to_bech32().unwrap();
    let json = NewEvent::create_nostr_signed_event_json(&event, &nsec).unwrap();
    let signed = nostr::Event::from_json(&json).unwrap();
    assert_eq!(signed.pubkey, keys.public_key);
    assert!(signed.verify().is_ok());
    assert_eq!(signed.content, event.try_to_json_string().unwrap());
    assert_eq!(NewEvent::interpret_nostr_event_json(&json), Ok(event));
}

#[test]
fn events_are_made_for_any_hashtag() {
    let keys = nostr::Keys::generate();
    let secret = keys.secret_key().to_secret_hex();
    let upper = EventHashHex("AB".repeat(32));
    let json = FutureEventPayoutAttestationPledge::create_nostr_unsigned_event_json(
        upper.clone(),
        &keys.public_key.to_hex(),
    )
    .unwrap();
    let unsigned = nostr::UnsignedEvent::from_json(json).unwrap();
    assert_eq!(unsigned.tags.len(), 1);
    assert_eq!(
        unsigned.tags.first().unwrap().as_slice(),
        &["t".to_string(), "AB".repeat(32)]
    );
    assert_eq!(unsigned.content, "");
    assert_eq!(unsigned.kind, nostr::Kind::Custom(6276));

    let payout = EventPayout { event_hash_hex: upper, units_per_outcome: vec![2, 2] };
    let json = EventPayoutAttestation::create_nostr_signed_event_json(&payout, &secret).unwrap();
    let signed = nostr::Event::from_json(&json).unwrap();
    assert_eq!(signed.kind, nostr::Kind::Custom(6277));
    assert_eq!(signed.content, "[2,2]");
    assert_eq!(signed.tags.first().unwrap().as_slice(), &["t".to_string(), "AB".repeat(32)]);
    assert_eq!(signed.pubkey, keys.public_key);
}

#[test]
fn first_hashtag_is_found_among_the_tags() {
    let tag = |strings: &[&str]| strings.iter().map(|s| s.to_string()).collect::<Vec<String>>();
    assert_eq!(find_hashtag(&vec![]), None);
    assert_eq!(find_hashtag(&vec![tag(&["t"])]), None);
    assert_eq!(find_hashtag(&vec![tag(&["e", "x"]), tag(&["T", "y"]), tag(&[])]), None);
    assert_eq!(find_hashtag(&vec![tag(&["t", "x"])]), Some("x".to_string()));
    assert_eq!(find_hashtag(&vec![tag(&["t", "X", "more"])]), Some("X".to_string()));
    assert_eq!(
        find_hashtag(&vec![tag(&["p", "k"]), tag(&["t"]), tag(&["t", "first"]), tag(&["t", "second"])]),
        Some("first".to_string())
    );
    let upper = "AB".repeat(32);
    let event = NostrEvent {
        tags: vec![tag(&["e", "x"]), tag(&["t", &upper])],
        ..received(&[], "")
    };
    assert_eq!(check_hashtag(&event), Ok(EventHashHex(upper)));
}

#[test]
fn upper_case_identifiers_are_read_back() {
    let keys = nostr::Keys::generate();
    let secret = keys.secret_key().to_secret_hex();
    let author = NostrPublicKeyHex(keys.public_key.to_hex());
    let upper = EventHashHex("AB".repeat(32));
    let json =
        FutureEventPayoutAttestationPledge::create_nostr_signed_event_json(upper.clone(), &secret)
            .unwrap();
    assert_eq!(
        FutureEventPayoutAttestationPledge::interpret_nostr_event_json(&json),
        Ok((author.clone(), upper.clone()))
    );
    let payout = EventPayout { event_hash_hex: upper, units_per_outcome: vec![2, 2] };
    let json = EventPayoutAttestation::create_nostr_signed_event_json(&payout, &secret).unwrap();
    assert_eq!(EventPayoutAttestation::interpret_nostr_event_json(&json), Ok((author, payout)));
}

#[test]
fn announced_event_may_be_read_by_any_reader() {
    let event = sample_event();
    let hash = event.hash_hex().unwrap().0;
    let other = Event { nonce: [1; 32], ..sample_event() };
    let loose = received(&[&hash], " { \"not\" : \"canonical\" } ");
    assert_eq!(NewEvent::interpret_nostr_event(&loose), Err(Error::Encoding));
    assert_eq!(NewEvent::interpret_announced_event(&loose, event.clone()), Ok(event.clone()));
    assert_eq!(
        NewEvent::interpret_announced_event(&loose, other),
        Err(Error::Protocol(ProtocolViolation::HashTagMismatch))
    );
    assert_eq!(
        NewEvent::interpret_announced_event(&received(&[], ""), event.clone()),
        Err(Error::Protocol(ProtocolViolation::MissingHashTag))
    );
    assert_eq!(
        NewEvent::interpret_announced_event(&received(&["tag"], ""), event.clone()),
        Err(Error::Protocol(ProtocolViolation::MalformedHashTag))
    );
    let failed = NostrEvent { verification_failure: Some("Invalid event ID".into()), ..loose };
    assert_eq!(
        NewEvent::interpret_announced_event(&failed, event),
        Err(Error::NostrEvent("Invalid event ID".into()))
    );
}

fn with_other_last_digit(json: &str, hex: &str) -> String {
    assert!(json.contains(hex));
    let flipped = if hex.ends_with('0') { "1" } else { "0" };
    json.replace(hex, &(hex[..hex.len() - 1].to_string() + flipped))
}

#[test]
fn altered_announcement_content_is_refused() {
    let event = sample_event();
    let secret = nostr::Keys::generate().secret_key().to_secret_hex();
    let j0 = NewEvent::create_nostr_signed_event_json(&event, &secret).unwrap();
    assert_eq!(NewEvent::interpret_nostr_event_json(&j0), Ok(event));
    let j1 = j0.replace("outcome 1", "outcome 9");
    assert_ne!(j1, j0);
    assert!(matches!(NewEvent::interpret_nostr_event_json(&j1), Err(Error::NostrEvent(_))));
}

#[test]
fn altered_announcement_signature_is_refused() {
    let event = sample_event();
    let secret = nostr::Keys::generate().secret_key().to_secret_hex();
    let j0 = NewEvent::create_nostr_signed_event_json(&event, &secret).unwrap();
    let sig = nostr::Event::from_json(&j0).unwrap().sig.to_string();
    let j1 = with_other_last_digit(&j0, &sig);
    assert_ne!(j1, j0);
    assert!(matches!(NewEvent::interpret_nostr_event_json(&j1), Err(Error::NostrEvent(_))));
}

#[test]
fn altered_pledge_signature_is_refused() {
    let hash = hash_of_sample();
    let keys = nostr::Keys::generate();
    let secret = keys.secret_key().to_secret_hex();
    let j0 = FutureEventPayoutAttestationPledge::create_nostr_signed_event_json(hash.clone(), &secret)
        .unwrap();
    assert_eq!(
        FutureEventPayoutAttestationPledge::interpret_nostr_event_json(&j0),
        Ok((NostrPublicKeyHex(keys.public_key.to_hex()), hash))
    );
    let sig = nostr::Event::from_json(&j0).unwrap().sig.to_string();
    let j1 = with_other_last_digit(&j0, &sig);
    assert_ne!(j1, j0);
    let res = FutureEventPayoutAttestationPledge::interpret_nostr_event_json(&j1);
    assert!(matches!(res, Err(Error::NostrEvent(_))));
}

#[test]
fn altered_attestation_content_is_refused() {
    let payout = EventPayout::new(&sample_event(), vec![1, 0, 3]).unwrap();
    let keys = nostr::Keys::generate();
    let secret = keys.secret_key().to_secret_hex();
    let j0 = EventPayoutAttestation::create_nostr_signed_event_json(&payout, &secret).unwrap();
    assert_eq!(
        EventPayoutAttestation::interpret_nostr_event_json(&j0),
        Ok((NostrPublicKeyHex(keys.public_key.to_hex()), payout))
    );
    let j1 = j0.replace("[1,0,3]", "[1,0,4]");
    assert_ne!(j1, j0);
    let res = EventPayoutAttestation::interpret_nostr_event_json(&j1);
    assert!(matches!(res, Err(Error::NostrEvent(_))));
}
