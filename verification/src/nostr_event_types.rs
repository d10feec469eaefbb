//! The three kinds of Nostr events that carry prediction market data: how
//! each is shaped for signing, and how each is read once received.
//!
//! A received event is read in a fixed order. Its verification comes first:
//! where that failed, nothing else is looked at. Then its first hashtag must
//! be there and have the form of an event identifier. Only then is the
//! content read. What comes out is not validated.

use vstd::prelude::*;

use crate::codec::units_json;
use crate::decode::event_of_json;
use crate::error::{outcome, Error, ErrorView, ProtocolViolation};
use crate::event::{
    event_hash_hex, event_json, Event, EventHashHex, EventPayout, EventPayoutView, EventView,
};
use crate::hex::{is_identifier, is_identifier_text};
use crate::laws::{
    law_signed_announcement_reads_back, law_signed_attestation_reads_back,
    law_signed_pledge_reads_back,
};
use crate::nostr_event_utils::{is_signed_event_json, is_unsigned_event_json, NostrEventUtils};
use crate::text::str_eq;
use crate::transport::{
    kind_filter_json, nostr_event_of_json, public_key_of, public_key_of_secret_key, read_units,
    tags_view, units_of_json, write_units, NostrEvent, NostrEventBuilder, NostrEventBuilderView,
    NostrEventView,
};

verus! {

/// The public key of a Nostr author, in hexadecimal.
#[derive(Debug, Clone, PartialEq, Eq, Hash)]
pub struct NostrPublicKeyHex(pub String);

impl View for NostrPublicKeyHex {
    type V = Seq<char>;

    open spec fn view(&self) -> Seq<char> {
        self.0@
    }
}

impl NostrPublicKeyHex {
    /// Whether `s` has the form of a public key: 64 hexadecimal digits.
    pub fn is_valid_format(s: &str) -> (r: bool)
        ensures
            r == is_identifier_text(s@),
    {
        is_identifier(s)
    }

    /// The key with the text `s`, where `s` has the form of one.
    pub fn new_checked(s: &str) -> (r: Option<NostrPublicKeyHex>)
        ensures
            match r {
                Some(key) => is_identifier_text(s@) && key@ == s@,
                None => !is_identifier_text(s@),
            },
    {
        if is_identifier(s) {
            Some(NostrPublicKeyHex(s.to_owned()))
        } else {
            None
        }
    }

    /// The key with the text `s`, or a format error.
    pub fn from_hex_str(s: &str) -> (r: Result<NostrPublicKeyHex, Error>)
        ensures
            match r {
                Ok(key) => is_identifier_text(s@) && key@ == s@,
                Err(e) => !is_identifier_text(s@) && e == Error::Format,
            },
    {
        match NostrPublicKeyHex::new_checked(s) {
            Some(key) => Ok(key),
            None => Err(Error::Format),
        }
    }
}

impl std::str::FromStr for NostrPublicKeyHex {
    type Err = Error;

    fn from_str(s: &str) -> (r: Result<NostrPublicKeyHex, Error>)
        ensures
            match r {
                Ok(key) => is_identifier_text(s@) && key@ == s@,
                Err(e) => !is_identifier_text(s@) && e == Error::Format,
            },
    {
        NostrPublicKeyHex::from_hex_str(s)
    }
}

/// Whether `tag` is a hashtag: its first string is `t`, and a value follows.
pub open spec fn is_hashtag(tag: Seq<Seq<char>>) -> bool {
    tag.len() >= 2 && tag[0] == "t"@
}

/// Index of the first hashtag among `tags` at or behind `from`, or the
/// number of tags where there is none.
pub open spec fn first_hashtag_from(tags: Seq<Seq<Seq<char>>>, from: int) -> int
    decreases tags.len() - from,
{
    if from < 0 || from >= tags.len() {
        tags.len() as int
    } else if is_hashtag(tags[from]) {
        from
    } else {
        first_hashtag_from(tags, from + 1)
    }
}

/// The value of the first hashtag among `tags`, if there is one.
pub open spec fn first_hashtag(tags: Seq<Seq<Seq<char>>>) -> Option<Seq<char>> {
    if first_hashtag_from(tags, 0) < tags.len() {
        Some(tags[first_hashtag_from(tags, 0)][1])
    } else {
        None
    }
}

/// The value of the first hashtag among `tags`.
pub fn find_hashtag(tags: &Vec<Vec<String>>) -> (r: Option<String>)
    ensures
        match r {
            Some(value) => first_hashtag(tags_view(tags@)) == Some(value@),
            None => first_hashtag(tags_view(tags@)) is None,
        },
{
    let mut i: usize = 0;
    while i < tags.len()
        invariant
            i <= tags.len(),
            first_hashtag_from(tags_view(tags@), 0) == first_hashtag_from(
                tags_view(tags@),
                i as int,
            ),
        decreases tags.len() - i,
    {
        let tag = &tags[i];
        proof {
            let read = tags_view(tags@)[i as int];
            assert(read.len() == tag@.len());
            if tag@.len() >= 2 {
                assert(read[0] == tag@[0]@ && read[1] == tag@[1]@);
            }
        }
        if tag.len() >= 2 && str_eq(tag[0].as_str(), "t") {
            return Some(tag[1].clone());
        }
        i += 1;
    }
    None
}

/// The event identifier that a received event carries: the value of the
/// first of its hashtags, once the event's verification is known to have
/// passed. Fails where the verification failed, where there is no hashtag,
/// and where the hashtag has not the form of an identifier, in this order.
pub open spec fn checked_hashtag(event: NostrEventView) -> Result<Seq<char>, ErrorView> {
    match event.verification_failure {
        Some(m) => Err(ErrorView::NostrEvent(m)),
        None => match first_hashtag(event.tags) {
            None => Err(ErrorView::Protocol(ProtocolViolation::MissingHashTag)),
            Some(hashtag) => if !is_identifier_text(hashtag) {
                Err(ErrorView::Protocol(ProtocolViolation::MalformedHashTag))
            } else {
                Ok(hashtag)
            },
        },
    }
}

/// The event identifier that `event` carries.
pub fn check_hashtag(event: &NostrEvent) -> (r: Result<EventHashHex, Error>)
    ensures
        outcome(r) == checked_hashtag(event@),
{
    match &event.verification_failure {
        Some(m) => {
            return Err(Error::NostrEvent(m.clone()));
        },
        None => {},
    }
    let hashtag = match find_hashtag(&event.tags) {
        Some(hashtag) => hashtag,
        None => {
            return Err(Error::Protocol(ProtocolViolation::MissingHashTag));
        },
    };
    match EventHashHex::new_checked(hashtag.as_str()) {
        Some(hash) => Ok(hash),
        None => Err(Error::Protocol(ProtocolViolation::MalformedHashTag)),
    }
}

/// Announces a new event. The content is the event's canonical JSON, the
/// hashtag is its identifier.
#[derive(Debug, Clone, Copy, PartialEq, Eq, Hash)]
pub struct NewEvent;

impl NewEvent {
    /// The kind of an announcement.
    pub const NOSTR_KIND: u16 = 6275;

    /// What reading `event` as the announcement of the event `announced`
    /// gives, where `announced` is what the content was read as: the hashtag
    /// must be the identifier of `announced`.
    pub open spec fn interpreted_as(event: NostrEventView, announced: EventView) -> Result<
        EventView,
        ErrorView,
    > {
        match checked_hashtag(event) {
            Err(e) => Err(e),
            Ok(hashtag) => if event_hash_hex(announced) != hashtag {
                Err(ErrorView::Protocol(ProtocolViolation::HashTagMismatch))
            } else {
                Ok(announced)
            },
        }
    }

    /// What reading `event` as the announcement of a new event gives. The
    /// content must be the canonical JSON of an event, and the hashtag that
    /// event's identifier.
    pub open spec fn interpreted(event: NostrEventView) -> Result<EventView, ErrorView> {
        match checked_hashtag(event) {
            Err(e) => Err(e),
            Ok(hashtag) => match event_of_json(event.content) {
                None => Err(ErrorView::Encoding),
                Some(e) => NewEvent::interpreted_as(event, e),
            },
        }
    }

    /// What reading the text `json` as a signed announcement gives.
    pub open spec fn interpreted_json(json: Seq<char>) -> Result<EventView, ErrorView> {
        match nostr_event_of_json(json) {
            Ok(event) => NewEvent::interpreted(event),
            Err(m) => Err(ErrorView::NostrEvent(m)),
        }
    }

    /// Kind, content and hashtag of the announcement of `event`.
    pub open spec fn shape(event: EventView) -> NostrEventBuilderView {
        NostrEventBuilderView {
            kind: 6275,
            content: event_json(event),
            hashtag: event_hash_hex(event),
        }
    }

    /// Whether `r` is what shaping `event` into an announcement gives. The
    /// hashtag has the form of an identifier.
    pub open spec fn shaped_as(event: EventView, r: Result<NostrEventBuilder, Error>) -> bool {
        &&& r is Ok
        &&& r->Ok_0@ == NewEvent::shape(event)
        &&& is_identifier_text(event_hash_hex(event))
    }

    /// Kind, content and hashtag of the announcement of `event`. Never fails.
    pub fn create_nostr_event_builder(event: &Event) -> (r: Result<NostrEventBuilder, Error>)
        ensures
            NewEvent::shaped_as(event@, r),
    {
        let content = match event.try_to_json_string() {
            Ok(json) => json,
            Err(e) => {
                return Err(e);
            },
        };
        let hash = match event.hash_hex() {
            Ok(hash) => hash,
            Err(e) => {
                return Err(e);
            },
        };
        Ok(NostrEventBuilder { kind: NewEvent::NOSTR_KIND, content, hashtag: hash.0 })
    }

    /// The JSON of the unsigned announcement of `event` by the author with
    /// the key `public_key`, made now. Fails with the key's refusal where
    /// the key is refused. The text that comes back is read as an unsigned
    /// event of that author with the kind of an announcement, the canonical
    /// JSON of `event` as content and its identifier as the one tag.
    pub fn create_nostr_unsigned_event_json(event: &Event, public_key: &str) -> (r: Result<
        String,
        Error,
    >)
        ensures
            match public_key_of(public_key@) {
                Err(m) => outcome(r) == Err::<Seq<char>, ErrorView>(ErrorView::NostrKey(m)),
                Ok(author) => match r {
                    Ok(json) => is_unsigned_event_json(json@, NewEvent::shape(event@), author),
                    Err(e) => e is NostrEvent,
                },
            },
    {
        <NewEvent as NostrEventUtils>::create_nostr_unsigned_event_json(event, public_key)
    }

    /// The JSON of the announcement of `event`, made now and signed with
    /// `secret_key`. Fails with the key's refusal where the key is refused.
    /// The text that comes back is read as an event whose verification
    /// passes, of the author that the key belongs to, with the kind of an
    /// announcement, the canonical JSON of `event` as content and its
    /// identifier as the one tag. Read as an announcement, it gives `event`
    /// back.
    pub fn create_nostr_signed_event_json(event: &Event, secret_key: &str) -> (r: Result<
        String,
        Error,
    >)
        ensures
            match public_key_of_secret_key(secret_key@) {
                Err(m) => outcome(r) == Err::<Seq<char>, ErrorView>(ErrorView::NostrKey(m)),
                Ok(author) => match r {
                    Ok(json) => is_signed_event_json(json@, NewEvent::shape(event@), author)
                        && NewEvent::interpreted_json(json@) == Ok::<EventView, ErrorView>(
                        event@,
                    ),
                    Err(e) => e is NostrKey || e is NostrEventBuilder || e is NostrEvent,
                },
            },
    {
        let r = <NewEvent as NostrEventUtils>::create_nostr_signed_event_json(event, secret_key);
        proof {
            if r is Ok && public_key_of_secret_key(secret_key@) is Ok {
                law_signed_announcement_reads_back(
                    r->Ok_0@,
                    event@,
                    public_key_of_secret_key(secret_key@)->Ok_0,
                );
            }
        }
        r
    }

    /// The event `announced`, where `event` announces it: `announced` is
    /// what the content of `event` was read as, by whatever reader, and is
    /// handed back where the verification of `event` passed and its hashtag
    /// is the identifier of `announced`. The event is not validated.
    pub fn interpret_announced_event(event: &NostrEvent, announced: Event) -> (r: Result<
        Event,
        Error,
    >)
        ensures
            outcome(r) == NewEvent::interpreted_as(event@, announced@),
            r matches Ok(e) ==> e == announced,
    {
        let hashtag = match check_hashtag(event) {
            Ok(hashtag) => hashtag,
            Err(e) => {
                return Err(e);
            },
        };
        let hash = match announced.hash_hex() {
            Ok(hash) => hash,
            Err(e) => {
                return Err(e);
            },
        };
        if !str_eq(hash.0.as_str(), hashtag.0.as_str()) {
            return Err(Error::Protocol(ProtocolViolation::HashTagMismatch));
        }
        Ok(announced)
    }

    /// The event that `event` announces. The event is not validated.
    pub fn interpret_nostr_event(event: &NostrEvent) -> (r: Result<Event, Error>)
        ensures
            outcome(r) == NewEvent::interpreted(event@),
    {
        match check_hashtag(event) {
            Ok(_) => {},
            Err(e) => {
                return Err(e);
            },
        }
        match Event::try_from_json_str(event.content.as_str()) {
            Ok(announced) => NewEvent::interpret_announced_event(event, announced),
            Err(e) => Err(e),
        }
    }

    /// The event that the signed event with the JSON `json` announces. Fails
    /// where the text is no signed event, and then as reading the event does.
    pub fn interpret_nostr_event_json(json: &str) -> (r: Result<Event, Error>)
        ensures
            outcome(r) == NewEvent::interpreted_json(json@),
    {
        <NewEvent as NostrEventUtils>::interpret_nostr_event_json(json)
    }

    /// The JSON of the filter that asks for announcements of new events.
    pub fn filter_json() -> (json: String)
        ensures
            json@ == kind_filter_json(6275),
    {
        <NewEvent as NostrEventUtils>::filter_json()
    }
}

/// Pledges that the signer will attest the payout of an event. The content
/// is empty, the hashtag is the event's identifier.
#[derive(Debug, Clone, Copy, PartialEq, Eq, Hash)]
pub struct FutureEventPayoutAttestationPledge;

impl FutureEventPayoutAttestationPledge {
    /// The kind of a pledge.
    pub const NOSTR_KIND: u16 = 6276;

    /// What reading `event` as a pledge gives: the author's key and the
    /// identifier of the event that the pledge is for. The content must be
    /// empty.
    pub open spec fn interpreted(event: NostrEventView) -> Result<
        (Seq<char>, Seq<char>),
        ErrorView,
    > {
        match checked_hashtag(event) {
            Err(e) => Err(e),
            Ok(hashtag) => if event.content.len() != 0 {
                Err(ErrorView::Encoding)
            } else {
                Ok((event.pubkey, hashtag))
            },
        }
    }

    /// What reading the text `json` as a signed pledge gives.
    pub open spec fn interpreted_json(json: Seq<char>) -> Result<
        (Seq<char>, Seq<char>),
        ErrorView,
    > {
        match nostr_event_of_json(json) {
            Ok(event) => FutureEventPayoutAttestationPledge::interpreted(event),
            Err(m) => Err(ErrorView::NostrEvent(m)),
        }
    }

    /// Kind, content and hashtag of the pledge for the event with the
    /// identifier `event_hash_hex`.
    pub open spec fn shape(event_hash_hex: Seq<char>) -> NostrEventBuilderView {
        NostrEventBuilderView {
            kind: 6276,
            content: Seq::<char>::empty(),
            hashtag: event_hash_hex,
        }
    }

    /// Whether `r` is what shaping the identifier `event_hash_hex` into a
    /// pledge gives.
    pub open spec fn shaped_as(
        event_hash_hex: Seq<char>,
        r: Result<NostrEventBuilder, Error>,
    ) -> bool {
        r is Ok && r->Ok_0@ == FutureEventPayoutAttestationPledge::shape(event_hash_hex)
    }

    /// Kind, content and hashtag of the pledge for the event with the
    /// identifier `event_hash_hex`. Never fails.
    pub fn create_nostr_event_builder(event_hash_hex: EventHashHex) -> (r: Result<
        NostrEventBuilder,
        Error,
    >)
        ensures
            FutureEventPayoutAttestationPledge::shaped_as(event_hash_hex@, r),
    {
        Ok(
            NostrEventBuilder {
                kind: FutureEventPayoutAttestationPledge::NOSTR_KIND,
                content: String::new(),
                hashtag: event_hash_hex.0,
            },
        )
    }

    /// The JSON of the unsigned pledge by the author with the key
    /// `public_key`, made now. Fails with the key's refusal where the key is
    /// refused. The text that comes back is read as an unsigned event of
    /// that author with the kind of a pledge, no content, and
    /// `event_hash_hex` as the one tag.
    pub fn create_nostr_unsigned_event_json(event_hash_hex: EventHashHex, public_key: &str) -> (r:
        Result<String, Error>)
        ensures
            match public_key_of(public_key@) {
                Err(m) => outcome(r) == Err::<Seq<char>, ErrorView>(ErrorView::NostrKey(m)),
                Ok(author) => match r {
                    Ok(json) => is_unsigned_event_json(
                        json@,
                        FutureEventPayoutAttestationPledge::shape(event_hash_hex@),
                        author,
                    ),
                    Err(e) => e is NostrEvent,
                },
            },
    {
        <FutureEventPayoutAttestationPledge as NostrEventUtils>::create_nostr_unsigned_event_json(
            &event_hash_hex,
            public_key,
        )
    }

    /// The JSON of the pledge, made now and signed with `secret_key`. Fails
    /// with the key's refusal where the key is refused. The text that comes
    /// back is read as an event whose verification passes, of the author
    /// that the key belongs to, with the kind of a pledge, no content, and
    /// `event_hash_hex` as the one tag. Where `event_hash_hex` has the form
    /// of an identifier, the text is read back as a pledge of that author
    /// for it.
    pub fn create_nostr_signed_event_json(event_hash_hex: EventHashHex, secret_key: &str) -> (r:
        Result<String, Error>)
        ensures
            match public_key_of_secret_key(secret_key@) {
                Err(m) => outcome(r) == Err::<Seq<char>, ErrorView>(ErrorView::NostrKey(m)),
                Ok(author) => match r {
                    Ok(json) => is_signed_event_json(
                        json@,
                        FutureEventPayoutAttestationPledge::shape(event_hash_hex@),
                        author,
                    ) && (is_identifier_text(event_hash_hex@)
                        ==> FutureEventPayoutAttestationPledge::interpreted_json(json@) == Ok::<
                        (Seq<char>, Seq<char>),
                        ErrorView,
                    >((author, event_hash_hex@))),
                    Err(e) => e is NostrKey || e is NostrEventBuilder || e is NostrEvent,
                },
            },
    {
        let r =
            <FutureEventPayoutAttestationPledge as NostrEventUtils>::create_nostr_signed_event_json(
            &event_hash_hex,
            secret_key,
        );
        proof {
            if r is Ok && public_key_of_secret_key(secret_key@) is Ok && is_identifier_text(
                event_hash_hex@,
            ) {
                law_signed_pledge_reads_back(
                    r->Ok_0@,
                    event_hash_hex@,
                    public_key_of_secret_key(secret_key@)->Ok_0,
                );
            }
        }
        r
    }

    /// The author of the pledge `event` and the identifier of the event that
    /// it is for.
    pub fn interpret_nostr_event(event: &NostrEvent) -> (r: Result<
        (NostrPublicKeyHex, EventHashHex),
        Error,
    >)
        ensures
            outcome(r) == FutureEventPayoutAttestationPledge::interpreted(event@),
    {
        let hashtag = match check_hashtag(event) {
            Ok(hashtag) => hashtag,
            Err(e) => {
                return Err(e);
            },
        };
        if !event.content.as_str().is_empty() {
            return Err(Error::Encoding);
        }
        Ok((NostrPublicKeyHex(event.pubkey.clone()), hashtag))
    }

    /// What the signed event with the JSON `json` pledges. Fails where the
    /// text is no signed event, and then as reading the event does.
    pub fn interpret_nostr_event_json(json: &str) -> (r: Result<
        (NostrPublicKeyHex, EventHashHex),
        Error,
    >)
        ensures
            outcome(r) == FutureEventPayoutAttestationPledge::interpreted_json(json@),
            r matches Ok(pledge) ==> is_identifier_text(pledge.0@),
    {
        <FutureEventPayoutAttestationPledge as NostrEventUtils>::interpret_nostr_event_json(json)
    }

    /// The JSON of the filter that asks for pledges.
    pub fn filter_json() -> (json: String)
        ensures
            json@ == kind_filter_json(6276),
    {
        <FutureEventPayoutAttestationPledge as NostrEventUtils>::filter_json()
    }
}

/// Attests the payout of an event. The content is the JSON list of the units
/// per outcome, the hashtag is the event's identifier.
#[derive(Debug, Clone, Copy, PartialEq, Eq, Hash)]
pub struct EventPayoutAttestation;

impl EventPayoutAttestation {
    /// The kind of an attestation.
    pub const NOSTR_KIND: u16 = 6277;

    /// What reading `event` as an attestation gives, where `units` is what
    /// its content was read as: the author's key and the payout. The
    /// content is looked at last.
    pub open spec fn interpreted(
        event: NostrEventView,
        units: Result<Seq<u32>, Seq<char>>,
    ) -> Result<(Seq<char>, EventPayoutView), ErrorView> {
        match checked_hashtag(event) {
            Err(e) => Err(e),
            Ok(hashtag) => match units {
                Err(m) => Err(ErrorView::SerdeJson(m)),
                Ok(units_per_outcome) => Ok(
                    (event.pubkey, EventPayoutView { event_hash_hex: hashtag, units_per_outcome }),
                ),
            },
        }
    }

    /// Kind, content and hashtag of the attestation of `event_payout`.
    pub open spec fn shape(event_payout: EventPayoutView) -> NostrEventBuilderView {
        NostrEventBuilderView {
            kind: 6277,
            content: units_json(event_payout.units_per_outcome),
            hashtag: event_payout.event_hash_hex,
        }
    }

    /// Whether `r` is what shaping `event_payout` into an attestation
    /// gives.
    pub open spec fn shaped_as(
        event_payout: EventPayoutView,
        r: Result<NostrEventBuilder, Error>,
    ) -> bool {
        r is Ok && r->Ok_0@ == EventPayoutAttestation::shape(event_payout)
    }

    /// What reading the text `json` as a signed attestation gives.
    pub open spec fn interpreted_json(json: Seq<char>) -> Result<
        (Seq<char>, EventPayoutView),
        ErrorView,
    > {
        match nostr_event_of_json(json) {
            Ok(event) => EventPayoutAttestation::interpreted(event, units_of_json(event.content)),
            Err(m) => Err(ErrorView::NostrEvent(m)),
        }
    }

    /// Kind, content and hashtag of the attestation of `event_payout`. Never
    /// fails.
    pub fn create_nostr_event_builder(event_payout: &EventPayout) -> (r: Result<
        NostrEventBuilder,
        Error,
    >)
        ensures
            EventPayoutAttestation::shaped_as(event_payout@, r),
    {
        match write_units(&event_payout.units_per_outcome) {
            Ok(content) => Ok(
                NostrEventBuilder {
                    kind: EventPayoutAttestation::NOSTR_KIND,
                    content,
                    hashtag: event_payout.event_hash_hex.0.clone(),
                },
            ),
            Err(m) => Err(Error::SerdeJson(m)),
        }
    }

    /// The JSON of the unsigned attestation of `event_payout` by the author
    /// with the key `public_key`, made now. Fails with the key's refusal
    /// where the key is refused. The text that comes back is read as an
    /// unsigned event of that author with the kind of an attestation, the
    /// JSON list of the units as content and the identifier of the event as
    /// the one tag.
    pub fn create_nostr_unsigned_event_json(event_payout: &EventPayout, public_key: &str) -> (r:
        Result<String, Error>)
        ensures
            match public_key_of(public_key@) {
                Err(m) => outcome(r) == Err::<Seq<char>, ErrorView>(ErrorView::NostrKey(m)),
                Ok(author) => match r {
                    Ok(json) => is_unsigned_event_json(
                        json@,
                        EventPayoutAttestation::shape(event_payout@),
                        author,
                    ),
                    Err(e) => e is NostrEvent,
                },
            },
    {
        <EventPayoutAttestation as NostrEventUtils>::create_nostr_unsigned_event_json(
            event_payout,
            public_key,
        )
    }

    /// The JSON of the attestation of `event_payout`, made now and signed
    /// with `secret_key`. Fails with the key's refusal where the key is
    /// refused. The text that comes back is read as an event whose
    /// verification passes, of the author that the key belongs to, with the
    /// kind of an attestation, the JSON list of the units as content and the
    /// identifier of the event as the one tag. Where that identifier has the
    /// form of one and the JSON library reads the list as it was written,
    /// the text is read back as the attestation of `event_payout` by that
    /// author.
    pub fn create_nostr_signed_event_json(event_payout: &EventPayout, secret_key: &str) -> (r:
        Result<String, Error>)
        ensures
            match public_key_of_secret_key(secret_key@) {
                Err(m) => outcome(r) == Err::<Seq<char>, ErrorView>(ErrorView::NostrKey(m)),
                Ok(author) => match r {
                    Ok(json) => is_signed_event_json(
                        json@,
                        EventPayoutAttestation::shape(event_payout@),
                        author,
                    ) && (is_identifier_text(event_payout@.event_hash_hex) && units_of_json(
                        units_json(event_payout@.units_per_outcome),
                    ) == Ok::<Seq<u32>, Seq<char>>(event_payout@.units_per_outcome)
                        ==> EventPayoutAttestation::interpreted_json(json@) == Ok::<
                        (Seq<char>, EventPayoutView),
                        ErrorView,
                    >((author, event_payout@))),
                    Err(e) => e is NostrKey || e is NostrEventBuilder || e is NostrEvent,
                },
            },
    {
        let r = <EventPayoutAttestation as NostrEventUtils>::create_nostr_signed_event_json(
            event_payout,
            secret_key,
        );
        proof {
            if r is Ok && public_key_of_secret_key(secret_key@) is Ok && is_identifier_text(
                event_payout@.event_hash_hex,
            ) && units_of_json(units_json(event_payout@.units_per_outcome)) == Ok::<
                Seq<u32>,
                Seq<char>,
            >(event_payout@.units_per_outcome) {
                law_signed_attestation_reads_back(
                    r->Ok_0@,
                    event_payout@,
                    public_key_of_secret_key(secret_key@)->Ok_0,
                );
            }
        }
        r
    }

    /// The attestation of the author with the key `pubkey` for the event
    /// with the identifier `event_hash_hex`, where `units` is what the
    /// content was read as.
    pub fn payout_from_units(
        pubkey: &str,
        event_hash_hex: EventHashHex,
        units: Result<Vec<u32>, String>,
    ) -> (r: Result<(NostrPublicKeyHex, EventPayout), Error>)
        ensures
            outcome(r) == match units {
                Ok(units_per_outcome) => Ok::<(Seq<char>, EventPayoutView), ErrorView>(
                    (
                        pubkey@,
                        EventPayoutView {
                            event_hash_hex: event_hash_hex@,
                            units_per_outcome: units_per_outcome@,
                        },
                    ),
                ),
                Err(m) => Err(ErrorView::SerdeJson(m@)),
            },
    {
        match units {
            Ok(units_per_outcome) => Ok(
                (
                    NostrPublicKeyHex(pubkey.to_owned()),
                    EventPayout { event_hash_hex, units_per_outcome },
                ),
            ),
            Err(m) => Err(Error::SerdeJson(m)),
        }
    }

    /// The author of the attestation `event` and the payout that it attests.
    /// The payout is not validated.
    pub fn interpret_nostr_event(event: &NostrEvent) -> (r: Result<
        (NostrPublicKeyHex, EventPayout),
        Error,
    >)
        ensures
            outcome(r) == EventPayoutAttestation::interpreted(
                event@,
                units_of_json(event@.content),
            ),
    {
        let hashtag = match check_hashtag(event) {
            Ok(hashtag) => hashtag,
            Err(e) => {
                return Err(e);
            },
        };
        let units = read_units(event.content.as_str());
        EventPayoutAttestation::payout_from_units(event.pubkey.as_str(), hashtag, units)
    }

    /// What the signed event with the JSON `json` attests. Fails where the
    /// text is no signed event, and then as reading the event does.
    pub fn interpret_nostr_event_json(json: &str) -> (r: Result<
        (NostrPublicKeyHex, EventPayout),
        Error,
    >)
        ensures
            outcome(r) == EventPayoutAttestation::interpreted_json(json@),
            r matches Ok(attestation) ==> is_identifier_text(attestation.0@),
    {
        <EventPayoutAttestation as NostrEventUtils>::interpret_nostr_event_json(json)
    }

    /// The JSON of the filter that asks for attestations.
    pub fn filter_json() -> (json: String)
        ensures
            json@ == kind_filter_json(6277),
    {
        <EventPayoutAttestation as NostrEventUtils>::filter_json()
    }
}

} // verus!
