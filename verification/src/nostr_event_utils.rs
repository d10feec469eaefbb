//! What the three bindings have in common: each shapes its own parameter
//! into kind, content and hashtag, and reads its own result from a received
//! event; signing, reading signed JSON and filtering work alike for all.

use vstd::prelude::*;

use crate::error::{outcome, Error, ErrorView};
use crate::event::{Event, EventHashHex, EventPayout};
use crate::hex::is_identifier_text;
use crate::nostr_event_types::{
    EventPayoutAttestation, FutureEventPayoutAttestationPledge, NewEvent, NostrPublicKeyHex,
};
use crate::text::str_eq;
use crate::transport::{
    build_signed_event_json, build_unsigned_event_json, hashtag_filter_json, hashtag_tags,
    kind_filter_json, nostr_event_of_json, parse_public_key, parse_secret_key, public_key_of,
    public_key_of_secret_key, read_nostr_event, read_unsigned_event, tags_view,
    unsigned_event_of_json, units_of_json, write_hashtag_filter, write_kind_filter, NostrEvent,
    NostrEventBuilder, NostrEventBuilderView, NostrEventView, NostrUnsignedEventView,
};

verus! {

/// The message of the failure that an event was made which does not carry
/// what was handed over for it.
pub const NOT_AS_HANDED_OVER: &'static str = "the event does not carry what was handed over";

/// The unsigned event that the author with the key `author` makes of
/// `builder`: the kind and the content of `builder`, and its hashtag as the
/// one tag.
pub open spec fn unsigned_event_for(
    builder: NostrEventBuilderView,
    author: Seq<char>,
) -> NostrUnsignedEventView {
    NostrUnsignedEventView {
        pubkey: author,
        kind: builder.kind,
        tags: hashtag_tags(builder.hashtag),
        content: builder.content,
    }
}

/// Whether `event` is a signed event that the author with the key `author`
/// made of `builder`: its verification passed, and it has that author, the
/// kind and the content of `builder`, and its hashtag as the one tag.
pub open spec fn is_signed_event_for(
    event: NostrEventView,
    builder: NostrEventBuilderView,
    author: Seq<char>,
) -> bool {
    &&& event.verification_failure is None
    &&& event.pubkey == author
    &&& event.kind == builder.kind
    &&& event.tags == hashtag_tags(builder.hashtag)
    &&& event.content == builder.content
}

/// Whether `json` is read as the unsigned event that the author with the
/// key `author` makes of `builder`.
pub open spec fn is_unsigned_event_json(
    json: Seq<char>,
    builder: NostrEventBuilderView,
    author: Seq<char>,
) -> bool {
    unsigned_event_of_json(json) == Ok::<NostrUnsignedEventView, Seq<char>>(
        unsigned_event_for(builder, author),
    )
}

/// Whether `json` is read as a signed event that the author with the key
/// `author` made of `builder`.
pub open spec fn is_signed_event_json(
    json: Seq<char>,
    builder: NostrEventBuilderView,
    author: Seq<char>,
) -> bool {
    nostr_event_of_json(json) matches Ok(event) && is_signed_event_for(event, builder, author)
}

/// What becomes of the text `json` that was made as an unsigned event: it is
/// handed on where it is read as the event that was asked for, else it is
/// refused.
pub open spec fn checked_unsigned_event_json(
    json: Seq<char>,
    builder: NostrEventBuilderView,
    author: Seq<char>,
) -> Result<Seq<char>, ErrorView> {
    match unsigned_event_of_json(json) {
        Err(m) => Err(ErrorView::NostrEvent(m)),
        Ok(event) => if event == unsigned_event_for(builder, author) {
            Ok(json)
        } else {
            Err(ErrorView::NostrEvent(NOT_AS_HANDED_OVER@))
        },
    }
}

/// What becomes of the text `json` that was made as a signed event: it is
/// handed on where it is read as an event that was asked for, else it is
/// refused.
pub open spec fn checked_signed_event_json(
    json: Seq<char>,
    builder: NostrEventBuilderView,
    author: Seq<char>,
) -> Result<Seq<char>, ErrorView> {
    match nostr_event_of_json(json) {
        Err(m) => Err(ErrorView::NostrEvent(m)),
        Ok(event) => if is_signed_event_for(event, builder, author) {
            Ok(json)
        } else {
            Err(ErrorView::NostrEvent(NOT_AS_HANDED_OVER@))
        },
    }
}

/// Decides whether the one tag of `tags` is the hashtag `hashtag`.
pub fn has_hashtag_only(tags: &Vec<Vec<String>>, hashtag: &str) -> (r: bool)
    ensures
        r == (tags_view(tags@) == hashtag_tags(hashtag@)),
{
    if tags.len() != 1 {
        assert(tags_view(tags@).len() != hashtag_tags(hashtag@).len());
        return false;
    }
    let tag = &tags[0];
    if tag.len() != 2 {
        assert(tags_view(tags@)[0].len() != hashtag_tags(hashtag@)[0].len());
        return false;
    }
    let r = str_eq(tag[0].as_str(), "t") && str_eq(tag[1].as_str(), hashtag);
    proof {
        let read = tags_view(tags@);
        let wanted = hashtag_tags(hashtag@);
        assert(read[0][0] == tag@[0]@ && read[0][1] == tag@[1]@);
        assert(wanted[0][0] == "t"@ && wanted[0][1] == hashtag@);
        if r {
            assert(read[0] =~= wanted[0]);
            assert(read =~= wanted);
        }
    }
    r
}

/// Hands `json` on where it is read as the unsigned event that the author
/// with the key `author` makes of `builder`, and refuses it where it is not.
pub fn check_unsigned_event_json(json: String, builder: &NostrEventBuilder, author: &str) -> (r:
    Result<String, Error>)
    ensures
        outcome(r) == checked_unsigned_event_json(json@, builder@, author@),
{
    match read_unsigned_event(json.as_str()) {
        Ok(event) => {
            if str_eq(event.pubkey.as_str(), author) && event.kind == builder.kind
                && has_hashtag_only(&event.tags, builder.hashtag.as_str()) && str_eq(
                event.content.as_str(),
                builder.content.as_str(),
            ) {
                Ok(json)
            } else {
                Err(Error::NostrEvent(NOT_AS_HANDED_OVER.to_owned()))
            }
        },
        Err(m) => Err(Error::NostrEvent(m)),
    }
}

/// Hands `json` on where it is read as a signed event that the author with
/// the key `author` made of `builder`, and refuses it where it is not.
pub fn check_signed_event_json(json: String, builder: &NostrEventBuilder, author: &str) -> (r:
    Result<String, Error>)
    ensures
        outcome(r) == checked_signed_event_json(json@, builder@, author@),
{
    match read_nostr_event(json.as_str()) {
        Ok(event) => {
            if event.verification_failure.is_none() && str_eq(event.pubkey.as_str(), author)
                && event.kind == builder.kind && has_hashtag_only(
                &event.tags,
                builder.hashtag.as_str(),
            ) && str_eq(event.content.as_str(), builder.content.as_str()) {
                Ok(json)
            } else {
                Err(Error::NostrEvent(NOT_AS_HANDED_OVER.to_owned()))
            }
        },
        Err(m) => Err(Error::NostrEvent(m)),
    }
}

/// A binding between a kind of Nostr event and the data that it carries.
pub trait NostrEventUtils {
    /// What an event of this kind is made from.
    type CreateParameter;

    /// What an event of this kind is read as.
    type InterpretResult;

    /// The kind of the binding's events.
    spec fn kind_u16() -> u16;

    /// Whether `r` is what shaping `param` gives.
    spec fn shaped(param: &Self::CreateParameter, r: Result<NostrEventBuilder, Error>) -> bool;

    /// Whether `r` is what reading `event` gives.
    spec fn reads_as(event: NostrEventView, r: Result<Self::InterpretResult, Error>) -> bool;

    /// The kind of the binding's events.
    fn kind() -> (kind: u16)
        ensures
            kind == Self::kind_u16(),
    ;

    /// Kind, content and hashtag of the event for `param`.
    fn create_nostr_event_builder(param: &Self::CreateParameter) -> (r: Result<
        NostrEventBuilder,
        Error,
    >)
        ensures
            Self::shaped(param, r),
    ;

    /// What `event` carries. The result is not validated.
    fn interpret_nostr_event(event: &NostrEvent) -> (r: Result<Self::InterpretResult, Error>)
        ensures
            Self::reads_as(event@, r),
    ;

    /// The JSON of the unsigned event for `param` by the author with the key
    /// `public_key`, made now. A refused key comes first, then a failure to
    /// shape `param`. The text that comes back is read as an unsigned event
    /// of that author with the kind and the content that `param` was shaped
    /// into, and the hashtag as its one tag; a text that is not read so is
    /// refused.
    fn create_nostr_unsigned_event_json(param: &Self::CreateParameter, public_key: &str) -> (r:
        Result<String, Error>)
        ensures
            match public_key_of(public_key@) {
                Err(m) => outcome(r) == Err::<Seq<char>, ErrorView>(ErrorView::NostrKey(m)),
                Ok(author) => match r {
                    Ok(json) => exists|builder: NostrEventBuilder| #[trigger]
                        Self::shaped(param, Ok(builder)) && is_unsigned_event_json(
                            json@,
                            builder@,
                            author,
                        ),
                    Err(e) => Self::shaped(param, Err(e)) || e is NostrEvent,
                },
            },
    {
        let author = match parse_public_key(public_key) {
            Ok(author) => author,
            Err(m) => {
                return Err(Error::NostrKey(m));
            },
        };
        let builder = match Self::create_nostr_event_builder(param) {
            Ok(builder) => builder,
            Err(e) => {
                return Err(e);
            },
        };
        let json = match build_unsigned_event_json(&builder, author.as_str()) {
            Ok(json) => json,
            Err(m) => {
                return Err(Error::NostrEvent(m));
            },
        };
        let r = check_unsigned_event_json(json, &builder, author.as_str());
        proof {
            if r is Ok {
                assert(Self::shaped(param, Ok(builder)));
            }
        }
        r
    }

    /// The JSON of the event for `param`, made now and signed with
    /// `secret_key`. A refused key comes first, then a failure to shape
    /// `param`. The text that comes back is read as an event whose
    /// verification passes, of the author that the key belongs to, with the
    /// kind and the content that `param` was shaped into, and the hashtag as
    /// its one tag; a text that is not read so is refused.
    fn create_nostr_signed_event_json(param: &Self::CreateParameter, secret_key: &str) -> (r:
        Result<String, Error>)
        ensures
            match public_key_of_secret_key(secret_key@) {
                Err(m) => outcome(r) == Err::<Seq<char>, ErrorView>(ErrorView::NostrKey(m)),
                Ok(author) => match r {
                    Ok(json) => exists|builder: NostrEventBuilder| #[trigger]
                        Self::shaped(param, Ok(builder)) && is_signed_event_json(
                            json@,
                            builder@,
                            author,
                        ),
                    Err(e) => Self::shaped(param, Err(e)) || e is NostrKey || e
                        is NostrEventBuilder || e is NostrEvent,
                },
            },
    {
        let author = match parse_secret_key(secret_key) {
            Ok(author) => author,
            Err(m) => {
                return Err(Error::NostrKey(m));
            },
        };
        let builder = match Self::create_nostr_event_builder(param) {
            Ok(builder) => builder,
            Err(e) => {
                return Err(e);
            },
        };
        let json = match build_signed_event_json(&builder, secret_key) {
            Ok(json) => json,
            Err(e) => {
                return Err(e);
            },
        };
        let r = check_signed_event_json(json, &builder, author.as_str());
        proof {
            if r is Ok {
                assert(Self::shaped(param, Ok(builder)));
            }
        }
        r
    }

    /// What the signed event with the JSON `json` carries. Fails where the
    /// text is no signed event, and then as reading the event does.
    fn interpret_nostr_event_json(json: &str) -> (r: Result<Self::InterpretResult, Error>)
        ensures
            match nostr_event_of_json(json@) {
                Ok(event) => Self::reads_as(event, r) && is_identifier_text(event.pubkey),
                Err(m) => r matches Err(e) && e@ == ErrorView::NostrEvent(m),
            },
    {
        match read_nostr_event(json) {
            Ok(event) => Self::interpret_nostr_event(&event),
            Err(m) => Err(Error::NostrEvent(m)),
        }
    }

    /// The JSON of the filter that asks for events of the binding's kind.
    fn filter_json() -> (json: String)
        ensures
            json@ == kind_filter_json(Self::kind_u16()),
    {
        write_kind_filter(Self::kind())
    }

    /// The JSON of the filter that asks for the binding's events about the
    /// event with the identifier `event_hash_hex`.
    fn filter_json_for_event(event_hash_hex: &EventHashHex) -> (json: String)
        ensures
            json@ == hashtag_filter_json(Self::kind_u16(), event_hash_hex@),
    {
        write_hashtag_filter(Self::kind(), event_hash_hex.0.as_str())
    }
}

impl NostrEventUtils for NewEvent {
    type CreateParameter = Event;

    type InterpretResult = Event;

    open spec fn kind_u16() -> u16 {
        6275
    }

    open spec fn shaped(param: &Event, r: Result<NostrEventBuilder, Error>) -> bool {
        NewEvent::shaped_as(param@, r)
    }

    open spec fn reads_as(event: NostrEventView, r: Result<Event, Error>) -> bool {
        outcome(r) == NewEvent::interpreted(event)
    }

    fn kind() -> (kind: u16) {
        NewEvent::NOSTR_KIND
    }

    fn create_nostr_event_builder(param: &Event) -> (r: Result<NostrEventBuilder, Error>) {
        NewEvent::create_nostr_event_builder(param)
    }

    fn interpret_nostr_event(event: &NostrEvent) -> (r: Result<Event, Error>) {
        NewEvent::interpret_nostr_event(event)
    }
}

impl NostrEventUtils for FutureEventPayoutAttestationPledge {
    type CreateParameter = EventHashHex;

    type InterpretResult = (NostrPublicKeyHex, EventHashHex);

    open spec fn kind_u16() -> u16 {
        6276
    }

    open spec fn shaped(param: &EventHashHex, r: Result<NostrEventBuilder, Error>) -> bool {
        FutureEventPayoutAttestationPledge::shaped_as(param@, r)
    }

    open spec fn reads_as(
        event: NostrEventView,
        r: Result<(NostrPublicKeyHex, EventHashHex), Error>,
    ) -> bool {
        outcome(r) == FutureEventPayoutAttestationPledge::interpreted(event)
    }

    fn kind() -> (kind: u16) {
        FutureEventPayoutAttestationPledge::NOSTR_KIND
    }

    fn create_nostr_event_builder(param: &EventHashHex) -> (r: Result<NostrEventBuilder, Error>) {
        FutureEventPayoutAttestationPledge::create_nostr_event_builder(
            EventHashHex(param.0.clone()),
        )
    }

    fn interpret_nostr_event(event: &NostrEvent) -> (r: Result<
        (NostrPublicKeyHex, EventHashHex),
        Error,
    >) {
        FutureEventPayoutAttestationPledge::interpret_nostr_event(event)
    }
}

impl NostrEventUtils for EventPayoutAttestation {
    type CreateParameter = EventPayout;

    type InterpretResult = (NostrPublicKeyHex, EventPayout);

    open spec fn kind_u16() -> u16 {
        6277
    }

    open spec fn shaped(param: &EventPayout, r: Result<NostrEventBuilder, Error>) -> bool {
        EventPayoutAttestation::shaped_as(param@, r)
    }

    open spec fn reads_as(
        event: NostrEventView,
        r: Result<(NostrPublicKeyHex, EventPayout), Error>,
    ) -> bool {
        outcome(r) == EventPayoutAttestation::interpreted(event, units_of_json(event.content))
    }

    fn kind() -> (kind: u16) {
        EventPayoutAttestation::NOSTR_KIND
    }

    fn create_nostr_event_builder(param: &EventPayout) -> (r: Result<NostrEventBuilder, Error>) {
        EventPayoutAttestation::create_nostr_event_builder(param)
    }

    fn interpret_nostr_event(event: &NostrEvent) -> (r: Result<
        (NostrPublicKeyHex, EventPayout),
        Error,
    >) {
        EventPayoutAttestation::interpret_nostr_event(event)
    }
}

} // verus!
