//! What the bindings take from the Nostr and JSON libraries. Every function
//! here is believed, not proved.

use vstd::prelude::*;

use crate::codec::units_json;
use crate::decimal::decimal;
use crate::error::Error;
use crate::hex::is_identifier_text;
use crate::json_string::quoted;
use crate::text::strings_view;

verus! {

/// What a binding hands over for signing: the kind of the event, its content
/// and its one hashtag.
#[derive(Debug, Clone, PartialEq, Eq, Hash)]
pub struct NostrEventBuilder {
    pub kind: u16,
    pub content: String,
    pub hashtag: String,
}

/// Mathematical value of a [`NostrEventBuilder`].
pub ghost struct NostrEventBuilderView {
    pub kind: u16,
    pub content: Seq<char>,
    pub hashtag: Seq<char>,
}

impl View for NostrEventBuilder {
    type V = NostrEventBuilderView;

    open spec fn view(&self) -> NostrEventBuilderView {
        NostrEventBuilderView { kind: self.kind, content: self.content@, hashtag: self.hashtag@ }
    }
}

/// The strings of each tag of `tags`.
pub open spec fn tags_view(tags: Seq<Vec<String>>) -> Seq<Seq<Seq<char>>> {
    Seq::new(tags.len(), |i: int| strings_view(tags[i]@))
}

/// The tags of an event whose one tag is the hashtag `hashtag`.
pub open spec fn hashtag_tags(hashtag: Seq<char>) -> Seq<Seq<Seq<char>>> {
    seq![seq!["t"@, hashtag]]
}

/// What is read of a signed event.
#[derive(Debug, Clone, PartialEq, Eq, Hash)]
pub struct NostrEvent {
    /// The verifier's message, where the check of the event's id and
    /// signature failed.
    pub verification_failure: Option<String>,
    /// The author's public key, in hexadecimal.
    pub pubkey: String,
    pub kind: u16,
    /// The tags, each with its strings as they stand in the event.
    pub tags: Vec<Vec<String>>,
    pub content: String,
}

/// Mathematical value of a [`NostrEvent`].
pub ghost struct NostrEventView {
    pub verification_failure: Option<Seq<char>>,
    pub pubkey: Seq<char>,
    pub kind: u16,
    pub tags: Seq<Seq<Seq<char>>>,
    pub content: Seq<char>,
}

impl View for NostrEvent {
    type V = NostrEventView;

    open spec fn view(&self) -> NostrEventView {
        NostrEventView {
            verification_failure: match self.verification_failure {
                Some(m) => Some(m@),
                None => None,
            },
            pubkey: self.pubkey@,
            kind: self.kind,
            tags: tags_view(self.tags@),
            content: self.content@,
        }
    }
}

/// What is read of an event that is not signed yet.
#[derive(Debug, Clone, PartialEq, Eq, Hash)]
pub struct NostrUnsignedEvent {
    /// The author's public key, in hexadecimal.
    pub pubkey: String,
    pub kind: u16,
    /// The tags, each with its strings as they stand in the event.
    pub tags: Vec<Vec<String>>,
    pub content: String,
}

/// Mathematical value of a [`NostrUnsignedEvent`].
pub ghost struct NostrUnsignedEventView {
    pub pubkey: Seq<char>,
    pub kind: u16,
    pub tags: Seq<Seq<Seq<char>>>,
    pub content: Seq<char>,
}

impl View for NostrUnsignedEvent {
    type V = NostrUnsignedEventView;

    open spec fn view(&self) -> NostrUnsignedEventView {
        NostrUnsignedEventView {
            pubkey: self.pubkey@,
            kind: self.kind,
            tags: tags_view(self.tags@),
            content: self.content@,
        }
    }
}

/// What the Nostr library reads from the JSON of a signed event: the event
/// with the outcome of its verification, or the message with which the text
/// was refused.
pub uninterp spec fn nostr_event_of_json(json: Seq<char>) -> Result<NostrEventView, Seq<char>>;

/// What the Nostr library reads from the JSON of an event that is not signed
/// yet: the event, or the message with which the text was refused.
pub uninterp spec fn unsigned_event_of_json(json: Seq<char>) -> Result<
    NostrUnsignedEventView,
    Seq<char>,
>;

/// What the Nostr library reads from the text of a public key: the key in
/// hexadecimal, or the message with which the text was refused.
pub uninterp spec fn public_key_of(text: Seq<char>) -> Result<Seq<char>, Seq<char>>;

/// What the Nostr library reads from the text of a secret key: the public
/// key that belongs to it, in hexadecimal, or the message with which the
/// text was refused.
pub uninterp spec fn public_key_of_secret_key(text: Seq<char>) -> Result<Seq<char>, Seq<char>>;

/// What the JSON library reads from the JSON of a list of payout units: the
/// units, or the message with which the text was refused.
pub uninterp spec fn units_of_json(json: Seq<char>) -> Result<Seq<u32>, Seq<char>>;

/// The JSON of the filter that asks for events of one kind.
pub open spec fn kind_filter_json(kind: u16) -> Seq<char> {
    "{\"kinds\":["@ + decimal(kind as nat) + "]}"@
}

/// The JSON of the filter that asks for events of one kind with one hashtag.
pub open spec fn hashtag_filter_json(kind: u16, hashtag: Seq<char>) -> Seq<char> {
    "{\"kinds\":["@ + decimal(kind as nat) + "],\"#t\":["@ + quoted(hashtag) + "]}"@
}

/// Calls `nostr::Event::from_json` and, on the event read, `verify`,
/// `pubkey.to_hex`, `kind.as_u16`, `tags.iter` with `as_slice` on each tag,
/// and the field `content`. The event, the outcome of `verify` and the
/// refusal of `from_json` depend on `json` alone. A public key that was read
/// is written as 64 hexadecimal digits.
#[verifier::external_body]
pub(crate) fn read_nostr_event(json: &str) -> (r: Result<NostrEvent, String>)
    ensures
        match r {
            Ok(event) => nostr_event_of_json(json@) == Ok::<NostrEventView, Seq<char>>(event@)
                && is_identifier_text(event@.pubkey),
            Err(m) => nostr_event_of_json(json@) == Err::<NostrEventView, Seq<char>>(m@),
        },
{
    let event = <nostr::Event as nostr::JsonUtil>::from_json(json).map_err(|e| e.to_string())?;
    Ok(
        NostrEvent {
            verification_failure: event.verify().err().map(|e| e.to_string()),
            pubkey: event.pubkey.to_hex(),
            kind: event.kind.as_u16(),
            tags: event.tags.iter().map(|t| t.as_slice().to_vec()).collect(),
            content: event.content,
        },
    )
}

/// Calls `nostr::UnsignedEvent::from_json` and, on the event read,
/// `pubkey.to_hex`, `kind.as_u16`, `tags.iter` with `as_slice` on each tag,
/// and the field `content`. What is read, and the message of a refusal,
/// depend on `json` alone.
#[verifier::external_body]
pub(crate) fn read_unsigned_event(json: &str) -> (r: Result<NostrUnsignedEvent, String>)
    ensures
        match r {
            Ok(event) => unsigned_event_of_json(json@) == Ok::<NostrUnsignedEventView, Seq<char>>(
                event@,
            ),
            Err(m) => unsigned_event_of_json(json@) == Err::<NostrUnsignedEventView, Seq<char>>(m@),
        },
{
    let event = <nostr::UnsignedEvent as nostr::JsonUtil>::from_json(json).map_err(
        |e| e.to_string(),
    )?;
    Ok(
        NostrUnsignedEvent {
            pubkey: event.pubkey.to_hex(),
            kind: event.kind.as_u16(),
            tags: event.tags.iter().map(|t| t.as_slice().to_vec()).collect(),
            content: event.content,
        },
    )
}

/// Calls `nostr::PublicKey::parse` and `to_hex` on the key read. The key,
/// and the message of a refusal, depend on `text` alone. A key that was
/// read is written as 64 hexadecimal digits.
#[verifier::external_body]
pub(crate) fn parse_public_key(text: &str) -> (r: Result<String, String>)
    ensures
        match r {
            Ok(key) => public_key_of(text@) == Ok::<Seq<char>, Seq<char>>(key@)
                && is_identifier_text(key@),
            Err(m) => public_key_of(text@) == Err::<Seq<char>, Seq<char>>(m@),
        },
{
    nostr::PublicKey::parse(text).map(|key| key.to_hex()).map_err(|e| e.to_string())
}

/// Calls `nostr::Keys::parse` and, on the keys read, `public_key` and
/// `to_hex`. The public key, and the message of a refusal, depend on `text`
/// alone. A public key that was read is written as 64 hexadecimal digits.
#[verifier::external_body]
pub(crate) fn parse_secret_key(text: &str) -> (r: Result<String, String>)
    ensures
        match r {
            Ok(key) => public_key_of_secret_key(text@) == Ok::<Seq<char>, Seq<char>>(key@)
                && is_identifier_text(key@),
            Err(m) => public_key_of_secret_key(text@) == Err::<Seq<char>, Seq<char>>(m@),
        },
{
    nostr::Keys::parse(text).map(|keys| keys.public_key().to_hex()).map_err(|e| e.to_string())
}

/// Calls `nostr::PublicKey::from_hex`, `nostr::EventBuilder::build` with the
/// kind, content and hashtag of `builder`, and `try_as_json` on the unsigned
/// event. The event carries the time of the call, so nothing is said of what
/// comes back.
#[verifier::external_body]
pub(crate) fn build_unsigned_event_json(builder: &NostrEventBuilder, author: &str) -> (r: Result<
    String,
    String,
>) {
    let key = nostr::PublicKey::from_hex(author).map_err(|e| e.to_string())?;
    let tag = nostr::Tag::from(nostr::TagStandard::Hashtag(builder.hashtag.clone()));
    let kind = nostr::Kind::from_u16(builder.kind);
    let unsigned = nostr::EventBuilder::new(kind, builder.content.clone()).tag(tag).build(key);
    nostr::JsonUtil::try_as_json(&unsigned).map_err(|e| e.to_string())
}

/// Calls `nostr::Keys::parse`, `nostr::EventBuilder::sign_with_keys` with
/// the kind, content and hashtag of `builder`, and `try_as_json` on the
/// signed event. The event carries the time of the call and the signature
/// uses fresh randomness, so nothing is said of the text; a refused key, a
/// failed signing and a failed serialisation are told apart.
#[verifier::external_body]
pub(crate) fn build_signed_event_json(builder: &NostrEventBuilder, secret_key: &str) -> (r: Result<
    String,
    Error,
>)
    ensures
        r is Err ==> (r->Err_0 is NostrKey || r->Err_0 is NostrEventBuilder || r->Err_0
            is NostrEvent),
{
    let keys = nostr::Keys::parse(secret_key).map_err(|e| Error::NostrKey(e.to_string()))?;
    let tag = nostr::Tag::from(nostr::TagStandard::Hashtag(builder.hashtag.clone()));
    let kind = nostr::Kind::from_u16(builder.kind);
    let event = nostr::EventBuilder::new(kind, builder.content.clone()).tag(tag).sign_with_keys(
        &keys,
    ).map_err(|e| Error::NostrEventBuilder(e.to_string()))?;
    nostr::JsonUtil::try_as_json(&event).map_err(|e| Error::NostrEvent(e.to_string()))
}

/// Calls `nostr::Filter::new`, `kind` and `as_json`: a filter with one kind
/// and nothing else is written as an object with the one key `kinds`, whose
/// value is the array of that kind's number.
#[verifier::external_body]
pub(crate) fn write_kind_filter(kind: u16) -> (json: String)
    ensures
        json@ == kind_filter_json(kind),
{
    nostr::JsonUtil::as_json(&nostr::Filter::new().kind(nostr::Kind::from_u16(kind)))
}

/// Calls `nostr::Filter::new`, `kind`, `hashtag` and `as_json`: a filter
/// with one kind and one hashtag is written as an object with the key
/// `kinds`, as above, and the key `#t`, whose value is the array of the
/// hashtag as a JSON string, escaped as this library escapes strings.
#[verifier::external_body]
pub(crate) fn write_hashtag_filter(kind: u16, hashtag: &str) -> (json: String)
    ensures
        json@ == hashtag_filter_json(kind, hashtag@),
{
    let filter = nostr::Filter::new().kind(nostr::Kind::from_u16(kind)).hashtag(hashtag);
    nostr::JsonUtil::as_json(&filter)
}

/// Calls `serde_json::to_string` on a list of numbers. It writes into
/// memory and the numbers are written as they are, so it does not fail; the
/// text is the array of their decimal forms, separated by commas and without
/// white space.
#[verifier::external_body]
pub(crate) fn write_units(units: &Vec<u32>) -> (r: Result<String, String>)
    ensures
        r is Ok,
        r->Ok_0@ == units_json(units@),
{
    serde_json::to_string(units).map_err(|e| e.to_string())
}

/// Calls `serde_json::from_str` for a list of numbers. What it reads, and
/// the message with which it refuses a text, depend on the text alone.
#[verifier::external_body]
pub(crate) fn read_units(json: &str) -> (r: Result<Vec<u32>, String>)
    ensures
        match r {
            Ok(units) => units_of_json(json@) == Ok::<Seq<u32>, Seq<char>>(units@),
            Err(m) => units_of_json(json@) == Err::<Seq<u32>, Seq<char>>(m@),
        },
{
    serde_json::from_str::<Vec<u32>>(json).map_err(|e| e.to_string())
}

} // verus!
