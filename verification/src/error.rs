//! Failure values of the library.

use vstd::prelude::*;

use crate::decimal::{decimal, push_decimal};
use crate::text::{push_str, string_from_chars};

verus! {

/// The rule that a validation found broken.
#[derive(Debug, Clone, Copy, PartialEq, Eq, Hash, Structural)]
pub enum Violation {
    /// An event needs at least two outcomes.
    OutcomeCount,
    /// An event needs at least one unit to pay out.
    UnitsToPayout,
    /// The information variant is not among the accepted ones.
    VariantNotAccepted,
    /// The title is longer than allowed.
    TitleTooLong,
    /// The description is longer than allowed.
    DescriptionTooLong,
    /// There is not exactly one outcome title per outcome.
    OutcomeTitleCount,
    /// The title of the outcome with this index is longer than allowed.
    OutcomeTitleTooLong(usize),
    /// The payout names another event than the one it is held against.
    EventHashMismatch,
    /// The payout does not hold exactly one entry per outcome.
    PayoutLength,
    /// The payout's entries add up to more than a payout unit can hold.
    UnitSumOverflow,
    /// The payout's entries do not add up to the event's units to pay out.
    UnitSum,
}

impl Violation {
    /// The rule in words.
    pub open spec fn text(self) -> Seq<char> {
        match self {
            Violation::OutcomeCount => "outcome count must be greater than 1"@,
            Violation::UnitsToPayout => "units to payout must be greater than 0"@,
            Violation::VariantNotAccepted => "information variant id not accepted"@,
            Violation::TitleTooLong => "information v1: title length is over max"@,
            Violation::DescriptionTooLong => "information v1: description length is over max"@,
            Violation::OutcomeTitleCount =>
                "information v1: outcome titles array length does not equal number of outcomes"@,
            Violation::OutcomeTitleTooLong(i) => "information v1: outcome "@ + decimal(i as nat)
                + " title length is over max"@,
            Violation::EventHashMismatch => "event hashes do not match"@,
            Violation::PayoutLength =>
                "event outcome count does not match number of items in payout vec"@,
            Violation::UnitSumOverflow => "unit sum overflow error"@,
            Violation::UnitSum =>
                "unit sum of payout does not equal units available to payout according to event"@,
        }
    }

    /// Appends the rule in words to `out`.
    fn push_text(&self, out: &mut Vec<char>)
        ensures
            final(out)@ == old(out)@ + self.text(),
    {
        match self {
            Violation::OutcomeCount => push_str(out, "outcome count must be greater than 1"),
            Violation::UnitsToPayout => push_str(out, "units to payout must be greater than 0"),
            Violation::VariantNotAccepted => push_str(out, "information variant id not accepted"),
            Violation::TitleTooLong => push_str(out, "information v1: title length is over max"),
            Violation::DescriptionTooLong => push_str(
                out,
                "information v1: description length is over max",
            ),
            Violation::OutcomeTitleCount => push_str(
                out,
                "information v1: outcome titles array length does not equal number of outcomes",
            ),
            Violation::OutcomeTitleTooLong(i) => {
                let ghost before = out@;
                push_str(out, "information v1: outcome ");
                push_decimal(out, *i as u64);
                push_str(out, " title length is over max");
                assert(out@ =~= before + self.text());
            },
            Violation::EventHashMismatch => push_str(out, "event hashes do not match"),
            Violation::PayoutLength => push_str(
                out,
                "event outcome count does not match number of items in payout vec",
            ),
            Violation::UnitSumOverflow => push_str(out, "unit sum overflow error"),
            Violation::UnitSum => push_str(
                out,
                "unit sum of payout does not equal units available to payout according to event",
            ),
        }
    }

    /// The rule in words.
    pub fn message(&self) -> (s: String)
        ensures
            s@ == self.text(),
    {
        let mut out: Vec<char> = Vec::new();
        self.push_text(&mut out);
        string_from_chars(&out)
    }
}

/// What is wrong with a received signed event, beyond its signature.
#[derive(Debug, Clone, Copy, PartialEq, Eq, Hash, Structural)]
pub enum ProtocolViolation {
    /// The event carries no hashtag.
    MissingHashTag,
    /// The hashtag is not a 64 digit hexadecimal identifier.
    MalformedHashTag,
    /// The hashtag differs from the hash of the event in the content.
    HashTagMismatch,
}

impl ProtocolViolation {
    /// What is wrong, in words.
    pub open spec fn text(self) -> Seq<char> {
        match self {
            ProtocolViolation::MissingHashTag => "nostr event does not have any hash tags"@,
            ProtocolViolation::MalformedHashTag =>
                "nostr event hash tag does not have format of event hash hex"@,
            ProtocolViolation::HashTagMismatch =>
                "nostr event hash tag does not equal hash hex of contained event"@,
        }
    }

    /// Appends what is wrong, in words, to `out`.
    fn push_text(&self, out: &mut Vec<char>)
        ensures
            final(out)@ == old(out)@ + self.text(),
    {
        match self {
            ProtocolViolation::MissingHashTag => push_str(
                out,
                "nostr event does not have any hash tags",
            ),
            ProtocolViolation::MalformedHashTag => push_str(
                out,
                "nostr event hash tag does not have format of event hash hex",
            ),
            ProtocolViolation::HashTagMismatch => push_str(
                out,
                "nostr event hash tag does not equal hash hex of contained event",
            ),
        }
    }

    /// What is wrong, in words.
    pub fn message(&self) -> (s: String)
        ensures
            s@ == self.text(),
    {
        let mut out: Vec<char> = Vec::new();
        self.push_text(&mut out);
        string_from_chars(&out)
    }
}

/// Every way in which an operation of this library can fail.
#[derive(Debug, Clone, PartialEq, Eq, Hash)]
pub enum Error {
    /// The text is not the canonical JSON of any value of the wanted type.
    Encoding,
    /// The JSON library refused the text; its message is kept.
    SerdeJson(String),
    /// A validation rule is broken.
    Validation(Violation),
    /// A string is not a 64 digit hexadecimal identifier.
    Format,
    /// A received signed event does not have the shape of its binding.
    Protocol(ProtocolViolation),
    /// The signed event could not be read, or its id or signature is wrong.
    NostrEvent(String),
    /// The event could not be signed.
    NostrEventBuilder(String),
    /// The key was refused.
    NostrKey(String),
}

/// Mathematical value of an [`Error`]: its messages as character sequences.
pub ghost enum ErrorView {
    Encoding,
    SerdeJson(Seq<char>),
    Validation(Violation),
    Format,
    Protocol(ProtocolViolation),
    NostrEvent(Seq<char>),
    NostrEventBuilder(Seq<char>),
    NostrKey(Seq<char>),
}

impl View for Error {
    type V = ErrorView;

    open spec fn view(&self) -> ErrorView {
        match self {
            Error::Encoding => ErrorView::Encoding,
            Error::SerdeJson(m) => ErrorView::SerdeJson(m@),
            Error::Validation(v) => ErrorView::Validation(*v),
            Error::Format => ErrorView::Format,
            Error::Protocol(v) => ErrorView::Protocol(*v),
            Error::NostrEvent(m) => ErrorView::NostrEvent(m@),
            Error::NostrEventBuilder(m) => ErrorView::NostrEventBuilder(m@),
            Error::NostrKey(m) => ErrorView::NostrKey(m@),
        }
    }
}

impl ErrorView {
    /// The failure in words: its kind, and the rule or the message.
    pub open spec fn text(self) -> Seq<char> {
        match self {
            ErrorView::Encoding => "not the canonical json of a value"@,
            ErrorView::SerdeJson(m) => "serde_json failed to serialize/deserialize: "@ + m,
            ErrorView::Validation(v) => "validation failed: "@ + v.text(),
            ErrorView::Format => "invalid format"@,
            ErrorView::Protocol(v) => "protocol error: "@ + v.text(),
            ErrorView::NostrEvent(m) => "nostr event: "@ + m,
            ErrorView::NostrEventBuilder(m) => "nostr event builder: "@ + m,
            ErrorView::NostrKey(m) => "nostr keys: "@ + m,
        }
    }
}

/// The value of a result: that of what it holds.
pub open spec fn outcome<T: View>(r: Result<T, Error>) -> Result<T::V, ErrorView> {
    match r {
        Ok(t) => Ok(t@),
        Err(e) => Err(e@),
    }
}

/// The kinds into which the failures fall.
#[derive(Debug, Clone, Copy, PartialEq, Eq, Hash, Structural)]
pub enum ErrorKind {
    /// Canonical JSON could not be written or read.
    Encoding,
    /// A validation rule is broken.
    Validation,
    /// An identifier string is malformed.
    Format,
    /// A signed event does not have the shape of its binding.
    Protocol,
    /// A signature or a key was refused.
    Trust,
}

impl Error {
    /// The kind of this failure.
    pub open spec fn kind_of(self) -> ErrorKind {
        match self {
            Error::Encoding => ErrorKind::Encoding,
            Error::SerdeJson(_) => ErrorKind::Encoding,
            Error::Validation(_) => ErrorKind::Validation,
            Error::Format => ErrorKind::Format,
            Error::Protocol(_) => ErrorKind::Protocol,
            Error::NostrEvent(_) => ErrorKind::Trust,
            Error::NostrEventBuilder(_) => ErrorKind::Trust,
            Error::NostrKey(_) => ErrorKind::Trust,
        }
    }

    /// The failure in words.
    pub fn message(&self) -> (s: String)
        ensures
            s@ == self@.text(),
    {
        let mut out: Vec<char> = Vec::new();
        match self {
            Error::Encoding => push_str(&mut out, "not the canonical json of a value"),
            Error::SerdeJson(m) => {
                push_str(&mut out, "serde_json failed to serialize/deserialize: ");
                push_str(&mut out, m.as_str());
            },
            Error::Validation(v) => {
                push_str(&mut out, "validation failed: ");
                v.push_text(&mut out);
            },
            Error::Format => push_str(&mut out, "invalid format"),
            Error::Protocol(v) => {
                push_str(&mut out, "protocol error: ");
                v.push_text(&mut out);
            },
            Error::NostrEvent(m) => {
                push_str(&mut out, "nostr event: ");
                push_str(&mut out, m.as_str());
            },
            Error::NostrEventBuilder(m) => {
                push_str(&mut out, "nostr event builder: ");
                push_str(&mut out, m.as_str());
            },
            Error::NostrKey(m) => {
                push_str(&mut out, "nostr keys: ");
                push_str(&mut out, m.as_str());
            },
        }
        assert(out@ =~= self@.text());
        string_from_chars(&out)
    }

    /// The kind of this failure.
    pub fn kind(&self) -> (k: ErrorKind)
        ensures
            k == self.kind_of(),
    {
        match self {
            Error::Encoding => ErrorKind::Encoding,
            Error::SerdeJson(_) => ErrorKind::Encoding,
            Error::Validation(_) => ErrorKind::Validation,
            Error::Format => ErrorKind::Format,
            Error::Protocol(_) => ErrorKind::Protocol,
            Error::NostrEvent(_) => ErrorKind::Trust,
            Error::NostrEventBuilder(_) => ErrorKind::Trust,
            Error::NostrKey(_) => ErrorKind::Trust,
        }
    }
}

} // verus!
