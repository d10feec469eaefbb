//! Events, their canonical JSON, their hash, and payouts.

use vstd::prelude::*;
use vstd::utf8::encode_utf8;

use crate::codec::{push_hex, push_strings, push_units, strings_json, units_json};
use crate::decimal::{decimal, push_decimal};
use crate::digest::{random_nonce, sha256, sha256_digest};
use crate::error::{Error, Violation};
use crate::hex::{
    byte_array_to_hex_string, hex_of_bytes, is_identifier, is_identifier_text, is_lower_hex_text,
    lemma_hex_is_lower,
};
use crate::information::{Information, InformationView, V1View, V1};
use crate::json_string::{push_quoted, quoted};
use crate::text::{chars_of, push_str, str_eq, string_from_chars};

verus! {

/// Number of outcomes of an event, and index of one.
pub type Outcome = u16;

/// Amount of payout units.
pub type PayoutUnit = u32;

/// A prediction market event.
#[derive(Debug, Clone, PartialEq, Eq, Hash)]
pub struct Event {
    /// Randomness that tells events apart which are otherwise equal.
    pub nonce: [u8; 32],
    /// How many outcomes the event has.
    pub outcome_count: Outcome,
    /// How many units are paid out over the outcomes.
    pub units_to_payout: PayoutUnit,
    /// What the event is about.
    pub information: Information,
}

/// Mathematical value of an [`Event`].
pub ghost struct EventView {
    pub nonce: Seq<u8>,
    pub outcome_count: u16,
    pub units_to_payout: u32,
    pub information: InformationView,
}

impl View for Event {
    type V = EventView;

    open spec fn view(&self) -> EventView {
        EventView {
            nonce: self.nonce@,
            outcome_count: self.outcome_count,
            units_to_payout: self.units_to_payout,
            information: self.information@,
        }
    }
}

/// Opens the object of a [`V1`], up to the value of its first key.
pub const V1_TITLE: &'static str = "{\"title\":";

/// Stands between the title and the description of a [`V1`].
pub const V1_DESCRIPTION: &'static str = ",\"description\":";

/// Stands between the description and the outcome titles of a [`V1`].
pub const V1_OUTCOME_TITLES: &'static str = ",\"outcome_titles\":";

/// Stands between the outcome titles and the time of a [`V1`].
pub const V1_EXPECTED_PAYOUT: &'static str = ",\"expected_payout_unix_seconds\":";

/// Closes an object.
pub const CLOSE: &'static str = "}";

/// The information without data.
pub const INFORMATION_EMPTY: &'static str = "\"empty\"";

/// Opens the object that holds a [`V1`] under its identifier.
pub const INFORMATION_V1: &'static str = "{\"v1\":";

/// Opens the object of an [`Event`], up to the first digit of its nonce.
pub const EVENT_NONCE: &'static str = "{\"nonce\":\"";

/// Stands between the nonce and the outcome count of an [`Event`].
pub const EVENT_OUTCOME_COUNT: &'static str = "\",\"outcome_count\":";

/// Stands between the outcome count and the units of an [`Event`].
pub const EVENT_UNITS_TO_PAYOUT: &'static str = ",\"units_to_payout\":";

/// Stands between the units and the information of an [`Event`].
pub const EVENT_INFORMATION: &'static str = ",\"information\":";

/// Opens the object of an [`EventPayout`], up to the value of its first key.
pub const PAYOUT_EVENT_HASH_HEX: &'static str = "{\"event_hash_hex\":";

/// Stands between the identifier and the units of an [`EventPayout`].
pub const PAYOUT_UNITS_PER_OUTCOME: &'static str = ",\"units_per_outcome\":";

/// Canonical JSON of the fields of a [`V1`]: an object with the keys
/// `title`, `description`, `outcome_titles` and
/// `expected_payout_unix_seconds`, in this order.
pub open spec fn v1_json(v: V1View) -> Seq<char> {
    V1_TITLE@ + quoted(v.title) + V1_DESCRIPTION@ + quoted(v.description) + V1_OUTCOME_TITLES@
        + strings_json(v.outcome_titles) + V1_EXPECTED_PAYOUT@ + decimal(
        v.expected_payout_unix_seconds as nat,
    ) + CLOSE@
}

/// Canonical JSON of an [`Information`]: the bare identifier for the variant
/// without data, else an object with the identifier as its one key.
pub open spec fn information_json(i: InformationView) -> Seq<char> {
    match i {
        InformationView::Empty => INFORMATION_EMPTY@,
        InformationView::V1(v) => INFORMATION_V1@ + v1_json(v) + CLOSE@,
    }
}

/// Canonical JSON of an [`Event`]: an object with the keys `nonce` (as 64
/// hexadecimal digits), `outcome_count`, `units_to_payout` and `information`,
/// in this order, without white space.
pub open spec fn event_json(e: EventView) -> Seq<char> {
    EVENT_NONCE@ + hex_of_bytes(e.nonce) + EVENT_OUTCOME_COUNT@ + decimal(e.outcome_count as nat)
        + EVENT_UNITS_TO_PAYOUT@ + decimal(e.units_to_payout as nat) + EVENT_INFORMATION@
        + information_json(e.information) + CLOSE@
}

/// The identifier of an event: the SHA-256 digest of the UTF-8 bytes of its
/// canonical JSON, as 64 lower case hexadecimal digits.
pub open spec fn event_hash_hex(e: EventView) -> Seq<char> {
    hex_of_bytes(sha256_digest(encode_utf8(event_json(e))))
}

impl EventView {
    /// Whether this is the value of some event: the nonce has 32 bytes.
    pub open spec fn wf(self) -> bool {
        self.nonce.len() == 32
    }

    /// The first rule that the event breaks, if it breaks one: at least two
    /// outcomes, at least one unit, then the rules of its information.
    pub open spec fn violation(self, accepted: Seq<&str>) -> Option<Violation> {
        if self.outcome_count < 2 {
            Some(Violation::OutcomeCount)
        } else if self.units_to_payout < 1 {
            Some(Violation::UnitsToPayout)
        } else {
            self.information.violation(accepted, self.outcome_count)
        }
    }
}

/// Appends the canonical JSON of `v` to `out`.
fn push_v1(out: &mut Vec<char>, v: &V1)
    ensures
        final(out)@ == old(out)@ + v1_json(v@),
{
    let ghost before = out@;
    push_str(out, V1_TITLE);
    let title = chars_of(v.title.as_str());
    push_quoted(out, &title);
    push_str(out, V1_DESCRIPTION);
    let description = chars_of(v.description.as_str());
    push_quoted(out, &description);
    push_str(out, V1_OUTCOME_TITLES);
    push_strings(out, &v.outcome_titles);
    push_str(out, V1_EXPECTED_PAYOUT);
    push_decimal(out, v.expected_payout_unix_seconds);
    push_str(out, CLOSE);
    assert(out@ =~= before + v1_json(v@));
}

/// Appends the canonical JSON of `i` to `out`.
fn push_information(out: &mut Vec<char>, i: &Information)
    ensures
        final(out)@ == old(out)@ + information_json(i@),
{
    let ghost before = out@;
    match i {
        Information::Empty => {
            push_str(out, INFORMATION_EMPTY);
        },
        Information::V1(v) => {
            push_str(out, INFORMATION_V1);
            push_v1(out, v);
            push_str(out, CLOSE);
            assert(out@ =~= before + information_json(i@));
        },
    }
}

impl Event {
    /// A new event with a nonce drawn at random. The event is not validated.
    pub fn new_with_random_nonce(
        outcome_count: Outcome,
        units_to_payout: PayoutUnit,
        information: Information,
    ) -> (event: Event)
        ensures
            event.outcome_count == outcome_count,
            event.units_to_payout == units_to_payout,
            event.information == information,
    {
        Event { nonce: random_nonce(), outcome_count, units_to_payout, information }
    }

    /// The canonical JSON of the event, as characters.
    pub fn to_json_chars(&self) -> (out: Vec<char>)
        ensures
            out@ == event_json(self@),
    {
        let mut out: Vec<char> = Vec::new();
        push_str(&mut out, EVENT_NONCE);
        push_hex(&mut out, self.nonce.as_slice());
        push_str(&mut out, EVENT_OUTCOME_COUNT);
        push_decimal(&mut out, self.outcome_count as u64);
        push_str(&mut out, EVENT_UNITS_TO_PAYOUT);
        push_decimal(&mut out, self.units_to_payout as u64);
        push_str(&mut out, EVENT_INFORMATION);
        push_information(&mut out, &self.information);
        push_str(&mut out, CLOSE);
        assert(out@ =~= event_json(self@));
        out
    }

    /// The canonical JSON of the event. Never fails.
    pub fn try_to_json_string(&self) -> (r: Result<String, Error>)
        ensures
            r is Ok,
            r->Ok_0@ == event_json(self@),
    {
        let out = self.to_json_chars();
        Ok(string_from_chars(&out))
    }

    /// Checks the event: at least two outcomes, at least one unit to pay
    /// out, an accepted information variant, and that variant's own rules.
    /// Reports the first rule that is broken.
    pub fn validate(&self, accepted_information_variant_ids: &[&str]) -> (r: Result<(), Error>)
        ensures
            r == match self@.violation(accepted_information_variant_ids@) {
                Some(v) => Err::<(), Error>(Error::Validation(v)),
                None => Ok(()),
            },
    {
        if self.outcome_count < 2 {
            return Err(Error::Validation(Violation::OutcomeCount));
        }
        if self.units_to_payout < 1 {
            return Err(Error::Validation(Violation::UnitsToPayout));
        }
        self.information.validate(
            accepted_information_variant_ids,
            self.outcome_count,
            self.units_to_payout,
        )
    }

    /// The SHA-256 digest of the UTF-8 bytes of the canonical JSON.
    pub fn hash_sha256(&self) -> (r: Result<[u8; 32], Error>)
        ensures
            r is Ok,
            r->Ok_0@ == sha256_digest(encode_utf8(event_json(self@))),
    {
        let chars = self.to_json_chars();
        let json = string_from_chars(&chars);
        Ok(sha256(json.as_str().as_bytes()))
    }

    /// The identifier of the event: 64 lower case hexadecimal digits. Never
    /// fails.
    pub fn hash_hex(&self) -> (r: Result<EventHashHex, Error>)
        ensures
            r is Ok,
            r->Ok_0@ == event_hash_hex(self@),
            is_identifier_text(r->Ok_0@),
            is_lower_hex_text(r->Ok_0@),
    {
        match self.hash_sha256() {
            Ok(hash) => {
                proof {
                    lemma_hex_is_lower(hash@);
                }
                Ok(EventHashHex(byte_array_to_hex_string(hash.as_slice())))
            },
            Err(e) => Err(e),
        }
    }
}

/// The identifier of an event, as text.
#[derive(Debug, Clone, PartialEq, Eq, Hash)]
pub struct EventHashHex(pub String);

impl View for EventHashHex {
    type V = Seq<char>;

    open spec fn view(&self) -> Seq<char> {
        self.0@
    }
}

impl EventHashHex {
    /// Whether `s` has the form of an event identifier: 64 hexadecimal
    /// digits.
    pub fn is_valid_format(s: &str) -> (r: bool)
        ensures
            r == is_identifier_text(s@),
    {
        is_identifier(s)
    }

    /// The identifier with the text `s`, where `s` has the form of one.
    pub fn new_checked(s: &str) -> (r: Option<EventHashHex>)
        ensures
            match r {
                Some(h) => is_identifier_text(s@) && h@ == s@,
                None => !is_identifier_text(s@),
            },
    {
        if is_identifier(s) {
            Some(EventHashHex(s.to_owned()))
        } else {
            None
        }
    }

    /// The identifier with the text `s`, or a format error.
    pub fn from_hex_str(s: &str) -> (r: Result<EventHashHex, Error>)
        ensures
            match r {
                Ok(h) => is_identifier_text(s@) && h@ == s@,
                Err(e) => !is_identifier_text(s@) && e == Error::Format,
            },
    {
        match EventHashHex::new_checked(s) {
            Some(h) => Ok(h),
            None => Err(Error::Format),
        }
    }
}

impl std::str::FromStr for EventHashHex {
    type Err = Error;

    fn from_str(s: &str) -> (r: Result<EventHashHex, Error>)
        ensures
            match r {
                Ok(h) => is_identifier_text(s@) && h@ == s@,
                Err(e) => !is_identifier_text(s@) && e == Error::Format,
            },
    {
        EventHashHex::from_hex_str(s)
    }
}

/// How the units of an event are paid out over its outcomes.
#[derive(Debug, Clone, PartialEq, Eq, Hash)]
pub struct EventPayout {
    /// Identifier of the event that is paid out.
    pub event_hash_hex: EventHashHex,
    /// Units per outcome, by outcome index.
    pub units_per_outcome: Vec<PayoutUnit>,
}

/// Mathematical value of an [`EventPayout`].
pub ghost struct EventPayoutView {
    pub event_hash_hex: Seq<char>,
    pub units_per_outcome: Seq<u32>,
}

impl View for EventPayout {
    type V = EventPayoutView;

    open spec fn view(&self) -> EventPayoutView {
        EventPayoutView {
            event_hash_hex: self.event_hash_hex@,
            units_per_outcome: self.units_per_outcome@,
        }
    }
}

/// Canonical JSON of an [`EventPayout`]: an object with the keys
/// `event_hash_hex` and `units_per_outcome`, in this order.
pub open spec fn payout_json(p: EventPayoutView) -> Seq<char> {
    PAYOUT_EVENT_HASH_HEX@ + quoted(p.event_hash_hex) + PAYOUT_UNITS_PER_OUTCOME@ + units_json(
        p.units_per_outcome,
    ) + CLOSE@
}

/// The sum of `units`, as a mathematical number.
pub open spec fn unit_sum(units: Seq<u32>) -> nat
    decreases units.len(),
{
    if units.len() == 0 {
        0
    } else {
        unit_sum(units.drop_last()) + units.last() as nat
    }
}

impl EventPayoutView {
    /// The first rule that the payout breaks when held against `event`, if
    /// it breaks one: it names the event, has one entry per outcome, and
    /// its entries add up to the event's units, without overflow.
    pub open spec fn violation(self, event: EventView) -> Option<Violation> {
        if self.event_hash_hex != event_hash_hex(event) {
            Some(Violation::EventHashMismatch)
        } else if self.units_per_outcome.len() != event.outcome_count {
            Some(Violation::PayoutLength)
        } else if unit_sum(self.units_per_outcome) > u32::MAX {
            Some(Violation::UnitSumOverflow)
        } else if unit_sum(self.units_per_outcome) != event.units_to_payout {
            Some(Violation::UnitSum)
        } else {
            None
        }
    }
}

/// The sum of a longer list is at least that of each of its beginnings.
pub proof fn lemma_unit_sum_monotone(units: Seq<u32>, k: int)
    requires
        0 <= k <= units.len(),
    ensures
        unit_sum(units.take(k)) <= unit_sum(units),
    decreases units.len(),
{
    if k == units.len() {
        assert(units.take(k) =~= units);
    } else {
        lemma_unit_sum_monotone(units.drop_last(), k);
        assert(units.drop_last().take(k) =~= units.take(k));
    }
}

impl EventPayout {
    /// A payout of `event`. The payout is not validated.
    pub fn new(event: &Event, payout: Vec<PayoutUnit>) -> (r: Result<EventPayout, Error>)
        ensures
            r is Ok,
            r->Ok_0@.event_hash_hex == event_hash_hex(event@),
            r->Ok_0.units_per_outcome == payout,
    {
        match event.hash_hex() {
            Ok(hash) => Ok(EventPayout { event_hash_hex: hash, units_per_outcome: payout }),
            Err(e) => Err(e),
        }
    }

    /// The canonical JSON of the payout, as characters.
    pub fn to_json_chars(&self) -> (out: Vec<char>)
        ensures
            out@ == payout_json(self@),
    {
        let mut out: Vec<char> = Vec::new();
        push_str(&mut out, PAYOUT_EVENT_HASH_HEX);
        let hash = chars_of(self.event_hash_hex.0.as_str());
        push_quoted(&mut out, &hash);
        push_str(&mut out, PAYOUT_UNITS_PER_OUTCOME);
        push_units(&mut out, &self.units_per_outcome);
        push_str(&mut out, CLOSE);
        assert(out@ =~= payout_json(self@));
        out
    }

    /// The canonical JSON of the payout. Never fails.
    pub fn try_to_json_string(&self) -> (r: Result<String, Error>)
        ensures
            r is Ok,
            r->Ok_0@ == payout_json(self@),
    {
        let out = self.to_json_chars();
        Ok(string_from_chars(&out))
    }

    /// Checks the payout against `event`: it names the event by its hash,
    /// holds one entry per outcome, and its entries add up to the event's
    /// units to pay out. Reports the first rule that is broken.
    pub fn validate(&self, event: &Event) -> (r: Result<(), Error>)
        ensures
            r == match self@.violation(event@) {
                Some(v) => Err::<(), Error>(Error::Validation(v)),
                None => Ok(()),
            },
    {
        let expected = match event.hash_hex() {
            Ok(h) => h,
            Err(e) => {
                return Err(e);
            },
        };
        if !str_eq(self.event_hash_hex.0.as_str(), expected.0.as_str()) {
            return Err(Error::Validation(Violation::EventHashMismatch));
        }
        if self.units_per_outcome.len() != event.outcome_count as usize {
            return Err(Error::Validation(Violation::PayoutLength));
        }
        let mut units_sum: PayoutUnit = 0;
        let mut i: usize = 0;
        while i < self.units_per_outcome.len()
            invariant
                i <= self.units_per_outcome.len(),
                self@.event_hash_hex == event_hash_hex(event@),
                self@.units_per_outcome.len() == event@.outcome_count,
                units_sum == unit_sum(self@.units_per_outcome.take(i as int)),
            decreases self.units_per_outcome.len() - i,
        {
            proof {
                let longer = self@.units_per_outcome.take(i + 1);
                assert(longer.drop_last() =~= self@.units_per_outcome.take(i as int));
                assert(longer.last() == self@.units_per_outcome[i as int]);
                lemma_unit_sum_monotone(self@.units_per_outcome, i + 1);
            }
            units_sum = match units_sum.checked_add(self.units_per_outcome[i]) {
                Some(sum) => sum,
                None => {
                    return Err(Error::Validation(Violation::UnitSumOverflow));
                },
            };
            i += 1;
        }
        assert(self@.units_per_outcome.take(i as int) =~= self@.units_per_outcome);
        if event.units_to_payout != units_sum {
            return Err(Error::Validation(Violation::UnitSum));
        }
        Ok(())
    }
}

} // verus!
