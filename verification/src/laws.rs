//! What holds of the library as a whole, stated over the same mathematical
//! values as the contracts of its functions.

use vstd::prelude::*;
use vstd::utf8::{decode_utf8, encode_utf8, encode_utf8_decode_utf8};

use crate::decode::{
    event_of_json, lemma_event_json_injective, lemma_payout_json_injective, payout_of_json,
};
use crate::error::{ErrorView, ProtocolViolation, Violation};
use crate::event::{
    event_hash_hex, event_json, payout_json, unit_sum, EventPayoutView, EventView,
};
use crate::information::{accepts, Empty, Information, InformationView, V1};
use crate::codec::units_json;
use crate::hex::is_identifier_text;
use crate::nostr_event_types::{
    checked_hashtag, first_hashtag, is_hashtag, EventPayoutAttestation,
    FutureEventPayoutAttestationPledge, NewEvent,
};
use crate::nostr_event_utils::is_signed_event_json;
use crate::transport::{hashtag_tags, units_of_json, NostrEventView};

verus! {

/// Reading the canonical JSON of an event gives the event back.
pub proof fn law_event_round_trip(e: EventView)
    requires
        e.wf(),
    ensures
        event_of_json(event_json(e)) == Some(e),
{
    let found = event_of_json(event_json(e))->0;
    lemma_event_json_injective(found, e);
}

/// Reading the canonical JSON of a payout gives the payout back.
pub proof fn law_payout_round_trip(p: EventPayoutView)
    ensures
        payout_of_json(payout_json(p)) == Some(p),
{
    let found = payout_of_json(payout_json(p))->0;
    lemma_payout_json_injective(found, p);
}

/// A text is read as an event only where it is that event's canonical JSON.
pub proof fn law_event_json_is_canonical(json: Seq<char>, e: EventView)
    requires
        event_of_json(json) == Some(e),
    ensures
        e.wf(),
        event_json(e) == json,
{
}

/// The identifier of an event depends on its fields alone, and two events
/// that differ in any field, the nonce included, hand different bytes to the
/// digest.
pub proof fn law_hash_determinism(a: EventView, b: EventView)
    requires
        a.wf(),
        b.wf(),
    ensures
        a == b ==> event_hash_hex(a) == event_hash_hex(b),
        a != b ==> encode_utf8(event_json(a)) != encode_utf8(event_json(b)),
{
    if a != b {
        if event_json(a) == event_json(b) {
            lemma_event_json_injective(a, b);
        }
        encode_utf8_decode_utf8(event_json(a));
        encode_utf8_decode_utf8(event_json(b));
        assert(decode_utf8(encode_utf8(event_json(a))) == event_json(a));
        assert(decode_utf8(encode_utf8(event_json(b))) == event_json(b));
    }
}

/// An event with fewer than two outcomes, with no unit to pay out, or with a
/// number of outcome titles other than its number of outcomes is never valid,
/// whatever is accepted.
pub proof fn law_validation_totality(e: EventView, accepted: Seq<&str>)
    ensures
        e.outcome_count < 2 ==> e.violation(accepted) == Some(Violation::OutcomeCount),
        e.units_to_payout < 1 ==> e.violation(accepted) is Some,
        e.information matches InformationView::V1(v) && v.outcome_titles.len() != e.outcome_count
            ==> e.violation(accepted) is Some,
{
}

/// A payout is valid for an event only where it names the event, holds one
/// entry per outcome, and its entries add up to exactly the event's units.
/// A sum of one more or one less is refused like any other.
pub proof fn law_payout_conservation(p: EventPayoutView, e: EventView)
    ensures
        p.violation(e) is None <==> {
            &&& p.event_hash_hex == event_hash_hex(e)
            &&& p.units_per_outcome.len() == e.outcome_count
            &&& unit_sum(p.units_per_outcome) == e.units_to_payout
        },
{
}

/// A received event whose verification failed is refused by every binding
/// with the verifier's message, whatever its hashtags and content are.
pub proof fn law_unverified_event_is_refused(
    event: NostrEventView,
    units: Result<Seq<u32>, Seq<char>>,
)
    requires
        event.verification_failure is Some,
    ensures
        NewEvent::interpreted(event) == Err::<EventView, ErrorView>(
            ErrorView::NostrEvent(event.verification_failure->0),
        ),
        FutureEventPayoutAttestationPledge::interpreted(event) == Err::<
            (Seq<char>, Seq<char>),
            ErrorView,
        >(ErrorView::NostrEvent(event.verification_failure->0)),
        EventPayoutAttestation::interpreted(event, units) == Err::<
            (Seq<char>, EventPayoutView),
            ErrorView,
        >(ErrorView::NostrEvent(event.verification_failure->0)),
{
}

/// Where all identifiers are accepted, every variant is.
pub proof fn law_all_variants_accepted(i: InformationView)
    ensures
        accepts(Information::ALL_VARIANT_IDS@, i.variant_id()),
{
    let ids = Information::ALL_VARIANT_IDS;
    match i {
        InformationView::Empty => {
            assert(ids@[0]@ == i.variant_id());
        },
        InformationView::V1(_) => {
            assert(ids@[1]@ == i.variant_id());
        },
    }
}

/// An event with information of the first version is refused where only the
/// variant without data is accepted. Where the first version is accepted,
/// alone or with others, only the rules on outcomes, units and the
/// information itself decide.
pub proof fn law_variant_acceptance_gate(e: EventView, accepted: Seq<&str>)
    requires
        e.outcome_count >= 2,
        e.units_to_payout >= 1,
        e.information is V1,
    ensures
        accepted.len() == 1 && accepted[0]@ == Empty::ID@ ==> e.violation(accepted) == Some(
            Violation::VariantNotAccepted,
        ),
        accepts(accepted, V1::ID@) ==> e.violation(accepted) == e.information->V1_0.violation(
            e.outcome_count,
        ),
{
    reveal_strlit("empty");
    reveal_strlit("v1");
    assert(Empty::ID@.len() != V1::ID@.len());
}

/// The announcement of a new event is read as an event only where its
/// hashtag is the identifier of the event in its content. A verified
/// announcement whose hashtag has the form of an identifier and whose
/// content is the canonical JSON of an event with another identifier is
/// refused as inconsistent; one whose hashtag is the identifier of the event
/// in its content is read as that event.
pub proof fn law_new_event_self_consistency(event: NostrEventView, e: EventView)
    ensures
        NewEvent::interpreted(event) == Ok::<EventView, ErrorView>(e) ==> {
            &&& event.verification_failure is None
            &&& event.content == event_json(e)
            &&& first_hashtag(event.tags) == Some(event_hash_hex(e))
        },
        e.wf() && event.content == event_json(e) && checked_hashtag(event) is Ok
            && checked_hashtag(event)->Ok_0 != event_hash_hex(e) ==> NewEvent::interpreted(event)
            == Err::<
            EventView,
            ErrorView,
        >(ErrorView::Protocol(ProtocolViolation::HashTagMismatch)),
        e.wf() && event.content == event_json(e) && checked_hashtag(event) is Ok
            && checked_hashtag(event)->Ok_0 == event_hash_hex(e) ==> NewEvent::interpreted(event)
            == Ok::<
            EventView,
            ErrorView,
        >(e),
{
    if e.wf() {
        law_event_round_trip(e);
    }
}

/// The one hashtag of an event that was made of a builder is the first
/// hashtag that is found in it.
pub proof fn lemma_first_hashtag_of_made_event(hashtag: Seq<char>)
    ensures
        first_hashtag(hashtag_tags(hashtag)) == Some(hashtag),
{
    let tags = hashtag_tags(hashtag);
    assert(tags[0][0] == "t"@ && tags[0][1] == hashtag);
    assert(is_hashtag(tags[0]));
}

/// What this library signs as the announcement of an event, it reads back
/// as that event.
pub proof fn law_signed_announcement_reads_back(json: Seq<char>, e: EventView, author: Seq<char>)
    requires
        e.wf(),
        is_identifier_text(event_hash_hex(e)),
        is_signed_event_json(json, NewEvent::shape(e), author),
    ensures
        NewEvent::interpreted_json(json) == Ok::<EventView, ErrorView>(e),
{
    lemma_first_hashtag_of_made_event(event_hash_hex(e));
    law_event_round_trip(e);
}

/// What this library signs as the pledge for an event identifier, it reads
/// back as the signer's key and that identifier.
pub proof fn law_signed_pledge_reads_back(json: Seq<char>, hash: Seq<char>, author: Seq<char>)
    requires
        is_identifier_text(hash),
        is_signed_event_json(json, FutureEventPayoutAttestationPledge::shape(hash), author),
    ensures
        FutureEventPayoutAttestationPledge::interpreted_json(json) == Ok::<
            (Seq<char>, Seq<char>),
            ErrorView,
        >((author, hash)),
{
    lemma_first_hashtag_of_made_event(hash);
}

/// What this library signs as the attestation of a payout for an event
/// identifier, it reads back as the signer's key and that payout, where the
/// JSON library reads the written list of units as those units.
pub proof fn law_signed_attestation_reads_back(
    json: Seq<char>,
    payout: EventPayoutView,
    author: Seq<char>,
)
    requires
        is_identifier_text(payout.event_hash_hex),
        units_of_json(units_json(payout.units_per_outcome)) == Ok::<Seq<u32>, Seq<char>>(
            payout.units_per_outcome,
        ),
        is_signed_event_json(json, EventPayoutAttestation::shape(payout), author),
    ensures
        EventPayoutAttestation::interpreted_json(json) == Ok::<
            (Seq<char>, EventPayoutView),
            ErrorView,
        >((author, payout)),
{
    lemma_first_hashtag_of_made_event(payout.event_hash_hex);
}

} // verus!
