//! Readers for the canonical JSON of events and payouts.
//!
//! Each reader comes with two facts: what it reads is the canonical JSON of
//! the value it gives, and the canonical JSON of a value is read as that
//! value. Together they say that reading is the exact inverse of writing.

use vstd::prelude::*;

use crate::codec::{
    lemma_parse_hex_bytes_complete, lemma_parse_hex_bytes_sound, lemma_parse_strings_complete,
    lemma_parse_strings_sound, lemma_parse_units_complete, lemma_parse_units_sound,
    parse_hex_at, parse_hex_bytes, parse_strings, parse_strings_at, parse_units, parse_units_at,
    strings_json, units_json,
};
use crate::decimal::{
    decimal, lemma_parse_decimal_complete, lemma_parse_decimal_sound, parse_decimal,
    parse_decimal_at,
};
use crate::event::{
    event_json, information_json, payout_json, v1_json, Event, EventHashHex, EventPayout,
    EventPayoutView, EventView, CLOSE, EVENT_INFORMATION, EVENT_NONCE, EVENT_OUTCOME_COUNT,
    EVENT_UNITS_TO_PAYOUT, INFORMATION_EMPTY, INFORMATION_V1, PAYOUT_EVENT_HASH_HEX,
    PAYOUT_UNITS_PER_OUTCOME, V1_DESCRIPTION, V1_EXPECTED_PAYOUT, V1_OUTCOME_TITLES, V1_TITLE,
};
use crate::error::Error;
use crate::hex::hex_of_bytes;
use crate::information::{Information, InformationView, V1View, V1};
use crate::json_string::{
    lemma_parse_quoted_complete, lemma_parse_quoted_sound, parse_quoted, parse_quoted_at, quoted,
};
use crate::text::{
    chars_of, expect, has_at, lemma_has_at_concat, lemma_has_at_first, lemma_subrange_join, lit,
    string_from_chars,
};

verus! {

/// Reads the canonical JSON of a `V1` at `pos`: the value and the position
/// behind it.
pub open spec fn parse_v1(s: Seq<char>, pos: int) -> Option<(V1View, int)> {
    match lit(s, pos, V1_TITLE@) {
        None => None,
        Some(p1) => match parse_quoted(s, p1) {
            None => None,
            Some((title, p2)) => match lit(s, p2, V1_DESCRIPTION@) {
                None => None,
                Some(p3) => match parse_quoted(s, p3) {
                    None => None,
                    Some((description, p4)) => match lit(s, p4, V1_OUTCOME_TITLES@) {
                        None => None,
                        Some(p5) => match parse_strings(s, p5) {
                            None => None,
                            Some((outcome_titles, p6)) => match lit(s, p6, V1_EXPECTED_PAYOUT@) {
                                None => None,
                                Some(p7) => match parse_decimal(s, p7, u64::MAX as nat) {
                                    None => None,
                                    Some((seconds, p8)) => match lit(s, p8, CLOSE@) {
                                        None => None,
                                        Some(p9) => Some(
                                            (
                                                V1View {
                                                    title,
                                                    description,
                                                    outcome_titles,
                                                    expected_payout_unix_seconds: seconds as u64,
                                                },
                                                p9,
                                            ),
                                        ),
                                    },
                                },
                            },
                        },
                    },
                },
            },
        },
    }
}

/// Reads the canonical JSON of an `Information` at `pos`.
pub open spec fn parse_information(s: Seq<char>, pos: int) -> Option<(InformationView, int)> {
    match lit(s, pos, INFORMATION_EMPTY@) {
        Some(p) => Some((InformationView::Empty, p)),
        None => match lit(s, pos, INFORMATION_V1@) {
            None => None,
            Some(p1) => match parse_v1(s, p1) {
                None => None,
                Some((v, p2)) => match lit(s, p2, CLOSE@) {
                    None => None,
                    Some(p3) => Some((InformationView::V1(v), p3)),
                },
            },
        },
    }
}

/// Reads the canonical JSON of an `Event` at `pos`.
pub open spec fn parse_event(s: Seq<char>, pos: int) -> Option<(EventView, int)> {
    match lit(s, pos, EVENT_NONCE@) {
        None => None,
        Some(p1) => match parse_hex_bytes(s, p1, 32) {
            None => None,
            Some((nonce, p2)) => match lit(s, p2, EVENT_OUTCOME_COUNT@) {
                None => None,
                Some(p3) => match parse_decimal(s, p3, u16::MAX as nat) {
                    None => None,
                    Some((outcome_count, p4)) => match lit(s, p4, EVENT_UNITS_TO_PAYOUT@) {
                        None => None,
                        Some(p5) => match parse_decimal(s, p5, u32::MAX as nat) {
                            None => None,
                            Some((units_to_payout, p6)) => match lit(s, p6, EVENT_INFORMATION@) {
                                None => None,
                                Some(p7) => match parse_information(s, p7) {
                                    None => None,
                                    Some((information, p8)) => match lit(s, p8, CLOSE@) {
                                        None => None,
                                        Some(p9) => Some(
                                            (
                                                EventView {
                                                    nonce,
                                                    outcome_count: outcome_count as u16,
                                                    units_to_payout: units_to_payout as u32,
                                                    information,
                                                },
                                                p9,
                                            ),
                                        ),
                                    },
                                },
                            },
                        },
                    },
                },
            },
        },
    }
}

/// Reads the canonical JSON of an `EventPayout` at `pos`.
pub open spec fn parse_payout(s: Seq<char>, pos: int) -> Option<(EventPayoutView, int)> {
    match lit(s, pos, PAYOUT_EVENT_HASH_HEX@) {
        None => None,
        Some(p1) => match parse_quoted(s, p1) {
            None => None,
            Some((event_hash_hex, p2)) => match lit(s, p2, PAYOUT_UNITS_PER_OUTCOME@) {
                None => None,
                Some(p3) => match parse_units(s, p3) {
                    None => None,
                    Some((units_per_outcome, p4)) => match lit(s, p4, CLOSE@) {
                        None => None,
                        Some(p5) => Some((EventPayoutView { event_hash_hex, units_per_outcome }, p5)),
                    },
                },
            },
        },
    }
}

/// What `parse_v1` reads is the canonical JSON of the value it gives.
#[verifier::rlimit(60)]
pub proof fn lemma_parse_v1_sound(s: Seq<char>, pos: int)
    ensures
        match parse_v1(s, pos) {
            Some((v, end)) => 0 <= pos <= end <= s.len() && s.subrange(pos, end) == v1_json(v),
            None => true,
        },
{
    if let Some((v, end)) = parse_v1(s, pos) {
        let p1 = lit(s, pos, V1_TITLE@)->0;
        let (_, p2) = parse_quoted(s, p1)->0;
        let p3 = lit(s, p2, V1_DESCRIPTION@)->0;
        let (_, p4) = parse_quoted(s, p3)->0;
        let p5 = lit(s, p4, V1_OUTCOME_TITLES@)->0;
        let (_, p6) = parse_strings(s, p5)->0;
        let p7 = lit(s, p6, V1_EXPECTED_PAYOUT@)->0;
        let (_, p8) = parse_decimal(s, p7, u64::MAX as nat)->0;
        lemma_parse_quoted_sound(s, p1);
        lemma_parse_quoted_sound(s, p3);
        lemma_parse_strings_sound(s, p5);
        lemma_parse_decimal_sound(s, p7, u64::MAX as nat);
        lemma_subrange_join(s, pos, p1, p2);
        lemma_subrange_join(s, pos, p2, p3);
        lemma_subrange_join(s, pos, p3, p4);
        lemma_subrange_join(s, pos, p4, p5);
        lemma_subrange_join(s, pos, p5, p6);
        lemma_subrange_join(s, pos, p6, p7);
        lemma_subrange_join(s, pos, p7, p8);
        lemma_subrange_join(s, pos, p8, end);
    }
}

/// Where the canonical JSON of `v` stands at `pos`, `parse_v1` reads `v`.
#[verifier::rlimit(60)]
pub proof fn lemma_parse_v1_complete(s: Seq<char>, pos: int, v: V1View)
    requires
        has_at(s, pos, v1_json(v)),
    ensures
        parse_v1(s, pos) == Some((v, pos + v1_json(v).len())),
{
    let a = V1_TITLE@;
    let b = quoted(v.title);
    let c = V1_DESCRIPTION@;
    let d = quoted(v.description);
    let e = V1_OUTCOME_TITLES@;
    let f = strings_json(v.outcome_titles);
    let g = V1_EXPECTED_PAYOUT@;
    let h = decimal(v.expected_payout_unix_seconds as nat);
    let i = CLOSE@;
    lemma_has_at_concat(s, pos, a + b + c + d + e + f + g + h, i);
    lemma_has_at_concat(s, pos, a + b + c + d + e + f + g, h);
    lemma_has_at_concat(s, pos, a + b + c + d + e + f, g);
    lemma_has_at_concat(s, pos, a + b + c + d + e, f);
    lemma_has_at_concat(s, pos, a + b + c + d, e);
    lemma_has_at_concat(s, pos, a + b + c, d);
    lemma_has_at_concat(s, pos, a + b, c);
    lemma_has_at_concat(s, pos, a, b);
    let p1 = pos + a.len();
    let p2 = p1 + b.len();
    let p3 = p2 + c.len();
    let p4 = p3 + d.len();
    let p5 = p4 + e.len();
    let p6 = p5 + f.len();
    let p7 = p6 + g.len();
    let p8 = p7 + h.len();
    lemma_parse_quoted_complete(s, p1, v.title);
    lemma_parse_quoted_complete(s, p3, v.description);
    lemma_parse_strings_complete(s, p5, v.outcome_titles);
    reveal_strlit("}");
    lemma_has_at_first(s, p8, i);
    lemma_parse_decimal_complete(
        s,
        p7,
        u64::MAX as nat,
        v.expected_payout_unix_seconds as nat,
    );
}

/// What `parse_information` reads is the canonical JSON of the value it
/// gives.
#[verifier::rlimit(60)]
pub proof fn lemma_parse_information_sound(s: Seq<char>, pos: int)
    ensures
        match parse_information(s, pos) {
            Some((i, end)) => 0 <= pos <= end <= s.len() && s.subrange(pos, end)
                == information_json(i),
            None => true,
        },
{
    if let Some((i, end)) = parse_information(s, pos) {
        if lit(s, pos, INFORMATION_EMPTY@) is None {
            let p1 = lit(s, pos, INFORMATION_V1@)->0;
            let (_, p2) = parse_v1(s, p1)->0;
            lemma_parse_v1_sound(s, p1);
            lemma_subrange_join(s, pos, p1, p2);
            lemma_subrange_join(s, pos, p2, end);
        }
    }
}

/// Where the canonical JSON of `i` stands at `pos`, `parse_information`
/// reads `i`.
#[verifier::rlimit(60)]
pub proof fn lemma_parse_information_complete(s: Seq<char>, pos: int, i: InformationView)
    requires
        has_at(s, pos, information_json(i)),
    ensures
        parse_information(s, pos) == Some((i, pos + information_json(i).len())),
{
    match i {
        InformationView::Empty => {},
        InformationView::V1(v) => {
            let a = INFORMATION_V1@;
            let b = v1_json(v);
            let c = CLOSE@;
            lemma_has_at_concat(s, pos, a + b, c);
            lemma_has_at_concat(s, pos, a, b);
            lemma_parse_v1_complete(s, pos + a.len(), v);
            reveal_strlit("{\"v1\":");
            reveal_strlit("\"empty\"");
            lemma_has_at_first(s, pos, a);
            if has_at(s, pos, INFORMATION_EMPTY@) {
                lemma_has_at_first(s, pos, INFORMATION_EMPTY@);
            }
        },
    }
}

/// What `parse_event` reads is the canonical JSON of the value it gives, and
/// the nonce it gives has 32 bytes.
#[verifier::rlimit(60)]
pub proof fn lemma_parse_event_sound(s: Seq<char>, pos: int)
    ensures
        match parse_event(s, pos) {
            Some((e, end)) => {
                &&& 0 <= pos <= end <= s.len()
                &&& e.nonce.len() == 32
                &&& s.subrange(pos, end) == event_json(e)
            },
            None => true,
        },
{
    if let Some((e, end)) = parse_event(s, pos) {
        let p1 = lit(s, pos, EVENT_NONCE@)->0;
        let (_, p2) = parse_hex_bytes(s, p1, 32)->0;
        let p3 = lit(s, p2, EVENT_OUTCOME_COUNT@)->0;
        let (_, p4) = parse_decimal(s, p3, u16::MAX as nat)->0;
        let p5 = lit(s, p4, EVENT_UNITS_TO_PAYOUT@)->0;
        let (_, p6) = parse_decimal(s, p5, u32::MAX as nat)->0;
        let p7 = lit(s, p6, EVENT_INFORMATION@)->0;
        let (_, p8) = parse_information(s, p7)->0;
        lemma_parse_hex_bytes_sound(s, p1, 32);
        lemma_parse_decimal_sound(s, p3, u16::MAX as nat);
        lemma_parse_decimal_sound(s, p5, u32::MAX as nat);
        lemma_parse_information_sound(s, p7);
        lemma_subrange_join(s, pos, p1, p2);
        lemma_subrange_join(s, pos, p2, p3);
        lemma_subrange_join(s, pos, p3, p4);
        lemma_subrange_join(s, pos, p4, p5);
        lemma_subrange_join(s, pos, p5, p6);
        lemma_subrange_join(s, pos, p6, p7);
        lemma_subrange_join(s, pos, p7, p8);
        lemma_subrange_join(s, pos, p8, end);
    }
}

/// Where the canonical JSON of `e` stands at `pos`, `parse_event` reads `e`.
#[verifier::rlimit(60)]
pub proof fn lemma_parse_event_complete(s: Seq<char>, pos: int, e: EventView)
    requires
        e.nonce.len() == 32,
        has_at(s, pos, event_json(e)),
    ensures
        parse_event(s, pos) == Some((e, pos + event_json(e).len())),
{
    let a = EVENT_NONCE@;
    let b = hex_of_bytes(e.nonce);
    let c = EVENT_OUTCOME_COUNT@;
    let d = decimal(e.outcome_count as nat);
    let f = EVENT_UNITS_TO_PAYOUT@;
    let g = decimal(e.units_to_payout as nat);
    let h = EVENT_INFORMATION@;
    let i = information_json(e.information);
    let j = CLOSE@;
    lemma_has_at_concat(s, pos, a + b + c + d + f + g + h + i, j);
    lemma_has_at_concat(s, pos, a + b + c + d + f + g + h, i);
    lemma_has_at_concat(s, pos, a + b + c + d + f + g, h);
    lemma_has_at_concat(s, pos, a + b + c + d + f, g);
    lemma_has_at_concat(s, pos, a + b + c + d, f);
    lemma_has_at_concat(s, pos, a + b + c, d);
    lemma_has_at_concat(s, pos, a + b, c);
    lemma_has_at_concat(s, pos, a, b);
    let p1 = pos + a.len();
    let p2 = p1 + b.len();
    let p3 = p2 + c.len();
    let p4 = p3 + d.len();
    let p5 = p4 + f.len();
    let p6 = p5 + g.len();
    let p7 = p6 + h.len();
    lemma_parse_hex_bytes_complete(s, p1, e.nonce);
    reveal_strlit(",\"units_to_payout\":");
    reveal_strlit(",\"information\":");
    lemma_has_at_first(s, p4, f);
    lemma_has_at_first(s, p6, h);
    lemma_parse_decimal_complete(s, p3, u16::MAX as nat, e.outcome_count as nat);
    lemma_parse_decimal_complete(s, p5, u32::MAX as nat, e.units_to_payout as nat);
    lemma_parse_information_complete(s, p7, e.information);
}

/// What `parse_payout` reads is the canonical JSON of the value it gives.
#[verifier::rlimit(60)]
pub proof fn lemma_parse_payout_sound(s: Seq<char>, pos: int)
    ensures
        match parse_payout(s, pos) {
            Some((p, end)) => 0 <= pos <= end <= s.len() && s.subrange(pos, end) == payout_json(p),
            None => true,
        },
{
    if let Some((p, end)) = parse_payout(s, pos) {
        let p1 = lit(s, pos, PAYOUT_EVENT_HASH_HEX@)->0;
        let (_, p2) = parse_quoted(s, p1)->0;
        let p3 = lit(s, p2, PAYOUT_UNITS_PER_OUTCOME@)->0;
        let (_, p4) = parse_units(s, p3)->0;
        lemma_parse_quoted_sound(s, p1);
        lemma_parse_units_sound(s, p3);
        lemma_subrange_join(s, pos, p1, p2);
        lemma_subrange_join(s, pos, p2, p3);
        lemma_subrange_join(s, pos, p3, p4);
        lemma_subrange_join(s, pos, p4, end);
    }
}

/// Where the canonical JSON of `p` stands at `pos`, `parse_payout` reads
/// `p`.
#[verifier::rlimit(60)]
pub proof fn lemma_parse_payout_complete(s: Seq<char>, pos: int, p: EventPayoutView)
    requires
        has_at(s, pos, payout_json(p)),
    ensures
        parse_payout(s, pos) == Some((p, pos + payout_json(p).len())),
{
    let a = PAYOUT_EVENT_HASH_HEX@;
    let b = quoted(p.event_hash_hex);
    let c = PAYOUT_UNITS_PER_OUTCOME@;
    let d = units_json(p.units_per_outcome);
    let e = CLOSE@;
    lemma_has_at_concat(s, pos, a + b + c + d, e);
    lemma_has_at_concat(s, pos, a + b + c, d);
    lemma_has_at_concat(s, pos, a + b, c);
    lemma_has_at_concat(s, pos, a, b);
    let p1 = pos + a.len();
    let p3 = p1 + b.len() + c.len();
    lemma_parse_quoted_complete(s, p1, p.event_hash_hex);
    lemma_parse_units_complete(s, p3, p.units_per_outcome);
}

/// Reads the canonical JSON of a `V1` at `pos`.
pub fn parse_v1_at(s: &Vec<char>, pos: usize) -> (r: Option<(V1, usize)>)
    ensures
        match r {
            Some((v, end)) => parse_v1(s@, pos as int) == Some((v@, end as int)),
            None => parse_v1(s@, pos as int) is None,
        },
{
    let p1 = expect(s, pos, V1_TITLE)?;
    let (title, p2) = parse_quoted_at(s, p1)?;
    let p3 = expect(s, p2, V1_DESCRIPTION)?;
    let (description, p4) = parse_quoted_at(s, p3)?;
    let p5 = expect(s, p4, V1_OUTCOME_TITLES)?;
    let (outcome_titles, p6) = parse_strings_at(s, p5)?;
    let p7 = expect(s, p6, V1_EXPECTED_PAYOUT)?;
    let (seconds, p8) = parse_decimal_at(s, p7, u64::MAX)?;
    let p9 = expect(s, p8, CLOSE)?;
    Some(
        (
            V1 {
                title: string_from_chars(&title),
                description: string_from_chars(&description),
                outcome_titles,
                expected_payout_unix_seconds: seconds,
            },
            p9,
        ),
    )
}

/// Reads the canonical JSON of an `Information` at `pos`.
pub fn parse_information_at(s: &Vec<char>, pos: usize) -> (r: Option<(Information, usize)>)
    ensures
        match r {
            Some((i, end)) => parse_information(s@, pos as int) == Some((i@, end as int)),
            None => parse_information(s@, pos as int) is None,
        },
{
    match expect(s, pos, INFORMATION_EMPTY) {
        Some(p) => Some((Information::Empty, p)),
        None => {
            let p1 = expect(s, pos, INFORMATION_V1)?;
            let (v, p2) = parse_v1_at(s, p1)?;
            let p3 = expect(s, p2, CLOSE)?;
            Some((Information::V1(v), p3))
        },
    }
}

/// The array that holds the 32 bytes of `bytes`.
fn nonce_of(bytes: &Vec<u8>) -> (nonce: [u8; 32])
    requires
        bytes.len() == 32,
    ensures
        nonce@ == bytes@,
{
    let mut nonce = [0u8; 32];
    let mut i: usize = 0;
    while i < 32
        invariant
            i <= 32,
            bytes.len() == 32,
            forall|j: int| 0 <= j < i ==> nonce@[j] == bytes@[j],
        decreases 32 - i,
    {
        nonce.set(i, bytes[i]);
        i += 1;
    }
    assert(nonce@ =~= bytes@);
    nonce
}

/// Reads the canonical JSON of an `Event` at `pos`.
pub fn parse_event_at(s: &Vec<char>, pos: usize) -> (r: Option<(Event, usize)>)
    ensures
        match r {
            Some((e, end)) => parse_event(s@, pos as int) == Some((e@, end as int)),
            None => parse_event(s@, pos as int) is None,
        },
{
    let p1 = expect(s, pos, EVENT_NONCE)?;
    let (nonce, p2) = parse_hex_at(s, p1, 32)?;
    let p3 = expect(s, p2, EVENT_OUTCOME_COUNT)?;
    let (outcome_count, p4) = parse_decimal_at(s, p3, 0xffff)?;
    let p5 = expect(s, p4, EVENT_UNITS_TO_PAYOUT)?;
    let (units_to_payout, p6) = parse_decimal_at(s, p5, 0xffff_ffff)?;
    let p7 = expect(s, p6, EVENT_INFORMATION)?;
    let (information, p8) = parse_information_at(s, p7)?;
    let p9 = expect(s, p8, CLOSE)?;
    proof {
        lemma_parse_hex_bytes_sound(s@, p1 as int, 32);
        lemma_parse_decimal_sound(s@, p3 as int, u16::MAX as nat);
        lemma_parse_decimal_sound(s@, p5 as int, u32::MAX as nat);
    }
    Some(
        (
            Event {
                nonce: nonce_of(&nonce),
                outcome_count: outcome_count as u16,
                units_to_payout: units_to_payout as u32,
                information,
            },
            p9,
        ),
    )
}

/// Reads the canonical JSON of an `EventPayout` at `pos`.
pub fn parse_payout_at(s: &Vec<char>, pos: usize) -> (r: Option<(EventPayout, usize)>)
    ensures
        match r {
            Some((p, end)) => parse_payout(s@, pos as int) == Some((p@, end as int)),
            None => parse_payout(s@, pos as int) is None,
        },
{
    let p1 = expect(s, pos, PAYOUT_EVENT_HASH_HEX)?;
    let (hash, p2) = parse_quoted_at(s, p1)?;
    let p3 = expect(s, p2, PAYOUT_UNITS_PER_OUTCOME)?;
    let (units_per_outcome, p4) = parse_units_at(s, p3)?;
    let p5 = expect(s, p4, CLOSE)?;
    Some(
        (
            EventPayout {
                event_hash_hex: EventHashHex(string_from_chars(&hash)),
                units_per_outcome,
            },
            p5,
        ),
    )
}

/// The event whose canonical JSON `json` is, if there is one.
pub open spec fn event_of_json(json: Seq<char>) -> Option<EventView> {
    if exists|e: EventView| e.wf() && #[trigger] event_json(e) == json {
        Some(choose|e: EventView| e.wf() && #[trigger] event_json(e) == json)
    } else {
        None
    }
}

/// The payout whose canonical JSON `json` is, if there is one.
pub open spec fn payout_of_json(json: Seq<char>) -> Option<EventPayoutView> {
    if exists|p: EventPayoutView| #[trigger] payout_json(p) == json {
        Some(choose|p: EventPayoutView| #[trigger] payout_json(p) == json)
    } else {
        None
    }
}

/// Two events with the same canonical JSON are the same event.
pub proof fn lemma_event_json_injective(a: EventView, b: EventView)
    requires
        a.wf(),
        b.wf(),
        event_json(a) == event_json(b),
    ensures
        a == b,
{
    let s = event_json(a);
    assert(s.subrange(0, s.len() as int) =~= s);
    lemma_parse_event_complete(s, 0, a);
    lemma_parse_event_complete(s, 0, b);
}

/// Two payouts with the same canonical JSON are the same payout.
pub proof fn lemma_payout_json_injective(a: EventPayoutView, b: EventPayoutView)
    requires
        payout_json(a) == payout_json(b),
    ensures
        a == b,
{
    let s = payout_json(a);
    assert(s.subrange(0, s.len() as int) =~= s);
    lemma_parse_payout_complete(s, 0, a);
    lemma_parse_payout_complete(s, 0, b);
}

/// Reading the whole of `s` as an event gives the event whose canonical JSON
/// `s` is.
proof fn lemma_parse_event_decides(s: Seq<char>)
    ensures
        event_of_json(s) == match parse_event(s, 0) {
            Some((e, end)) => if end == s.len() {
                Some(e)
            } else {
                None
            },
            None => None,
        },
{
    lemma_parse_event_sound(s, 0);
    assert(s.subrange(0, s.len() as int) =~= s);
    assert forall|e: EventView| e.wf() && event_json(e) == s implies parse_event(s, 0) == Some(
        (e, s.len() as int),
    ) by {
        lemma_parse_event_complete(s, 0, e);
    }
    if let Some((e, end)) = parse_event(s, 0) {
        if end == s.len() {
            assert(e.wf() && event_json(e) == s);
        }
    }
}

/// Reading the whole of `s` as a payout gives the payout whose canonical
/// JSON `s` is.
proof fn lemma_parse_payout_decides(s: Seq<char>)
    ensures
        payout_of_json(s) == match parse_payout(s, 0) {
            Some((p, end)) => if end == s.len() {
                Some(p)
            } else {
                None
            },
            None => None,
        },
{
    lemma_parse_payout_sound(s, 0);
    assert(s.subrange(0, s.len() as int) =~= s);
    assert forall|p: EventPayoutView| payout_json(p) == s implies parse_payout(s, 0) == Some(
        (p, s.len() as int),
    ) by {
        lemma_parse_payout_complete(s, 0, p);
    }
    if let Some((p, end)) = parse_payout(s, 0) {
        if end == s.len() {
            assert(payout_json(p) == s);
        }
    }
}

impl Event {
    /// Reads an event from its canonical JSON. Every other text, however
    /// close, is refused with an encoding error. The event is not validated.
    pub fn try_from_json_str(json: &str) -> (r: Result<Event, Error>)
        ensures
            match r {
                Ok(e) => event_of_json(json@) == Some(e@) && event_json(e@) == json@,
                Err(err) => event_of_json(json@) is None && err == Error::Encoding,
            },
    {
        let s = chars_of(json);
        proof {
            lemma_parse_event_decides(s@);
        }
        match parse_event_at(&s, 0) {
            Some((event, end)) => {
                if end == s.len() {
                    Ok(event)
                } else {
                    Err(Error::Encoding)
                }
            },
            None => Err(Error::Encoding),
        }
    }
}

impl EventPayout {
    /// Reads a payout from its canonical JSON. Every other text is refused
    /// with an encoding error. The payout is not validated.
    pub fn try_from_json_str(json: &str) -> (r: Result<EventPayout, Error>)
        ensures
            match r {
                Ok(p) => payout_of_json(json@) == Some(p@) && payout_json(p@) == json@,
                Err(err) => payout_of_json(json@) is None && err == Error::Encoding,
            },
    {
        let s = chars_of(json);
        proof {
            lemma_parse_payout_decides(s@);
        }
        match parse_payout_at(&s, 0) {
            Some((payout, end)) => {
                if end == s.len() {
                    Ok(payout)
                } else {
                    Err(Error::Encoding)
                }
            },
            None => Err(Error::Encoding),
        }
    }
}

} // verus!
