//! Content-addressed prediction market events, their payout attestations, and
//! the shaping of both into signed Nostr events.

pub mod codec;
pub mod decimal;
pub mod decode;
pub mod digest;
pub mod error;
pub mod event;
pub mod hex;
pub mod information;
pub mod json_string;
pub mod laws;
pub mod nostr_event_types;
pub mod nostr_event_utils;
pub mod text;
pub mod transport;

pub use error::{Error, ErrorKind, ProtocolViolation, Violation};
pub use event::{Event, EventHashHex, EventPayout, Outcome, PayoutUnit};
pub use information::{Empty, Information, V1};
pub use nostr_event_types::{
    EventPayoutAttestation, FutureEventPayoutAttestationPledge, NewEvent, NostrPublicKeyHex,
};
pub use nostr_event_utils::NostrEventUtils;
pub use transport::{NostrEvent, NostrEventBuilder, NostrUnsignedEvent};
