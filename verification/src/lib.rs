//! A serverless local-network peer-to-peer chat core.
//!
//! Independent processes discover one another on the local network
//! segment, establish authenticated multiplexed sessions, and exchange
//! topic-scoped chat messages by flooding with loop suppression:
//!
//! - [`identity`]: key-pair generation and the peer identifier derived
//!   from the public key;
//! - [`handshake`]: security and multiplexer negotiation, and the
//!   identity check that gates every session;
//! - [`discovery`]: time-bounded presence records with expiry;
//! - [`pubsub`]: subscriptions, each neighbor's announced topics (the
//!   partial view), the bounded deduplication cache, and the exact relay
//!   decisions of flooding;
//! - [`node`]: the coordinator that owns all of the above and consumes
//!   events strictly one at a time.
//!
//! The runtime around the library performs I/O only: it hands events in
//! and carries the returned actions out.

mod bytes;
mod discovery;
mod handshake;
mod identity;
mod node;
mod pubsub;

pub use bytes::{be_prefix_len, be_prefix_u64, be_prefix_value, bytes_dup, bytes_eq};
pub use discovery::{
    disc_contains, record_expired, records_view, unique_records, Discovery, DiscoveryRecord,
    RecordView,
};
pub use handshake::{
    establish, establish_with_key, first_common, have_common, lemma_forged_identity_fails,
    protos_contain, protos_have, protos_view, select_protocol, HandshakeError, SessionPlan,
};
pub use identity::{derive_remote_identity, key_decodes, key_proves_identity, peer_id_of, Identity, PeerId};
pub use node::{
    announce_actions, announcement_step, closed_step, conns_contain, established_step,
    expired_removed, flood_actions, lemma_failed_session_registers_nothing, lemma_step_delivery,
    node_unchanged, send_matches, subscribe_step, unique_conns, unsubscribe_step, Frame, Node,
    NodeAction, NodeEvent,
};
pub use pubsub::{
    announce_post, connect_post, entries_view, excluded, flood_wf, id_seen,
    lemma_dedup_idempotence, lemma_expired_peer_forgotten, lemma_flood_delivery,
    lemma_relays_respect_view, lemma_unsubscribed_peer_not_relayed,
    lemma_unsubscribed_peer_not_relayed_on_receive, on_message_post, publish_post, pv_allows,
    pv_contains, relays_exact, relays_to, relays_view, remove_post, seen_inserted, seen_view,
    topics_contain, topics_has, topics_view, unique_peers, EntryView, FloodSub, FloodView, Message,
    MessageView, MsgIdView, PeerTopics, Relay, RelayView, SeenEntry, Topic, DEDUP_CAPACITY,
};
