//! The core of a peer-to-peer overlay router for a network of nodes that
//! arrange themselves into sections of a binary address space.
//!
//! - The address space: [`xor_name`] for names, [`prefix`] for the prefixes
//!   that name sections, [`partition`] for partitions by prefix length.
//! - Identity and reachability: [`id`], [`p2p_node`], [`peer_map`],
//!   [`crypto`] for the values that the cryptographic collaborator supplies.
//! - Messages: [`location`], [`messages`], [`relocation`], [`data`], and
//!   their form on the wire in [`wire`] and [`codec`].
//! - Deduplication: [`message_filter`] for the filter with a time to live,
//!   [`routing_message_filter`] for the filters of incoming and outgoing
//!   messages, with [`cache`] and [`clock`] underneath.
//! - Knowledge of the network: [`chain`] for the record of a section's
//!   elders, [`section_chain`] for what a node knows, [`invariants`] for the
//!   rules of section membership, [`signature_accumulator`] for the
//!   signatures of a section.
//! - The state machine: [`state_machine`] and [`states`] for the stages of a
//!   node's life, [`routing`] for what a member does with a message,
//!   [`timer`], [`event`], [`outbox`] and [`error`].
//!
//! The library decides and computes; but for reading the machine's clock
//! for the two filters, it performs no input or output. Each step takes the
//! event that the host hands in and leaves in an outbox what the host is to
//! do.
//!
//! The contracts of the functions are proved, with these exceptions, which
//! are taken on trust: the two functions of [`cache`], which call the cache
//! of `lru_time_cache`, and the three of [`clock`], which read the clock.
//! Nothing is known of what the clock shows, so the function of
//! [`routing_message_filter`] that reads it has no contract either; what
//! the filters do with a reading is proved for every reading.

pub mod cache;
pub mod chain;
pub mod clock;
pub mod codec;
pub mod crypto;
pub mod data;
pub mod error;
pub mod event;
pub mod id;
pub mod invariants;
pub mod location;
pub mod message_filter;
pub mod messages;
pub mod outbox;
pub mod p2p_node;
pub mod partition;
pub mod peer_map;
pub mod prefix;
pub mod relocation;
pub mod routing;
pub mod routing_message_filter;
pub mod section_chain;
pub mod signature_accumulator;
pub mod state_machine;
pub mod states;
pub mod timer;
pub mod wire;
pub mod xor_name;
