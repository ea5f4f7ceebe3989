//! Settings that the client reads.

use vstd::prelude::*;

use crate::text::{copy_optional, copy_texts};
use crate::transport::webrtc::ice_config::{copy_servers, same_servers, IceServer};

verus! {

/// Which kind of server brings nodes together.
#[derive(Debug, Clone, Copy, PartialEq, Eq, Structural)]
pub enum SignalingMode {
    WebSocket,
    Nostr,
}

/// Settings of signaling over Nostr relays.
#[derive(Debug)]
pub struct NostrSignalingConfig {
    pub relays: Vec<String>,
    /// Where a list of further relays is found.
    pub relay_list_url: Option<String>,
    pub ttl_seconds: u64,
    /// Kind of the events by which nodes are found.
    pub discovery_kind: u64,
    /// Kind of the events that carry signaling messages.
    pub message_kind: u64,
}

/// Whether two values spell the same relay settings.
pub open spec fn same_nostr(a: NostrSignalingConfig, b: NostrSignalingConfig) -> bool {
    &&& a.relays@ == b.relays@
    &&& a.relay_list_url == b.relay_list_url
    &&& a.ttl_seconds == b.ttl_seconds
    &&& a.discovery_kind == b.discovery_kind
    &&& a.message_kind == b.message_kind
}

impl NostrSignalingConfig {
    /// The same settings once more.
    pub fn copy(&self) -> (copy: Self)
        ensures
            same_nostr(copy, *self),
    {
        NostrSignalingConfig {
            relays: copy_texts(&self.relays),
            relay_list_url: copy_optional(&self.relay_list_url),
            ttl_seconds: self.ttl_seconds,
            discovery_kind: self.discovery_kind,
            message_kind: self.message_kind,
        }
    }
}

/// Settings of the block storage.
#[derive(Debug, Clone, Copy)]
pub struct StorageConfig {
    pub max_capacity_mb: u64,
    pub spatial_decay_enabled: bool,
    pub spatial_decay_interval_secs: u64,
}

/// Limits that every room keeps to.
#[derive(Debug, Clone, Copy)]
pub struct Limits {
    pub max_connection_count: u32,
    pub max_message_bytes: u32,
}

/// Settings of the client.
#[derive(Debug)]
pub struct Config {
    pub signaling_url: String,
    pub signaling_mode: SignalingMode,
    pub nostr: Option<NostrSignalingConfig>,
    pub ice_servers: Vec<IceServer>,
    pub limits: Limits,
    pub storage: StorageConfig,
}

/// Whether two values spell the same settings.
pub open spec fn same_config(a: Config, b: Config) -> bool {
    &&& a.signaling_url == b.signaling_url
    &&& a.signaling_mode == b.signaling_mode
    &&& match (a.nostr, b.nostr) {
        (Some(a), Some(b)) => same_nostr(a, b),
        (None, None) => true,
        _ => false,
    }
    &&& same_servers(a.ice_servers@, b.ice_servers@)
    &&& a.limits == b.limits
    &&& a.storage == b.storage
}

impl Config {
    /// The same settings once more.
    pub fn copy(&self) -> (copy: Self)
        ensures
            same_config(copy, *self),
    {
        Config {
            signaling_url: self.signaling_url.clone(),
            signaling_mode: self.signaling_mode,
            nostr: match &self.nostr {
                Some(nostr) => Some(nostr.copy()),
                None => None,
            },
            ice_servers: copy_servers(&self.ice_servers),
            limits: self.limits,
            storage: self.storage,
        }
    }
}

/// Settings that count as the same agree in every single setting.
pub proof fn lemma_same_settings_agree(a: Config, b: Config)
    requires
        same_config(a, b),
    ensures
        a.signaling_url@ == b.signaling_url@,
        a.signaling_mode == b.signaling_mode,
        a.nostr is Some <==> b.nostr is Some,
        a.nostr is Some ==> {
            &&& a.nostr->Some_0.relays@ == b.nostr->Some_0.relays@
            &&& a.nostr->Some_0.relay_list_url == b.nostr->Some_0.relay_list_url
            &&& a.nostr->Some_0.ttl_seconds == b.nostr->Some_0.ttl_seconds
            &&& a.nostr->Some_0.discovery_kind == b.nostr->Some_0.discovery_kind
            &&& a.nostr->Some_0.message_kind == b.nostr->Some_0.message_kind
        },
        a.ice_servers@.len() == b.ice_servers@.len(),
        forall|i: int|
            0 <= i < a.ice_servers@.len() ==> (#[trigger] a.ice_servers@[i]).urls@
                == b.ice_servers@[i].urls@,
        a.limits.max_connection_count == b.limits.max_connection_count,
        a.limits.max_message_bytes == b.limits.max_message_bytes,
        a.storage.max_capacity_mb == b.storage.max_capacity_mb,
        a.storage.spatial_decay_enabled == b.storage.spatial_decay_enabled,
        a.storage.spatial_decay_interval_secs == b.storage.spatial_decay_interval_secs,
{
}

} // verus!
