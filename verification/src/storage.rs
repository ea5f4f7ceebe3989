//! Serving and fetching of stored blocks.

pub mod resolver;

use vstd::prelude::*;

use crate::arith::{bounded_product, saturating_product};
use crate::config::StorageConfig;

verus! {

/// Tag of a message that asks for a block.
pub const MSG_WANT: u8 = 1;

/// Tag of a message that hands a block over.
pub const MSG_HAVE: u8 = 2;

/// Tag of a message that asks who holds a block.
pub const MSG_QUERY: u8 = 3;

/// Tag of a message that says that the sender holds a block.
pub const MSG_HAVE_STATUS: u8 = 4;

/// Tag of a message that hands a part of a block over.
pub const MSG_HAVE_CHUNK: u8 = 5;

/// How long a block is waited for.
pub const DEFAULT_PEER_TIMEOUT_MS: u32 = 5000;

/// How often blocks that are worth little are looked for.
pub open spec fn decay_interval(interval_secs: u64) -> int {
    let millis = bounded_product(interval_secs, 1000);
    if millis < 1 {
        1
    } else if millis > u32::MAX {
        u32::MAX as int
    } else {
        millis
    }
}

/// What is known about the storage while the page lives.
#[derive(Debug, Clone, Copy)]
pub struct StorageState {
    pub initialized: bool,
    /// Whether the task that looks for blocks of little worth has been started.
    pub decay_sweep_started: bool,
}

/// How the storage is set up.
#[derive(Debug, Clone, Copy, PartialEq, Eq, Structural)]
pub struct StorageSetup {
    pub capacity_bytes: u64,
    pub peer_timeout_ms: u32,
    /// Interval of the task that is to be started, if it is.
    pub decay_interval_ms: Option<u32>,
}

/// The storage after it was set up.
pub open spec fn storage_ready(state: StorageState, config: StorageConfig) -> StorageState {
    StorageState {
        initialized: true,
        decay_sweep_started: state.decay_sweep_started || config.spatial_decay_enabled,
    }
}

/// How the storage is set up by some settings.
pub open spec fn setup_for(state: StorageState, config: StorageConfig) -> StorageSetup {
    StorageSetup {
        capacity_bytes: (config.max_capacity_mb * 1024 * 1024) as u64,
        peer_timeout_ms: DEFAULT_PEER_TIMEOUT_MS,
        decay_interval_ms: if config.spatial_decay_enabled && !state.decay_sweep_started {
            Some(decay_interval(config.spatial_decay_interval_secs) as u32)
        } else {
            None
        },
    }
}

impl StorageState {
    pub fn new() -> (state: Self)
        ensures
            !state.initialized,
            !state.decay_sweep_started,
    {
        StorageState { initialized: false, decay_sweep_started: false }
    }

    /// Sets the storage up by the settings. The task that looks for blocks of
    /// little worth is started once, however often this is called.
    pub fn init_storage(&mut self, config: &StorageConfig) -> (setup: StorageSetup)
        requires
            config.max_capacity_mb * 1024 * 1024 <= u64::MAX,
        ensures
            final(self).initialized,
            setup.capacity_bytes == config.max_capacity_mb * 1024 * 1024,
            setup.peer_timeout_ms == DEFAULT_PEER_TIMEOUT_MS,
            final(self).decay_sweep_started == (old(self).decay_sweep_started
                || config.spatial_decay_enabled),
            setup.decay_interval_ms is Some <==> config.spatial_decay_enabled
                && !old(self).decay_sweep_started,
            setup.decay_interval_ms is Some ==> setup.decay_interval_ms->Some_0 == decay_interval(
                config.spatial_decay_interval_secs,
            ),
            *final(self) == storage_ready(*old(self), *config),
            setup == setup_for(*old(self), *config),
    {
        self.initialized = true;
        let capacity_bytes: u64 = config.max_capacity_mb * 1024 * 1024;
        let decay_interval_ms = self.start_decay_sweep(config);
        StorageSetup {
            capacity_bytes,
            peer_timeout_ms: DEFAULT_PEER_TIMEOUT_MS,
            decay_interval_ms,
        }
    }

    fn start_decay_sweep(&mut self, config: &StorageConfig) -> (interval: Option<u32>)
        ensures
            final(self).initialized == old(self).initialized,
            final(self).decay_sweep_started == (old(self).decay_sweep_started
                || config.spatial_decay_enabled),
            interval is Some <==> config.spatial_decay_enabled && !old(self).decay_sweep_started,
            interval is Some ==> interval->Some_0 == decay_interval(
                config.spatial_decay_interval_secs,
            ),
    {
        if !config.spatial_decay_enabled || self.decay_sweep_started {
            return None;
        }
        self.decay_sweep_started = true;
        let millis: u64 = saturating_product(config.spatial_decay_interval_secs, 1000);
        if millis < 1 {
            Some(1)
        } else if millis > 4294967295 {
            Some(4294967295)
        } else {
            Some(millis as u32)
        }
    }

    /// Whether the storage may be used.
    pub fn check_initialized(&self) -> (result: Result<(), String>)
        ensures
            result is Ok <==> self.initialized,
            result is Err ==> result->Err_0@ == "Storage not initialized"@,
    {
        if self.initialized {
            Ok(())
        } else {
            Err("Storage not initialized".to_string())
        }
    }
}

/// One message of those that hand a block over.
#[derive(Debug, Clone, Copy, PartialEq, Eq, Structural)]
pub struct ServeStep {
    /// Which part the message carries.
    pub chunk_index: u16,
    /// Whether to let other tasks run before the next message.
    pub pause: bool,
}

/// Whether a request for a block is answered: the storage is set up, the block is
/// there, the room that asked for it still runs, and the block is not too large.
pub open spec fn is_served(
    initialized: bool,
    held: bool,
    running: bool,
    total_chunks: Option<u16>,
) -> bool {
    initialized && held && running && total_chunks is Some
}

/// The messages that hand a block over which has `total` parts: one for a block
/// of at most one part, and otherwise one for each part, with a pause after
/// every eighth.
pub open spec fn serve_steps(total: u16) -> Seq<ServeStep> {
    if total <= 1 {
        seq![ServeStep { chunk_index: 0, pause: false }]
    } else {
        Seq::new(
            total as nat,
            |i: int| ServeStep { chunk_index: i as u16, pause: i % 8 == 0 },
        )
    }
}

/// The messages that answer a request for a block; none if it is not answered.
pub open spec fn answer_to_want(
    initialized: bool,
    held: bool,
    running: bool,
    total_chunks: Option<u16>,
) -> Seq<ServeStep> {
    if is_served(initialized, held, running, total_chunks) {
        serve_steps(total_chunks->Some_0)
    } else {
        Seq::empty()
    }
}

/// Decides how a request for a block is answered, if it is. `total_chunks` is the
/// number of parts, if the block is not too large.
pub fn handle_want(
    initialized: bool,
    held: bool,
    running: bool,
    total_chunks: Option<u16>,
) -> (steps: Vec<ServeStep>)
    ensures
        steps@ == (if is_served(initialized, held, running, total_chunks) {
            serve_steps(total_chunks->Some_0)
        } else {
            Seq::empty()
        }),
        steps@ == answer_to_want(initialized, held, running, total_chunks),
{
    let mut steps: Vec<ServeStep> = Vec::new();
    let total: u16 = match total_chunks {
        Some(total) if initialized && held && running => total,
        _ => {
            assert(steps@ =~= Seq::empty());
            return steps;
        },
    };
    if total <= 1 {
        steps.push(ServeStep { chunk_index: 0, pause: false });
        assert(steps@ =~= serve_steps(total));
        return steps;
    }
    let mut i: u16 = 0;
    while i < total
        invariant
            1 < total,
            i <= total,
            steps@ == serve_steps(total).take(i as int),
        decreases total - i,
    {
        steps.push(ServeStep { chunk_index: i, pause: i % 8 == 0 });
        assert(serve_steps(total).take(i + 1) =~= serve_steps(total).take(i as int).push(
            serve_steps(total)[i as int],
        ));
        i = i + 1;
    }
    assert(serve_steps(total).take(i as int) =~= serve_steps(total));
    steps
}

/// Whether a question for a block is answered.
pub open spec fn answers_query(held: bool, running: bool) -> bool {
    held && running
}

/// Decides whether a question for a block is answered.
pub fn handle_query(held: bool, running: bool) -> (answered: bool)
    ensures
        answered == (held && running),
        answered == answers_query(held, running),
{
    held && running
}

/// A block is handed over completely and without repetition: there is exactly
/// one message for each of its parts.
pub proof fn lemma_every_part_is_served_once(total: u16, part: u16)
    requires
        part < total,
    ensures
        serve_steps(total).len() == total,
        serve_steps(total)[part as int].chunk_index == part,
        forall|i: int|
            0 <= i < serve_steps(total).len() && i != part ==> (#[trigger] serve_steps(
                total,
            )[i]).chunk_index != part,
{
}

/// A request for a block is answered exactly if the storage is set up, holds the
/// block, which is not too large, and the room runs; a question for it is
/// answered exactly if the block is held and the room runs.
pub proof fn lemma_blocks_are_served_where_they_can_be(
    initialized: bool,
    held: bool,
    running: bool,
    total: u16,
)
    ensures
        answer_to_want(true, true, true, Some(total)).len() == (if total == 0 {
            1
        } else {
            total as nat
        }),
        answer_to_want(false, held, running, Some(total)).len() == 0,
        answer_to_want(initialized, false, running, Some(total)).len() == 0,
        answer_to_want(initialized, held, false, Some(total)).len() == 0,
        answer_to_want(initialized, held, running, None).len() == 0,
        answers_query(true, true),
        !answers_query(false, running),
        !answers_query(held, false),
{
}

/// The parts of a block go out in order, and of any eight messages in a row that
/// carry parts of a larger block exactly one is followed by a pause, beginning
/// with the first.
pub proof fn lemma_serving_pauses_regularly(total: u16, i: int)
    ensures
        total <= 1 ==> serve_steps(total).len() == 1 && !serve_steps(total)[0].pause
            && serve_steps(total)[0].chunk_index == 0,
        total > 1 ==> serve_steps(total)[0].pause,
        0 <= i < total ==> serve_steps(total)[i].chunk_index == i,
        total > 1 && 0 < i < 8 && i < total ==> !serve_steps(total)[i].pause,
        total > 1 && 8 <= i < total ==> serve_steps(total)[i].pause == serve_steps(total)[i - 8].pause,
{
}

/// The storage is ready once it was set up, with the capacity that the settings
/// name in mebibytes.
pub proof fn lemma_storage_is_set_up_by_its_settings(state: StorageState, config: StorageConfig)
    requires
        config.max_capacity_mb * 1024 * 1024 <= u64::MAX,
    ensures
        storage_ready(state, config).initialized,
        setup_for(state, config).capacity_bytes == config.max_capacity_mb * 1048576,
        setup_for(state, config).peer_timeout_ms == 5000,
{
}

/// The search for blocks of little worth is started by the first settings that
/// want it and never again, and settings that do not want it start nothing.
pub proof fn lemma_decay_sweep_starts_once(
    state: StorageState,
    first: StorageConfig,
    second: StorageConfig,
)
    ensures
        !state.decay_sweep_started ==> (setup_for(state, first).decay_interval_ms is Some
            <==> first.spatial_decay_enabled),
        first.spatial_decay_enabled ==> setup_for(
            storage_ready(state, first),
            second,
        ).decay_interval_ms is None,
        !first.spatial_decay_enabled ==> setup_for(state, first).decay_interval_ms is None
            && storage_ready(state, first).decay_sweep_started == state.decay_sweep_started,
{
}

/// The search is repeated after as many seconds as the settings say, as far as
/// the host's timer can count them, and not without any wait.
pub proof fn lemma_decay_interval_is_as_set(secs: u64)
    ensures
        1 <= decay_interval(secs) <= 4294967295,
        1 <= secs <= 4294967 ==> decay_interval(secs) == 1000 * secs,
        secs > 4294967 ==> decay_interval(secs) == 4294967295,
        secs == 0 ==> decay_interval(secs) == 1,
{
}

/// Every kind of storage message has a tag of its own.
pub proof fn lemma_storage_tags_are_fixed()
    ensures
        MSG_WANT == 1,
        MSG_HAVE == 2,
        MSG_QUERY == 3,
        MSG_HAVE_STATUS == 4,
        MSG_HAVE_CHUNK == 5,
{
}

} // verus!
