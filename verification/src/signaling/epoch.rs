//! Epochs: numbers by which something that was started notices that it has been
//! superseded.

use vstd::prelude::*;

verus! {

/// The epoch after `epoch`; the last one is never left.
pub open spec fn next_epoch(epoch: u64) -> u64 {
    if epoch == u64::MAX {
        u64::MAX
    } else {
        (epoch + 1) as u64
    }
}

/// Begins the next epoch.
pub fn advance(epoch: u64) -> (next: u64)
    ensures
        next == next_epoch(epoch),
{
    epoch.saturating_add(1)
}

/// Whatever was started in an epoch is superseded when the next one begins.
pub proof fn lemma_next_epoch_supersedes(epoch: u64)
    requires
        epoch < u64::MAX,
    ensures
        next_epoch(epoch) != epoch,
        next_epoch(epoch) > epoch,
{
}

/// Epochs are counted one by one, so that none is skipped, and the count stops
/// at its end instead of starting over.
pub proof fn lemma_epochs_are_counted(epoch: u64)
    ensures
        epoch < u64::MAX ==> next_epoch(epoch) - epoch == 1,
        next_epoch(epoch) >= epoch,
        next_epoch(epoch) == epoch ==> epoch == u64::MAX,
{
}

} // verus!
