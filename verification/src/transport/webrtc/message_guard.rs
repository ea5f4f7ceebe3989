//! Size limit of a single message.

use vstd::prelude::*;

use crate::types::{ErrorModel, MistError};

verus! {

#[derive(Debug, Clone, Copy, PartialEq, Eq, Structural)]
pub enum SizeCheck {
    Fits,
    /// At or above four fifths of the limit, but not over it.
    NearLimit,
}

/// What a message's size amounts to; nothing if it is over the limit.
pub open spec fn size_class(size: usize, limit: u32) -> Option<SizeCheck> {
    if size > limit {
        None
    } else if limit > 0 && 5 * size >= 4 * limit {
        Some(SizeCheck::NearLimit)
    } else {
        Some(SizeCheck::Fits)
    }
}

pub fn check_message_size(size: usize, limit: u32) -> (checked: Result<SizeCheck, MistError>)
    ensures
        checked is Err <==> size > limit,
        checked matches Err(error) ==> error@ == (ErrorModel::MessageTooLarge { size, limit }),
        checked == Ok::<SizeCheck, MistError>(SizeCheck::NearLimit) <==> size <= limit && limit > 0
            && 5 * size >= 4 * limit,
        checked == Ok::<SizeCheck, MistError>(SizeCheck::Fits) <==> size <= limit && (limit == 0 || 5
            * size < 4 * limit),
        match size_class(size, limit) {
            Some(class) => checked == Ok::<SizeCheck, MistError>(class),
            None => checked is Err,
        },
{
    if size > limit as usize {
        return Err(MistError::MessageTooLarge { size, limit });
    }
    if limit > 0 && size as u64 * 5 >= limit as u64 * 4 {
        return Ok(SizeCheck::NearLimit);
    }
    Ok(SizeCheck::Fits)
}

/// A message is refused exactly if it is larger than the limit, and a message
/// that fits is never called near the limit below four fifths of it nor a larger
/// one less near than a smaller one.
pub proof fn lemma_sizes_are_told_apart(size: usize, larger: usize, limit: u32)
    requires
        size <= larger,
    ensures
        size_class(size, limit) is None <==> size > limit,
        limit > 0 ==> size_class(limit as usize, limit) == Some(SizeCheck::NearLimit),
        size_class(size, limit) == Some(SizeCheck::NearLimit) ==> 5 * size >= 4 * limit && limit > 0,
        size_class(size, limit) == Some(SizeCheck::Fits) && limit > 0 ==> 5 * size < 4 * limit,
        size_class(size, limit) == Some(SizeCheck::NearLimit) ==> size_class(larger, limit)
            != Some(SizeCheck::Fits),
        size_class(0, limit) == Some(SizeCheck::Fits),
{
}

} // verus!
