//! The values that boxed retries hand back.

use crate::error::{ErrorKind, ErrorView, ResiliencxError, ResiliencxResult};
use vstd::prelude::*;

verus! {

/// Boxes the value of a successful attempt.
#[must_use]
pub fn retry_ok<T>(value: T) -> (boxed: Box<T>)
    ensures
        *boxed == value,
{
    Box::new(value)
}

/// The value that a boxed result was asked for: what the downcast found, or an invalid-input
/// error where the box held a value of another type.
pub fn retry_downcast<T>(found: Option<T>) -> (value: ResiliencxResult<T>)
    ensures
        match found {
            Some(found) => value == Ok::<T, ResiliencxError>(found),
            None => value matches Err(error) && error@ == ErrorView::plain(
                ErrorKind::Invalid,
                "重试返回值类型不匹配"@,
            ),
        },
{
    match found {
        Some(found) => Ok(found),
        None => Err(ResiliencxError::invalid("重试返回值类型不匹配")),
    }
}

} // verus!
