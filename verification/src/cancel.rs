//! Cancellation of long edits.
use vstd::prelude::*;
use std::sync::atomic::AtomicBool;

verus! {

/// A request to stop that a long edit polls between its steps.
///
/// A poll may answer differently each time; all that is known of a token is
/// whether it can ever ask to stop, and whether it always does.
pub trait CancellationToken {
    /// Whether a poll may ever ask to stop.
    spec fn may_cancel(&self) -> bool;

    /// Whether every poll asks to stop.
    spec fn must_cancel(&self) -> bool;

    /// Polls the token.
    fn is_cancelled(&self) -> (cancelled: bool)
        ensures
            cancelled ==> self.may_cancel(),
            self.must_cancel() ==> cancelled,
    ;
}

/// A token that never asks to stop.
#[derive(Clone, Copy, Debug)]
pub struct NeverCancel;

impl CancellationToken for NeverCancel {
    open spec fn may_cancel(&self) -> bool {
        false
    }

    open spec fn must_cancel(&self) -> bool {
        false
    }

    fn is_cancelled(&self) -> (cancelled: bool)
        ensures
            !cancelled,
    {
        false
    }
}

/// A token that always asks to stop.
#[derive(Clone, Copy, Debug)]
pub struct AlwaysCancel;

impl CancellationToken for AlwaysCancel {
    open spec fn may_cancel(&self) -> bool {
        true
    }

    open spec fn must_cancel(&self) -> bool {
        true
    }

    fn is_cancelled(&self) -> (cancelled: bool)
        ensures
            cancelled,
    {
        true
    }
}

/// A flag that another thread raises to stop the edit; when it does is not known.
pub struct CancelFlag<'a> {
    /// The shared flag.
    pub flag: &'a AtomicBool,
}

impl<'a> CancellationToken for CancelFlag<'a> {
    open spec fn may_cancel(&self) -> bool {
        true
    }

    open spec fn must_cancel(&self) -> bool {
        false
    }

    fn is_cancelled(&self) -> (cancelled: bool) {
        self.flag.load(std::sync::atomic::Ordering::Acquire)
    }
}

} // verus!
