//! The cancellation flag of one outstanding editor request.

use vstd::prelude::*;

verus! {

/// Marks whether the request `request_id` was cancelled. Cancelling is
/// idempotent: only the first call changes the flag, and only that call asks
/// for a notification.
pub struct CancellationToken {
    request_id: i64,
    canceled: bool,
}

/// `after`, with `notify`, is what cancelling `before` gives.
pub open spec fn cancel_post(before: CancellationToken, after: CancellationToken, notify: bool) -> bool {
    &&& after.spec_canceled()
    &&& after.spec_request_id() == before.spec_request_id()
    &&& notify == !before.spec_canceled()
}

impl CancellationToken {
    pub closed spec fn spec_canceled(&self) -> bool {
        self.canceled
    }

    pub closed spec fn spec_request_id(&self) -> i64 {
        self.request_id
    }

    /// The request that this token belongs to.
    pub fn request_id(&self) -> (r: i64)
        ensures
            r == self.spec_request_id(),
    {
        self.request_id
    }

    /// A token for `request_id` that is not cancelled.
    pub fn new(request_id: i64) -> (r: Self)
        ensures
            r.spec_request_id() == request_id,
            !r.spec_canceled(),
    {
        CancellationToken { request_id, canceled: false }
    }

    /// Whether the request was cancelled.
    pub fn is_canceled(&self) -> (r: bool)
        ensures
            r == self.spec_canceled(),
    {
        self.canceled
    }

    /// Cancels the request. Returns whether this call did it, in which case
    /// the caller sends the cancel notification; a later call returns false.
    pub fn cancel(&mut self) -> (notify: bool)
        ensures
            cancel_post(*old(self), *final(self), notify),
    {
        if self.canceled {
            false
        } else {
            self.canceled = true;
            true
        }
    }
}

/// Cancelling twice changes the flag at most once and asks for at most one
/// notification; after the second call the token is cancelled, and a
/// notification was asked for exactly when it was not cancelled before.
pub proof fn lemma_cancel_idempotent(
    t0: CancellationToken,
    t1: CancellationToken,
    t2: CancellationToken,
    n1: bool,
    n2: bool,
)
    requires
        cancel_post(t0, t1, n1),
        cancel_post(t1, t2, n2),
    ensures
        !(n1 && n2),
        (n1 || n2) == !t0.spec_canceled(),
        t1.spec_canceled() == t2.spec_canceled(),
        t2.spec_canceled(),
        t2.spec_request_id() == t0.spec_request_id(),
{
}

} // verus!
