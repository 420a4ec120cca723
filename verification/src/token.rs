//! Cancellation tokens of `tokio_util`, as far as the forwarder handles them
//! itself: it makes them, hands them to the drivers that wait on them, and
//! cancels them. Waiting on one is a driver's business.

use tokio_util::sync::CancellationToken;
use vstd::prelude::*;

verus! {

/// The `tokio_util` cancellation token, which Verus carries without looking
/// inside.
#[verifier::external_type_specification]
#[verifier::external_body]
pub struct ExCancellationToken(CancellationToken);

/// Calls `CancellationToken::new`, which makes a token of its own in the
/// non-cancelled state. What state a token is in can change under any
/// holder of it, so nothing is claimed of the result.
#[verifier::external_body]
pub(crate) fn new_token() -> CancellationToken {
    CancellationToken::new()
}

/// Calls `CancellationToken::cancel`, which cancels the token and wakes
/// whoever waits for that.
#[verifier::external_body]
pub(crate) fn cancel(token: &CancellationToken) {
    token.cancel()
}

/// Calls `CancellationToken::clone`, which gives another handle on the same
/// token: the two share one cancellation, and the crate's own equality,
/// which holds between the handles of one token and between no others,
/// holds between them. The contract says that much, that the handle that
/// comes back is the token it was made from; of the token's state it says
/// nothing.
#[verifier::external_body]
pub(crate) fn share(token: &CancellationToken) -> (handle: CancellationToken)
    ensures
        handle == *token,
{
    token.clone()
}

} // verus!
