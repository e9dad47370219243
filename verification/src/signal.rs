//! The channel on which a file watcher reports that the checked-out
//! branch may have changed.

use vstd::prelude::*;

verus! {

/// The receiving end of a `flume` channel; opaque here.
#[verifier::external_type_specification]
#[verifier::external_body]
#[verifier::reject_recursive_types(T)]
pub struct ExReceiver<T>(flume::Receiver<T>);

/// Takes one pending message off the channel, if there is one, and says
/// whether there was.
///
/// Trusted: calls `flume::Receiver::try_recv` (which is what the
/// channel's `try_iter().next()` does) and reports whether it returned a
/// message. Nothing is stated of the result: it depends on the other
/// threads that use the channel.
#[verifier::external_body]
pub(crate) fn take_pending(rx: &flume::Receiver<()>) -> (got: bool) {
    match rx.try_recv() {
        Ok(_) => true,
        Err(_) => false,
    }
}

} // verus!
