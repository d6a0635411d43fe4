//! Wakers, as the runtime's states hold and fire them.

use vstd::prelude::*;

verus! {

/// `std::task::Waker`, carried through the library as an opaque value.
#[verifier::external_type_specification]
#[verifier::external_body]
pub struct ExWaker(std::task::Waker);

/// Fires one waker by calling `std::task::Waker::wake`, which consumes it.
///
/// Nothing is claimed of the effect: what a waker does when fired, a panic
/// included, is decided by whoever built it.
#[verifier::external_body]
fn fire(waker: std::task::Waker) {
    waker.wake();
}

/// Fires every waker of `wakers`, front to back, each exactly once.
///
/// The wakers are consumed, so none of them can be fired again.
pub fn wake_all(wakers: Vec<std::task::Waker>) {
    for waker in wakers {
        fire(waker);
    }
}

} // verus!
