//! Identifiers that come from outside: random track ids and the ids that
//! the operating system gives to the process and its threads.

use vstd::prelude::*;

verus! {

/// Calls `next_u64` of `rand::RngCore` on the thread's generator, which
/// `rand::rng` hands out. The result is random: nothing is claimed of it.
#[verifier::external_body]
fn random_u64() -> u64 {
    rand::RngCore::next_u64(&mut rand::rng())
}

/// Calls `next_u32` of `rand::RngCore` on the thread's generator, which
/// `rand::rng` hands out. The result is random: nothing is claimed of it.
#[verifier::external_body]
pub(crate) fn random_u32() -> u32 {
    rand::RngCore::next_u32(&mut rand::rng())
}

/// Calls `nix::unistd::getpid` and takes the raw id out of its result.
/// The id depends on the process: nothing is claimed of it.
#[verifier::external_body]
pub(crate) fn os_process_id() -> i32 {
    nix::unistd::getpid().as_raw()
}

/// Calls `nix::unistd::gettid` and takes the raw id out of its result.
/// The id depends on the thread: nothing is claimed of it.
#[verifier::external_body]
pub(crate) fn os_thread_id() -> i32 {
    nix::unistd::gettid().as_raw()
}

/// Identifies a track. Chosen at random; that two tracks differ in it is
/// likely, not certain.
#[derive(Clone, Copy, Debug)]
pub struct Uuid(pub u64);

impl Uuid {
    /// A new random id.
    pub fn new() -> Uuid {
        Uuid(random_u64())
    }
}

} // verus!
