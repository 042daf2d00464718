//! A counter that clients of a server share.
use vstd::prelude::*;

verus! {

/// What a client is told of the counter.
#[derive(Debug)]
pub struct StatusResponse {
    pub message: &'static str,
    pub counter: u32,
}

/// Adds to the counter, which stays at the largest number once it is there, and returns
/// its new value.
pub fn increment(counter: &mut u32, amount: u32) -> (r: u32)
    ensures
        r == *final(counter),
        *final(counter) == (if *old(counter) + amount > u32::MAX {
            u32::MAX
        } else {
            (*old(counter) + amount) as u32
        }),
{
    *counter = counter.saturating_add(amount);
    *counter
}

pub fn get_status(counter: u32) -> (r: StatusResponse)
    ensures
        r.counter == counter,
        r.message@ == "Server is running"@,
{
    StatusResponse { message: "Server is running", counter }
}

} // verus!
