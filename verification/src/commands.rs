//! Decision logic shared by the chat commands.

use vstd::prelude::*;

verus! {

/// Marker for the group of general-purpose commands.
pub struct General;

/// Marker for the group of operator-only commands.
pub struct Owner;

/// Whether a user is one of the process operators.
pub fn is_owner(owners: &Vec<u64>, user_id: u64) -> (r: bool)
    ensures
        r == owners@.contains(user_id),
{
    let mut i: usize = 0;
    while i < owners.len()
        invariant
            i <= owners@.len(),
            forall|j: int| 0 <= j < i ==> owners@[j] != user_id,
        decreases owners@.len() - i,
    {
        if owners[i] == user_id {
            return true;
        }
        i += 1;
    }
    false
}

/// Round-trip latency in milliseconds between the instant a command
/// message was received and the instant the reply was sent.
pub fn latency_ms(received_ms: i64, replied_ms: i64) -> (r: i64)
    requires
        i64::MIN <= replied_ms - received_ms <= i64::MAX,
    ensures
        r == replied_ms - received_ms,
{
    replied_ms - received_ms
}

} // verus!
