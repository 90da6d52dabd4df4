//! Control message that shuts a connection down.

use vstd::prelude::*;

verus! {

/// Tell a peer to close its connection.
///
/// The peer holds its own address for normal operation, so it never
/// drops on its own: this message clears that self-reference together
/// with the registered service maps, fails every pending outbound call
/// with `ConnectionClosed`, and closes the outbound sink so the other
/// end learns of the shutdown. After it, once external handles drop,
/// the peer can be reclaimed.
#[derive(Debug)]
pub struct CloseConnection {
    /// Whether the shutdown was initiated by the remote end.
    pub remote: bool,
    /// A human-readable reason, carried into the final event's logs.
    pub reason: String,
}

} // verus!
