//! What a set keeps about each of its sockets.
use vstd::prelude::*;

use crate::set::SocketHandle;

verus! {

/// Network socket metadata.
#[derive(Debug)]
pub struct Meta {
    /// Handle of this socket within its enclosing `SocketSet`.
    pub handle: SocketHandle,
}

impl Default for Meta {
    fn default() -> (meta: Meta)
        ensures
            meta.handle == SocketHandle(0),
    {
        Meta { handle: SocketHandle(0) }
    }
}

} // verus!
