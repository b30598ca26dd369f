//! Unix-domain sockets.
//!
//! Only the structure exists so far: connecting is not yet supported and
//! reports that the named path does not exist.

use crate::error::{AlienError, AlienResult};
use vstd::prelude::*;

verus! {

/// A socket of the Unix protocol family.
pub struct UnixSocket {
    /// The filesystem path bound to the socket, once bound.
    pub file_path: Option<Vec<u8>>,
    /// The open file carrying the socket data, once connected.
    pub file: Option<u64>,
}

impl UnixSocket {
    /// A fresh socket, unbound and unconnected.
    pub fn new() -> (r: UnixSocket)
        ensures
            r.file_path is None,
            r.file is None,
    {
        UnixSocket { file_path: None, file: None }
    }

    /// Connecting is not supported yet: every attempt reports that the
    /// path does not exist.
    pub fn connect(&self, file_path: &Vec<u8>) -> (r: AlienResult<()>)
        ensures
            r == Err::<(), AlienError>(AlienError::NotFound),
    {
        let _ = file_path.len();
        Err(AlienError::NotFound)
    }
}

} // verus!
