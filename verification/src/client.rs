//! Builder for the blocking ABCI client. The connected client itself speaks
//! protobuf over TCP and lives with the transport adapter; only the builder's
//! configuration is kept here.

use vstd::prelude::*;

verus! {

/// The size of the read buffer for the client in its receiving of responses
/// from the server.
pub const DEFAULT_CLIENT_READ_BUF_SIZE: usize = 1024;

/// Builder for a blocking ABCI client.
pub struct ClientBuilder {
    pub read_buf_size: usize,
}

impl ClientBuilder {
    /// Builder constructor.
    pub fn new(read_buf_size: usize) -> (r: Self)
        ensures
            r.read_buf_size == read_buf_size,
    {
        Self { read_buf_size }
    }
}

impl Default for ClientBuilder {
    fn default() -> (r: Self)
        ensures
            r.read_buf_size == DEFAULT_CLIENT_READ_BUF_SIZE,
    {
        Self { read_buf_size: DEFAULT_CLIENT_READ_BUF_SIZE }
    }
}

} // verus!
