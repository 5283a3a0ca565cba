//! Reading from and writing to connections.

use vstd::prelude::*;

use crate::service::ChainNetwork;

verus! {

/// Outcome of reading from and writing to a connection, as reported by the connection layer.
#[derive(Debug, Clone, PartialEq, Eq)]
pub struct NetworkReadWrite<TNow> {
    pub read_bytes: usize,
    pub written_bytes: usize,
    pub wake_up_after: Option<TNow>,
    pub write_close: bool,
}

/// Outcome of calling [`ChainNetwork::read_write`].
#[derive(Debug, Clone, PartialEq, Eq)]
pub struct ReadWrite<TNow> {
    /// Number of bytes at the start of the incoming buffer that have been processed. These bytes
    /// should no longer be present the next time.
    pub read_bytes: usize,
    /// Number of bytes written to the outgoing buffer. These bytes should be sent out to the
    /// remote. The rest of the outgoing buffer is left untouched.
    pub written_bytes: usize,
    /// If `Some`, the connection should be read from and written to again when the point in time
    /// reaches the value in the `Option`.
    pub wake_up_after: Option<TNow>,
    /// If `true`, the writing side of the connection must be closed. The connection layer keeps
    /// it at `true` after it has been set.
    ///
    /// If this is `true` and there was no incoming buffer any more, then the identifier of the
    /// connection is now invalid.
    pub write_close: bool,
}

impl ChainNetwork {
    /// Makes sense of the outcome of reading from and writing to a connection.
    pub fn read_write<TNow, E>(inner: Result<NetworkReadWrite<TNow>, E>) -> (outcome: Result<
        ReadWrite<TNow>,
        E,
    >)
        ensures
            match inner {
                Ok(inner) => outcome == Ok::<_, E>(
                    ReadWrite {
                        read_bytes: inner.read_bytes,
                        written_bytes: inner.written_bytes,
                        wake_up_after: inner.wake_up_after,
                        write_close: inner.write_close,
                    },
                ),
                Err(error) => outcome == Err::<ReadWrite<TNow>, _>(error),
            },
    {
        match inner {
            Ok(inner) => Ok(
                ReadWrite {
                    read_bytes: inner.read_bytes,
                    written_bytes: inner.written_bytes,
                    wake_up_after: inner.wake_up_after,
                    write_close: inner.write_close,
                },
            ),
            Err(error) => Err(error),
        }
    }
}

} // verus!
