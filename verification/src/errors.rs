use vstd::prelude::*;

verus! {

/// The kinds of failure a submission can surface.
#[derive(Clone, Copy, Debug, PartialEq, Eq, Structural)]
pub enum Error {
    /// Programmer misuse: the options half of a pair argument was not
    /// a JSON object.
    NonObjectOptions,
    /// The connection factory could not produce a connection.
    Connection,
    /// A read or write on the socket failed; the connection is broken.
    Io,
    /// The replayable write failure, surfaced once the retry budget is
    /// spent.
    OpFailed,
}

} // verus!
