//! What can go wrong.

use vstd::prelude::*;

verus! {

/// The error of a call to the server, or of a reply that cannot be used.
#[derive(Debug, Clone, PartialEq, Eq)]
pub enum Error {
    /// The connection to the server could not be made, for this cause.
    Connect(String),
    /// A call was made before the client had been connected.
    NotConnected,
    /// The server refused a request, for this cause.
    Request(String),
    /// A value could not be read or written, for this cause.
    Conversion(String),
    /// The server refused a ping, with this message.
    Ping(String),
    /// A stream of the server broke, for this cause.
    EventStream(String),
    /// A stream of the server ended.
    EventStreamDisconnect,
    /// Anything else.
    Unknown,
}

/// That an error is a conversion error, for a cause.
pub open spec fn is_conversion(error: Error, cause: Seq<char>) -> bool {
    error matches Error::Conversion(text) && text@ == cause
}

/// That a reading gave what there was to be read: the value, or a conversion error for the cause that
/// kept it from being read.
pub open spec fn is_reading<T: View>(read: Result<T, Error>, value: Result<T::V, Seq<char>>) -> bool {
    match value {
        Ok(v) => read matches Ok(item) && item@ == v,
        Err(cause) => read matches Err(e) && is_conversion(e, cause),
    }
}

/// A reading gives the value where there is one to be read, and otherwise a conversion error that says
/// why.
pub proof fn law_reading_gives_what_is_there<T: View>(
    read: Result<T, Error>,
    value: Result<T::V, Seq<char>>,
)
    requires
        is_reading(read, value),
    ensures
        value matches Ok(v) ==> (read matches Ok(item) && item@ == v),
        value matches Err(cause) ==> (read matches Err(Error::Conversion(text)) && text@ == cause),
{
}

} // verus!
