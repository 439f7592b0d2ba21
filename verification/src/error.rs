//! What went wrong on a connection, and whether anyone needs to hear of it.

use crate::text::join3;
use vstd::prelude::*;
use vstd::string::*;

verus! {

/// The category of an I/O failure, with the categories of `std::io::ErrorKind`.
/// `Uncategorized` stands for those that the standard library does not name.
#[derive(Clone, Copy, Debug, PartialEq, Eq, Structural)]
pub enum ErrorKind {
    NotFound,
    PermissionDenied,
    ConnectionRefused,
    ConnectionReset,
    HostUnreachable,
    NetworkUnreachable,
    ConnectionAborted,
    NotConnected,
    AddrInUse,
    AddrNotAvailable,
    NetworkDown,
    BrokenPipe,
    AlreadyExists,
    WouldBlock,
    NotADirectory,
    IsADirectory,
    DirectoryNotEmpty,
    ReadOnlyFilesystem,
    StaleNetworkFileHandle,
    InvalidInput,
    InvalidData,
    TimedOut,
    WriteZero,
    StorageFull,
    NotSeekable,
    QuotaExceeded,
    FileTooLarge,
    ResourceBusy,
    ExecutableFileBusy,
    Deadlock,
    CrossesDevices,
    TooManyLinks,
    InvalidFilename,
    ArgumentListTooLong,
    Interrupted,
    Unsupported,
    UnexpectedEof,
    OutOfMemory,
    Other,
    Uncategorized,
}

/// A failure: its category and its description.
#[derive(Debug)]
pub struct Error {
    pub kind: ErrorKind,
    pub message: String,
}

/// The mathematical content of an [`Error`].
pub struct Fault {
    pub kind: ErrorKind,
    pub message: Seq<char>,
}

impl View for Error {
    type V = Fault;

    open spec fn view(&self) -> Fault {
        Fault { kind: self.kind, message: self.message@ }
    }
}

/// `fault` with `what` in front of its description; the category stays.
pub open spec fn described(what: Seq<char>, fault: Fault) -> Fault {
    Fault { kind: fault.kind, message: what + ": "@ + fault.message }
}

/// The categories in which a connection merely ends.
pub open spec fn is_ordinary_close(kind: ErrorKind) -> bool {
    ||| kind == ErrorKind::UnexpectedEof
    ||| kind == ErrorKind::ConnectionReset
    ||| kind == ErrorKind::ConnectionAborted
    ||| kind == ErrorKind::BrokenPipe
    ||| kind == ErrorKind::NotConnected
}

impl Error {
    /// A failure of the given category.
    pub fn new(kind: ErrorKind, message: &str) -> (r: Error)
        ensures
            r@ == (Fault { kind, message: message@ }),
    {
        Error { kind, message: String::from_str(message) }
    }

    /// A failure of no particular category.
    pub fn other(message: &str) -> (r: Error)
        ensures
            r@ == (Fault { kind: ErrorKind::Other, message: message@ }),
    {
        Error::new(ErrorKind::Other, message)
    }
}

/// Describes what failed while preserving the underlying error's kind, so a
/// plain disconnect stays recognisable to [`ordinary_close`] underneath its
/// description.
pub fn ctx(what: &str, err: Error) -> (r: Error)
    ensures
        r@ == described(what@, err@),
{
    Error { kind: err.kind, message: join3(what, ": ", err.message.as_str()) }
}

/// Reports whether `err` is just a connection ending, rather than something
/// worth a log line. Readiness probes connect and hang up without sending
/// anything, and clients routinely vanish mid-session, so without this the log
/// is nothing but noise.
pub fn ordinary_close(err: &Error) -> (r: bool)
    ensures
        r == is_ordinary_close(err@.kind),
{
    match err.kind {
        ErrorKind::UnexpectedEof
        | ErrorKind::ConnectionReset
        | ErrorKind::ConnectionAborted
        | ErrorKind::BrokenPipe
        | ErrorKind::NotConnected => true,
        _ => false,
    }
}

/// Describing a failure never changes whether it is an ordinary close.
pub proof fn description_keeps_ordinary_close(what: Seq<char>, fault: Fault)
    ensures
        is_ordinary_close(described(what, fault).kind) == is_ordinary_close(fault.kind),
{
}

/// A description goes in front of what was said, with a colon and a space between; the
/// category stays.
pub proof fn descriptions_go_in_front(what: &str, err: Error, r: Error)
    requires
        call_ensures(ctx, (what, err), r),
    ensures
        r.kind == err.kind,
        r.message@ == what@ + ": "@ + err.message@,
{
}

/// A connection that ends early, is reset, aborted, broken or gone has merely ended, and
/// nothing else has.
pub proof fn five_categories_are_ordinary(err: Error, r: bool)
    requires
        call_ensures(ordinary_close, (&err,), r),
    ensures
        r <==> {
            ||| err.kind == ErrorKind::UnexpectedEof
            ||| err.kind == ErrorKind::ConnectionReset
            ||| err.kind == ErrorKind::ConnectionAborted
            ||| err.kind == ErrorKind::BrokenPipe
            ||| err.kind == ErrorKind::NotConnected
        },
{
}

} // verus!
