//! The store's error taxonomy. Causes that come from the file system travel
//! as message text, so that the library holds no foreign error type.
use vstd::prelude::*;

verus! {

/// What can go wrong in the store: validation of a record, a missing key,
/// or an I/O failure on the log, each with its cause.
#[derive(Debug)]
pub enum KvStoreError {
    /// The current working directory could not be determined.
    UnknownCwd(String),
    /// The log's path has no extension to derive the quarantine name from.
    InvalidWalFileName,
    /// A quarantine file from an earlier recovery is still present.
    StaleQuarantine(String),
    /// Moving the existing log aside failed.
    FailedWalRename(String),
    /// Moving the quarantined log back after a failed replay failed.
    FailedWalRestore(String),
    /// Creating the fresh active log failed.
    FailedWalOpen(String),
    /// Opening the quarantined log for replay failed.
    FailedOldWalOpen(String),
    /// Reading a line of the quarantined log failed.
    FailedWalLineRead(String),
    /// Appending a record to the active log failed.
    FailedWalWrite(String),
    /// A record starts with a word that names no command.
    InvalidCommand(String),
    /// A record holds no word at all.
    MissingCommand,
    /// A record names a command but no key; holds the command word.
    MissingKey(String),
    /// A `set` record has a key but no value; holds the key.
    MissingValue(String),
    /// A `get` or `rm` targeted a key that the index does not hold.
    NotFound(String),
}

/// The mathematical value of a `KvStoreError`: its variant, with each
/// payload as a sequence of characters.
pub enum ErrorView {
    UnknownCwd(Seq<char>),
    InvalidWalFileName,
    StaleQuarantine(Seq<char>),
    FailedWalRename(Seq<char>),
    FailedWalRestore(Seq<char>),
    FailedWalOpen(Seq<char>),
    FailedOldWalOpen(Seq<char>),
    FailedWalLineRead(Seq<char>),
    FailedWalWrite(Seq<char>),
    InvalidCommand(Seq<char>),
    MissingCommand,
    MissingKey(Seq<char>),
    MissingValue(Seq<char>),
    NotFound(Seq<char>),
}

impl View for KvStoreError {
    type V = ErrorView;

    open spec fn view(&self) -> ErrorView {
        match self {
            KvStoreError::UnknownCwd(m) => ErrorView::UnknownCwd(m@),
            KvStoreError::InvalidWalFileName => ErrorView::InvalidWalFileName,
            KvStoreError::StaleQuarantine(m) => ErrorView::StaleQuarantine(m@),
            KvStoreError::FailedWalRename(m) => ErrorView::FailedWalRename(m@),
            KvStoreError::FailedWalRestore(m) => ErrorView::FailedWalRestore(m@),
            KvStoreError::FailedWalOpen(m) => ErrorView::FailedWalOpen(m@),
            KvStoreError::FailedOldWalOpen(m) => ErrorView::FailedOldWalOpen(m@),
            KvStoreError::FailedWalLineRead(m) => ErrorView::FailedWalLineRead(m@),
            KvStoreError::FailedWalWrite(m) => ErrorView::FailedWalWrite(m@),
            KvStoreError::InvalidCommand(t) => ErrorView::InvalidCommand(t@),
            KvStoreError::MissingCommand => ErrorView::MissingCommand,
            KvStoreError::MissingKey(t) => ErrorView::MissingKey(t@),
            KvStoreError::MissingValue(t) => ErrorView::MissingValue(t@),
            KvStoreError::NotFound(k) => ErrorView::NotFound(k@),
        }
    }
}

impl KvStoreError {
    /// Whether this error reports an absent key, which callers tell apart
    /// from every other failure.
    pub fn is_not_found(&self) -> (r: bool)
        ensures
            r == (self is NotFound),
    {
        match self {
            KvStoreError::NotFound(_) => true,
            _ => false,
        }
    }
}

} // verus!
