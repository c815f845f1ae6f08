//! The failures of the store, of its value encoding and of a migration.
use crate::value::Type;
use vstd::prelude::*;
use vstd::std_specs::convert::FromSpecImpl;

verus! {

/// `lmdb::Error`, the error of the destination engine. Nothing of its
/// contents is visible to the verifier; it is carried through unchanged.
#[verifier::external_type_specification]
#[verifier::external_body]
pub struct ExLmdbError(lmdb::Error);

/// `bincode::ErrorKind`, the error of the value codec, carried through
/// unchanged.
#[verifier::external_type_specification]
#[verifier::external_body]
pub struct ExCodecErrorKind(bincode::ErrorKind);

/// `std::io::Error`, the error of the filesystem layer, carried through
/// unchanged.
#[verifier::external_type_specification]
#[verifier::external_body]
pub struct ExIoError(std::io::Error);

/// `core::str::Utf8Error`, the error of a failed UTF-8 check, carried through
/// unchanged.
#[verifier::external_type_specification]
#[verifier::external_body]
pub struct ExUtf8Error(core::str::Utf8Error);

/// `std::path::PathBuf`, a filesystem path, carried through unchanged.
#[verifier::external_type_specification]
#[verifier::external_body]
pub struct ExPathBuf(std::path::PathBuf);

/// A failure of the typed-value encoding.
#[derive(Debug)]
pub enum DataError {
    UnknownType(u8),
    UnexpectedType { expected: Type, actual: Type },
    Empty,
    DecodingError { value_type: Type, err: Box<bincode::ErrorKind> },
    EncodingError(Box<bincode::ErrorKind>),
    InvalidUuid,
}

impl From<Box<bincode::ErrorKind>> for DataError {
    fn from(e: Box<bincode::ErrorKind>) -> (r: DataError) {
        DataError::EncodingError(e)
    }
}

impl FromSpecImpl<Box<bincode::ErrorKind>> for DataError {
    open spec fn obeys_from_spec() -> bool {
        true
    }

    open spec fn from_spec(e: Box<bincode::ErrorKind>) -> DataError {
        DataError::EncodingError(e)
    }
}

/// Whether an engine error is the variant `lmdb::Error::BadRslot`: a reader's
/// slot in the lock table was reused while the thread still had a read
/// transaction open.
pub uninterp spec fn is_bad_rslot(e: lmdb::Error) -> bool;

/// Compares an engine error with `lmdb::Error::BadRslot` by the `==` that
/// lmdb derives for its error, which holds of two errors of the same variant
/// and, for `Other`, of the same code. The contract only gives the result a
/// name.
#[verifier::external_body]
fn bad_rslot(e: &lmdb::Error) -> (found: bool)
    ensures
        found == is_bad_rslot(*e),
{
    *e == lmdb::Error::BadRslot
}

/// A failure of the store.
#[derive(Debug)]
pub enum StoreError {
    IoError(std::io::Error),
    DirectoryDoesNotExistError(std::path::PathBuf),
    DataError(DataError),
    LmdbError(lmdb::Error),
    /// Holds the label of the thread that already has a read transaction.
    ReadTransactionAlreadyExists(String),
    /// Holds the label of the thread that tried to open a database.
    OpenAttemptedDuringTransaction(String),
}

impl StoreError {
    /// The failure of opening a database while a transaction is open on the
    /// thread with the given label.
    pub fn open_during_transaction(thread: String) -> (r: StoreError)
        ensures
            r == StoreError::OpenAttemptedDuringTransaction(thread),
    {
        StoreError::OpenAttemptedDuringTransaction(thread)
    }

    /// What an engine error means for the store, on the thread with the
    /// given label: the variant of the reused reader slot means that the
    /// thread already has a read transaction; an error of any other variant,
    /// whatever its code, is carried as it is.
    pub open spec fn engine_failure(reused_slot: bool, e: lmdb::Error, thread: String) -> StoreError {
        if reused_slot {
            StoreError::ReadTransactionAlreadyExists(thread)
        } else {
            StoreError::LmdbError(e)
        }
    }

    /// Turns an engine error into a store error, once it is known whether
    /// the error is the variant of the reused reader slot.
    pub fn from_variant(reused_slot: bool, e: lmdb::Error, thread: String) -> (r: StoreError)
        ensures
            r == Self::engine_failure(reused_slot, e, thread),
    {
        if reused_slot {
            StoreError::ReadTransactionAlreadyExists(thread)
        } else {
            StoreError::LmdbError(e)
        }
    }

    /// Turns an engine error into a store error, going by its variant.
    pub fn from_lmdb(e: lmdb::Error, thread: String) -> (r: StoreError)
        ensures
            r == Self::engine_failure(is_bad_rslot(e), e, thread),
    {
        let reused_slot = bad_rslot(&e);
        Self::from_variant(reused_slot, e, thread)
    }
}

/// An engine error of any variant but that of the reused reader slot is
/// surfaced by the store as it is: what the engine answers when it is asked
/// for data that was never committed reaches the caller unchanged.
pub proof fn lemma_other_errors_are_carried(e: lmdb::Error, thread: String)
    requires
        !is_bad_rslot(e),
    ensures
        StoreError::engine_failure(is_bad_rslot(e), e, thread) == StoreError::LmdbError(e),
{
}

/// The store reports a second read transaction for the variant of the reused
/// reader slot and for no other engine error, and it reports nothing else for
/// one: an engine error never becomes an I/O, data or directory failure.
pub proof fn lemma_engine_failure_kinds(e: lmdb::Error, thread: String)
    ensures
        StoreError::engine_failure(is_bad_rslot(e), e, thread) is ReadTransactionAlreadyExists
            <==> is_bad_rslot(e),
        StoreError::engine_failure(is_bad_rslot(e), e, thread) == if is_bad_rslot(e) {
            StoreError::ReadTransactionAlreadyExists(thread)
        } else {
            StoreError::LmdbError(e)
        },
{
}

impl From<DataError> for StoreError {
    fn from(e: DataError) -> (r: StoreError) {
        StoreError::DataError(e)
    }
}

impl FromSpecImpl<DataError> for StoreError {
    open spec fn obeys_from_spec() -> bool {
        true
    }

    open spec fn from_spec(e: DataError) -> StoreError {
        StoreError::DataError(e)
    }
}

impl From<std::io::Error> for StoreError {
    fn from(e: std::io::Error) -> (r: StoreError) {
        StoreError::IoError(e)
    }
}

impl FromSpecImpl<std::io::Error> for StoreError {
    open spec fn obeys_from_spec() -> bool {
        true
    }

    open spec fn from_spec(e: std::io::Error) -> StoreError {
        StoreError::IoError(e)
    }
}

/// A failure of a migration.
#[derive(Debug)]
pub enum MigrateError {
    DatabaseNotFound(String),
    FromString(String),
    IndeterminateBitDepth,
    IoError(std::io::Error),
    InvalidDatabaseBits,
    InvalidDataVersion,
    InvalidMagicNum,
    InvalidNodeBits,
    InvalidPageBits,
    InvalidPageNum,
    LmdbError(lmdb::Error),
    StringConversionError,
    TryFromIntError(core::num::TryFromIntError),
    UnexpectedPageVariant,
    UnexpectedPageHeaderVariant,
    UnsupportedPageHeaderVariant,
    Utf8Error(core::str::Utf8Error),
}

impl From<std::io::Error> for MigrateError {
    fn from(e: std::io::Error) -> (r: MigrateError) {
        MigrateError::IoError(e)
    }
}

impl FromSpecImpl<std::io::Error> for MigrateError {
    open spec fn obeys_from_spec() -> bool {
        true
    }

    open spec fn from_spec(e: std::io::Error) -> MigrateError {
        MigrateError::IoError(e)
    }
}

impl From<core::str::Utf8Error> for MigrateError {
    fn from(e: core::str::Utf8Error) -> (r: MigrateError) {
        MigrateError::Utf8Error(e)
    }
}

impl FromSpecImpl<core::str::Utf8Error> for MigrateError {
    open spec fn obeys_from_spec() -> bool {
        true
    }

    open spec fn from_spec(e: core::str::Utf8Error) -> MigrateError {
        MigrateError::Utf8Error(e)
    }
}

impl From<core::num::TryFromIntError> for MigrateError {
    fn from(e: core::num::TryFromIntError) -> (r: MigrateError) {
        MigrateError::TryFromIntError(e)
    }
}

impl FromSpecImpl<core::num::TryFromIntError> for MigrateError {
    open spec fn obeys_from_spec() -> bool {
        true
    }

    open spec fn from_spec(e: core::num::TryFromIntError) -> MigrateError {
        MigrateError::TryFromIntError(e)
    }
}

impl From<String> for MigrateError {
    fn from(e: String) -> (r: MigrateError) {
        MigrateError::FromString(e)
    }
}

impl FromSpecImpl<String> for MigrateError {
    open spec fn obeys_from_spec() -> bool {
        true
    }

    open spec fn from_spec(e: String) -> MigrateError {
        MigrateError::FromString(e)
    }
}

impl<'a> From<&'a str> for MigrateError {
    fn from(e: &'a str) -> (r: MigrateError)
        ensures
            r matches MigrateError::FromString(s) && s@ == e@,
    {
        MigrateError::FromString(e.to_owned())
    }
}

/// A specification cannot build the string that the error holds, so this
/// conversion is described by the contract of `from` itself.
impl<'a> FromSpecImpl<&'a str> for MigrateError {
    open spec fn obeys_from_spec() -> bool {
        false
    }

    open spec fn from_spec(e: &'a str) -> MigrateError {
        arbitrary()
    }
}

impl From<lmdb::Error> for MigrateError {
    fn from(e: lmdb::Error) -> (r: MigrateError) {
        MigrateError::LmdbError(e)
    }
}

impl FromSpecImpl<lmdb::Error> for MigrateError {
    open spec fn obeys_from_spec() -> bool {
        true
    }

    open spec fn from_spec(e: lmdb::Error) -> MigrateError {
        MigrateError::LmdbError(e)
    }
}

/// What can be wrong with a source file, told apart as far as a migration
/// reports it. Each fault is reported as one variant of [`MigrateError`].
pub enum Fault {
    /// The file does not start with the magic constant.
    InvalidMagicNum,
    /// The data version is none that this engine reads.
    InvalidDataVersion,
    /// No pointer width, or more than one, fits the meta pages.
    IndeterminateBitDepth,
    /// A page number lies outside the file.
    InvalidPageNum,
    /// The flags of a page name no kind of page.
    InvalidPageBits,
    /// The flags of a node name no kind of node.
    InvalidNodeBits,
    /// The flags of a database record hold unknown bits.
    InvalidDatabaseBits,
    /// A page is of another kind than its place asks for.
    UnexpectedPageVariant,
    /// A page number does not fit the machine's addresses.
    Narrowing,
    /// The name of a database is not UTF-8.
    InvalidName,
    /// A node, a slot table or a database record reaches past its page.
    Truncated,
    /// An overflow chain ends before, or goes on after, the length of its
    /// value.
    LengthMismatch,
    /// A page is reached a second time.
    Cycle,
}

/// The message of a structure that reaches past its page.
pub open spec fn truncated_text() -> Seq<char> {
    "structure reaches past the end of its page"@
}

/// The message of an overflow chain of the wrong length.
pub open spec fn length_mismatch_text() -> Seq<char> {
    "overflow chain does not match the length of its value"@
}

/// The message of a page that is reached twice.
pub open spec fn cycle_text() -> Seq<char> {
    "page reached twice"@
}

impl MigrateError {
    /// Whether this error is the report of the given fault.
    pub open spec fn signals(self, fault: Fault) -> bool {
        match fault {
            Fault::InvalidMagicNum => self is InvalidMagicNum,
            Fault::InvalidDataVersion => self is InvalidDataVersion,
            Fault::IndeterminateBitDepth => self is IndeterminateBitDepth,
            Fault::InvalidPageNum => self is InvalidPageNum,
            Fault::InvalidPageBits => self is InvalidPageBits,
            Fault::InvalidNodeBits => self is InvalidNodeBits,
            Fault::InvalidDatabaseBits => self is InvalidDatabaseBits,
            Fault::UnexpectedPageVariant => self is UnexpectedPageVariant,
            Fault::Narrowing => self is TryFromIntError,
            Fault::InvalidName => self is Utf8Error,
            Fault::Truncated => self matches MigrateError::FromString(s) && s@ == truncated_text(),
            Fault::LengthMismatch => self matches MigrateError::FromString(s) && s@
                == length_mismatch_text(),
            Fault::Cycle => self matches MigrateError::FromString(s) && s@ == cycle_text(),
        }
    }

    /// The report of a structure that reaches past its page.
    pub fn truncated() -> (e: MigrateError)
        ensures
            e.signals(Fault::Truncated),
    {
        MigrateError::from("structure reaches past the end of its page")
    }

    /// The report of an overflow chain of the wrong length.
    pub fn length_mismatch() -> (e: MigrateError)
        ensures
            e.signals(Fault::LengthMismatch),
    {
        MigrateError::from("overflow chain does not match the length of its value")
    }

    /// The report of a page that is reached twice.
    pub fn cycle() -> (e: MigrateError)
        ensures
            e.signals(Fault::Cycle),
    {
        MigrateError::from("page reached twice")
    }
}

/// Whether a result is the one that the model gives: the value whose view the
/// model names, or the report of the fault that the model names.
pub open spec fn agrees<T: View>(r: Result<T, MigrateError>, model: Result<T::V, Fault>) -> bool {
    match r {
        Ok(v) => model == Ok::<T::V, Fault>(v@),
        Err(e) => model is Err && e.signals(model->Err_0),
    }
}

} // verus!
