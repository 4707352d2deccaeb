//! The one error that every operation of the database reports, and how the
//! failures of the storage engine become it.
use sled::transaction::{ConflictableTransactionError, TransactionError};
use vstd::prelude::*;
use vstd::std_specs::convert::FromSpecImpl;

verus! {

/// A buffer was too small for a message.
#[derive(Debug, Clone, Copy, PartialEq, Eq)]
pub struct EncodeError {
    pub required: u64,
    pub remaining: u64,
}

/// The message and the field at which decoding stopped.
#[derive(Debug, Clone, PartialEq, Eq)]
pub struct StackLine {
    pub message: String,
    pub field: String,
}

/// Bytes that are not a message of the expected type.
#[derive(Debug, Clone, PartialEq, Eq)]
pub struct DecodeError {
    pub description: String,
    pub stack: Vec<StackLine>,
}

/// Why an operation failed.
#[derive(Debug, Clone, PartialEq, Eq)]
pub enum Cause {
    MissingRequiredArgument(String),
    StorageValueEncodingError(EncodeError),
    StorageValueDecodingError(DecodeError),
    StorageError(String),
    TransactionAborted(String),
    KeyError(String),
    ValueError(String),
}

/// The error that every operation of the database reports.
#[derive(Debug, Clone, PartialEq, Eq)]
pub struct InternalError {
    pub cause: Option<Cause>,
}

/// What a [`Cause`] says, with texts as sequences of characters.
pub enum CauseModel {
    MissingRequiredArgument(Seq<char>),
    StorageValueEncodingError(EncodeError),
    StorageValueDecodingError { description: Seq<char>, stack: Seq<(Seq<char>, Seq<char>)> },
    StorageError(Seq<char>),
    TransactionAborted(Seq<char>),
    KeyError(Seq<char>),
    ValueError(Seq<char>),
}

/// What an [`InternalError`] says.
pub type ErrorModel = Option<CauseModel>;

impl DeepView for StackLine {
    type V = (Seq<char>, Seq<char>);

    open spec fn deep_view(&self) -> (Seq<char>, Seq<char>) {
        (self.message@, self.field@)
    }
}

impl DeepView for Cause {
    type V = CauseModel;

    open spec fn deep_view(&self) -> CauseModel {
        match *self {
            Cause::MissingRequiredArgument(s) => CauseModel::MissingRequiredArgument(s@),
            Cause::StorageValueEncodingError(e) => CauseModel::StorageValueEncodingError(e),
            Cause::StorageValueDecodingError(e) => CauseModel::StorageValueDecodingError {
                description: e.description@,
                stack: e.stack.deep_view(),
            },
            Cause::StorageError(s) => CauseModel::StorageError(s@),
            Cause::TransactionAborted(s) => CauseModel::TransactionAborted(s@),
            Cause::KeyError(s) => CauseModel::KeyError(s@),
            Cause::ValueError(s) => CauseModel::ValueError(s@),
        }
    }
}

impl DeepView for InternalError {
    type V = ErrorModel;

    open spec fn deep_view(&self) -> ErrorModel {
        self.cause.deep_view()
    }
}

/// The error of a request that lacks the argument `field`.
pub open spec fn missing(field: Seq<char>) -> ErrorModel {
    Some(CauseModel::MissingRequiredArgument(field))
}

/// The error of bytes that cannot be decoded, for the reason `description`.
pub open spec fn undecodable(description: Seq<char>) -> ErrorModel {
    Some(CauseModel::StorageValueDecodingError { description, stack: Seq::empty() })
}

/// The storage engine failed.
pub open spec fn is_storage_error(error: ErrorModel) -> bool {
    error matches Some(CauseModel::StorageError(_))
}

/// The storage engine gave up a transaction.
pub open spec fn is_aborted(error: ErrorModel) -> bool {
    error matches Some(CauseModel::TransactionAborted(_))
}

#[verifier::external_type_specification]
#[verifier::external_body]
pub struct ExError(sled::Error);

#[verifier::external_type_specification]
#[verifier::external_body]
#[verifier::reject_recursive_types(T)]
pub struct ExConflictableTransactionError<T>(ConflictableTransactionError<T>);

#[verifier::external_type_specification]
#[verifier::external_body]
#[verifier::reject_recursive_types(T)]
pub struct ExTransactionError<T>(TransactionError<T>);

/// The error of a storage engine that failed with the text `text`.
pub fn storage_failure(text: String) -> (r: InternalError)
    ensures
        r.deep_view() == Some(CauseModel::StorageError(text@)),
{
    InternalError { cause: Some(Cause::StorageError(text)) }
}

/// The error of a transaction that was given up with the text `text`.
pub fn transaction_failure(text: String) -> (r: InternalError)
    ensures
        r.deep_view() == Some(CauseModel::TransactionAborted(text@)),
{
    InternalError { cause: Some(Cause::TransactionAborted(text)) }
}

/// The error of a message that there was no room for.
pub fn encode_failure(e: EncodeError) -> (r: InternalError)
    ensures
        r.deep_view() == Some(CauseModel::StorageValueEncodingError(e)),
{
    InternalError { cause: Some(Cause::StorageValueEncodingError(e)) }
}

/// The error of bytes that cannot be decoded, for the reason `description`.
pub fn decode_failure(description: String) -> (r: InternalError)
    ensures
        r.deep_view() == undecodable(description@),
{
    let stack: Vec<StackLine> = Vec::new();
    assert(stack.deep_view() =~= Seq::<(Seq<char>, Seq<char>)>::empty());
    InternalError {
        cause: Some(Cause::StorageValueDecodingError(DecodeError { description, stack })),
    }
}

/// The text that `sled::Error` displays. Nothing is claimed of the text.
#[verifier::external_body]
fn storage_error_text(error: &sled::Error) -> String {
    error.to_string()
}

/// The debug text of a `sled::transaction::ConflictableTransactionError`. Nothing is
/// claimed of the text.
#[verifier::external_body]
fn conflict_text<T: core::fmt::Debug>(error: &ConflictableTransactionError<T>) -> String {
    format!("{:?}", error)
}

/// The debug text of a `sled::transaction::TransactionError`. Nothing is claimed of the
/// text.
#[verifier::external_body]
fn abort_text<T: core::fmt::Debug>(error: &TransactionError<T>) -> String {
    format!("{:?}", error)
}

/// Calls `f`. What comes back is known to be what a call of `f` gave.
pub(crate) fn applied<A, B, F: Fn(A) -> B>(f: F, a: A) -> (b: B)
    requires
        call_requires(f, (a,)),
    ensures
        call_ensures(f, (a,), b),
{
    f(a)
}

/// `text` is a text that the storage engine gave for `error`.
pub closed spec fn is_storage_text(error: sled::Error, text: Seq<char>) -> bool {
    exists|given: String| #[trigger]
        call_ensures(storage_error_text, (&error,), given) && given@ == text
}

/// `text` is a text that the storage engine gave for `error`.
pub closed spec fn is_conflict_text<T: core::fmt::Debug>(
    error: ConflictableTransactionError<T>,
    text: Seq<char>,
) -> bool {
    exists|given: String| #[trigger]
        call_ensures(conflict_text::<T>, (&error,), given) && given@ == text
}

/// `text` is a text that the storage engine gave for `error`.
pub closed spec fn is_abort_text<T: core::fmt::Debug>(
    error: TransactionError<T>,
    text: Seq<char>,
) -> bool {
    exists|given: String| #[trigger]
        call_ensures(abort_text::<T>, (&error,), given) && given@ == text
}

/// The error of a storage engine that failed with `error`. It tells the text that the storage
/// engine gives for it.
pub fn storage_error(error: sled::Error) -> (r: InternalError)
    ensures
        is_storage_error(r.deep_view()),
        r.cause matches Some(Cause::StorageError(text)) && is_storage_text(error, text@),
{
    let text = applied(storage_error_text, &error);
    storage_failure(text)
}

/// The error of a transaction that was given up from inside with `error`. It tells the text that
/// the storage engine gives for it.
pub fn conflict_error<T: core::fmt::Debug>(error: ConflictableTransactionError<T>) -> (r:
    InternalError)
    ensures
        is_aborted(r.deep_view()),
        r.cause matches Some(Cause::TransactionAborted(text)) && is_conflict_text(error, text@),
{
    let text = applied(conflict_text::<T>, &error);
    transaction_failure(text)
}

/// The error of a transaction that was given up with `error`. It tells the text that the storage
/// engine gives for it.
pub fn abort_error<T: core::fmt::Debug>(error: TransactionError<T>) -> (r: InternalError)
    ensures
        is_aborted(r.deep_view()),
        r.cause matches Some(Cause::TransactionAborted(text)) && is_abort_text(error, text@),
{
    let text = applied(abort_text::<T>, &error);
    transaction_failure(text)
}

impl From<sled::Error> for InternalError {
    fn from(error: sled::Error) -> (r: Self)
        ensures
            is_storage_error(r.deep_view()),
            r.cause matches Some(Cause::StorageError(text)) && is_storage_text(error, text@),
    {
        storage_error(error)
    }
}

/// The text of the cause comes from the storage engine, so no function of the error says
/// what it is.
impl FromSpecImpl<sled::Error> for InternalError {
    open spec fn obeys_from_spec() -> bool {
        false
    }

    open spec fn from_spec(error: sled::Error) -> Self {
        arbitrary()
    }
}

impl<T: core::fmt::Debug> From<ConflictableTransactionError<T>> for InternalError {
    fn from(error: ConflictableTransactionError<T>) -> (r: Self)
        ensures
            is_aborted(r.deep_view()),
            r.cause matches Some(Cause::TransactionAborted(text)) && is_conflict_text(
                error,
                text@,
            ),
    {
        conflict_error(error)
    }
}

impl<T: core::fmt::Debug> FromSpecImpl<ConflictableTransactionError<T>> for InternalError {
    open spec fn obeys_from_spec() -> bool {
        false
    }

    open spec fn from_spec(error: ConflictableTransactionError<T>) -> Self {
        arbitrary()
    }
}

impl<T: core::fmt::Debug> From<TransactionError<T>> for InternalError {
    fn from(error: TransactionError<T>) -> (r: Self)
        ensures
            is_aborted(r.deep_view()),
            r.cause matches Some(Cause::TransactionAborted(text)) && is_abort_text(error, text@),
    {
        abort_error(error)
    }
}

impl<T: core::fmt::Debug> FromSpecImpl<TransactionError<T>> for InternalError {
    open spec fn obeys_from_spec() -> bool {
        false
    }

    open spec fn from_spec(error: TransactionError<T>) -> Self {
        arbitrary()
    }
}

/// The argument `msg`, or the error that the argument `field_name` is missing.
pub fn unwrap_field<T>(msg: Option<T>, field_name: &str) -> (r: Result<T, InternalError>)
    ensures
        match msg {
            Some(value) => r == Ok::<T, InternalError>(value),
            None => r matches Err(e) && e.deep_view() == missing(field_name@),
        },
{
    match msg {
        Some(value) => Ok(value),
        None => Err(
            InternalError { cause: Some(Cause::MissingRequiredArgument(field_name.to_string())) },
        ),
    }
}

} // verus!
