//! How failures are reported.
use fulcrum::error_handling::{
    decode_failure, encode_failure, storage_failure, transaction_failure, unwrap_field, Cause,
    DecodeError, EncodeError, InternalError,
};
use sled::transaction::{ConflictableTransactionError, TransactionError};

#[test]
fn present_argument_is_handed_out() {
    assert_eq!(unwrap_field(Some(7), "uid"), Ok(7));
}

#[test]
fn absent_argument_is_named() {
    assert_eq!(
        unwrap_field::<u8>(None, "value"),
        Err(InternalError { cause: Some(Cause::MissingRequiredArgument("value".to_string())) })
    );
}

#[test]
fn storage_failure_keeps_its_text() {
    let error = InternalError::from(sled::Error::Unsupported("no such thing".to_string()));
    assert_eq!(
        error.cause,
        Some(Cause::StorageError("Unsupported: no such thing".to_string()))
    );
}

#[test]
fn conflict_keeps_its_text() {
    let error = InternalError::from(ConflictableTransactionError::Abort(7));
    assert_eq!(error.cause, Some(Cause::TransactionAborted("Abort(7)".to_string())));
    let error = InternalError::from(ConflictableTransactionError::<u8>::Conflict);
    assert_eq!(error.cause, Some(Cause::TransactionAborted("Conflict".to_string())));
}

#[test]
fn aborted_transaction_keeps_its_text() {
    let error = InternalError::from(TransactionError::Abort("why".to_string()));
    assert_eq!(error.cause, Some(Cause::TransactionAborted("Abort(\"why\")".to_string())));
}

#[test]
fn storage_error_in_a_transaction_aborts_it() {
    let error = sled::Error::Unsupported("no such thing".to_string());
    let expected = format!("{:?}", TransactionError::<u8>::Storage(error.clone()));
    let error = InternalError::from(TransactionError::<u8>::Storage(error));
    assert_eq!(error.cause, Some(Cause::TransactionAborted(expected)));
}

#[test]
fn causes_hold_what_they_are_made_of() {
    assert_eq!(storage_failure("a".to_string()).cause, Some(Cause::StorageError("a".to_string())));
    assert_eq!(
        transaction_failure("b".to_string()).cause,
        Some(Cause::TransactionAborted("b".to_string()))
    );
    let lack = EncodeError { required: 10, remaining: 3 };
    assert_eq!(encode_failure(lack).cause, Some(Cause::StorageValueEncodingError(lack)));
    assert_eq!(
        decode_failure("c".to_string()).cause,
        Some(Cause::StorageValueDecodingError(DecodeError {
            description: "c".to_string(),
            stack: vec![],
        }))
    );
}
