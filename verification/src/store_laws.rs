//! Laws of the store: each operation reads or changes what is under one key, and fails only where
//! the storage engine reported a failure or gave up.
use crate::error_handling::{
    decode_failure, encode_failure, is_abort_text, is_conflict_text, is_storage_text,
    storage_failure, transaction_failure, Cause, EncodeError, InternalError,
};
use crate::key_order::is_scan;
use crate::store::{given_up, next_step, reported, Scan, Store};
use sled::transaction::{ConflictableTransactionError, TransactionError};
use vstd::prelude::*;

verus! {

/// A failure that the storage engine reported is told as one, and a transaction that it gave up
/// is told as that, with the text that it gives for it: neither is told as the other, nor as a
/// fault of the request.
pub proof fn law_failures_are_told(e: InternalError)
    ensures
        reported(e) ==> {
            &&& e.cause matches Some(Cause::StorageError(text))
            &&& exists|error: sled::Error| #[trigger] is_storage_text(error, text@)
        },
        given_up(e) ==> {
            &&& e.cause matches Some(Cause::TransactionAborted(text))
            &&& {
                ||| exists|error: ConflictableTransactionError<Option<Vec<u8>>>| #[trigger]
                    is_conflict_text(error, text@)
                ||| exists|error: TransactionError<InternalError>| #[trigger]
                    is_abort_text(error, text@)
            }
        },
{
}

/// An error that is made of a text, or of how much room there was, tells just that.
pub proof fn law_errors_tell_what_they_are_made_of(
    text: String,
    room: EncodeError,
    storage: InternalError,
    transaction: InternalError,
    encode: InternalError,
    decode: InternalError,
)
    requires
        call_ensures(storage_failure, (text,), storage),
        call_ensures(transaction_failure, (text,), transaction),
        call_ensures(encode_failure, (room,), encode),
        call_ensures(decode_failure, (text,), decode),
    ensures
        storage.cause matches Some(Cause::StorageError(told)) && told@ == text@,
        transaction.cause matches Some(Cause::TransactionAborted(told)) && told@ == text@,
        encode.cause matches Some(Cause::StorageValueEncodingError(told)) && told == room,
        decode.cause matches Some(Cause::StorageValueDecodingError(told)) && told.description@
            == text@ && told.stack@.len() == 0,
{
    let told = decode.cause->0->StorageValueDecodingError_0;
    assert(told.stack.deep_view().len() == told.stack@.len());
}

/// Stores begin empty.
pub proof fn law_open_temporary(
    first: &str,
    second: &str,
    r: Result<(Store, Store), InternalError>,
)
    requires
        call_ensures(Store::open_temporary, (first, second), r),
    ensures
        match r {
            Ok((a, b)) => a@.dom().is_empty() && b@.dom().is_empty(),
            Err(e) => reported(e),
        },
{
}

/// What is given for a key is what is under it, all of it, and nothing exactly if the key is not in
/// use.
pub proof fn law_store_get(store: Store, key: Vec<u8>, r: Result<Option<Vec<u8>>, InternalError>)
    requires
        call_ensures(Store::get, (&store, &key), r),
    ensures
        match r {
            Ok(Some(value)) => store@.contains_key(key@) && value@ == store@[key@],
            Ok(None) => !store@.contains_key(key@),
            Err(e) => reported(e),
        },
{
}

/// A key is said to be in use exactly if it is.
pub proof fn law_store_contains_key(store: Store, key: Vec<u8>, r: Result<bool, InternalError>)
    requires
        call_ensures(Store::contains_key, (&store, &key), r),
    ensures
        match r {
            Ok(found) => found <==> store@.contains_key(key@),
            Err(e) => reported(e),
        },
{
}

/// Removing takes out the key and gives what was under it, in a transaction or not.
pub proof fn law_store_remove()
    ensures
        forall|store: &mut Store, key: &Vec<u8>, r: Result<Option<Vec<u8>>, InternalError>|
            #![trigger call_ensures(Store::remove, (store, key), r)]
            call_ensures(Store::remove, (store, key), r) ==> match r {
                Ok(Some(value)) => {
                    &&& (*store)@.contains_key(key@) && value@ == (*store)@[key@]
                    &&& (*final(store))@ == (*store)@.remove(key@)
                },
                Ok(None) => {
                    &&& !(*store)@.contains_key(key@)
                    &&& (*final(store))@ == (*store)@.remove(key@)
                },
                Err(e) => reported(e),
            },
        forall|store: &mut Store, key: &Vec<u8>, r: Result<Option<Vec<u8>>, InternalError>|
            #![trigger call_ensures(Store::remove_in_transaction, (store, key), r)]
            call_ensures(Store::remove_in_transaction, (store, key), r) ==> match r {
                Ok(Some(value)) => {
                    &&& (*store)@.contains_key(key@) && value@ == (*store)@[key@]
                    &&& (*final(store))@ == (*store)@.remove(key@)
                },
                Ok(None) => {
                    &&& !(*store)@.contains_key(key@)
                    &&& (*final(store))@ == (*store)@.remove(key@)
                },
                Err(e) => given_up(e),
            },
{
}

/// Adding puts the value, all of it, under a key exactly if the key is not in use, says whether it
/// did, and else changes nothing.
pub proof fn law_store_add()
    ensures
        forall|store: &mut Store, key: &Vec<u8>, value: &Vec<u8>, r: Result<bool, InternalError>|
            #![trigger call_ensures(Store::add, (store, key, value), r)]
            call_ensures(Store::add, (store, key, value), r) ==> match r {
                Ok(true) => {
                    &&& !(*store)@.contains_key(key@)
                    &&& (*final(store))@ == (*store)@.insert(key@, value@)
                },
                Ok(false) => {
                    &&& (*store)@.contains_key(key@)
                    &&& (*final(store))@ == (*store)@
                },
                Err(e) => given_up(e),
            },
{
}

/// A walk by a prefix has all entries before it whose keys start with the prefix, in order. Each
/// step gives the first of them and goes on to the others, and there is no step exactly if there
/// is no entry left; a step that failed has gone nowhere.
pub proof fn law_store_walk(
    store: Store,
    prefix: Vec<u8>,
    walk: Scan,
    scan: Scan,
    step: Option<Result<(Vec<u8>, Vec<u8>), InternalError>>,
    rest: Scan,
)
    requires
        call_ensures(Store::scan_prefix, (&store, &prefix), walk),
        call_ensures(next_step, (scan,), (step, rest)),
    ensures
        is_scan(store@, prefix@, walk@),
        match step {
            Some(Ok(entry)) => {
                &&& scan@.len() > 0
                &&& (entry.0@, entry.1@) == scan@[0]
                &&& rest@ == scan@.skip(1)
            },
            Some(Err(e)) => reported(e) && rest@ == scan@,
            None => scan@.len() == 0 && rest@.len() == 0,
        },
{
}

} // verus!
