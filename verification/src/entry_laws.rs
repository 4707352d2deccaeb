//! Laws of reading and writing one entry by its key, and of the bytes of keys.
//!
//! The laws speak of calls of the operations, of the bytes that a store holds under the bytes of a
//! key before and after them, and of what those bytes read as.
use crate::data_access::{
    self, add_in_transaction, add_result, be_bytes, be_value, contains_key, delete,
    delete_in_transaction, delete_result, get, get_result, utf8_error_text, AddResult,
    AddResultSuccess, DeleteResult, DeleteResultSuccess, GetResult, GetResultSuccess, KeyString,
    KeyU64, KeyVec, ProstMessage, Uid,
};
use crate::error_handling::{unwrap_field, Cause, CauseModel, InternalError};
use crate::pb::{CdnUid, KeyUid};
use crate::store::{
    given_up, may_add, overlay_contents, reported, Store,
};
use crate::wire::field_one;
use sled::transaction::TransactionalTree;
use vstd::prelude::*;
use vstd::utf8::{decode_utf8, encode_utf8, valid_utf8};

verus! {

/// The number that `bytes` are the base 256 digits of, most significant first.
pub open spec fn number_in(bytes: Seq<u8>) -> nat
    decreases bytes.len(),
{
    if bytes.len() == 0 {
        0
    } else {
        number_in(bytes.drop_last()) * 256 + bytes.last() as nat
    }
}

/// `e` says that the argument `field` is missing, and nothing else.
pub open spec fn says_missing(e: InternalError, field: Seq<char>) -> bool {
    e.cause matches Some(Cause::MissingRequiredArgument(name)) && name@ == field
}

/// `e` says that stored bytes can not be read for the reason `description`, and nothing else.
pub open spec fn says_unreadable(e: InternalError, description: Seq<char>) -> bool {
    e.cause matches Some(Cause::StorageValueDecodingError(d)) && d.description@ == description
        && d.stack@.len() == 0
}

/// What an error says is what its model says.
pub(crate) proof fn lemma_says(e: InternalError)
    ensures
        e.deep_view() matches Some(
            CauseModel::StorageValueDecodingError { description, stack },
        ) ==> stack.len() == 0 ==> says_unreadable(e, description),
        e.deep_view() matches Some(
            CauseModel::MissingRequiredArgument(field),
        ) ==> says_missing(e, field),
{
}

/// The eight bytes of a number, most significant first, make up the number.
pub(crate) proof fn lemma_number_in(n: u64)
    ensures
        be_bytes(n).len() == 8,
        number_in(be_bytes(n)) == n,
{
    let bytes = be_bytes(n);
    reveal_with_fuel(number_in, 9);
    let b7 = bytes.drop_last();
    let b6 = b7.drop_last();
    let b5 = b6.drop_last();
    let b4 = b5.drop_last();
    let b3 = b4.drop_last();
    let b2 = b3.drop_last();
    let b1 = b2.drop_last();
    assert(b1.drop_last().len() == 0);
    assert(number_in(b1) == n / 0x100_0000_0000_0000);
    assert(number_in(b2) == n / 0x1_0000_0000_0000);
    assert(number_in(b3) == n / 0x100_0000_0000);
    assert(number_in(b4) == n / 0x1_0000_0000);
    assert(number_in(b5) == n / 0x100_0000);
    assert(number_in(b6) == n / 0x1_0000);
    assert(number_in(b7) == n / 0x100);
}

/// An argument that is there is given as it is; of one that is not, the error tells the name.
pub proof fn law_unwrap_field<T>(msg: Option<T>, name: &str, r: Result<T, InternalError>)
    requires
        call_ensures(unwrap_field::<T>, (msg, name), r),
    ensures
        match (msg, r) {
            (Some(value), Ok(given)) => given == value,
            (None, Err(e)) => says_missing(e, name@),
            _ => false,
        },
{
    if r is Err {
        lemma_says(r->Err_0);
    }
}

/// The bytes of a number as a key are eight, and are its base 256 digits, most significant first;
/// a key reads as the number that its first eight bytes make.
pub proof fn law_number_bytes(
    key: KeyU64,
    bytes: Result<Vec<u8>, InternalError>,
    given: Vec<u8>,
    read: Result<KeyU64, InternalError>,
)
    requires
        call_ensures(<KeyU64 as Uid>::to_key_bytes, (&key,), bytes),
        given@.len() >= 8,
        call_ensures(<KeyU64 as Uid>::from_key_bytes, (&given,), read),
    ensures
        bytes is Ok && bytes->Ok_0@.len() == 8 && number_in(bytes->Ok_0@) == key.0,
        read matches Ok(number) && number.0 == number_in(given@.take(8)),
{
    lemma_number_in(key.0);
    lemma_value_in(given@);
}

/// The number that eight bytes make.
proof fn lemma_value_in(bytes: Seq<u8>)
    requires
        bytes.len() >= 8,
    ensures
        be_value(bytes) == number_in(bytes.take(8)),
        be_value(bytes) <= u64::MAX,
{
    reveal_with_fuel(number_in, 9);
    let b8 = bytes.take(8);
    let b7 = b8.drop_last();
    let b6 = b7.drop_last();
    let b5 = b6.drop_last();
    let b4 = b5.drop_last();
    let b3 = b4.drop_last();
    let b2 = b3.drop_last();
    let b1 = b2.drop_last();
    assert(b1.drop_last().len() == 0);
    assert(number_in(b1) == bytes[0]);
    assert(number_in(b2) == number_in(b1) * 256 + bytes[1]);
    assert(number_in(b3) == number_in(b2) * 256 + bytes[2]);
    assert(number_in(b4) == number_in(b3) * 256 + bytes[3]);
    assert(number_in(b5) == number_in(b4) * 256 + bytes[4]);
    assert(number_in(b6) == number_in(b5) * 256 + bytes[5]);
    assert(number_in(b7) == number_in(b6) * 256 + bytes[6]);
    assert(number_in(b8) == number_in(b7) * 256 + bytes[7]);
}

/// The bytes of a text as a key are its UTF-8 bytes, all of them; a key reads as the text that it
/// is in UTF-8, and does not read exactly if it is not UTF-8.
pub proof fn law_text_bytes(
    key: KeyString,
    bytes: Result<Vec<u8>, InternalError>,
    given: Vec<u8>,
    read: Result<KeyString, InternalError>,
)
    requires
        call_ensures(<KeyString as Uid>::to_key_bytes, (&key,), bytes),
        call_ensures(<KeyString as Uid>::from_key_bytes, (&given,), read),
    ensures
        bytes is Ok && bytes->Ok_0@ == encode_utf8(key.0@),
        match read {
            Ok(text) => valid_utf8(given@) && text.0@ == decode_utf8(given@),
            Err(e) => !valid_utf8(given@) && says_unreadable(e, utf8_error_text(given@)),
        },
{
    if read is Err {
        lemma_says(read->Err_0);
    }
}

/// A byte string as a key is its own bytes: those that it was read from.
pub proof fn law_bytes_bytes(
    given: Vec<u8>,
    read: Result<KeyVec, InternalError>,
    bytes: Result<Vec<u8>, InternalError>,
)
    requires
        call_ensures(<KeyVec as Uid>::from_key_bytes, (&given,), read),
        call_ensures(<KeyVec as Uid>::to_key_bytes, (&read->Ok_0,), bytes),
    ensures
        read is Ok,
        bytes is Ok && bytes->Ok_0@ == given@,
{
}

/// The bytes of a name, or of a hash, as a key are those of a message with the whole of it in one
/// field.
pub proof fn law_name_bytes(
    uid: CdnUid,
    bytes: Result<Vec<u8>, InternalError>,
    hash: KeyUid,
    hash_bytes: Result<Vec<u8>, InternalError>,
)
    requires
        call_ensures(<CdnUid as Uid>::to_key_bytes, (&uid,), bytes),
        call_ensures(<KeyUid as Uid>::to_key_bytes, (&hash,), hash_bytes),
    ensures
        bytes is Ok && bytes->Ok_0@ == field_one(encode_utf8(uid.message@)),
        hash_bytes is Ok && hash_bytes->Ok_0@ == field_one(hash.sip@),
{
}

/// Looking up a key finds nothing exactly if the key is not in use, and else gives what is stored
/// under it, or tells why that cannot be read; each with the key. Any other error is a failure
/// that the storage engine reported, a missing key, or the error of a key without bytes.
pub proof fn law_get<W, T: Uid, U: ProstMessage<W>>(
    tree: Store,
    key: Option<T>,
    r: GetResult<T, U>,
)
    requires
        call_ensures(get::<W, T, U>, (&tree, key), r),
    ensures
        key is None ==> (r matches Err(e) && says_missing(e, "uid"@)),
        key is Some ==> match T::key_encoding(key->0.deep_view()) {
            Err(why) => r matches Err(e) && e.deep_view() == why,
            Ok(bytes) => match r {
                Ok(GetResultSuccess::Success(k, v)) => {
                    &&& tree@.contains_key(bytes)
                    &&& k.deep_view() == key->0.deep_view()
                    &&& U::decoding(tree@[bytes]) == Ok::<U::V, Seq<char>>(v.deep_view())
                },
                Ok(GetResultSuccess::NotFound(k)) => {
                    &&& !tree@.contains_key(bytes)
                    &&& k.deep_view() == key->0.deep_view()
                },
                Err(e) => reported(e) || {
                    &&& tree@.contains_key(bytes)
                    &&& U::decoding(tree@[bytes]) matches Err(why) && says_unreadable(e, why)
                },
            },
        },
{
    if r is Err {
        lemma_says(r->Err_0);
    }
}

/// What a lookup came to is what is given: what the bytes read as that were found, or why they
/// cannot be read; that nothing is there if nothing was found; and the failure of a failure.
pub proof fn law_get_result<W, T: Uid, U: ProstMessage<W>>(
    uid: T,
    found: Result<Option<Vec<u8>>, InternalError>,
    r: GetResult<T, U>,
)
    requires
        call_ensures(get_result::<W, T, U>, (uid, found), r),
    ensures
        match (found, r) {
            (Ok(Some(bytes)), Ok(GetResultSuccess::Success(k, v))) => {
                &&& k == uid
                &&& U::decoding(bytes@) == Ok::<U::V, Seq<char>>(v.deep_view())
            },
            (Ok(Some(bytes)), Err(e)) => U::decoding(bytes@) matches Err(why) && says_unreadable(
                e,
                why,
            ),
            (Ok(None), Ok(GetResultSuccess::NotFound(k))) => k == uid,
            (Err(failure), Err(e)) => e == failure,
            _ => false,
        },
{
    if r is Err {
        lemma_says(r->Err_0);
    }
}

/// A key is said to be in use exactly if something is stored under it. An error is a failure that
/// the storage engine reported, a missing key, or the error of a key without bytes.
pub proof fn law_contains_key<T: Uid>(tree: Store, key: Option<T>, r: Result<bool, InternalError>)
    requires
        call_ensures(contains_key::<T>, (&tree, key), r),
    ensures
        key is None ==> (r matches Err(e) && says_missing(e, "uid"@)),
        key is Some ==> match T::key_encoding(key->0.deep_view()) {
            Err(why) => r matches Err(e) && e.deep_view() == why,
            Ok(bytes) => match r {
                Ok(found) => found == tree@.contains_key(bytes),
                Err(e) => reported(e),
            },
        },
{
    if r is Err {
        lemma_says(r->Err_0);
    }
}

/// Removing a key succeeds exactly if it was in use, and says that it is not there exactly if it
/// was not, each with the key; afterwards it is not in use, and under every other key there is
/// what there was. A request without a usable key changes nothing. Any other error is a failure
/// that the storage engine reported.
pub proof fn law_delete<T: Uid>()
    ensures
        forall|tree: &mut Store, key: Option<T>, r: DeleteResult<T>|
            #![trigger call_ensures(delete::<T>, (tree, key), r)]
            call_ensures(delete::<T>, (tree, key), r) ==> {
                let before = (*tree)@;
                let then = (*final(tree))@;
                &&& key is None ==> (r matches Err(e) && says_missing(e, "uid"@)) && then == before
                &&& key is Some ==> match T::key_encoding(key->0.deep_view()) {
                    Err(why) => (r matches Err(e) && e.deep_view() == why) && then == before,
                    Ok(bytes) => match r {
                        Ok(DeleteResultSuccess::Success(k)) => {
                            &&& before.contains_key(bytes)
                            &&& then == before.remove(bytes)
                            &&& k.deep_view() == key->0.deep_view()
                        },
                        Ok(DeleteResultSuccess::NotFound(k)) => {
                            &&& !before.contains_key(bytes)
                            &&& then == before.remove(bytes)
                            &&& k.deep_view() == key->0.deep_view()
                        },
                        Err(e) => reported(e),
                    },
                }
            },
{
}

/// The same in a transaction. An error of the storage engine is a transaction that it gave up.
pub proof fn law_delete_in_transaction<T: Uid>()
    ensures
        forall|tree: &mut Store, key: Option<T>, r: DeleteResult<T>|
            #![trigger call_ensures(delete_in_transaction::<T>, (tree, key), r)]
            call_ensures(delete_in_transaction::<T>, (tree, key), r) ==> {
                let before = (*tree)@;
                let then = (*final(tree))@;
                &&& key is None ==> (r matches Err(e) && says_missing(e, "uid"@)) && then == before
                &&& key is Some ==> match T::key_encoding(key->0.deep_view()) {
                    Err(why) => (r matches Err(e) && e.deep_view() == why) && then == before,
                    Ok(bytes) => match r {
                        Ok(DeleteResultSuccess::Success(k)) => {
                            &&& before.contains_key(bytes)
                            &&& then == before.remove(bytes)
                            &&& k.deep_view() == key->0.deep_view()
                        },
                        Ok(DeleteResultSuccess::NotFound(k)) => {
                            &&& !before.contains_key(bytes)
                            &&& then == before.remove(bytes)
                            &&& k.deep_view() == key->0.deep_view()
                        },
                        Err(e) => given_up(e),
                    },
                }
            },
{
}

/// What a removal came to is what is given: success if something was removed, that it is not there
/// if nothing was, each with the key; and the failure of a failure.
pub proof fn law_delete_result<T: Uid>(
    uid: T,
    removed: Result<Option<Vec<u8>>, InternalError>,
    r: DeleteResult<T>,
)
    requires
        call_ensures(delete_result::<T>, (uid, removed), r),
    ensures
        match (removed, r) {
            (Ok(Some(_)), Ok(DeleteResultSuccess::Success(k))) => k == uid,
            (Ok(None), Ok(DeleteResultSuccess::NotFound(k))) => k == uid,
            (Err(failure), Err(e)) => e == failure,
            _ => false,
        },
{
}

/// Adding succeeds exactly if the key was not in use, and says that it exists exactly if it was,
/// each with the key. After a success what is stored under the key reads as the value, and under
/// every other key there is what there was; else nothing changes, unless the storage engine gave
/// up. A request without a usable key, or without a value, is refused.
pub proof fn law_add_in_transaction<W, T: Uid, U: ProstMessage<W>>()
    ensures
        forall|tree: &mut Store, key: Option<T>, value: Option<U>, r: AddResult<T>|
            #![trigger call_ensures(add_in_transaction::<W, T, U>, (tree, key, value), r)]
            call_ensures(add_in_transaction::<W, T, U>, (tree, key, value), r) ==> {
                let before = (*tree)@;
                let then = (*final(tree))@;
                &&& key is None ==> (r matches Err(e) && says_missing(e, "uid"@)) && then == before
                &&& key is Some ==> match T::key_encoding(key->0.deep_view()) {
                    Err(why) => (r matches Err(e) && e.deep_view() == why) && then == before,
                    Ok(bytes) => match r {
                        Ok(AddResultSuccess::Success(k)) => {
                            &&& !before.contains_key(bytes)
                            &&& k.deep_view() == key->0.deep_view()
                            &&& then == before.insert(bytes, then[bytes])
                            &&& value is Some
                            &&& U::decoding(then[bytes]) == Ok::<U::V, Seq<char>>(
                                value->0.deep_view(),
                            )
                        },
                        Ok(AddResultSuccess::Exists(k)) => {
                            &&& before.contains_key(bytes)
                            &&& k.deep_view() == key->0.deep_view()
                            &&& value is Some
                            &&& then == before
                        },
                        Err(e) => if value is Some {
                            given_up(e)
                        } else {
                            says_missing(e, "value"@) && then == before
                        },
                    },
                }
            },
{
}

/// The same as part of a transaction: for what the transaction sees.
pub proof fn law_add<W, T: Uid, U: ProstMessage<W>>()
    ensures
        forall|tree: &mut TransactionalTree, key: Option<T>, value: Option<U>, r: AddResult<T>|
            #![trigger call_ensures(data_access::add::<W, T, U>, (tree, key, value), r)]
            call_ensures(data_access::add::<W, T, U>, (tree, key, value), r) ==> {
                let before = overlay_contents(*tree);
                let then = overlay_contents(*final(tree));
                &&& key is None ==> (r matches Err(e) && says_missing(e, "uid"@)) && then == before
                &&& key is Some ==> match T::key_encoding(key->0.deep_view()) {
                    Err(why) => (r matches Err(e) && e.deep_view() == why) && then == before,
                    Ok(bytes) => match r {
                        Ok(AddResultSuccess::Success(k)) => {
                            &&& !before.contains_key(bytes)
                            &&& k.deep_view() == key->0.deep_view()
                            &&& then == before.insert(bytes, then[bytes])
                            &&& value is Some
                            &&& U::decoding(then[bytes]) == Ok::<U::V, Seq<char>>(
                                value->0.deep_view(),
                            )
                        },
                        Ok(AddResultSuccess::Exists(k)) => {
                            &&& before.contains_key(bytes)
                            &&& k.deep_view() == key->0.deep_view()
                            &&& value is Some
                            &&& then == before
                        },
                        Err(e) => {
                            &&& then == before
                            &&& if value is Some {
                                given_up(e)
                            } else {
                                says_missing(e, "value"@)
                            }
                        },
                    },
                }
            },
{
}

/// What adding came to is what is given: success if something was added, that it exists if
/// nothing was, each with the key; and the failure of a failure.
pub proof fn law_add_result<T: Uid>(uid: T, added: Result<bool, InternalError>, r: AddResult<T>)
    requires
        call_ensures(add_result::<T>, (uid, added), r),
    ensures
        match (added, r) {
            (Ok(true), Ok(AddResultSuccess::Success(k))) => k == uid,
            (Ok(false), Ok(AddResultSuccess::Exists(k))) => k == uid,
            (Err(failure), Err(e)) => e == failure,
            _ => false,
        },
{
}

/// Something may be added exactly where nothing was found, whatever was found else; a failure is
/// passed on.
pub proof fn law_may_add(
    found: Result<Option<Vec<u8>>, InternalError>,
    r: Result<bool, InternalError>,
)
    requires
        call_ensures(may_add, (found,), r),
    ensures
        match (found, r) {
            (Ok(value), Ok(may)) => may <==> value is None,
            (Err(failure), Err(e)) => e == failure,
            _ => false,
        },
{
}

} // verus!
