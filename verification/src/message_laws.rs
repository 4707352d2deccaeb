//! Laws of the models of messages: messages that say the same hold the same, in every field and to
//! the last character and byte. So what is stated of what a message says is stated of all of it.
use crate::data_access::{KeyString, KeyU64};
use crate::entry_laws::{lemma_says, says_unreadable};
use crate::error_handling::{Cause, InternalError};
use crate::pb::{
    CdnKeyValue, CdnMessage, CdnUid, CdnValue, CopyRequest, Key, KeyUid, KvEntry, KvMetadata,
    SearchRequest, SearchResponseItem, ValueEntry, ValueMetadata,
};
use crate::wire::{
    bytes_field_in, bytes_value_in, key_in, skipped_in, string_field_in, string_value_in,
    ProstMessage, ProstMessageExt,
};
use vstd::prelude::*;

verus! {

/// Keys as clients write them.
pub proof fn law_same_keys(a: Key, b: Key)
    requires
        a.deep_view() == b.deep_view(),
    ensures
        a.key@ == b.key@,
        match (a.key_family, b.key_family) {
            (Some(x), Some(y)) => x.name@ == y.name@,
            (None, None) => true,
            _ => false,
        },
        match (a.uid, b.uid) {
            (Some(x), Some(y)) => x.sip@ == y.sip@,
            (None, None) => true,
            _ => false,
        },
{
    assert(a.deep_view().key_family == a.key_family.deep_view());
    assert(b.deep_view().key_family == b.key_family.deep_view());
    assert(a.deep_view().uid == a.uid.deep_view());
    assert(b.deep_view().uid == b.uid.deep_view());
}

/// Keys of a store, hashes, names and values.
pub proof fn law_same_scalars(
    numbers: (KeyU64, KeyU64),
    texts: (KeyString, KeyString),
    hashes: (KeyUid, KeyUid),
    names: (CdnUid, CdnUid),
    values: (ValueEntry, ValueEntry),
)
    ensures
        numbers.0.deep_view() == numbers.1.deep_view() ==> numbers.0.0 == numbers.1.0,
        texts.0.deep_view() == texts.1.deep_view() ==> texts.0.0@ == texts.1.0@,
        hashes.0.deep_view() == hashes.1.deep_view() ==> hashes.0.sip@ == hashes.1.sip@,
        names.0.deep_view() == names.1.deep_view() ==> names.0.message@ == names.1.message@,
        values.0.deep_view() == values.1.deep_view() ==> values.0.content@ == values.1.content@,
{
}

/// What is known of values.
pub proof fn law_same_value_metadata(a: ValueMetadata, b: ValueMetadata)
    requires
        a.deep_view() == b.deep_view(),
    ensures
        a.hashed_with == b.hashed_with,
        a.hash@ == b.hash@,
        a.compression == b.compression,
        a.size_compressed == b.size_compressed,
        a.size_full == b.size_full,
        a.serializer_id@ == b.serializer_id@,
{
}

/// What is known of entries.
pub proof fn law_same_metadata(a: KvMetadata, b: KvMetadata)
    requires
        a.deep_view() == b.deep_view(),
    ensures
        match (a.key_uid, b.key_uid) {
            (Some(x), Some(y)) => x.sip@ == y.sip@,
            (None, None) => true,
            _ => false,
        },
        a.status == b.status,
        a.expiry == b.expiry,
        a.action == b.action,
        match (a.created_by, b.created_by) {
            (Some(x), Some(y)) => x.name@ == y.name@,
            (None, None) => true,
            _ => false,
        },
        a.created_at == b.created_at,
        a.correlation_id@ == b.correlation_id@,
        a.originator_replica_id@ == b.originator_replica_id@,
        match (a.value_metadata, b.value_metadata) {
            (Some(x), Some(y)) => x.deep_view() == y.deep_view(),
            (None, None) => true,
            _ => false,
        },
{
    assert(a.deep_view().key_uid == a.key_uid.deep_view());
    assert(b.deep_view().key_uid == b.key_uid.deep_view());
    assert(a.deep_view().created_by == a.created_by.deep_view());
    assert(b.deep_view().created_by == b.created_by.deep_view());
    assert(a.deep_view().value_metadata == a.value_metadata.deep_view());
    assert(b.deep_view().value_metadata == b.value_metadata.deep_view());
}

/// Entries of the data tree.
pub proof fn law_same_entries(a: KvEntry, b: KvEntry)
    requires
        a.deep_view() == b.deep_view(),
    ensures
        match (a.value, b.value) {
            (Some(x), Some(y)) => x.content@ == y.content@,
            (None, None) => true,
            _ => false,
        },
        match (a.metadata, b.metadata) {
            (Some(x), Some(y)) => x.deep_view() == y.deep_view(),
            (None, None) => true,
            _ => false,
        },
{
    assert(a.deep_view().value == a.value.deep_view());
    assert(b.deep_view().value == b.value.deep_view());
    assert(a.deep_view().metadata == a.metadata.deep_view());
    assert(b.deep_view().metadata == b.metadata.deep_view());
}

/// Entries of the content tree: the same bytes, or as many names, each the same in its place.
pub proof fn law_same_content(a: CdnValue, b: CdnValue)
    requires
        a.deep_view() == b.deep_view(),
    ensures
        match (a.message, b.message) {
            (Some(CdnMessage::Bytes(x)), Some(CdnMessage::Bytes(y))) => x@ == y@,
            (Some(CdnMessage::Batch(x)), Some(CdnMessage::Batch(y))) => {
                &&& x.uids@.len() == y.uids@.len()
                &&& forall|i: int|
                    0 <= i < x.uids@.len() ==> (#[trigger] x.uids@[i]).message@
                        == y.uids@[i].message@
            },
            (None, None) => true,
            _ => false,
        },
{
    assert(a.deep_view() == a.message.deep_view());
    assert(b.deep_view() == b.message.deep_view());
    if a.message is Some && a.message->0 is Batch {
        let x = a.message->0->Batch_0;
        let y = b.message->0->Batch_0;
        assert(x.uids.deep_view() == y.uids.deep_view());
        assert(x.uids.deep_view().len() == x.uids@.len());
        assert(y.uids.deep_view().len() == y.uids@.len());
        assert forall|i: int| 0 <= i < x.uids@.len() implies (#[trigger] x.uids@[i]).message@
            == y.uids@[i].message@ by {
            assert(x.uids.deep_view()[i] == x.uids@[i].deep_view());
            assert(y.uids.deep_view()[i] == y.uids@[i].deep_view());
        }
    }
}

/// Values together with their names.
pub proof fn law_same_named_content(a: CdnKeyValue, b: CdnKeyValue)
    requires
        a.deep_view() == b.deep_view(),
    ensures
        match (a.key, b.key) {
            (Some(x), Some(y)) => x.message@ == y.message@,
            (None, None) => true,
            _ => false,
        },
        match (a.value, b.value) {
            (Some(x), Some(y)) => x.deep_view() == y.deep_view(),
            (None, None) => true,
            _ => false,
        },
{
    assert(a.deep_view().key == a.key.deep_view());
    assert(b.deep_view().key == b.key.deep_view());
    assert(a.deep_view().value == a.value.deep_view());
    assert(b.deep_view().value == b.value.deep_view());
}

/// Requests to copy.
pub proof fn law_same_copies(a: CopyRequest, b: CopyRequest)
    requires
        a.deep_view() == b.deep_view(),
    ensures
        match (a.key_from, b.key_from) {
            (Some(x), Some(y)) => x.deep_view() == y.deep_view(),
            (None, None) => true,
            _ => false,
        },
        match (a.key_to, b.key_to) {
            (Some(x), Some(y)) => x.deep_view() == y.deep_view(),
            (None, None) => true,
            _ => false,
        },
{
    assert(a.deep_view().key_from == a.key_from.deep_view());
    assert(b.deep_view().key_from == b.key_from.deep_view());
    assert(a.deep_view().key_to == a.key_to.deep_view());
    assert(b.deep_view().key_to == b.key_to.deep_view());
}

/// Requests to search.
pub proof fn law_same_searches(a: SearchRequest, b: SearchRequest)
    requires
        a.deep_view() == b.deep_view(),
    ensures
        a.key_prefix@ == b.key_prefix@,
        a.page == b.page,
        a.page_size == b.page_size,
        a.return_value == b.return_value,
        a.return_metadata == b.return_metadata,
{
}

/// Items that a search found.
pub proof fn law_same_items(a: SearchResponseItem, b: SearchResponseItem)
    requires
        a.deep_view() == b.deep_view(),
    ensures
        match (a.key, b.key) {
            (Some(x), Some(y)) => x.deep_view() == y.deep_view(),
            (None, None) => true,
            _ => false,
        },
        match (a.value, b.value) {
            (Some(x), Some(y)) => x.content@ == y.content@,
            (None, None) => true,
            _ => false,
        },
        match (a.metadata, b.metadata) {
            (Some(x), Some(y)) => x.deep_view() == y.deep_view(),
            (None, None) => true,
            _ => false,
        },
{
    assert(a.deep_view().key == a.key.deep_view());
    assert(b.deep_view().key == b.key.deep_view());
    assert(a.deep_view().value == a.value.deep_view());
    assert(b.deep_view().value == b.value.deep_view());
    assert(a.deep_view().metadata == a.metadata.deep_view());
    assert(b.deep_view().metadata == b.metadata.deep_view());
}

/// Errors: the same cause, with the same texts.
pub proof fn law_same_errors(a: InternalError, b: InternalError)
    requires
        a.deep_view() == b.deep_view(),
    ensures
        match (a.cause, b.cause) {
            (
                Some(Cause::MissingRequiredArgument(x)),
                Some(Cause::MissingRequiredArgument(y)),
            ) => x@ == y@,
            (
                Some(Cause::StorageValueEncodingError(x)),
                Some(Cause::StorageValueEncodingError(y)),
            ) => x == y,
            (
                Some(Cause::StorageValueDecodingError(x)),
                Some(Cause::StorageValueDecodingError(y)),
            ) => {
                &&& x.description@ == y.description@
                &&& x.stack@.len() == y.stack@.len()
                &&& forall|i: int|
                    0 <= i < x.stack@.len() ==> (#[trigger] x.stack@[i]).message@
                        == y.stack@[i].message@ && x.stack@[i].field@ == y.stack@[i].field@
            },
            (Some(Cause::StorageError(x)), Some(Cause::StorageError(y))) => x@ == y@,
            (Some(Cause::TransactionAborted(x)), Some(Cause::TransactionAborted(y))) => x@ == y@,
            (Some(Cause::KeyError(x)), Some(Cause::KeyError(y))) => x@ == y@,
            (Some(Cause::ValueError(x)), Some(Cause::ValueError(y))) => x@ == y@,
            (None, None) => true,
            _ => false,
        },
{
    if a.cause is Some && a.cause->0 is StorageValueDecodingError {
        let x = a.cause->0->StorageValueDecodingError_0;
        let y = b.cause->0->StorageValueDecodingError_0;
        assert(x.stack.deep_view() == y.stack.deep_view());
        assert(x.stack.deep_view().len() == x.stack@.len());
        assert(y.stack.deep_view().len() == y.stack@.len());
        assert forall|i: int| 0 <= i < x.stack@.len() implies (#[trigger] x.stack@[i]).message@
            == y.stack@[i].message@ && x.stack@[i].field@ == y.stack@[i].field@ by {
            assert(x.stack.deep_view()[i] == x.stack@[i].deep_view());
            assert(y.stack.deep_view()[i] == y.stack@[i].deep_view());
        }
    }
}

/// The bytes that are kept for a message read back as it, and bytes read as the message that is in
/// them, or are refused with what is wrong with them.
pub proof fn law_messages_and_bytes<W, M: ProstMessage<W>>(
    message: M,
    bytes: Result<Vec<u8>, InternalError>,
    given: Vec<u8>,
    read: Result<M, InternalError>,
)
    requires
        call_ensures(<M as ProstMessageExt<W>>::to_bytes, (&message,), bytes),
        call_ensures(<M as ProstMessageExt<W>>::from_bytes, (&given,), read),
    ensures
        bytes is Ok,
        M::decoding(bytes->Ok_0@) == Ok::<M::V, Seq<char>>(message.deep_view()),
        match (M::decoding(given@), read) {
            (Ok(there), Ok(message)) => message.deep_view() == there,
            (Err(why), Err(e)) => says_unreadable(e, why),
            _ => false,
        },
{
    if read is Err {
        lemma_says(read->Err_0);
    }
}

/// A name reads as the text in its bytes, and a hash as the byte string in them; both are empty
/// where there are no bytes.
pub proof fn law_one_field_messages_are_read<W>(
    bytes: Vec<u8>,
    name: Result<CdnUid, String>,
    hash: Result<KeyUid, String>,
)
    requires
        call_ensures(<CdnUid as ProstMessage<W>>::decode_message, (&bytes,), name),
        call_ensures(<KeyUid as ProstMessage<W>>::decode_message, (&bytes,), hash),
    ensures
        match (string_value_in(bytes@, Seq::empty(), "CdnUid"@, "message"@), name) {
            (Ok(text), Ok(uid)) => uid.message@ == text,
            (Err(why), Err(description)) => description@ == why,
            _ => false,
        },
        match (bytes_value_in(bytes@, Seq::empty(), "KeyUid"@, "sip"@), hash) {
            (Ok(value), Ok(uid)) => uid.sip@ == value,
            (Err(why), Err(description)) => description@ == why,
            _ => false,
        },
        bytes@.len() == 0 ==> (name matches Ok(uid) && uid.message@.len() == 0),
        bytes@.len() == 0 ==> (hash matches Ok(uid) && uid.sip@.len() == 0),
{
}

/// A text is read field by field: a field one replaces what was read before it, any other field
/// changes nothing, and what is wrong with the first field that is wrong is what is wrong with
/// all.
pub proof fn law_text_is_read_by_fields(
    bytes: Seq<u8>,
    text: Seq<char>,
    message: Seq<char>,
    field: Seq<char>,
)
    requires
        bytes.len() > 0,
    ensures
        key_in(bytes) matches Err(why) ==> string_value_in(bytes, text, message, field) == Err::<
            Seq<char>,
            Seq<char>,
        >(why),
        key_in(bytes) matches Ok((tag, wire_type, rest)) ==> {
            &&& tag == 1 ==> match string_field_in(wire_type, rest, message, field) {
                Err(why) => string_value_in(bytes, text, message, field) == Err::<
                    Seq<char>,
                    Seq<char>,
                >(why),
                Ok((value, more)) => more.len() < bytes.len() ==> string_value_in(
                    bytes,
                    text,
                    message,
                    field,
                ) == string_value_in(more, value, message, field),
            }
            &&& tag != 1 ==> match skipped_in(wire_type, tag, rest) {
                Err(why) => string_value_in(bytes, text, message, field) == Err::<
                    Seq<char>,
                    Seq<char>,
                >(why),
                Ok(more) => more.len() < bytes.len() ==> string_value_in(
                    bytes,
                    text,
                    message,
                    field,
                ) == string_value_in(more, text, message, field),
            }
        },
{
}

/// A byte string is read field by field, in the same way.
pub proof fn law_bytes_are_read_by_fields(
    bytes: Seq<u8>,
    value: Seq<u8>,
    message: Seq<char>,
    field: Seq<char>,
)
    requires
        bytes.len() > 0,
    ensures
        key_in(bytes) matches Err(why) ==> bytes_value_in(bytes, value, message, field) == Err::<
            Seq<u8>,
            Seq<char>,
        >(why),
        key_in(bytes) matches Ok((tag, wire_type, rest)) ==> {
            &&& tag == 1 ==> match bytes_field_in(wire_type, rest, message, field) {
                Err(why) => bytes_value_in(bytes, value, message, field) == Err::<
                    Seq<u8>,
                    Seq<char>,
                >(why),
                Ok((new, more)) => more.len() < bytes.len() ==> bytes_value_in(
                    bytes,
                    value,
                    message,
                    field,
                ) == bytes_value_in(more, new, message, field),
            }
            &&& tag != 1 ==> match skipped_in(wire_type, tag, rest) {
                Err(why) => bytes_value_in(bytes, value, message, field) == Err::<
                    Seq<u8>,
                    Seq<char>,
                >(why),
                Ok(more) => more.len() < bytes.len() ==> bytes_value_in(
                    bytes,
                    value,
                    message,
                    field,
                ) == bytes_value_in(more, value, message, field),
            }
        },
{
}

/// The name as it is shown to people is the name, all of it, behind a word.
pub proof fn law_display(uid: CdnUid, shown: String)
    requires
        call_ensures(CdnUid::display, (&uid,), shown),
    ensures
        shown@.len() == 5 + uid.message@.len(),
        shown@.take(5) == seq!['U', 'i', 'd', ':', ' '],
        shown@.skip(5) == uid.message@,
{
    reveal_strlit("Uid: ");
    assert("Uid: "@ =~= seq!['U', 'i', 'd', ':', ' ']);
    assert(shown@.take(5) =~= "Uid: "@);
    assert(shown@.skip(5) =~= uid.message@);
}

} // verus!
