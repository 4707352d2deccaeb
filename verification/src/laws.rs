//! Laws of reading and writing: what one operation on the database says of another.
use crate::cdn;
use crate::data_access::{
    add_spec, contains_spec, delete_spec, get_spec, requested_key, AddResultSuccess,
    DeleteResultSuccess, GetResultSuccess, KeyString, ProstMessage, Uid,
};
use crate::data_tree::{
    added_entry, copy_spec, delete_reply, get_reply, key_hash, kv_entry, text_of,
};
use crate::error_handling::{missing, ErrorModel};
use crate::key_laws::{law_names_apart, law_texts_apart};
use crate::key_order::{nothing, Contents};
use crate::pb::{
    CdnMessageModel, CdnUid, CdnValue, CopyRequestModel, CopyResp, DeleteResp, GetResp, KvEntry,
    KvEntryModel,
};
use crate::store::lookup;
use crate::wire::reads_back;
use vstd::prelude::*;
use vstd::utf8::{encode_utf8, encode_utf8_valid_utf8, valid_utf8};

verus! {

/// What was added is found.
pub proof fn law_get_after_add<W, T: Uid, U: ProstMessage<W>>(
    contents: Contents,
    key: T::V,
    value: U::V,
)
    requires
        add_spec::<W, T, U>(contents, Some(key), Some(value)).0 is Ok,
        add_spec::<W, T, U>(contents, Some(key), Some(value)).0->Ok_0 is Success,
        reads_back::<W, U>(value),
    ensures
        ({
            let then_holds = add_spec::<W, T, U>(contents, Some(key), Some(value)).1;
            &&& get_spec::<W, T, U>(then_holds, Some(key)) == Ok::<
                GetResultSuccess<T::V, U::V>,
                ErrorModel,
            >(GetResultSuccess::Success(key, value))
            &&& contains_spec::<T>(then_holds, Some(key)) == Ok::<bool, ErrorModel>(true)
        }),
{
}

/// Adding neither changes nor removes what is stored.
pub proof fn law_add_never_overwrites<W, T: Uid, U: ProstMessage<W>>(
    contents: Contents,
    key: Option<T::V>,
    value: Option<U::V>,
)
    ensures
        contents.submap_of(add_spec::<W, T, U>(contents, key, value).1),
{
}

/// Adding under a key touches no other key.
pub proof fn law_add_touches_one_key<W, T: Uid, U: ProstMessage<W>>(
    contents: Contents,
    key: T::V,
    value: Option<U::V>,
    other: Seq<u8>,
)
    requires
        requested_key::<T>(Some(key)) != Ok::<Seq<u8>, ErrorModel>(other),
    ensures
        lookup(add_spec::<W, T, U>(contents, Some(key), value).1, other) == lookup(contents, other),
{
}

/// A key that is in use can not be added under, whatever the value.
pub proof fn law_second_add_is_refused<W, T: Uid, U: ProstMessage<W>>(
    contents: Contents,
    key: T::V,
    value: U::V,
    second: U::V,
)
    requires
        requested_key::<T>(Some(key)) is Ok,
    ensures
        ({
            let then_holds = add_spec::<W, T, U>(contents, Some(key), Some(value)).1;
            add_spec::<W, T, U>(then_holds, Some(key), Some(second)) == (
                Ok::<AddResultSuccess<T::V>, ErrorModel>(AddResultSuccess::Exists(key)),
                then_holds,
            )
        }),
{
}

/// Whatever is not a success leaves the database as it was.
pub proof fn law_refusal_changes_nothing<W, T: Uid, U: ProstMessage<W>>(
    contents: Contents,
    key: Option<T::V>,
    value: Option<U::V>,
)
    ensures
        ({
            let (added, then_holds) = add_spec::<W, T, U>(contents, key, value);
            !(added matches Ok(AddResultSuccess::Success(_))) ==> then_holds == contents
        }),
        ({
            let (deleted, then_holds) = delete_spec::<T>(contents, key);
            !(deleted matches Ok(DeleteResultSuccess::Success(_))) ==> then_holds == contents
        }),
{
    let (deleted, then_holds) = delete_spec::<T>(contents, key);
    if !(deleted matches Ok(DeleteResultSuccess::Success(_))) {
        assert(then_holds =~= contents);
    }
}

/// What was removed is gone, and can not be removed again.
pub proof fn law_gone_after_delete<W, T: Uid, U: ProstMessage<W>>(contents: Contents, key: T::V)
    requires
        requested_key::<T>(Some(key)) is Ok,
    ensures
        ({
            let then_holds = delete_spec::<T>(contents, Some(key)).1;
            &&& get_spec::<W, T, U>(then_holds, Some(key)) == Ok::<
                GetResultSuccess<T::V, U::V>,
                ErrorModel,
            >(GetResultSuccess::NotFound(key))
            &&& contains_spec::<T>(then_holds, Some(key)) == Ok::<bool, ErrorModel>(false)
            &&& delete_spec::<T>(then_holds, Some(key)) == (
                Ok::<DeleteResultSuccess<T::V>, ErrorModel>(DeleteResultSuccess::NotFound(key)),
                then_holds,
            )
        }),
{
    let then_holds = delete_spec::<T>(contents, Some(key)).1;
    assert(delete_spec::<T>(then_holds, Some(key)).1 =~= then_holds);
}

/// Removing a key touches no other key.
pub proof fn law_delete_touches_one_key<T: Uid>(contents: Contents, key: T::V, other: Seq<u8>)
    requires
        requested_key::<T>(Some(key)) != Ok::<Seq<u8>, ErrorModel>(other),
    ensures
        lookup(delete_spec::<T>(contents, Some(key)).1, other) == lookup(contents, other),
{
}

/// Removing undoes adding.
pub proof fn law_delete_undoes_add<W, T: Uid, U: ProstMessage<W>>(
    contents: Contents,
    key: T::V,
    value: U::V,
)
    requires
        add_spec::<W, T, U>(contents, Some(key), Some(value)).0 is Ok,
        add_spec::<W, T, U>(contents, Some(key), Some(value)).0->Ok_0 is Success,
    ensures
        ({
            let then_holds = add_spec::<W, T, U>(contents, Some(key), Some(value)).1;
            delete_spec::<T>(then_holds, Some(key)) == (
                Ok::<DeleteResultSuccess<T::V>, ErrorModel>(DeleteResultSuccess::Success(key)),
                contents,
            )
        }),
{
    let then_holds = add_spec::<W, T, U>(contents, Some(key), Some(value)).1;
    assert(delete_spec::<T>(then_holds, Some(key)).1 =~= contents);
}

/// A key is in use exactly if looking it up does not say that it is not, and removing it
/// exactly then removes something; all three refuse the same keys.
pub proof fn law_contains_agrees<W, T: Uid, U: ProstMessage<W>>(
    contents: Contents,
    key: Option<T::V>,
)
    ensures
        ({
            let found = get_spec::<W, T, U>(contents, key);
            let deleted = delete_spec::<T>(contents, key).0;
            match contains_spec::<T>(contents, key) {
                Ok(true) => {
                    &&& !(found matches Ok(GetResultSuccess::NotFound(_)))
                    &&& deleted matches Ok(DeleteResultSuccess::Success(_))
                },
                Ok(false) => {
                    &&& found matches Ok(GetResultSuccess::NotFound(_))
                    &&& deleted matches Ok(DeleteResultSuccess::NotFound(_))
                },
                Err(e) => {
                    &&& found == Err::<GetResultSuccess<T::V, U::V>, ErrorModel>(e)
                    &&& deleted == Err::<DeleteResultSuccess<T::V>, ErrorModel>(e)
                },
            }
        }),
{
}

/// A request without a key is refused for the want of it, by every operation.
pub proof fn law_key_is_required<W, T: Uid, U: ProstMessage<W>>(
    contents: Contents,
    value: Option<U::V>,
)
    ensures
        get_spec::<W, T, U>(contents, None) == Err::<GetResultSuccess<T::V, U::V>, ErrorModel>(
            missing("uid"@),
        ),
        contains_spec::<T>(contents, None) == Err::<bool, ErrorModel>(missing("uid"@)),
        delete_spec::<T>(contents, None) == (
            Err::<DeleteResultSuccess<T::V>, ErrorModel>(missing("uid"@)),
            contents,
        ),
        add_spec::<W, T, U>(contents, None, value) == (
            Err::<AddResultSuccess<T::V>, ErrorModel>(missing("uid"@)),
            contents,
        ),
{
}

/// A request to add under a key is refused for the want of a value, if it has none.
pub proof fn law_value_is_required<W, T: Uid, U: ProstMessage<W>>(contents: Contents, key: T::V)
    requires
        requested_key::<T>(Some(key)) is Ok,
    ensures
        add_spec::<W, T, U>(contents, Some(key), None) == (
            Err::<AddResultSuccess<T::V>, ErrorModel>(missing("value"@)),
            contents,
        ),
{
}

/// An entry of the data tree reads back with its value, and on request with its metadata.
pub proof fn law_value_reads_back<W>(contents: Contents, key: Seq<char>, value: Option<Seq<u8>>)
    where KvEntry: ProstMessage<W>
    requires
        add_spec::<W, KeyString, KvEntry>(contents, Some(key), Some(kv_entry(key, value))).0 is Ok,
        add_spec::<W, KeyString, KvEntry>(
            contents,
            Some(key),
            Some(kv_entry(key, value)),
        ).0->Ok_0 is Success,
        reads_back::<W, KvEntry>(kv_entry(key, value)),
    ensures
        ({
            let then_holds = add_spec::<W, KeyString, KvEntry>(
                contents,
                Some(key),
                Some(kv_entry(key, value)),
            ).1;
            let found = get_spec::<W, KeyString, KvEntry>(then_holds, Some(key));
            &&& get_reply(found, false) == GetResp::<KvEntryModel, Seq<u8>, ErrorModel>::Success(
                KvEntryModel { metadata: None, value },
            )
            &&& get_reply(found, true) == GetResp::<KvEntryModel, Seq<u8>, ErrorModel>::Success(
                kv_entry(key, value),
            )
        }),
{
    law_get_after_add::<W, KeyString, KvEntry>(contents, key, kv_entry(key, value));
}

/// Whether metadata is asked for changes nothing but the metadata.
pub proof fn law_metadata_on_request(
    found: Result<GetResultSuccess<Seq<char>, KvEntryModel>, ErrorModel>,
)
    ensures
        match get_reply(found, true) {
            GetResp::Success(v) => get_reply(found, false) == GetResp::<
                KvEntryModel,
                Seq<u8>,
                ErrorModel,
            >::Success(KvEntryModel { metadata: None, value: v.value }),
            other => get_reply(found, false) == other,
        },
{
}

/// The hash of a key is the same wherever it is told: in the metadata of the entry, in the
/// answer to removing it, and in the answer that it is not there.
pub proof fn law_key_hash_is_stable<W>(
    contents: Contents,
    key: Seq<char>,
    value: Option<Seq<u8>>,
    return_metadata: bool,
) where KvEntry: ProstMessage<W>
    ensures
        kv_entry(key, value).metadata matches Some(m) && m.key_uid == Some(key_hash(key)),
        match delete_reply(delete_spec::<KeyString>(contents, Some(key)).0) {
            DeleteResp::Success(hash) => hash == key_hash(key),
            DeleteResp::NotFound(hash) => hash == key_hash(key),
            DeleteResp::Error(_) => false,
        },
        get_reply(get_spec::<W, KeyString, KvEntry>(contents, Some(key)), return_metadata) matches
            GetResp::NotFound(hash) ==> hash == key_hash(key),
{
}

/// What is done under one text is not noticed under another.
pub proof fn law_texts_do_not_interfere<W, U: ProstMessage<W>>(
    contents: Contents,
    key: Seq<char>,
    value: Option<U::V>,
    other: Seq<char>,
)
    requires
        key != other,
    ensures
        get_spec::<W, KeyString, U>(
            add_spec::<W, KeyString, U>(contents, Some(key), value).1,
            Some(other),
        ) == get_spec::<W, KeyString, U>(contents, Some(other)),
        get_spec::<W, KeyString, U>(
            delete_spec::<KeyString>(contents, Some(key)).1,
            Some(other),
        ) == get_spec::<W, KeyString, U>(contents, Some(other)),
{
    if KeyString::key_encoding(key) == KeyString::key_encoding(other) {
        law_texts_apart(key, other);
    }
    law_add_touches_one_key::<W, KeyString, U>(contents, key, value, encode_utf8(other));
    law_delete_touches_one_key::<KeyString>(contents, key, encode_utf8(other));
}

/// What is done under one name is not noticed under another.
pub proof fn law_names_do_not_interfere<W>(
    contents: Contents,
    key: Seq<char>,
    value: Option<Option<CdnMessageModel>>,
    other: Seq<char>,
) where CdnValue: ProstMessage<W>
    requires
        key != other,
    ensures
        get_spec::<W, CdnUid, CdnValue>(
            add_spec::<W, CdnUid, CdnValue>(contents, Some(key), value).1,
            Some(other),
        ) == get_spec::<W, CdnUid, CdnValue>(contents, Some(other)),
        get_spec::<W, CdnUid, CdnValue>(
            delete_spec::<CdnUid>(contents, Some(key)).1,
            Some(other),
        ) == get_spec::<W, CdnUid, CdnValue>(contents, Some(other)),
{
    if CdnUid::key_encoding(key) == CdnUid::key_encoding(other) {
        law_names_apart(key, other);
    }
    let bytes = requested_key::<CdnUid>(Some(other))->Ok_0;
    law_add_touches_one_key::<W, CdnUid, CdnValue>(contents, key, value, bytes);
    law_delete_touches_one_key::<CdnUid>(contents, key, bytes);
}

/// A value of the content tree reads back.
pub proof fn law_content_reads_back<W>(
    contents: Contents,
    uid: Seq<char>,
    value: Option<CdnMessageModel>,
) where CdnValue: ProstMessage<W>
    requires
        add_spec::<W, CdnUid, CdnValue>(contents, Some(uid), Some(value)).0 is Ok,
        add_spec::<W, CdnUid, CdnValue>(contents, Some(uid), Some(value)).0->Ok_0 is Success,
        reads_back::<W, CdnValue>(value),
    ensures
        ({
            let then_holds = add_spec::<W, CdnUid, CdnValue>(contents, Some(uid), Some(value)).1;
            cdn::get_reply(get_spec::<W, CdnUid, CdnValue>(then_holds, Some(uid))) == GetResp::<
                Option<CdnMessageModel>,
                Seq<char>,
                ErrorModel,
            >::Success(value)
        }),
{
    law_get_after_add::<W, CdnUid, CdnValue>(contents, uid, value);
}

/// Copying neither changes nor removes what is stored, least of all the source.
pub proof fn law_copy_never_overwrites<W>(contents: Contents, r: CopyRequestModel) where
    KvEntry: ProstMessage<W>,

    ensures
        contents.submap_of(copy_spec::<W>(contents, r).1),
{
}

/// After a copy was made, a client that asks for the copy is given the value that it is given
/// for the source, as before; and the metadata of the copy are its own.
pub proof fn law_copy_reads_as_the_source<W>(contents: Contents, r: CopyRequestModel) where
    KvEntry: ProstMessage<W>,

    requires
        copy_spec::<W>(contents, r).0 matches CopyResp::Success(_),
        get_spec::<W, KeyString, KvEntry>(contents, text_of(r.key_from)) matches Ok(
            GetResultSuccess::Success(_, v),
        ) && reads_back::<W, KvEntry>(added_entry(r.key_to, v.value)->0),
    ensures
        ({
            let then_holds = copy_spec::<W>(contents, r).1;
            let source = get_spec::<W, KeyString, KvEntry>(contents, text_of(r.key_from));
            let copy = get_spec::<W, KeyString, KvEntry>(then_holds, text_of(r.key_to));
            &&& get_spec::<W, KeyString, KvEntry>(then_holds, text_of(r.key_from)) == source
            &&& get_reply(copy, false) == get_reply(source, false)
            &&& get_reply(source, false) matches GetResp::Success(entry)
            &&& get_reply(copy, true) == GetResp::<KvEntryModel, Seq<u8>, ErrorModel>::Success(
                kv_entry(text_of(r.key_to)->0, entry.value),
            )
        }),
{
}

/// What was added under a key and copied reads under both keys as it was added.
pub proof fn law_copy_after_add<W>(
    contents: Contents,
    key: Seq<char>,
    value: Option<Seq<u8>>,
    r: CopyRequestModel,
) where KvEntry: ProstMessage<W>
    requires
        text_of(r.key_from) == Some(key),
        r.key_to is Some,
        contains_spec::<KeyString>(contents, Some(key)) == Ok::<bool, ErrorModel>(false),
        contains_spec::<KeyString>(contents, text_of(r.key_to)) == Ok::<bool, ErrorModel>(false),
        text_of(r.key_to) != Some(key),
        reads_back::<W, KvEntry>(kv_entry(key, value)),
        reads_back::<W, KvEntry>(kv_entry(text_of(r.key_to)->0, value)),
    ensures
        ({
            let (added, then_holds) = add_spec::<W, KeyString, KvEntry>(
                contents,
                Some(key),
                Some(kv_entry(key, value)),
            );
            let (answer, at_last) = copy_spec::<W>(then_holds, r);
            let given = GetResp::<KvEntryModel, Seq<u8>, ErrorModel>::Success(
                KvEntryModel { metadata: None, value },
            );
            &&& added matches Ok(AddResultSuccess::Success(_))
            &&& answer == CopyResp::<CopyRequestModel, ErrorModel>::Success(r)
            &&& get_reply(get_spec::<W, KeyString, KvEntry>(at_last, Some(key)), false) == given
            &&& get_reply(
                get_spec::<W, KeyString, KvEntry>(at_last, text_of(r.key_to)),
                false,
            ) == given
        }),
{
    let to = text_of(r.key_to)->0;
    if KeyString::key_encoding(key) == KeyString::key_encoding(to) {
        law_texts_apart(key, to);
    }
    let then_holds = add_spec::<W, KeyString, KvEntry>(
        contents,
        Some(key),
        Some(kv_entry(key, value)),
    ).1;
    law_get_after_add::<W, KeyString, KvEntry>(contents, key, kv_entry(key, value));
    law_copy_reads_as_the_source::<W>(then_holds, r);
}

/// A key that is in use is not copied onto, and so no key onto itself.
pub proof fn law_copy_onto_a_key_in_use<W>(contents: Contents, r: CopyRequestModel) where
    KvEntry: ProstMessage<W>,

    requires
        contains_spec::<KeyString>(contents, text_of(r.key_to)) == Ok::<bool, ErrorModel>(true) || (
        text_of(r.key_from) == text_of(r.key_to)),
    ensures
        copy_spec::<W>(contents, r).1 == contents,
        !(copy_spec::<W>(contents, r).0 matches CopyResp::Success(_)),
        get_spec::<W, KeyString, KvEntry>(contents, text_of(r.key_from)) matches Ok(
            GetResultSuccess::Success(_, _),
        ) ==> copy_spec::<W>(contents, r).0 == CopyResp::<
            CopyRequestModel,
            ErrorModel,
        >::ToKeyExists(r),
{
}

/// Every key is the bytes of a text.
pub open spec fn only_texts(contents: Contents) -> bool {
    forall|key: Seq<u8>| #[trigger] contents.contains_key(key) ==> valid_utf8(key)
}

/// In the data tree every key is the bytes of a text: so it is at the beginning, and every
/// operation keeps it so.
pub proof fn law_only_texts<W>(
    contents: Contents,
    key: Option<Seq<char>>,
    value: Option<KvEntryModel>,
    r: CopyRequestModel,
) where KvEntry: ProstMessage<W>
    ensures
        only_texts(nothing()),
        only_texts(contents) ==> {
            &&& only_texts(add_spec::<W, KeyString, KvEntry>(contents, key, value).1)
            &&& only_texts(copy_spec::<W>(contents, r).1)
            &&& only_texts(delete_spec::<KeyString>(contents, key).1)
        },
{
    if key is Some {
        encode_utf8_valid_utf8(key->0);
    }
    if text_of(r.key_to) is Some {
        encode_utf8_valid_utf8(text_of(r.key_to)->0);
    }
}

} // verus!
