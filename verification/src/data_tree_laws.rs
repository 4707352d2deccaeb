//! Laws of the data tree: what the answer to a request says of what is stored, and what a request
//! changes.
//!
//! The laws speak of calls of the service itself, of the bytes that the tree holds under the bytes
//! of a key before and after them, and of what those bytes read as.
use crate::data_access::{
    AddResult, AddResultSuccess, DeleteResult, DeleteResultSuccess, GetResult, GetResultSuccess,
    KeyString,
};
use crate::data_tree::{
    add_response, build_kv_entry, contains_response, copied_response, copy_source, delete_response,
    get_response, hasher, key_hash, sip24, to_key_uid, DataTreeServer,
};
use crate::entry_laws::{
    lemma_number_in, lemma_says, number_in, says_missing, says_unreadable,
};
use crate::error_handling::{ErrorModel, InternalError};
use crate::pb::{
    AddRequest, AddResp, AddResponse, ContainsRequest, ContainsResp, ContainsResponse, CopyRequest,
    CopyRequestModel, CopyResp, CopyResponse, DeleteRequest, DeleteResp, DeleteResponse, GetRequest, GetResp,
    GetResponse, Key, KeyUid, KvEntry, KvEntryModel, KvMetadataModel, ValueEntry,
};
use crate::store::{given_up, reported};
use crate::wire::ProstMessage;
use vstd::prelude::*;
use vstd::utf8::encode_utf8;

verus! {

/// `hash` is the hash of the text `key`: eight bytes, which as a number are its SipHash.
pub open spec fn is_hash(hash: Seq<u8>, key: Seq<char>) -> bool {
    &&& hash.len() == 8
    &&& number_in(hash) == sip24(encode_utf8(key))
}

/// `key` is the text `text` and nothing else.
pub open spec fn is_bare(key: Key, text: Seq<char>) -> bool {
    key.key@ == text && key.key_family is None && key.uid is None
}

/// `metadata` is what is known of an entry that was just added under `key`.
pub open spec fn is_new_under(metadata: Option<KvMetadataModel>, key: Seq<char>) -> bool {
    &&& metadata matches Some(m)
    &&& m.key_uid matches Some(hash) && is_hash(hash, key)
    &&& m.status == 0 && m.action == 0
    &&& m.expiry is None && m.created_by is None && m.created_at is None
    &&& m.correlation_id == "####"@ && m.originator_replica_id == "0"@
    &&& m.value_metadata matches Some(v)
    &&& v.hashed_with == 0 && v.compression == 0
    &&& v.hash == seq![1u8, 2u8, 3u8]
    &&& v.size_compressed == 10 && v.size_full == 12
    &&& v.serializer_id == "TBD"@
}

/// The hash of `key` is what it is said to be.
proof fn lemma_hash(key: Seq<char>)
    ensures
        is_hash(key_hash(key), key),
{
    lemma_number_in(sip24(encode_utf8(key)));
}

/// The hash of a text, by itself and as a message, is eight bytes, which as a number are its
/// SipHash. So equal texts have equal hashes.
pub proof fn law_hash(k: KeyString, bytes: Vec<u8>, uid: KeyUid)
    requires
        call_ensures(hasher, (&k,), bytes),
        call_ensures(to_key_uid, (&k,), uid),
    ensures
        is_hash(bytes@, k.0@),
        is_hash(uid.sip@, k.0@),
        bytes@ == uid.sip@,
{
    lemma_hash(k.0@);
}

/// What is built for a value under a key is an entry with that value, marked as new under that
/// key, together with the text of the key and its hash; and nothing is built without a key.
pub proof fn law_built_entry(
    k: Option<Key>,
    v: Option<ValueEntry>,
    built: Option<(KvEntry, KeyString, KeyUid)>,
)
    requires
        call_ensures(build_kv_entry, (k, v), built),
    ensures
        built is Some <==> k is Some,
        built matches Some((entry, key, uid)) ==> {
            &&& key.0@ == k->0.key@
            &&& is_hash(uid.sip@, k->0.key@)
            &&& is_new_under(entry.metadata.deep_view(), k->0.key@)
            &&& match (v, entry.value) {
                (Some(given), Some(kept)) => kept.content@ == given.content@,
                (None, None) => true,
                _ => false,
            }
        },
{
    if k is Some {
        lemma_hash(k->0.key@);
        let (entry, _, _) = built->0;
        assert(entry.deep_view().metadata == entry.metadata.deep_view());
        assert(entry.deep_view().value == entry.value.deep_view());
    }
}

/// The answer to a request for an entry says that the key is not there exactly if the key is not
/// in use, unless the storage engine failed, and then gives its hash; an entry is given only for a
/// key that is in use.
pub proof fn law_get_tells_if_in_use<W>(server: DataTreeServer, r: GetRequest, resp: GetResponse)
    where KvEntry: ProstMessage<W>
    requires
        call_ensures(DataTreeServer::get::<W>, (&server, r), resp),
        r.key is Some,
    ensures
        resp.resp matches Some(GetResp::NotFound(hash)) ==> {
            &&& !server@.contains_key(encode_utf8(r.key->0.key@))
            &&& is_hash(hash.sip@, r.key->0.key@)
        },
        resp.resp matches Some(GetResp::Success(_)) ==> server@.contains_key(
            encode_utf8(r.key->0.key@),
        ),
        !server@.contains_key(encode_utf8(r.key->0.key@)) ==> {
            ||| resp.resp matches Some(GetResp::NotFound(_))
            ||| resp.resp matches Some(GetResp::Error(e)) && reported(e)
        },
{
    lemma_hash(r.key->0.key@);
}

/// The entry that is given for a key is the one that is stored under it, with its value, and with
/// its metadata exactly if they were asked for. It is given whenever what is stored can be read,
/// unless the storage engine failed.
pub proof fn law_get_gives_what_is_stored<W>(
    server: DataTreeServer,
    r: GetRequest,
    resp: GetResponse,
    stored: KvEntryModel,
) where KvEntry: ProstMessage<W>
    requires
        call_ensures(DataTreeServer::get::<W>, (&server, r), resp),
        r.key is Some,
        server@.contains_key(encode_utf8(r.key->0.key@)),
        <KvEntry as ProstMessage<W>>::decoding(server@[encode_utf8(r.key->0.key@)]) == Ok::<
            KvEntryModel,
            Seq<char>,
        >(stored),
    ensures
        ({
            ||| {
                &&& resp.resp matches Some(GetResp::Success(given))
                &&& given.value.deep_view() == stored.value
                &&& given.metadata.deep_view() == if r.return_metadata {
                    stored.metadata
                } else {
                    None
                }
            }
            ||| resp.resp matches Some(GetResp::Error(e)) && reported(e)
        }),
{
    if resp.resp is Some && resp.resp->0 is Success {
        let given = resp.resp->0->Success_0;
        assert(given.deep_view().value == given.value.deep_view());
        assert(given.deep_view().metadata == given.metadata.deep_view());
    }
}

/// An error is answered to a request for an entry only for the want of a key, for stored bytes that
/// cannot be read, or for a failure that the storage engine reported; and a request without a key
/// or for such bytes is answered with an error.
pub proof fn law_get_error<W>(server: DataTreeServer, r: GetRequest, resp: GetResponse) where
    KvEntry: ProstMessage<W>,

    requires
        call_ensures(DataTreeServer::get::<W>, (&server, r), resp),
    ensures
        r.key is None ==> (resp.resp matches Some(GetResp::Error(e)) && says_missing(e, "uid"@)),
        r.key is Some && server@.contains_key(encode_utf8(r.key->0.key@)) ==> (<KvEntry as
            ProstMessage<W>>::decoding(server@[encode_utf8(r.key->0.key@)]) matches Err(why) ==> (
        resp.resp matches Some(GetResp::Error(e)) && (says_unreadable(e, why) || reported(e)))),
{
    if resp.resp is Some && resp.resp->0 is Error {
        let e = resp.resp->0->Error_0;
        assert(resp.deep_view() == Some(
            GetResp::<KvEntryModel, Seq<u8>, ErrorModel>::Error(e.deep_view()),
        ));
        lemma_says(e);
    }
}

/// The answer to the question whether a key is in use is yes exactly if something is stored under
/// it. An error is answered only for the want of a key or for a failure that the storage engine
/// reported.
pub proof fn law_contains_answer(
    server: DataTreeServer,
    r: ContainsRequest,
    resp: ContainsResponse,
)
    requires
        call_ensures(DataTreeServer::contains, (&server, r), resp),
    ensures
        resp.resp is Some,
        r.key is None ==> (resp.resp->0 matches ContainsResp::Error(e) && says_missing(e, "uid"@)),
        r.key matches Some(k) ==> match resp.resp->0 {
            ContainsResp::Success(found) => found == server@.contains_key(encode_utf8(k.key@)),
            ContainsResp::Error(e) => reported(e),
        },
{
}

/// The answer to a request to remove is success exactly if the key was in use, and that it is not
/// there exactly if it was not, each with the hash of the key; afterwards the key is not in use,
/// and under every other key there is what there was. An error is answered only for the want of
/// a key, and then nothing changes, or for a failure that the storage engine reported.
pub proof fn law_delete_answer()
    ensures
        forall|server: &mut DataTreeServer, r: DeleteRequest, resp: DeleteResponse| #[trigger]
            call_ensures(DataTreeServer::delete, (server, r), resp) ==> {
                let before = (*server)@;
                let then = (*final(server))@;
                &&& resp.resp is Some
                &&& r.key is None ==> {
                    &&& resp.resp->0 matches DeleteResp::Error(e) && says_missing(e, "uid"@)
                    &&& then == before
                }
                &&& r.key matches Some(k) ==> match resp.resp->0 {
                    DeleteResp::Success(hash) => {
                        &&& before.contains_key(encode_utf8(k.key@))
                        &&& then == before.remove(encode_utf8(k.key@))
                        &&& is_hash(hash.sip@, k.key@)
                    },
                    DeleteResp::NotFound(hash) => {
                        &&& !before.contains_key(encode_utf8(k.key@))
                        &&& then == before
                        &&& is_hash(hash.sip@, k.key@)
                    },
                    DeleteResp::Error(e) => reported(e),
                }
            },
{
    assert forall|server: &mut DataTreeServer, r: DeleteRequest, resp: DeleteResponse|
        #[trigger] call_ensures(DataTreeServer::delete, (server, r), resp) && r.key matches Some(
            k,
        ) implies match resp.resp->0 {
        DeleteResp::Success(hash) => {
            &&& (*server)@.contains_key(encode_utf8(r.key->0.key@))
            &&& (*final(server))@ == (*server)@.remove(encode_utf8(r.key->0.key@))
            &&& is_hash(hash.sip@, r.key->0.key@)
        },
        DeleteResp::NotFound(hash) => {
            &&& !(*server)@.contains_key(encode_utf8(r.key->0.key@))
            &&& (*final(server))@ == (*server)@
            &&& is_hash(hash.sip@, r.key->0.key@)
        },
        DeleteResp::Error(e) => reported(e),
    } by {
        lemma_hash(r.key->0.key@);
        let bytes = encode_utf8(r.key->0.key@);
        if !(*server)@.contains_key(bytes) {
            assert((*server)@.remove(bytes) =~= (*server)@);
        }
    }
}

/// The answer to a request to add is success exactly if the key was not in use, and that it exists
/// exactly if it was, each with the text of the key. After a success the key is in use, what is
/// stored there reads as an entry with the value that was given, marked as new under that key,
/// and under every other key there is what there was; when the key exists, nothing changes. An
/// error is answered only for the want of a key, and then nothing changes, or for a transaction
/// that the storage engine gave up.
pub proof fn law_add_answer<W>() where KvEntry: ProstMessage<W>
    ensures
        forall|server: &mut DataTreeServer, r: AddRequest, resp: AddResponse| #[trigger]
            call_ensures(DataTreeServer::add::<W>, (server, r), resp) ==> {
                let before = (*server)@;
                let then = (*final(server))@;
                &&& resp.resp is Some
                &&& r.key is None ==> {
                    &&& resp.resp->0 matches AddResp::Error(e) && says_missing(e, "uid"@)
                    &&& then == before
                }
                &&& r.key matches Some(k) ==> {
                    let bytes = encode_utf8(k.key@);
                    match resp.resp->0 {
                        AddResp::Success(key) => {
                            &&& !before.contains_key(bytes)
                            &&& is_bare(key, k.key@)
                            &&& then == before.insert(bytes, then[bytes])
                            &&& <KvEntry as ProstMessage<W>>::decoding(then[bytes]) matches Ok(
                                stored,
                            )
                            &&& stored.value == r.value.deep_view()
                            &&& is_new_under(stored.metadata, k.key@)
                        },
                        AddResp::Exists(key) => {
                            &&& before.contains_key(bytes)
                            &&& is_bare(key, k.key@)
                            &&& then == before
                        },
                        AddResp::Error(e) => given_up(e),
                    }
                }
            },
{
    assert forall|server: &mut DataTreeServer, r: AddRequest, resp: AddResponse| #[trigger]
        call_ensures(DataTreeServer::add::<W>, (server, r), resp) && r.key is Some implies {
        let before = (*server)@;
        let then = (*final(server))@;
        let k = r.key->0;
        let bytes = encode_utf8(k.key@);
        match resp.resp->0 {
            AddResp::Success(key) => {
                &&& !before.contains_key(bytes)
                &&& is_bare(key, k.key@)
                &&& then == before.insert(bytes, then[bytes])
                &&& <KvEntry as ProstMessage<W>>::decoding(then[bytes]) matches Ok(stored)
                &&& stored.value == r.value.deep_view()
                &&& is_new_under(stored.metadata, k.key@)
            },
            AddResp::Exists(key) => {
                &&& before.contains_key(bytes)
                &&& is_bare(key, k.key@)
                &&& then == before
            },
            AddResp::Error(e) => given_up(e),
        }
    } by {
        lemma_hash(r.key->0.key@);
    }
}

/// Whatever the two keys are, a request to copy is answered with that there is no source, with the
/// request, exactly if the source is not in use, unless the storage engine failed; and then
/// nothing changes.
pub proof fn law_copy_without_a_source<W>() where KvEntry: ProstMessage<W>
    ensures
        forall|server: &mut DataTreeServer, r: CopyRequest, resp: CopyResponse|
            #![trigger call_ensures(DataTreeServer::copy::<W>, (server, r), resp)]
            call_ensures(DataTreeServer::copy::<W>, (server, r), resp) && r.key_from is Some ==> {
                let before = (*server)@;
                let from = encode_utf8(r.key_from->0.key@);
                &&& resp.resp matches Some(CopyResp::FromKeyNotFound(asked)) ==> {
                    &&& !before.contains_key(from)
                    &&& asked.deep_view() == r.deep_view()
                }
                &&& !before.contains_key(from) ==> {
                    &&& (*final(server))@ == before
                    &&& {
                        ||| resp.resp matches Some(CopyResp::FromKeyNotFound(_))
                        ||| resp.resp matches Some(CopyResp::Error(e)) && reported(e)
                    }
                }
            },
{
}

/// A request to copy is answered with that the target exists, with the request, exactly if the
/// source reads as an entry and the target is in use, unless the storage engine failed or gave
/// up; and then nothing changes.
pub proof fn law_copy_onto_what_exists<W>() where KvEntry: ProstMessage<W>
    ensures
        forall|server: &mut DataTreeServer, r: CopyRequest, resp: CopyResponse|
            #![trigger call_ensures(DataTreeServer::copy::<W>, (server, r), resp)]
            call_ensures(DataTreeServer::copy::<W>, (server, r), resp) && r.key_from is Some
                && r.key_to is Some ==> {
                let before = (*server)@;
                let from = encode_utf8(r.key_from->0.key@);
                let to = encode_utf8(r.key_to->0.key@);
                let readable = before.contains_key(from) && <KvEntry as ProstMessage<W>>::decoding(
                    before[from],
                ) is Ok;
                &&& resp.resp matches Some(CopyResp::ToKeyExists(asked)) ==> {
                    &&& readable && before.contains_key(to)
                    &&& asked.deep_view() == r.deep_view()
                    &&& (*final(server))@ == before
                }
                &&& readable && before.contains_key(to) ==> {
                    ||| resp.resp matches Some(CopyResp::ToKeyExists(_))
                    ||| resp.resp matches Some(CopyResp::Error(e)) && (reported(e) || given_up(e))
                }
            },
{
}

/// A copy is made exactly if the source reads as an entry and the target is not in use, unless the
/// storage engine failed or gave up. Then what is stored under the target reads as an entry with
/// the value of the source, marked as new under the target, and under every other key there is
/// what there was.
pub proof fn law_copy_is_made<W>() where KvEntry: ProstMessage<W>
    ensures
        forall|server: &mut DataTreeServer, r: CopyRequest, resp: CopyResponse|
            #![trigger call_ensures(DataTreeServer::copy::<W>, (server, r), resp)]
            call_ensures(DataTreeServer::copy::<W>, (server, r), resp) && r.key_from is Some
                && r.key_to is Some ==> {
                let before = (*server)@;
                let then = (*final(server))@;
                let from = encode_utf8(r.key_from->0.key@);
                let to = encode_utf8(r.key_to->0.key@);
                let read = <KvEntry as ProstMessage<W>>::decoding(before[from]);
                &&& resp.resp matches Some(CopyResp::Success(asked)) ==> {
                    &&& before.contains_key(from) && !before.contains_key(to)
                    &&& asked.deep_view() == r.deep_view()
                    &&& then == before.insert(to, then[to])
                    &&& read matches Ok(source)
                    &&& <KvEntry as ProstMessage<W>>::decoding(then[to]) matches Ok(stored)
                    &&& stored.value == source.value
                    &&& is_new_under(stored.metadata, r.key_to->0.key@)
                }
                &&& before.contains_key(from) && read is Ok && !before.contains_key(to) ==> {
                    ||| resp.resp matches Some(CopyResp::Success(_))
                    ||| resp.resp matches Some(CopyResp::Error(e)) && (reported(e) || given_up(e))
                }
            },
{
    assert forall|server: &mut DataTreeServer, r: CopyRequest, resp: CopyResponse| #[trigger]
        call_ensures(DataTreeServer::copy::<W>, (server, r), resp) && r.key_from is Some
            && r.key_to is Some && (resp.resp matches Some(CopyResp::Success(_))) implies {
        let before = (*server)@;
        let then = (*final(server))@;
        let from = encode_utf8(r.key_from->0.key@);
        let to = encode_utf8(r.key_to->0.key@);
        let read = <KvEntry as ProstMessage<W>>::decoding(before[from]);
        &&& before.contains_key(from) && !before.contains_key(to)
        &&& then == before.insert(to, then[to])
        &&& read matches Ok(source)
        &&& <KvEntry as ProstMessage<W>>::decoding(then[to]) matches Ok(stored)
        &&& stored.value == source.value
        &&& is_new_under(stored.metadata, r.key_to->0.key@)
    } by {
        lemma_hash(r.key_to->0.key@);
    }
}

/// A request to copy that lacks a key is not carried out: without the key of the source, or with a
/// source that reads as an entry and without the key of the target, it is answered with that a
/// key is missing, and nothing changes.
pub proof fn law_copy_without_a_key<W>() where KvEntry: ProstMessage<W>
    ensures
        forall|server: &mut DataTreeServer, r: CopyRequest, resp: CopyResponse|
            #![trigger call_ensures(DataTreeServer::copy::<W>, (server, r), resp)]
            call_ensures(DataTreeServer::copy::<W>, (server, r), resp) && (r.key_from is None
                || r.key_to is None) ==> {
                let before = (*server)@;
                let from = encode_utf8(r.key_from->0.key@);
                let read = <KvEntry as ProstMessage<W>>::decoding(before[from]);
                &&& (*final(server))@ == before
                &&& r.key_from is None ==> (resp.resp matches Some(CopyResp::Error(e))
                    && says_missing(e, "uid"@))
                &&& r.key_from is Some && before.contains_key(from) && read is Ok ==> {
                    &&& resp.resp matches Some(CopyResp::Error(e))
                    &&& says_missing(e, "uid"@) || reported(e)
                }
            },
{
}

/// A source that is in use but cannot be read is not copied: the answer says so, or tells of a
/// failure that the storage engine reported, and nothing changes.
pub proof fn law_copy_of_what_is_unreadable<W>() where KvEntry: ProstMessage<W>
    ensures
        forall|server: &mut DataTreeServer, r: CopyRequest, resp: CopyResponse|
            #![trigger call_ensures(DataTreeServer::copy::<W>, (server, r), resp)]
            call_ensures(DataTreeServer::copy::<W>, (server, r), resp) && r.key_from is Some ==> {
                let before = (*server)@;
                let from = encode_utf8(r.key_from->0.key@);
                before.contains_key(from) ==> (<KvEntry as ProstMessage<W>>::decoding(
                    before[from],
                ) matches Err(why) ==> {
                    &&& (*final(server))@ == before
                    &&& resp.resp matches Some(CopyResp::Error(e))
                    &&& says_unreadable(e, why) || reported(e)
                })
            },
{
    assert forall|server: &mut DataTreeServer, r: CopyRequest, resp: CopyResponse| #[trigger]
        call_ensures(DataTreeServer::copy::<W>, (server, r), resp) && r.key_from is Some
            && (*server)@.contains_key(encode_utf8(r.key_from->0.key@)) && <KvEntry as
            ProstMessage<W>>::decoding((*server)@[encode_utf8(r.key_from->0.key@)]) is Err implies {
        &&& (*final(server))@ == (*server)@
        &&& resp.resp matches Some(CopyResp::Error(e))
        &&& {
            ||| says_unreadable(
                e,
                <KvEntry as ProstMessage<W>>::decoding(
                    (*server)@[encode_utf8(r.key_from->0.key@)],
                )->Err_0,
            )
            ||| reported(e)
        }
    } by {
        let e = resp.resp->0->Error_0;
        assert(resp.deep_view() == Some(
            CopyResp::<CopyRequestModel, ErrorModel>::Error(e.deep_view()),
        ));
        lemma_says(e);
    }
}

/// What a request to remove came to is what the answer says: success for what was removed, that
/// it is not there for what was not, each with the hash of the key, and the error for an error.
pub proof fn law_delete_response(deleted: DeleteResult<KeyString>, resp: DeleteResponse)
    requires
        call_ensures(delete_response, (deleted,), resp),
    ensures
        match (deleted, resp.resp) {
            (Ok(DeleteResultSuccess::Success(k)), Some(DeleteResp::Success(hash))) => is_hash(
                hash.sip@,
                k.0@,
            ),
            (Ok(DeleteResultSuccess::NotFound(k)), Some(DeleteResp::NotFound(hash))) => is_hash(
                hash.sip@,
                k.0@,
            ),
            (Err(e), Some(DeleteResp::Error(told))) => told == e,
            _ => false,
        },
{
    match deleted {
        Ok(DeleteResultSuccess::Success(k)) => lemma_hash(k.0@),
        Ok(DeleteResultSuccess::NotFound(k)) => lemma_hash(k.0@),
        Err(_) => {},
    }
}

/// What a request for an entry came to is what the answer says: the entry that was found, with its
/// value, and with its metadata exactly if they were asked for; that it is not there, with the
/// hash of the key, for what was not found; and the error for an error.
pub proof fn law_get_response(
    found: GetResult<KeyString, KvEntry>,
    return_metadata: bool,
    resp: GetResponse,
)
    requires
        call_ensures(get_response, (found, return_metadata), resp),
    ensures
        match (found, resp.resp) {
            (Ok(GetResultSuccess::Success(_, v)), Some(GetResp::Success(given))) => {
                &&& given.value.deep_view() == v.value.deep_view()
                &&& return_metadata ==> given.metadata.deep_view() == v.metadata.deep_view()
                &&& !return_metadata ==> given.metadata is None
            },
            (Ok(GetResultSuccess::NotFound(k)), Some(GetResp::NotFound(hash))) => is_hash(
                hash.sip@,
                k.0@,
            ),
            (Err(e), Some(GetResp::Error(told))) => told == e,
            _ => false,
        },
{
    match found {
        Ok(GetResultSuccess::Success(_, v)) => {
            let given = resp.resp->0->Success_0;
            assert(given.deep_view().value == given.value.deep_view());
            assert(given.deep_view().metadata == given.metadata.deep_view());
            assert(v.deep_view().value == v.value.deep_view());
            assert(v.deep_view().metadata == v.metadata.deep_view());
        },
        Ok(GetResultSuccess::NotFound(k)) => lemma_hash(k.0@),
        Err(_) => {},
    }
}

/// What a request to add came to is what the answer says: success for what was added, that it
/// exists for what was there, each with the text of the key, and the error for an error.
pub proof fn law_add_response(added: AddResult<KeyString>, resp: AddResponse)
    requires
        call_ensures(add_response, (added,), resp),
    ensures
        match (added, resp.resp) {
            (Ok(AddResultSuccess::Success(k)), Some(AddResp::Success(key))) => is_bare(key, k.0@),
            (Ok(AddResultSuccess::Exists(k)), Some(AddResp::Exists(key))) => is_bare(key, k.0@),
            (Err(e), Some(AddResp::Error(told))) => told == e,
            _ => false,
        },
{
}

/// What the question whether a key is in use came to is what the answer says.
pub proof fn law_contains_response(found: Result<bool, InternalError>, resp: ContainsResponse)
    requires
        call_ensures(contains_response, (found,), resp),
    ensures
        match (found, resp.resp) {
            (Ok(v), Some(ContainsResp::Success(told))) => told == v,
            (Err(e), Some(ContainsResp::Error(told))) => told == e,
            _ => false,
        },
{
}

/// What adding a copy came to is what the answer says: success for what was added, that the target
/// exists for what was there, each with the request, and the error for an error.
pub proof fn law_copied_response(
    r: CopyRequest,
    added: AddResult<KeyString>,
    resp: CopyResponse,
)
    requires
        call_ensures(copied_response, (r, added), resp),
    ensures
        match (added, resp.resp) {
            (Ok(AddResultSuccess::Success(_)), Some(CopyResp::Success(asked))) => asked.deep_view()
                == r.deep_view(),
            (Ok(AddResultSuccess::Exists(_)), Some(CopyResp::ToKeyExists(asked))) =>
                asked.deep_view() == r.deep_view(),
            (Err(e), Some(CopyResp::Error(told))) => told == e,
            _ => false,
        },
{
}

/// A copy goes on exactly if the source was found, and then with the value of the source; a source
/// that was not found is answered as such, with the request, and an error with the error.
pub proof fn law_copy_source(
    r: CopyRequest,
    found: GetResult<KeyString, KvEntry>,
    source: Result<(CopyRequest, Option<ValueEntry>), CopyResponse>,
)
    requires
        call_ensures(copy_source, (r, found), source),
    ensures
        match (found, source) {
            (Ok(GetResultSuccess::Success(_, v)), Ok((asked, value))) => asked == r && value
                == v.value,
            (Ok(GetResultSuccess::NotFound(_)), Err(resp)) => resp.resp matches Some(
                CopyResp::FromKeyNotFound(asked),
            ) && asked.deep_view() == r.deep_view(),
            (Err(e), Err(resp)) => resp.resp == Some(
                CopyResp::<CopyRequest, InternalError>::Error(e),
            ),
            _ => false,
        },
{
}

/// What was added is given: after a success, asking for the key, in whatever family and with
/// whatever hash it is written, gives the value byte for byte, until the tree changes. Only a failure that the storage engine reported is answered else.
pub proof fn law_added_is_given<W>() where KvEntry: ProstMessage<W>
    ensures
        forall|
            server: &mut DataTreeServer,
            added: AddRequest,
            answer: AddResponse,
            later: DataTreeServer,
            asked: GetRequest,
            resp: GetResponse,
        |
            #![trigger
                call_ensures(DataTreeServer::add::<W>, (server, added), answer),
                call_ensures(DataTreeServer::get::<W>, (&later, asked), resp)]
            {
                &&& call_ensures(DataTreeServer::add::<W>, (server, added), answer)
                &&& answer.resp matches Some(AddResp::Success(_))
                &&& later@ == (*final(server))@
                &&& call_ensures(DataTreeServer::get::<W>, (&later, asked), resp)
                &&& added.key is Some && asked.key is Some
                &&& asked.key->0.key@ == added.key->0.key@
            } ==> {
                ||| {
                    &&& resp.resp matches Some(GetResp::Success(given))
                    &&& match (given.value, added.value) {
                        (Some(x), Some(y)) => x.content@ == y.content@,
                        (None, None) => true,
                        _ => false,
                    }
                }
                ||| resp.resp matches Some(GetResp::Error(e)) && reported(e)
            },
{
    law_add_answer::<W>();
    assert forall|
        server: &mut DataTreeServer,
        added: AddRequest,
        answer: AddResponse,
        later: DataTreeServer,
        asked: GetRequest,
        resp: GetResponse,
    |
        #![trigger
            call_ensures(DataTreeServer::add::<W>, (server, added), answer),
            call_ensures(DataTreeServer::get::<W>, (&later, asked), resp)]
        {
            &&& call_ensures(DataTreeServer::add::<W>, (server, added), answer)
            &&& answer.resp matches Some(AddResp::Success(_))
            &&& later@ == (*final(server))@
            &&& call_ensures(DataTreeServer::get::<W>, (&later, asked), resp)
            &&& added.key is Some && asked.key is Some
            &&& asked.key->0.key@ == added.key->0.key@
        } implies {
        ||| {
            &&& resp.resp matches Some(GetResp::Success(given))
            &&& match (given.value, added.value) {
                (Some(x), Some(y)) => x.content@ == y.content@,
                (None, None) => true,
                _ => false,
            }
        }
        ||| resp.resp matches Some(GetResp::Error(e)) && reported(e)
    } by {
        let bytes = encode_utf8(asked.key->0.key@);
        let stored = <KvEntry as ProstMessage<W>>::decoding(later@[bytes])->Ok_0;
        assert((*final(server))@.contains_key(bytes));
        law_get_gives_what_is_stored::<W>(later, asked, resp, stored);
    }
}

/// What was removed is gone: whatever was answered to the removal, if it was not an error, the key
/// is not there any more for those who ask.
pub proof fn law_deleted_is_gone<W>() where KvEntry: ProstMessage<W>
    ensures
        forall|
            server: &mut DataTreeServer,
            deleted: DeleteRequest,
            answer: DeleteResponse,
            later: DataTreeServer,
            asked: GetRequest,
            resp: GetResponse,
        |
            #![trigger
                call_ensures(DataTreeServer::delete, (server, deleted), answer),
                call_ensures(DataTreeServer::get::<W>, (&later, asked), resp)]
            {
                &&& call_ensures(DataTreeServer::delete, (server, deleted), answer)
                &&& !(answer.resp matches Some(DeleteResp::Error(_)))
                &&& later@ == (*final(server))@
                &&& call_ensures(DataTreeServer::get::<W>, (&later, asked), resp)
                &&& deleted.key is Some && asked.key is Some
                &&& asked.key->0.key@ == deleted.key->0.key@
            } ==> {
                ||| resp.resp matches Some(GetResp::NotFound(_))
                ||| resp.resp matches Some(GetResp::Error(e)) && reported(e)
            },
{
    law_delete_answer();
    assert forall|
        server: &mut DataTreeServer,
        deleted: DeleteRequest,
        answer: DeleteResponse,
        later: DataTreeServer,
        asked: GetRequest,
        resp: GetResponse,
    |
        #![trigger
            call_ensures(DataTreeServer::delete, (server, deleted), answer),
            call_ensures(DataTreeServer::get::<W>, (&later, asked), resp)]
        {
            &&& call_ensures(DataTreeServer::delete, (server, deleted), answer)
            &&& !(answer.resp matches Some(DeleteResp::Error(_)))
            &&& later@ == (*final(server))@
            &&& call_ensures(DataTreeServer::get::<W>, (&later, asked), resp)
            &&& deleted.key is Some && asked.key is Some
            &&& asked.key->0.key@ == deleted.key->0.key@
        } implies {
        ||| resp.resp matches Some(GetResp::NotFound(_))
        ||| resp.resp matches Some(GetResp::Error(e)) && reported(e)
    } by {
        assert(!(*final(server))@.contains_key(encode_utf8(asked.key->0.key@)));
        law_get_tells_if_in_use::<W>(later, asked, resp);
    }
}

} // verus!
