//! Laws of the content tree: what the answer to a request says of what is stored, what a request
//! changes, and how a value and its parts are given.
//!
//! The laws speak of calls of the service itself, of the bytes that the tree holds under the bytes
//! of a name before and after them, and of what those bytes read as.
use crate::cdn::{
    add_response, advanced, delete_response, get_response, met, stream_line, stream_reply,
    CdnServer, StreamModel, ValueStream,
};
use crate::data_access::{
    get_spec, AddResult, AddResultSuccess, DeleteResult, DeleteResultSuccess, GetResult,
    GetResultSuccess,
};
use crate::entry_laws::{lemma_says, says_missing, says_unreadable};
use crate::error_handling::{Cause, CauseModel, InternalError};
use crate::key_order::Contents;
use crate::pb::{
    AddResp, CdnAddRequest, CdnAddResponse, CdnContainsRequest, CdnDeleteRequest,
    CdnDeleteResponse, CdnGetRequest, CdnGetResponse, CdnMessage, CdnMessageModel,
    CdnStreamValueResponse, CdnUid, CdnValue, ContainsResp, ContainsResponse, DeleteResp, GetResp,
};
use crate::store::{given_up, reported};
use crate::wire::{field_one, ProstMessage};
use vstd::prelude::*;
use vstd::utf8::encode_utf8;

verus! {

/// The answer to a request for a value says that the name is not there exactly if the name is not
/// in use, and then gives the name. A value is given exactly if the name is in use and what is
/// stored there can be read: it is what is stored. An error is answered only for the want of a
/// name, for stored bytes that cannot be read, or for a failure that the storage engine reported.
pub proof fn law_get_answer<W>(server: CdnServer, r: CdnGetRequest, resp: CdnGetResponse) where
    CdnValue: ProstMessage<W>,

    requires
        call_ensures(CdnServer::get::<W>, (&server, r), resp),
    ensures
        resp.resp is Some,
        r.uid is None ==> (resp.resp->0 matches GetResp::Error(e) && says_missing(e, "uid"@)),
        r.uid is Some ==> {
            let bytes = field_one(encode_utf8(r.uid->0.message@));
            match resp.resp->0 {
                GetResp::NotFound(uid) => {
                    &&& !server@.contains_key(bytes)
                    &&& uid.message@ == r.uid->0.message@
                },
                GetResp::Success(given) => {
                    &&& server@.contains_key(bytes)
                    &&& <CdnValue as ProstMessage<W>>::decoding(server@[bytes]) == Ok::<
                        Option<CdnMessageModel>,
                        Seq<char>,
                    >(given.deep_view())
                },
                GetResp::Error(e) => reported(e) || {
                    &&& server@.contains_key(bytes)
                    &&& <CdnValue as ProstMessage<W>>::decoding(server@[bytes]) matches Err(why)
                    &&& says_unreadable(e, why)
                },
            }
        },
{
    if resp.resp is Some && resp.resp->0 is Error {
        lemma_says(resp.resp->0->Error_0);
    }
}

/// The answer to the question whether a name is in use is yes exactly if something is stored under
/// it. An error is answered only for the want of a name or for a failure that the storage engine
/// reported.
pub proof fn law_contains_answer(
    server: CdnServer,
    r: CdnContainsRequest,
    resp: ContainsResponse,
)
    requires
        call_ensures(CdnServer::contains, (&server, r), resp),
    ensures
        resp.resp is Some,
        r.uid is None ==> (resp.resp->0 matches ContainsResp::Error(e) && says_missing(e, "uid"@)),
        r.uid is Some ==> match resp.resp->0 {
            ContainsResp::Success(found) => found == server@.contains_key(
                field_one(encode_utf8(r.uid->0.message@)),
            ),
            ContainsResp::Error(e) => reported(e),
        },
{
}

/// The answer to a request to remove is success exactly if the name was in use, and that it is not
/// there exactly if it was not, each with the name; afterwards the name is not in use, and under
/// every other name there is what there was. An error is answered only for the want of a name,
/// and then nothing changes, or for a transaction that the storage engine gave up.
pub proof fn law_delete_answer()
    ensures
        forall|server: &mut CdnServer, r: CdnDeleteRequest, resp: CdnDeleteResponse| #[trigger]
            call_ensures(CdnServer::delete, (server, r), resp) ==> {
                let before = (*server)@;
                let then = (*final(server))@;
                &&& resp.resp is Some
                &&& r.uid is None ==> {
                    &&& resp.resp->0 matches DeleteResp::Error(e) && says_missing(e, "uid"@)
                    &&& then == before
                }
                &&& r.uid is Some ==> {
                    let bytes = field_one(encode_utf8(r.uid->0.message@));
                    match resp.resp->0 {
                        DeleteResp::Success(uid) => {
                            &&& before.contains_key(bytes)
                            &&& then == before.remove(bytes)
                            &&& uid.message@ == r.uid->0.message@
                        },
                        DeleteResp::NotFound(uid) => {
                            &&& !before.contains_key(bytes)
                            &&& then == before.remove(bytes)
                            &&& uid.message@ == r.uid->0.message@
                        },
                        DeleteResp::Error(e) => given_up(e),
                    }
                }
            },
{
}

/// The answer to a request to add is success exactly if the name was not in use, and that it
/// exists exactly if it was, each with the name. After a success what is stored under the name
/// reads as the value that was given, and under every other name there is what there was; when
/// the name exists, nothing changes. An error is answered only for the want of a name or of a
/// value, and then nothing changes, or for a transaction that the storage engine gave up.
pub proof fn law_add_answer<W>() where CdnValue: ProstMessage<W>
    ensures
        forall|server: &mut CdnServer, r: CdnAddRequest, resp: CdnAddResponse| #[trigger]
            call_ensures(CdnServer::add::<W>, (server, r), resp) ==> {
                let before = (*server)@;
                let then = (*final(server))@;
                let bytes = field_one(encode_utf8(r.uid->0.message@));
                match resp.resp {
                    Some(AddResp::Success(uid)) => {
                        &&& r.uid is Some && r.value is Some
                        &&& !before.contains_key(bytes)
                        &&& uid.message@ == r.uid->0.message@
                        &&& then == before.insert(bytes, then[bytes])
                        &&& <CdnValue as ProstMessage<W>>::decoding(then[bytes]) == Ok::<
                            Option<CdnMessageModel>,
                            Seq<char>,
                        >(r.value->0.deep_view())
                    },
                    Some(AddResp::Exists(uid)) => {
                        &&& r.uid is Some && r.value is Some
                        &&& before.contains_key(bytes)
                        &&& uid.message@ == r.uid->0.message@
                        &&& then == before
                    },
                    Some(AddResp::Error(e)) => {
                        ||| r.uid is None && says_missing(e, "uid"@) && then == before
                        ||| {
                            &&& r.uid is Some && r.value is None
                            &&& says_missing(e, "value"@) && then == before
                        }
                        ||| r.uid is Some && r.value is Some && given_up(e)
                    },
                    None => false,
                }
            },
{
}

/// What a request to add came to is what the answer says, each with the name.
pub proof fn law_add_response(added: AddResult<CdnUid>, resp: CdnAddResponse)
    requires
        call_ensures(add_response, (added,), resp),
    ensures
        match (added, resp.resp) {
            (Ok(AddResultSuccess::Success(uid)), Some(AddResp::Success(told))) => told.message@
                == uid.message@,
            (Ok(AddResultSuccess::Exists(uid)), Some(AddResp::Exists(told))) => told.message@
                == uid.message@,
            (Err(e), Some(AddResp::Error(told))) => told == e,
            _ => false,
        },
{
}

/// What a request to remove came to is what the answer says, each with the name.
pub proof fn law_delete_response(deleted: DeleteResult<CdnUid>, resp: CdnDeleteResponse)
    requires
        call_ensures(delete_response, (deleted,), resp),
    ensures
        match (deleted, resp.resp) {
            (Ok(DeleteResultSuccess::Success(uid)), Some(DeleteResp::Success(told))) =>
                told.message@ == uid.message@,
            (Ok(DeleteResultSuccess::NotFound(uid)), Some(DeleteResp::NotFound(told))) =>
                told.message@ == uid.message@,
            (Err(e), Some(DeleteResp::Error(told))) => told == e,
            _ => false,
        },
{
}

/// What a request for a value came to is what the answer says: the value that was found, the name
/// that was not, or the error.
pub proof fn law_get_response(found: GetResult<CdnUid, CdnValue>, resp: CdnGetResponse)
    requires
        call_ensures(get_response, (found,), resp),
    ensures
        match (found, resp.resp) {
            (Ok(GetResultSuccess::Success(_, v)), Some(GetResp::Success(given))) =>
                given.deep_view() == v.deep_view(),
            (Ok(GetResultSuccess::NotFound(uid)), Some(GetResp::NotFound(told))) => told.message@
                == uid.message@,
            (Err(e), Some(GetResp::Error(told))) => told == e,
            _ => false,
        },
{
}

/// `e` says that a stored value is neither a value nor a batch.
pub open spec fn says_no_message(e: InternalError) -> bool {
    &&& e.cause matches Some(Cause::StorageValueDecodingError(d))
    &&& d.description@ == "'message' field is required"@
    &&& d.stack@.len() == 1
    &&& d.stack@[0].message@ == "field is required"@
    &&& d.stack@[0].field@ == "message"@
}

/// What an error says is what its model says.
proof fn lemma_says_no_message(e: InternalError)
    requires
        e.deep_view() matches Some(
            CauseModel::StorageValueDecodingError { description, stack },
        ) && description == "'message' field is required"@ && stack == seq![
            ("field is required"@, "message"@),
        ],
    ensures
        says_no_message(e),
{
    let d = e.cause->0->StorageValueDecodingError_0;
    assert(d.stack.deep_view() == seq![("field is required"@, "message"@)]);
    assert(d.stack.deep_view()[0] == d.stack@[0].deep_view());
}

/// For a value that was found a line is given that tells its name and all of it. If it is a batch,
/// the names that are followed are exactly the names in the batch, all of them and in their
/// order; for anything else no names are followed. What was found and is neither a value nor a
/// batch is told as such; a name that was not found is told; and the error for an error.
pub proof fn law_stream_line(
    found: GetResult<CdnUid, CdnValue>,
    line: CdnStreamValueResponse,
    followed: Vec<CdnUid>,
)
    requires
        call_ensures(stream_line, (found,), (line, followed)),
    ensures
        match (found, line.resp) {
            (Ok(GetResultSuccess::Success(uid, v)), Some(GetResp::Success(given))) => {
                &&& v.message is Some
                &&& given.key matches Some(key) && key.message@ == uid.message@
                &&& given.value matches Some(value) && value.deep_view() == v.deep_view()
            },
            (Ok(GetResultSuccess::Success(_, v)), Some(GetResp::Error(e))) => {
                &&& v.message is None
                &&& says_no_message(e)
            },
            (Ok(GetResultSuccess::NotFound(uid)), Some(GetResp::NotFound(told))) => told.message@
                == uid.message@,
            (Err(e), Some(GetResp::Error(told))) => told == e,
            _ => false,
        },
        found matches Ok(GetResultSuccess::Success(_, v)) ==> (v.message matches Some(
            CdnMessage::Batch(batch),
        ) ==> {
            &&& followed@.len() == batch.uids@.len()
            &&& forall|i: int|
                0 <= i < followed@.len() ==> (#[trigger] followed@[i]).message@
                    == batch.uids@[i].message@
        }),
        !(found matches Ok(GetResultSuccess::Success(_, v)) && v.message matches Some(
            CdnMessage::Batch(_),
        )) ==> followed@.len() == 0,
{
    assert(followed.deep_view().len() == followed@.len());
    if line.resp is Some && line.resp->0 is Error && found is Ok {
        let e = line.resp->0->Error_0;
        lemma_says_no_message(e);
    }
    if line.resp is Some && line.resp->0 is Success {
        let given = line.resp->0->Success_0;
        assert(given.deep_view().key == given.key.deep_view());
        assert(given.deep_view().value == given.value.deep_view());
    }
    if found is Ok && found->Ok_0 is Success {
        let v = found->Ok_0->Success_1;
        if v.message is Some && v.message->0 is Batch {
            let batch = v.message->0->Batch_0;
            assert(v.deep_view() == Some(CdnMessageModel::Batch(batch.uids.deep_view())));
            assert(followed.deep_view() == batch.uids.deep_view());
            assert(batch.uids.deep_view().len() == batch.uids@.len());
            assert forall|i: int| 0 <= i < followed@.len() implies (#[trigger] followed@[i]).message@
                == batch.uids@[i].message@ by {
                assert(followed.deep_view()[i] == followed@[i].deep_view());
                assert(batch.uids.deep_view()[i] == batch.uids@[i].deep_view());
            }
        }
    }
}

/// `new` are the names of `batch` that are not in `seen`, each once, in the order in which they
/// come up in `batch` first; `places` are the places where they do.
pub open spec fn are_new_at(
    seen: Set<Seq<char>>,
    batch: Seq<Seq<char>>,
    new: Seq<Seq<char>>,
    places: Seq<int>,
) -> bool {
    &&& places.len() == new.len()
    &&& forall|i: int, j: int| 0 <= i < j < places.len() ==> places[i] < places[j]
    &&& forall|i: int|
        0 <= i < places.len() ==> {
            &&& 0 <= #[trigger] places[i] < batch.len()
            &&& batch[places[i]] == new[i]
            &&& !seen.contains(new[i])
        }
    &&& forall|p: int|
        0 <= p < batch.len() && !seen.contains(#[trigger] batch[p]) ==> new.contains(batch[p])
    &&& new.no_duplicates()
    &&& forall|i: int, p: int| 0 <= i < places.len() && 0 <= p < places[i] ==> batch[p] != new[i]
}

/// `new` are the names of `batch` that are not in `seen`, each once, in the order in which they
/// come up in `batch` first.
pub open spec fn are_new(
    seen: Set<Seq<char>>,
    batch: Seq<Seq<char>>,
    new: Seq<Seq<char>>,
) -> bool {
    exists|places: Seq<int>| #[trigger] are_new_at(seen, batch, new, places)
}

/// What meeting names does.
proof fn lemma_met(stream: StreamModel, batch: Seq<Seq<char>>) -> (r: (Seq<Seq<char>>, Seq<int>))
    ensures
        are_new_at(stream.seen, batch, r.0, r.1),
        met(stream, batch).remaining == stream.remaining + r.0,
        forall|name: Seq<char>| #[trigger]
            met(stream, batch).seen.contains(name) <==> stream.seen.contains(name)
                || batch.contains(name),
    decreases batch.len(),
{
    if batch.len() == 0 {
        assert(stream.remaining + Seq::<Seq<char>>::empty() =~= stream.remaining);
        (Seq::empty(), Seq::empty())
    } else {
        let first = batch.drop_last();
        let last = batch.last();
        let (new, places) = lemma_met(stream, first);
        let before = met(stream, first);
        assert(batch =~= first.push(last));
        assert forall|name: Seq<char>| batch.contains(name) <==> first.contains(name) || name
            == last by {
            if first.contains(name) {
                let p = choose|p: int| 0 <= p < first.len() && first[p] == name;
                assert(batch[p] == name);
            }
            if name == last {
                assert(batch[batch.len() - 1] == name);
            }
        }
        if before.seen.contains(last) {
            assert forall|p: int| 0 <= p < batch.len() && !stream.seen.contains(
                #[trigger] batch[p],
            ) implies new.contains(batch[p]) by {
                if p < first.len() {
                    assert(first[p] == batch[p]);
                } else {
                    let q = choose|q: int| 0 <= q < first.len() && first[q] == last;
                    assert(new.contains(first[q]));
                }
            }
            assert(are_new_at(stream.seen, batch, new, places));
            (new, places)
        } else {
            let all = new.push(last);
            let all_places = places.push(first.len() as int);
            assert forall|p: int| 0 <= p < batch.len() && !stream.seen.contains(
                #[trigger] batch[p],
            ) implies all.contains(batch[p]) by {
                if p < first.len() {
                    assert(first[p] == batch[p]);
                    let i = choose|i: int| 0 <= i < new.len() && new[i] == first[p];
                    assert(all[i] == batch[p]);
                } else {
                    assert(all[new.len() as int] == last);
                }
            }
            assert forall|i: int| 0 <= i < new.len() implies #[trigger] new[i] != last by {
                assert(first[places[i]] == new[i]);
                assert(first.contains(new[i]));
            }
            assert forall|i: int, p: int| 0 <= i < all_places.len() && 0 <= p < all_places[i]
                implies batch[p] != all[i] by {
                assert(batch[p] == first[p]);
                if i == new.len() {
                    assert(first.contains(first[p]));
                }
            }
            assert(are_new_at(stream.seen, batch, all, all_places));
            assert(stream.remaining + all =~= (stream.remaining + new).push(last));
            (all, all_places)
        }
    }
}

/// Giving a value and its parts begins with the value alone, and is refused without a name.
pub proof fn law_stream_begins(
    server: CdnServer,
    r: CdnGetRequest,
    resp: Result<ValueStream, String>,
)
    requires
        call_ensures(CdnServer::stream_value, (&server, r), resp),
    ensures
        match (r.uid, resp) {
            (Some(uid), Ok(stream)) => {
                &&& stream@.remaining == seq![uid.message@]
                &&& forall|name: Seq<char>| !(#[trigger] stream@.seen.contains(name))
            },
            (None, Err(message)) => message@ == "uid field is missing"@,
            _ => false,
        },
{
}

/// Where names remain, the next line is about the first of them, and it remains no longer:
///
/// * if the name is not in use, the line says so;
/// * if what is stored there reads as bytes, the line gives them under the name;
/// * if it reads as a batch, the line gives the batch under the name, and the names in the batch
///   that were not met before remain too, behind all others, each once, in their order: all of
///   them, and from now on they are met;
/// * if it is neither or cannot be read, the line says so.
///
/// Else the line tells of a failure that the storage engine reported. Where no names remain,
/// nothing is given and nothing changes.
pub proof fn law_stream_goes_on<W>() where CdnValue: ProstMessage<W>
    ensures
        forall|stream: &mut ValueStream, server: &CdnServer, r: Option<CdnStreamValueResponse>|
            #![trigger call_ensures(ValueStream::next::<W>, (stream, server), r)]
            call_ensures(ValueStream::next::<W>, (stream, server), r)
                && (*stream)@.remaining.len() == 0 ==> r is None && (*final(stream))@ == (*stream)@,
        forall|stream: &mut ValueStream, server: &CdnServer, r: Option<CdnStreamValueResponse>|
            #![trigger call_ensures(ValueStream::next::<W>, (stream, server), r)]
            call_ensures(ValueStream::next::<W>, (stream, server), r)
                && (*stream)@.remaining.len() > 0 ==> r is Some && is_true_line::<W>(
                (*server)@,
                (*stream)@,
                r->0,
                (*final(stream))@,
            ),
{
    assert forall|stream: &mut ValueStream, server: &CdnServer, r: Option<CdnStreamValueResponse>|
        #![trigger call_ensures(ValueStream::next::<W>, (stream, server), r)]
        call_ensures(ValueStream::next::<W>, (stream, server), r) && (*stream)@.remaining.len()
            > 0 implies r is Some && is_true_line::<W>(
        (*server)@,
        (*stream)@,
        r->0,
        (*final(stream))@,
    ) by {
        let s = (*stream)@;
        let found = get_spec::<W, CdnUid, CdnValue>((*server)@, Some(s.remaining[0]));
        let line = r->0;
        if line.deep_view() == Some(stream_reply(found)) && (*final(stream))@ == advanced(s, found) {
            lemma_true_line::<W>((*server)@, s, line, (*final(stream))@);
        }
    }
}

/// `line` is about the first of the names that remain in `stream`, and is true of `contents`; and
/// `then` is what remains.
pub open spec fn is_true_line<W>(
    contents: Contents,
    stream: StreamModel,
    line: CdnStreamValueResponse,
    then: StreamModel,
) -> bool where CdnValue: ProstMessage<W> {
    let name = stream.remaining[0];
    let bytes = field_one(encode_utf8(name));
    let read = <CdnValue as ProstMessage<W>>::decoding(contents[bytes]);
    match line.resp {
        Some(GetResp::Success(given)) => {
            &&& contents.contains_key(bytes)
            &&& read matches Ok(Some(message))
            &&& given.key matches Some(key) && key.message@ == name
            &&& given.value matches Some(value) && value.message matches Some(told)
                && told.deep_view() == message
            &&& match message {
                CdnMessageModel::Bytes(_) => {
                    &&& then.seen == stream.seen
                    &&& then.remaining == stream.remaining.skip(1)
                },
                CdnMessageModel::Batch(uids) => {
                    &&& forall|other: Seq<char>| #[trigger]
                        then.seen.contains(other) <==> stream.seen.contains(other)
                            || uids.contains(other)
                    &&& exists|new: Seq<Seq<char>>| #[trigger]
                        are_new(stream.seen, uids, new) && then.remaining
                            == stream.remaining.skip(1) + new
                },
            }
        },
        Some(GetResp::NotFound(uid)) => {
            &&& !contents.contains_key(bytes)
            &&& uid.message@ == name
            &&& then.seen == stream.seen
            &&& then.remaining == stream.remaining.skip(1)
        },
        Some(GetResp::Error(e)) => {
            &&& reported(e) || {
                &&& contents.contains_key(bytes)
                &&& match read {
                    Ok(Some(_)) => false,
                    Ok(None) => says_no_message(e),
                    Err(why) => says_unreadable(e, why),
                }
            }
            &&& then.seen == stream.seen
            &&& then.remaining == stream.remaining.skip(1)
        },
        None => false,
    }
}

/// The line for what is stored is true of it.
proof fn lemma_true_line<W>(
    contents: Contents,
    stream: StreamModel,
    line: CdnStreamValueResponse,
    then: StreamModel,
) where CdnValue: ProstMessage<W>
    requires
        stream.remaining.len() > 0,
        ({
            let found = get_spec::<W, CdnUid, CdnValue>(contents, Some(stream.remaining[0]));
            &&& line.deep_view() == Some(stream_reply(found))
            &&& then == advanced(stream, found)
        }),
    ensures
        is_true_line::<W>(contents, stream, line, then),
{
    let name = stream.remaining[0];
    let bytes = field_one(encode_utf8(name));
    let read = <CdnValue as ProstMessage<W>>::decoding(contents[bytes]);
    let rest = StreamModel { seen: stream.seen, remaining: stream.remaining.skip(1) };
    match line.resp->0 {
        GetResp::Success(given) => {
            let message = read->Ok_0->0;
            assert(given.deep_view().key == given.key.deep_view());
            assert(given.deep_view().value == given.value.deep_view());
            let value = given.value->0;
            assert(value.deep_view() == value.message.deep_view());
            match message {
                CdnMessageModel::Batch(uids) => {
                    let (new, places) = lemma_met(rest, uids);
                    assert(are_new_at(stream.seen, uids, new, places));
                    assert(are_new(stream.seen, uids, new));
                },
                CdnMessageModel::Bytes(_) => {},
            }
        },
        GetResp::NotFound(_) => {},
        GetResp::Error(e) => {
            lemma_says(e);
            if contents.contains_key(bytes) && read is Ok {
                lemma_says_no_message(e);
            }
        },
    }
}

/// What was added is given: after a success, asking for the name gives the value, until the tree
/// changes. Only a failure that the storage engine reported is answered else.
pub proof fn law_added_is_given<W>() where CdnValue: ProstMessage<W>
    ensures
        forall|
            server: &mut CdnServer,
            added: CdnAddRequest,
            answer: CdnAddResponse,
            later: CdnServer,
            asked: CdnGetRequest,
            resp: CdnGetResponse,
        |
            #![trigger
                call_ensures(CdnServer::add::<W>, (server, added), answer),
                call_ensures(CdnServer::get::<W>, (&later, asked), resp)]
            {
                &&& call_ensures(CdnServer::add::<W>, (server, added), answer)
                &&& answer.resp matches Some(AddResp::Success(_))
                &&& later@ == (*final(server))@
                &&& call_ensures(CdnServer::get::<W>, (&later, asked), resp)
                &&& added.uid is Some && asked.uid is Some
                &&& asked.uid->0.message@ == added.uid->0.message@
            } ==> {
                ||| {
                    &&& added.value is Some
                    &&& resp.resp matches Some(GetResp::Success(given))
                    &&& given.deep_view() == added.value->0.deep_view()
                }
                ||| resp.resp matches Some(GetResp::Error(e)) && reported(e)
            },
{
    law_add_answer::<W>();
    assert forall|
        server: &mut CdnServer,
        added: CdnAddRequest,
        answer: CdnAddResponse,
        later: CdnServer,
        asked: CdnGetRequest,
        resp: CdnGetResponse,
    |
        #![trigger
            call_ensures(CdnServer::add::<W>, (server, added), answer),
            call_ensures(CdnServer::get::<W>, (&later, asked), resp)]
        {
            &&& call_ensures(CdnServer::add::<W>, (server, added), answer)
            &&& answer.resp matches Some(AddResp::Success(_))
            &&& later@ == (*final(server))@
            &&& call_ensures(CdnServer::get::<W>, (&later, asked), resp)
            &&& added.uid is Some && asked.uid is Some
            &&& asked.uid->0.message@ == added.uid->0.message@
        } implies {
        ||| {
            &&& added.value is Some
            &&& resp.resp matches Some(GetResp::Success(given))
            &&& given.deep_view() == added.value->0.deep_view()
        }
        ||| resp.resp matches Some(GetResp::Error(e)) && reported(e)
    } by {
        assert((*final(server))@.contains_key(field_one(encode_utf8(asked.uid->0.message@))));
        law_get_answer::<W>(later, asked, resp);
    }
}

} // verus!
