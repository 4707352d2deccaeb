//! The content tree: a service that keeps values, and long values in parts.
use crate::data_access::{
    add_in_transaction, add_spec, contains_key, contains_spec, delete_in_transaction, delete_spec,
    get, get_spec, requested_entry, requested_key, storage_failed, AddResult, AddResultSuccess,
    DeleteResult, DeleteResultSuccess, GetResult, GetResultSuccess,
};
use crate::data_tree::{contains_reply, contains_response};
use crate::error_handling::{
    is_aborted, is_storage_error, Cause, CauseModel, DecodeError, ErrorModel, InternalError,
    StackLine,
};
use crate::key_order::Contents;
use crate::pb::{
    AddResp, Batch, CdnAddRequest, CdnAddResponse, CdnContainsRequest, CdnDeleteRequest,
    CdnDeleteResponse, CdnGetRequest, CdnGetResponse, CdnKeyValue, CdnKeyValueModel, CdnMessage,
    CdnMessageModel, CdnStreamValueResponse, CdnUid, CdnValue, ContainsResp, ContainsResponse,
    DeleteResp, GetResp,
};
use crate::store::{given_up, reported, Store};
use crate::wire::{outcome, reads_back, ProstMessage};
use std::collections::VecDeque;
use vstd::hash_set::StringHashSet;
use vstd::prelude::*;

verus! {

/// The content tree service.
pub struct CdnServer {
    pub tree: Store,
}

impl View for CdnServer {
    type V = Contents;

    open spec fn view(&self) -> Contents {
        self.tree@
    }
}

/// The answer to a request to add that was carried out with the outcome `added`.
pub open spec fn add_reply(added: Result<AddResultSuccess<Seq<char>>, ErrorModel>) -> AddResp<
    Seq<char>,
    ErrorModel,
> {
    match added {
        Ok(AddResultSuccess::Success(uid)) => AddResp::Success(uid),
        Ok(AddResultSuccess::Exists(uid)) => AddResp::Exists(uid),
        Err(e) => AddResp::Error(e),
    }
}

/// The answer to a request to add that was carried out with the outcome `added`.
pub fn add_response(added: AddResult<CdnUid>) -> (r: CdnAddResponse)
    ensures
        r.deep_view() == Some(add_reply(outcome(added))),
        added matches Err(e) ==> r.resp == Some(AddResp::<CdnUid, InternalError>::Error(e)),
{
    let resp = match added {
        Ok(AddResultSuccess::Success(uid)) => AddResp::Success(uid),
        Ok(AddResultSuccess::Exists(uid)) => AddResp::Exists(uid),
        Err(e) => AddResp::Error(e),
    };
    CdnAddResponse { resp: Some(resp) }
}

/// The answer to a request to remove that was carried out with the outcome `deleted`.
pub open spec fn delete_reply(
    deleted: Result<DeleteResultSuccess<Seq<char>>, ErrorModel>,
) -> DeleteResp<Seq<char>, ErrorModel> {
    match deleted {
        Ok(DeleteResultSuccess::Success(uid)) => DeleteResp::Success(uid),
        Ok(DeleteResultSuccess::NotFound(uid)) => DeleteResp::NotFound(uid),
        Err(e) => DeleteResp::Error(e),
    }
}

/// The answer to a request to remove that was carried out with the outcome `deleted`.
pub fn delete_response(deleted: DeleteResult<CdnUid>) -> (r: CdnDeleteResponse)
    ensures
        r.deep_view() == Some(delete_reply(outcome(deleted))),
        deleted matches Err(e) ==> r.resp == Some(DeleteResp::<CdnUid, InternalError>::Error(e)),
{
    let resp = match deleted {
        Ok(DeleteResultSuccess::Success(uid)) => DeleteResp::Success(uid),
        Ok(DeleteResultSuccess::NotFound(uid)) => DeleteResp::NotFound(uid),
        Err(e) => DeleteResp::Error(e),
    };
    CdnDeleteResponse { resp: Some(resp) }
}

/// The outcome of looking up a value.
pub type Found = Result<GetResultSuccess<Seq<char>, Option<CdnMessageModel>>, ErrorModel>;

/// The answer to a request for a value that was carried out with the outcome `found`.
pub open spec fn get_reply(found: Found) -> GetResp<
    Option<CdnMessageModel>,
    Seq<char>,
    ErrorModel,
> {
    match found {
        Ok(GetResultSuccess::Success(_, v)) => GetResp::Success(v),
        Ok(GetResultSuccess::NotFound(uid)) => GetResp::NotFound(uid),
        Err(e) => GetResp::Error(e),
    }
}

/// The answer to a request for a value that was carried out with the outcome `found`.
pub fn get_response(found: GetResult<CdnUid, CdnValue>) -> (r: CdnGetResponse)
    ensures
        r.deep_view() == Some(get_reply(outcome(found))),
        found matches Err(e) ==> r.resp == Some(
            GetResp::<CdnValue, CdnUid, InternalError>::Error(e),
        ),
{
    let resp = match found {
        Ok(GetResultSuccess::Success(_uid, v)) => GetResp::Success(v),
        Ok(GetResultSuccess::NotFound(uid)) => GetResp::NotFound(uid),
        Err(e) => GetResp::Error(e),
    };
    CdnGetResponse { resp: Some(resp) }
}

impl CdnServer {
    /// Adds a value under a name that is not in use.
    pub fn add<W>(&mut self, r: CdnAddRequest) -> (resp: CdnAddResponse) where
        CdnValue: ProstMessage<W>,

        ensures
            ({
                let uid = r.uid.deep_view();
                let value = r.value.deep_view();
                let (added, then_holds) = add_spec::<W, CdnUid, CdnValue>(old(self)@, uid, value);
                ||| resp.deep_view() == Some(add_reply(added)) && final(self)@ == then_holds
                ||| {
                    &&& requested_entry::<W, CdnUid, CdnValue>(uid, value) is Ok
                    &&& resp.deep_view() matches Some(AddResp::Error(e)) && is_aborted(e)
                    &&& resp.resp matches Some(AddResp::Error(e)) && given_up(e)
                }
            }),
            resp.deep_view() matches Some(AddResp::Success(_)) ==> reads_back::<W, CdnValue>(
                r.value.deep_view()->0,
            ),
    {
        add_response(add_in_transaction::<W, CdnUid, CdnValue>(&mut self.tree, r.uid, r.value))
    }

    /// Removes a value.
    pub fn delete(&mut self, r: CdnDeleteRequest) -> (resp: CdnDeleteResponse)
        ensures
            ({
                let uid = r.uid.deep_view();
                let (deleted, then_holds) = delete_spec::<CdnUid>(old(self)@, uid);
                ||| resp.deep_view() == Some(delete_reply(deleted)) && final(self)@ == then_holds
                ||| {
                    &&& requested_key::<CdnUid>(uid) is Ok
                    &&& resp.deep_view() matches Some(DeleteResp::Error(e)) && is_aborted(e)
                    &&& resp.resp matches Some(DeleteResp::Error(e)) && given_up(e)
                }
            }),
    {
        delete_response(delete_in_transaction(&mut self.tree, r.uid))
    }

    /// The value under a name.
    pub fn get<W>(&self, r: CdnGetRequest) -> (resp: CdnGetResponse) where
        CdnValue: ProstMessage<W>,

        ensures
            ({
                let uid = r.uid.deep_view();
                ||| resp.deep_view() == Some(
                    get_reply(get_spec::<W, CdnUid, CdnValue>(self@, uid)),
                )
                ||| {
                    &&& requested_key::<CdnUid>(uid) is Ok
                    &&& resp.deep_view() matches Some(GetResp::Error(e)) && is_storage_error(e)
                    &&& resp.resp matches Some(GetResp::Error(e)) && reported(e)
                }
            }),
    {
        get_response(get::<W, CdnUid, CdnValue>(&self.tree, r.uid))
    }

    /// Whether a name is in use.
    pub fn contains(&self, r: CdnContainsRequest) -> (resp: ContainsResponse)
        ensures
            ({
                let uid = r.uid.deep_view();
                ||| resp.deep_view() == Some(
                    contains_reply(contains_spec::<CdnUid>(self@, uid)),
                )
                ||| {
                    &&& requested_key::<CdnUid>(uid) is Ok
                    &&& resp.deep_view() matches Some(ContainsResp::Error(e)) && is_storage_error(e)
                    &&& resp.resp matches Some(ContainsResp::Error(e)) && reported(e)
                }
            }),
    {
        contains_response(contains_key(&self.tree, r.uid))
    }

    /// Starts to give a value and its parts; [`ValueStream::next`] gives them one by one.
    pub fn stream_value(&self, r: CdnGetRequest) -> (resp: Result<ValueStream, String>)
        ensures
            match r.uid {
                Some(key) => resp matches Ok(stream) && stream@ == stream_from(key.deep_view()),
                None => resp matches Err(message) && message@ == "uid field is missing"@,
            },
    {
        match r.uid {
            Some(key) => Ok(ValueStream::new(key)),
            None => Err("uid field is missing".to_owned()),
        }
    }
}

/// How far the giving of a value and its parts has come: the names that were met, and those
/// whose values have still to be given, in order.
pub struct StreamModel {
    pub seen: Set<Seq<char>>,
    pub remaining: Seq<Seq<char>>,
}

/// The giving of the value under `key` and its parts, before it begins.
pub open spec fn stream_from(key: Seq<char>) -> StreamModel {
    StreamModel { seen: Set::empty(), remaining: seq![key] }
}

/// Meets the names `keys`: each that was not met before has its value given later.
pub open spec fn met(stream: StreamModel, keys: Seq<Seq<char>>) -> StreamModel
    decreases keys.len(),
{
    if keys.len() == 0 {
        stream
    } else {
        let before = met(stream, keys.drop_last());
        let key = keys.last();
        if before.seen.contains(key) {
            before
        } else {
            StreamModel { seen: before.seen.insert(key), remaining: before.remaining.push(key) }
        }
    }
}

/// The parts of the value that was found.
pub open spec fn parts(found: Found) -> Seq<Seq<char>> {
    match found {
        Ok(GetResultSuccess::Success(_, Some(CdnMessageModel::Batch(uids)))) => uids,
        _ => Seq::empty(),
    }
}

/// The error of a stored value that is neither a value nor a batch.
pub open spec fn no_message() -> ErrorModel {
    Some(
        CauseModel::StorageValueDecodingError {
            description: "'message' field is required"@,
            stack: seq![("field is required"@, "message"@)],
        },
    )
}

/// The line that is given for the outcome `found`.
pub open spec fn stream_reply(found: Found) -> GetResp<CdnKeyValueModel, Seq<char>, ErrorModel> {
    match found {
        Ok(GetResultSuccess::Success(uid, Some(message))) => GetResp::Success(
            CdnKeyValueModel { key: Some(uid), value: Some(Some(message)) },
        ),
        Ok(GetResultSuccess::Success(_, None)) => GetResp::Error(no_message()),
        Ok(GetResultSuccess::NotFound(uid)) => GetResp::NotFound(uid),
        Err(e) => GetResp::Error(e),
    }
}

/// A copy of `uids`.
fn copy_uids(uids: &Vec<CdnUid>) -> (r: Vec<CdnUid>)
    ensures
        r.deep_view() == uids.deep_view(),
{
    let mut copies: Vec<CdnUid> = Vec::new();
    for i in 0..uids.len()
        invariant
            copies.len() == i,
            forall|j: int| 0 <= j < i ==> copies[j].deep_view() == uids[j].deep_view(),
    {
        copies.push(CdnUid { message: uids[i].message.clone() });
    }
    assert(copies.deep_view() =~= uids.deep_view());
    copies
}

/// The line that is given for the outcome `found`, and the parts of the value.
pub fn stream_line(found: GetResult<CdnUid, CdnValue>) -> (r: (CdnStreamValueResponse, Vec<CdnUid>))
    ensures
        r.0.deep_view() == Some(stream_reply(outcome(found))),
        found matches Err(e) ==> r.0.resp == Some(
            GetResp::<CdnKeyValue, CdnUid, InternalError>::Error(e),
        ),
        r.1.deep_view() == parts(outcome(found)),
{
    let mut keys: Vec<CdnUid> = Vec::new();
    let resp = match found {
        Ok(GetResultSuccess::Success(uid, v)) => match v.message {
            Some(message) => {
                match &message {
                    CdnMessage::Batch(Batch { uids }) => {
                        keys = copy_uids(uids);
                    },
                    CdnMessage::Bytes(_) => {},
                }
                GetResp::Success(
                    CdnKeyValue { key: Some(uid), value: Some(CdnValue { message: Some(message) }) },
                )
            },
            None => {
                let line = StackLine {
                    message: "field is required".to_owned(),
                    field: "message".to_owned(),
                };
                let stack: Vec<StackLine> = vec![line];
                assert(stack.deep_view() =~= seq![("field is required"@, "message"@)]);
                GetResp::Error(
                    InternalError {
                        cause: Some(
                            Cause::StorageValueDecodingError(
                                DecodeError {
                                    description: "'message' field is required".to_owned(),
                                    stack,
                                },
                            ),
                        ),
                    },
                )
            },
        },
        Ok(GetResultSuccess::NotFound(uid)) => GetResp::NotFound(uid),
        Err(e) => GetResp::Error(e),
    };
    assert(keys.deep_view() =~= parts(outcome(found)));
    (CdnStreamValueResponse { resp: Some(resp) }, keys)
}

/// A value and its parts, given one by one: first the value, then the parts of a value in
/// their order, then their parts. A name that comes up again is not given again.
pub struct ValueStream {
    seen: StringHashSet,
    remaining: VecDeque<CdnUid>,
}

impl View for ValueStream {
    type V = StreamModel;

    closed spec fn view(&self) -> StreamModel {
        StreamModel { seen: self.seen@, remaining: self.remaining.deep_view() }
    }
}

impl ValueStream {
    fn new(key: CdnUid) -> (r: ValueStream)
        ensures
            r@ == stream_from(key.deep_view()),
    {
        let mut remaining: VecDeque<CdnUid> = VecDeque::new();
        remaining.push_back(key);
        assert(remaining.deep_view() =~= seq![key.deep_view()]);
        ValueStream { seen: StringHashSet::new(), remaining }
    }

    /// Meets the names `keys`.
    fn meet(&mut self, keys: Vec<CdnUid>)
        ensures
            final(self)@ == met(old(self)@, keys.deep_view()),
    {
        let ghost start = self@;
        let ghost names = keys.deep_view();
        for k in it: keys.into_iter()
            invariant
                it.seq() == keys@,
                names == keys.deep_view(),
                self@ == met(start, names.take(it.index() as int)),
        {
            let ghost before = names.take(it.index() as int);
            let ghost with = names.take(it.index() + 1);
            proof {
                assert(with.drop_last() =~= before);
                assert(with.last() == k.deep_view());
            }
            if !self.seen.contains(k.message.as_str()) {
                self.seen.insert(k.message.clone());
                let ghost queued = self.remaining.deep_view();
                self.remaining.push_back(k);
                assert(self.remaining.deep_view() =~= queued.push(k.deep_view()));
            }
        }
        assert(names.take(names.len() as int) =~= names);
    }

    /// Gives the next line; nothing after the last.
    pub fn next<W>(&mut self, server: &CdnServer) -> (r: Option<CdnStreamValueResponse>) where
        CdnValue: ProstMessage<W>,

        ensures
            if old(self)@.remaining.len() == 0 {
                r is None && final(self)@ == old(self)@
            } else {
                stepped::<W>(server@, old(self)@, r.deep_view(), final(self)@)
            },
            old(self)@.remaining.len() > 0 ==> {
                let found = get_spec::<W, CdnUid, CdnValue>(
                    server@,
                    Some(old(self)@.remaining[0]),
                );
                ||| {
                    &&& r.deep_view() == Some(Some(stream_reply(found)))
                    &&& final(self)@ == advanced(old(self)@, found)
                }
                ||| {
                    &&& r matches Some(line) && line.resp matches Some(GetResp::Error(e)) && reported(e)
                    &&& final(self)@.seen == old(self)@.seen
                    &&& final(self)@.remaining == old(self)@.remaining.skip(1)
                }
            },
    {
        let ghost start = self@;
        match self.remaining.pop_front() {
            Some(next_key) => {
                let ghost key = next_key.deep_view();
                assert(self@.remaining =~= start.remaining.skip(1));
                assert(start.remaining[0] == key);
                let found = get::<W, CdnUid, CdnValue>(&server.tree, Some(next_key));
                let ghost got = outcome(found);
                let (line, keys) = stream_line(found);
                self.meet(keys);
                proof {
                    assert(may_find::<W>(server@, key, got));
                    assert(self@ == advanced(start, got));
                }
                Some(line)
            },
            None => None,
        }
    }
}

/// `found` may be the outcome of looking up the value under `key`.
pub open spec fn may_find<W>(contents: Contents, key: Seq<char>, found: Found) -> bool where
    CdnValue: ProstMessage<W>,
 {
    ||| found == get_spec::<W, CdnUid, CdnValue>(contents, Some(key))
    ||| storage_failed(found)
}

/// What is left to give after the outcome `found` for the first of the remaining names.
pub open spec fn advanced(stream: StreamModel, found: Found) -> StreamModel {
    met(StreamModel { seen: stream.seen, remaining: stream.remaining.skip(1) }, parts(found))
}

/// The line `line` was given for the first of the remaining names of `stream`, and `then` is
/// left.
pub open spec fn stepped<W>(
    contents: Contents,
    stream: StreamModel,
    line: Option<Option<GetResp<CdnKeyValueModel, Seq<char>, ErrorModel>>>,
    next: StreamModel,
) -> bool where CdnValue: ProstMessage<W> {
    exists|found: Found|
        {
            &&& #[trigger] may_find::<W>(contents, stream.remaining[0], found)
            &&& line == Some(Some(stream_reply(found)))
            &&& next == advanced(stream, found)
        }
}

} // verus!
