//! The data tree: a service that keeps values under texts.
use crate::data_access::{
    add_in_transaction, add_spec, after, be_bytes, before, contains_key, contains_spec, delete,
    delete_spec, failed, get, get_page_by_prefix_str, get_spec, is_page, is_page_of_steps, mapped,
    only_storage_errors, requested_entry, requested_key, step_of, steps_of, to_be_bytes, were_taken,
    window, AddResult, AddResultSuccess, DeleteResult, DeleteResultSuccess, GetResult,
    GetResultSuccess, KeyString, Page, PageResult, PageResultSuccess, Step, StepModel, Uid,
};
use crate::error_handling::{is_aborted, is_storage_error, ErrorModel, InternalError};
use crate::key_order::{is_scan, scan, Contents, EntryModel};
use crate::pb::{
    AddRequest, AddResp, AddResponse, ContainsRequest, ContainsResp, ContainsResponse, CopyRequest,
    CopyRequestModel, CopyResp, CopyResponse, DeleteRequest, DeleteResp, DeleteResponse,
    GetRequest, GetResp, GetResponse, Key, KeyModel, KeyUid, KvEntry, KvEntryModel, KvMetadata,
    KvMetadataModel, SearchRequest, SearchRequestModel, SearchResp, SearchResponse, SearchResponseItem,
    SearchResponseItemModel, ValueEntry, ValueMetadata, ValueMetadataModel, COMPRESSION_NONE,
    HASHED_WITH_SIP, STATUS_ACTIVE, UPDATE_ACTION_ADDED,
};
use crate::store::{given_up, reported, Scan, Store};
use crate::wire::{message_in, outcome, reads_back, ProstMessage, ProstMessageExt};
use core::hash::Hasher;
use siphasher::sip::SipHasher24;
use vstd::prelude::*;
use vstd::slice::slice_to_vec;
use vstd::utf8::encode_utf8;

verus! {

/// SipHash 2-4 of `bytes`, with both keys zero.
pub uninterp spec fn sip24(bytes: Seq<u8>) -> u64;

/// `siphasher::sip::SipHasher24`, made with `new`, given the bytes with `write` and asked with
/// `finish`. [`sip24`] names the result.
#[verifier::external_body]
fn sip_hash(bytes: &[u8]) -> (r: u64)
    ensures
        r == sip24(bytes@),
{
    let mut h = SipHasher24::new();
    h.write(bytes);
    h.finish()
}

/// The hash of a key: the eight bytes of the SipHash of its text, most significant first.
pub open spec fn key_hash(key: Seq<char>) -> Seq<u8> {
    be_bytes(sip24(encode_utf8(key)))
}

/// The hash of a key.
pub fn hasher(k: &KeyString) -> (r: Vec<u8>)
    ensures
        r@ == key_hash(k.0@),
{
    to_be_bytes(sip_hash(k.0.as_str().as_bytes()))
}

/// The hash of a key, as a message.
pub fn to_key_uid(k: &KeyString) -> (r: KeyUid)
    ensures
        r.deep_view() == key_hash(k.0@),
{
    KeyUid { sip: hasher(k) }
}

/// The entry that the data tree keeps for a value under a key.
pub open spec fn kv_entry(key: Seq<char>, value: Option<Seq<u8>>) -> KvEntryModel {
    KvEntryModel {
        metadata: Some(
            KvMetadataModel {
                key_uid: Some(key_hash(key)),
                status: STATUS_ACTIVE,
                expiry: None,
                action: UPDATE_ACTION_ADDED,
                created_by: None,
                created_at: None,
                correlation_id: "####"@,
                originator_replica_id: "0"@,
                value_metadata: Some(
                    ValueMetadataModel {
                        hashed_with: HASHED_WITH_SIP,
                        hash: seq![1u8, 2u8, 3u8],
                        compression: COMPRESSION_NONE,
                        size_compressed: 10,
                        size_full: 12,
                        serializer_id: "TBD"@,
                    },
                ),
            },
        ),
        value,
    }
}

/// The entry that the data tree keeps for the value `v` under the key `k`, with the key and
/// its hash; nothing without a key.
pub fn build_kv_entry(k: Option<Key>, v: Option<ValueEntry>) -> (r: Option<
    (KvEntry, KeyString, KeyUid),
>)
    ensures
        match k {
            None => r is None,
            Some(ks) => {
                &&& r matches Some((entry, key, key_uid))
                &&& entry.deep_view() == kv_entry(ks.key@, v.deep_view())
                &&& key.0@ == ks.key@
                &&& key_uid.deep_view() == key_hash(ks.key@)
            },
        },
{
    let ks = match k {
        Some(ks) => ks,
        None => {
            return None;
        },
    };
    let key = KeyString(ks.key);
    let key_uid = to_key_uid(&key);
    let hash: Vec<u8> = vec![1, 2, 3];
    let kv_entry = KvEntry {
        metadata: Some(
            KvMetadata {
                key_uid: Some(KeyUid { sip: slice_to_vec(key_uid.sip.as_slice()) }),
                status: STATUS_ACTIVE,
                expiry: None,
                action: UPDATE_ACTION_ADDED,
                created_by: None,
                created_at: None,
                correlation_id: "####".to_owned(),
                originator_replica_id: "0".to_owned(),
                value_metadata: Some(
                    ValueMetadata {
                        hashed_with: HASHED_WITH_SIP,
                        hash,
                        compression: COMPRESSION_NONE,
                        size_compressed: 10,
                        size_full: 12,
                        serializer_id: "TBD".to_owned(),
                    },
                ),
            },
        ),
        value: v,
    };
    assert(hash@ =~= seq![1u8, 2u8, 3u8]);
    Some((kv_entry, key, key_uid))
}

/// The tree, or the trees, that entries are kept in.
pub enum KeyColumn {
    SimpleKeyColumn(Store),
}

impl View for KeyColumn {
    type V = Contents;

    open spec fn view(&self) -> Contents {
        match *self {
            KeyColumn::SimpleKeyColumn(tree) => tree@,
        }
    }
}

/// The data tree service.
pub struct DataTreeServer {
    pub tree: KeyColumn,
}

impl View for DataTreeServer {
    type V = Contents;

    open spec fn view(&self) -> Contents {
        self.tree@
    }
}

/// The text of a key.
pub open spec fn text_of(key: Option<KeyModel>) -> Option<Seq<char>> {
    match key {
        Some(k) => Some(k.key),
        None => None,
    }
}

/// The text of a key, as a key of the tree.
fn key_text(key: &Option<Key>) -> (r: Option<KeyString>)
    ensures
        r.deep_view() == text_of(key.deep_view()),
{
    match key {
        Some(k) => Some(KeyString(k.key.clone())),
        None => None,
    }
}

/// A key of which only the text is given.
pub open spec fn bare_key(key: Seq<char>) -> KeyModel {
    KeyModel { key, key_family: None, uid: None }
}

/// What is added for `value` under `key`.
pub open spec fn added_entry(key: Option<KeyModel>, value: Option<Seq<u8>>) -> Option<
    KvEntryModel,
> {
    match key {
        Some(k) => Some(kv_entry(k.key, value)),
        None => None,
    }
}

/// The answer to a request to add that was carried out with the outcome `added`.
pub open spec fn add_reply(added: Result<AddResultSuccess<Seq<char>>, ErrorModel>) -> AddResp<
    KeyModel,
    ErrorModel,
> {
    match added {
        Ok(AddResultSuccess::Success(k)) => AddResp::Success(bare_key(k)),
        Ok(AddResultSuccess::Exists(k)) => AddResp::Exists(bare_key(k)),
        Err(e) => AddResp::Error(e),
    }
}

/// The answer to a request to add that was carried out with the outcome `added`.
pub fn add_response(added: AddResult<KeyString>) -> (r: AddResponse)
    ensures
        r.deep_view() == Some(add_reply(outcome(added))),
        added matches Err(e) ==> r.resp == Some(AddResp::<Key, InternalError>::Error(e)),
{
    let resp = match added {
        Ok(AddResultSuccess::Success(k)) => AddResp::Success(
            Key { key: k.0, key_family: None, uid: None },
        ),
        Ok(AddResultSuccess::Exists(k)) => AddResp::Exists(
            Key { key: k.0, key_family: None, uid: None },
        ),
        Err(e) => AddResp::Error(e),
    };
    AddResponse { resp: Some(resp) }
}

/// The answer to a request to remove that was carried out with the outcome `deleted`.
pub open spec fn delete_reply(
    deleted: Result<DeleteResultSuccess<Seq<char>>, ErrorModel>,
) -> DeleteResp<Seq<u8>, ErrorModel> {
    match deleted {
        Ok(DeleteResultSuccess::Success(k)) => DeleteResp::Success(key_hash(k)),
        Ok(DeleteResultSuccess::NotFound(k)) => DeleteResp::NotFound(key_hash(k)),
        Err(e) => DeleteResp::Error(e),
    }
}

/// The answer to a request to remove that was carried out with the outcome `deleted`.
pub fn delete_response(deleted: DeleteResult<KeyString>) -> (r: DeleteResponse)
    ensures
        r.deep_view() == Some(delete_reply(outcome(deleted))),
        deleted matches Err(e) ==> r.resp == Some(DeleteResp::<KeyUid, InternalError>::Error(e)),
{
    let resp = match deleted {
        Ok(DeleteResultSuccess::Success(k)) => DeleteResp::Success(to_key_uid(&k)),
        Ok(DeleteResultSuccess::NotFound(k)) => DeleteResp::NotFound(to_key_uid(&k)),
        Err(e) => DeleteResp::Error(e),
    };
    DeleteResponse { resp: Some(resp) }
}

/// The answer to a request for an entry that was carried out with the outcome `found`.
pub open spec fn get_reply(
    found: Result<GetResultSuccess<Seq<char>, KvEntryModel>, ErrorModel>,
    return_metadata: bool,
) -> GetResp<KvEntryModel, Seq<u8>, ErrorModel> {
    match found {
        Ok(GetResultSuccess::Success(_, v)) => GetResp::Success(
            if return_metadata {
                v
            } else {
                KvEntryModel { metadata: None, value: v.value }
            },
        ),
        Ok(GetResultSuccess::NotFound(k)) => GetResp::NotFound(key_hash(k)),
        Err(e) => GetResp::Error(e),
    }
}

/// The answer to a request for an entry that was carried out with the outcome `found`.
pub fn get_response(found: GetResult<KeyString, KvEntry>, return_metadata: bool) -> (r: GetResponse)
    ensures
        r.deep_view() == Some(get_reply(outcome(found), return_metadata)),
        found matches Err(e) ==> r.resp == Some(
            GetResp::<KvEntry, KeyUid, InternalError>::Error(e),
        ),
{
    let resp = match found {
        Ok(GetResultSuccess::Success(_k, v)) => if return_metadata {
            GetResp::Success(v)
        } else {
            GetResp::Success(KvEntry { metadata: None, value: v.value })
        },
        Ok(GetResultSuccess::NotFound(k)) => GetResp::NotFound(to_key_uid(&k)),
        Err(e) => GetResp::Error(e),
    };
    GetResponse { resp: Some(resp) }
}

/// The answer to the question whether a key is in use that was carried out with the outcome
/// `found`.
pub open spec fn contains_reply(found: Result<bool, ErrorModel>) -> ContainsResp<ErrorModel> {
    match found {
        Ok(v) => ContainsResp::Success(v),
        Err(e) => ContainsResp::Error(e),
    }
}

/// The answer to the question whether a key is in use that was carried out with the outcome
/// `found`.
pub fn contains_response(found: Result<bool, InternalError>) -> (r: ContainsResponse)
    ensures
        r.deep_view() == Some(contains_reply(outcome(found))),
        found matches Err(e) ==> r.resp == Some(ContainsResp::<InternalError>::Error(e)),
{
    let resp = match found {
        Ok(v) => ContainsResp::Success(v),
        Err(e) => ContainsResp::Error(e),
    };
    ContainsResponse { resp: Some(resp) }
}

/// The answer to the request `r` to copy where adding the copy had the outcome `added`.
pub open spec fn copied_reply(
    r: CopyRequestModel,
    added: Result<AddResultSuccess<Seq<char>>, ErrorModel>,
) -> CopyResp<CopyRequestModel, ErrorModel> {
    match added {
        Ok(AddResultSuccess::Success(_)) => CopyResp::Success(r),
        Ok(AddResultSuccess::Exists(_)) => CopyResp::ToKeyExists(r),
        Err(e) => CopyResp::Error(e),
    }
}

/// The answer to the request `r` to copy where adding the copy had the outcome `added`.
pub fn copied_response(r: CopyRequest, added: AddResult<KeyString>) -> (resp: CopyResponse)
    ensures
        resp.deep_view() == Some(copied_reply(r.deep_view(), outcome(added))),
        added matches Err(e) ==> resp.resp == Some(
            CopyResp::<CopyRequest, InternalError>::Error(e),
        ),
{
    let resp = match added {
        Ok(AddResultSuccess::Success(_k)) => CopyResp::Success(r),
        Ok(AddResultSuccess::Exists(_k)) => CopyResp::ToKeyExists(r),
        Err(e) => CopyResp::Error(e),
    };
    CopyResponse { resp: Some(resp) }
}

/// What is to be copied on the request `r`, from what looking up the source gave: the value, with
/// the request; or else the answer.
pub fn copy_source(r: CopyRequest, found: GetResult<KeyString, KvEntry>) -> (s: Result<
    (CopyRequest, Option<ValueEntry>),
    CopyResponse,
>)
    ensures
        match found {
            Ok(GetResultSuccess::Success(_, v)) => s == Ok::<
                (CopyRequest, Option<ValueEntry>),
                CopyResponse,
            >((r, v.value)),
            Ok(GetResultSuccess::NotFound(_)) => s matches Err(resp) && resp.deep_view() == Some(
                CopyResp::<CopyRequestModel, ErrorModel>::FromKeyNotFound(r.deep_view()),
            ),
            Err(e) => s matches Err(resp) && resp.deep_view() == Some(
                CopyResp::<CopyRequestModel, ErrorModel>::Error(e.deep_view()),
            ),
        },
        found matches Err(e) ==> (s matches Err(resp) && resp.resp == Some(
            CopyResp::<CopyRequest, InternalError>::Error(e),
        )),
{
    match found {
        Ok(GetResultSuccess::Success(_uid, v)) => Ok((r, v.value)),
        Ok(GetResultSuccess::NotFound(_uid)) => Err(
            CopyResponse { resp: Some(CopyResp::FromKeyNotFound(r)) },
        ),
        Err(e) => Err(CopyResponse { resp: Some(CopyResp::Error(e)) }),
    }
}

/// The answer to the request `r` to copy, and what the tree holds then. What is added is an entry
/// for the value of the source, with metadata of its own.
pub open spec fn copy_spec<W>(contents: Contents, r: CopyRequestModel) -> (
    CopyResp<CopyRequestModel, ErrorModel>,
    Contents,
) where KvEntry: ProstMessage<W> {
    match get_spec::<W, KeyString, KvEntry>(contents, text_of(r.key_from)) {
        Ok(GetResultSuccess::Success(_, v)) => {
            let (added, then_holds) = add_spec::<W, KeyString, KvEntry>(
                contents,
                text_of(r.key_to),
                added_entry(r.key_to, v.value),
            );
            (copied_reply(r, added), then_holds)
        },
        Ok(GetResultSuccess::NotFound(_)) => (CopyResp::FromKeyNotFound(r), contents),
        Err(e) => (CopyResp::Error(e), contents),
    }
}

impl DataTreeServer {
    /// Adds a value under a key that is not in use.
    pub fn add<W>(&mut self, r: AddRequest) -> (resp: AddResponse) where KvEntry: ProstMessage<W>
        ensures
            ({
                let key = text_of(r.key.deep_view());
                let entry = added_entry(r.key.deep_view(), r.value.deep_view());
                let (added, then_holds) = add_spec::<W, KeyString, KvEntry>(old(self)@, key, entry);
                ||| resp.deep_view() == Some(add_reply(added)) && final(self)@ == then_holds
                ||| {
                    &&& requested_entry::<W, KeyString, KvEntry>(key, entry) is Ok
                    &&& resp.deep_view() matches Some(AddResp::Error(e)) && is_aborted(e)
                    &&& resp.resp matches Some(AddResp::Error(e)) && given_up(e)
                }
            }),
            resp.deep_view() matches Some(AddResp::Success(_)) ==> reads_back::<W, KvEntry>(
                added_entry(r.key.deep_view(), r.value.deep_view())->0,
            ),
    {
        match &mut self.tree {
            KeyColumn::SimpleKeyColumn(tree) => {
                let (kv_entry, key) = match build_kv_entry(r.key, r.value) {
                    Some((kv_entry, key, _key_uid)) => (Some(kv_entry), Some(key)),
                    None => (None, None),
                };
                add_response(add_in_transaction::<W, KeyString, KvEntry>(tree, key, kv_entry))
            },
        }
    }

    /// Adds the value that is stored under one key under another that is not in use.
    pub fn copy<W>(&mut self, r: CopyRequest) -> (resp: CopyResponse) where KvEntry: ProstMessage<W>
        ensures
            ({
                let from = text_of(r.key_from.deep_view());
                let to = text_of(r.key_to.deep_view());
                let found = get_spec::<W, KeyString, KvEntry>(old(self)@, from);
                let (answer, then_holds) = copy_spec::<W>(old(self)@, r.deep_view());
                ||| resp.deep_view() == Some(answer) && final(self)@ == then_holds
                ||| {
                    &&& requested_key::<KeyString>(from) is Ok
                    &&& resp.deep_view() matches Some(CopyResp::Error(e)) && is_storage_error(e)
                    &&& resp.resp matches Some(CopyResp::Error(e)) && reported(e)
                    &&& final(self)@ == old(self)@
                }
                ||| {
                    &&& found matches Ok(GetResultSuccess::Success(_, v))
                    &&& requested_key::<KeyString>(to) is Ok
                    &&& resp.deep_view() matches Some(CopyResp::Error(e)) && is_aborted(e)
                    &&& resp.resp matches Some(CopyResp::Error(e)) && given_up(e)
                }
            }),
            resp.deep_view() matches Some(CopyResp::Success(_)) ==> {
                let from = text_of(r.key_from.deep_view());
                let to = text_of(r.key_to.deep_view());
                &&& get_spec::<W, KeyString, KvEntry>(old(self)@, from) matches Ok(
                    GetResultSuccess::Success(_, v),
                )
                &&& get_spec::<W, KeyString, KvEntry>(final(self)@, to) matches Ok(
                    GetResultSuccess::Success(_, c),
                )
                &&& c.value == v.value
                &&& reads_back::<W, KvEntry>(added_entry(r.key_to.deep_view(), v.value)->0)
            },
    {
        let key_from = key_text(&r.key_from);
        let key_to = key_text(&r.key_to);
        match &mut self.tree {
            KeyColumn::SimpleKeyColumn(tree) => {
                let found = get::<W, KeyString, KvEntry>(tree, key_from);
                let (r, value) = match copy_source(r, found) {
                    Ok(source) => source,
                    Err(resp) => {
                        return resp;
                    },
                };
                let to = match key_to {
                    Some(key) => Some(Key { key: key.0, key_family: None, uid: None }),
                    None => None,
                };
                let (kv_entry, key) = match build_kv_entry(to, value) {
                    Some((kv_entry, key, _key_uid)) => (Some(kv_entry), Some(key)),
                    None => (None, None),
                };
                let added = add_in_transaction::<W, KeyString, KvEntry>(tree, key, kv_entry);
                copied_response(r, added)
            },
        }
    }

    /// Removes an entry.
    pub fn delete(&mut self, r: DeleteRequest) -> (resp: DeleteResponse)
        ensures
            ({
                let key = text_of(r.key.deep_view());
                let (deleted, then_holds) = delete_spec::<KeyString>(old(self)@, key);
                ||| resp.deep_view() == Some(delete_reply(deleted)) && final(self)@ == then_holds
                ||| {
                    &&& requested_key::<KeyString>(key) is Ok
                    &&& resp.deep_view() matches Some(DeleteResp::Error(e)) && is_storage_error(e)
                    &&& resp.resp matches Some(DeleteResp::Error(e)) && reported(e)
                }
            }),
    {
        let key = key_text(&r.key);
        match &mut self.tree {
            KeyColumn::SimpleKeyColumn(tree) => delete_response(delete(tree, key)),
        }
    }

    /// The entry under a key, with its metadata or without.
    pub fn get<W>(&self, r: GetRequest) -> (resp: GetResponse) where KvEntry: ProstMessage<W>
        ensures
            ({
                let key = text_of(r.key.deep_view());
                let found = get_spec::<W, KeyString, KvEntry>(self@, key);
                ||| resp.deep_view() == Some(get_reply(found, r.return_metadata))
                ||| {
                    &&& requested_key::<KeyString>(key) is Ok
                    &&& resp.deep_view() matches Some(GetResp::Error(e)) && is_storage_error(e)
                    &&& resp.resp matches Some(GetResp::Error(e)) && reported(e)
                }
            }),
    {
        let key = key_text(&r.key);
        match &self.tree {
            KeyColumn::SimpleKeyColumn(tree) => get_response(
                get::<W, KeyString, KvEntry>(tree, key),
                r.return_metadata,
            ),
        }
    }

    /// Whether a key is in use.
    pub fn contains(&self, r: ContainsRequest) -> (resp: ContainsResponse)
        ensures
            ({
                let key = text_of(r.key.deep_view());
                let found = contains_spec::<KeyString>(self@, key);
                ||| resp.deep_view() == Some(contains_reply(found))
                ||| {
                    &&& requested_key::<KeyString>(key) is Ok
                    &&& resp.deep_view() matches Some(ContainsResp::Error(e)) && is_storage_error(e)
                    &&& resp.resp matches Some(ContainsResp::Error(e)) && reported(e)
                }
            }),
    {
        let key = key_text(&r.key);
        match &self.tree {
            KeyColumn::SimpleKeyColumn(tree) => contains_response(contains_key(tree, key)),
        }
    }
}

/// The number of steps on a page if a search does not say.
pub const DEFAULT_PAGE_SIZE: u32 = 1000;

/// What a search reads of a step of the walk: the key, and the entry if any of it is wanted.
pub open spec fn searched<W>(step: StepModel, wanted: bool) -> Result<
    (Seq<char>, Option<KvEntryModel>),
    ErrorModel,
> where KvEntry: ProstMessage<W> {
    match step {
        Err(e) => Err(e),
        Ok((k_bytes, v_bytes)) => match KeyString::key_decoding(k_bytes) {
            Err(e) => Err(e),
            Ok(key) => if wanted {
                match message_in::<W, KvEntry>(v_bytes) {
                    Err(e) => Err(e),
                    Ok(entry) => Ok((key, Some(entry))),
                }
            } else {
                Ok((key, None))
            },
        },
    }
}

/// What a page item says.
pub open spec fn page_item(item: PageResult<(KeyString, Option<KvEntry>)>) -> Result<
    (Seq<char>, Option<KvEntryModel>),
    ErrorModel,
> {
    match item {
        Ok(PageResultSuccess::Success((key, entry))) => Ok((key.deep_view(), entry.deep_view())),
        Err(e) => Err(e.deep_view()),
    }
}

/// What a search reads of an entry.
pub fn search_item<W>(entry: (Vec<u8>, Vec<u8>), wanted: bool) -> (r: PageResult<
    (KeyString, Option<KvEntry>),
>) where KvEntry: ProstMessage<W>
    ensures
        page_item(r) == searched::<W>(Ok((entry.0@, entry.1@)), wanted),
{
    let (k_bytes, v_bytes) = entry;
    let key = match KeyString::from_key_bytes(&k_bytes) {
        Ok(key) => key,
        Err(e) => {
            return Err(e);
        },
    };
    let key_entry = if wanted {
        match <KvEntry as ProstMessageExt<W>>::from_bytes(&v_bytes) {
            Ok(key_entry) => Some(key_entry),
            Err(e) => {
                return Err(e);
            },
        }
    } else {
        None
    };
    Ok(PageResultSuccess::Success((key, key_entry)))
}

/// The line of the answer to a search for what it read.
pub open spec fn search_reply(
    item: Result<(Seq<char>, Option<KvEntryModel>), ErrorModel>,
    return_value: bool,
    return_metadata: bool,
) -> SearchResp<SearchResponseItemModel, ErrorModel> {
    match item {
        Ok((key, entry)) => SearchResp::Success(
            SearchResponseItemModel {
                key: Some(bare_key(key)),
                value: if return_value && entry is Some {
                    entry->0.value
                } else {
                    None
                },
                metadata: if return_metadata && entry is Some {
                    entry->0.metadata
                } else {
                    None
                },
            },
        ),
        Err(e) => SearchResp::KeyError(e),
    }
}

/// The line of the answer to a search for what it read.
pub fn search_response(
    item: PageResult<(KeyString, Option<KvEntry>)>,
    return_value: bool,
    return_metadata: bool,
) -> (r: SearchResponse)
    ensures
        r.deep_view() == Some(search_reply(page_item(item), return_value, return_metadata)),
{
    let resp = match item {
        Ok(PageResultSuccess::Success((k, v))) => {
            let (value, metadata) = match v {
                Some(vv) => (vv.value, vv.metadata),
                None => (None, None),
            };
            SearchResp::Success(
                SearchResponseItem {
                    key: Some(Key { key: k.0, key_family: None, uid: None }),
                    value: if return_value {
                        value
                    } else {
                        None
                    },
                    metadata: if return_metadata {
                        metadata
                    } else {
                        None
                    },
                },
            )
        },
        Err(e) => SearchResp::KeyError(e),
    };
    SearchResponse { resp: Some(resp) }
}

/// The line of the answer to a search for a step of the walk.
pub open spec fn search_line<W>(
    step: StepModel,
    return_value: bool,
    return_metadata: bool,
) -> SearchResp<SearchResponseItemModel, ErrorModel> where KvEntry: ProstMessage<W> {
    search_reply(
        searched::<W>(step, return_value || return_metadata),
        return_value,
        return_metadata,
    )
}

/// The answer to a search.
#[derive(Debug, Clone, PartialEq, Eq)]
pub struct SearchAnswer {
    /// A line for each step on the page.
    pub lines: Vec<SearchResponse>,
    /// The failures on the way to the page: for each of them it begins one entry earlier.
    pub missed: Vec<InternalError>,
}

/// The entries that a search for `key_prefix` goes through.
pub open spec fn matches_of(contents: Contents, key_prefix: Seq<char>) -> Seq<EntryModel> {
    scan(contents, encode_utf8(key_prefix))
}

/// How many steps come before the page that a search asks for, and how many are on it.
pub open spec fn search_window(asked: SearchRequestModel) -> (nat, nat) {
    window(Some(asked.page), Some(asked.page_size), DEFAULT_PAGE_SIZE)
}

/// `lines` are the lines of the answer to the search `asked` for the steps on a page.
pub open spec fn are_lines<W>(
    asked: SearchRequestModel,
    page: Seq<StepModel>,
    lines: Seq<SearchResponse>,
) -> bool where KvEntry: ProstMessage<W> {
    &&& lines.len() == page.len()
    &&& forall|i: int|
        0 <= i < page.len() ==> (#[trigger] lines[i]).deep_view() == Some(
            search_line::<W>(page[i], asked.return_value, asked.return_metadata),
        )
}

/// `answer` has a line for each of the steps `steps` of a walk through `scan` that are on the page,
/// and the failures among those before it.
pub open spec fn is_answer_of_steps<W>(
    scan: Scan,
    steps: Seq<Step>,
    asked: SearchRequestModel,
    answer: SearchAnswer,
) -> bool where KvEntry: ProstMessage<W> {
    let (skip, size) = search_window(asked);
    &&& were_taken(scan, steps, skip + size)
    &&& answer.missed@ == failed(before(steps, skip))
    &&& are_lines::<W>(asked, steps_of(after(steps, skip)), answer.lines@)
}

/// `answer` has a line for each step on the page of those that the storage engine took through
/// `entries`.
pub open spec fn is_taken_answer<W>(
    entries: Seq<EntryModel>,
    asked: SearchRequestModel,
    answer: SearchAnswer,
) -> bool where KvEntry: ProstMessage<W> {
    exists|scan: Scan, steps: Seq<Step>|
        scan@ == entries && #[trigger] is_answer_of_steps::<W>(scan, steps, asked, answer)
}

/// `answer` is the answer to the search `asked`: a line for each step on the page, in the order
/// of the steps.
pub open spec fn is_search_answer<W>(
    contents: Contents,
    asked: SearchRequestModel,
    answer: SearchAnswer,
) -> bool where KvEntry: ProstMessage<W> {
    let entries = matches_of(contents, asked.key_prefix);
    &&& is_scan(contents, encode_utf8(asked.key_prefix), entries)
    &&& only_storage_errors(answer.missed@)
    &&& is_taken_answer::<W>(entries, asked, answer)
    &&& exists|page: Seq<StepModel>| #[trigger]
        are_lines::<W>(asked, page, answer.lines@) && is_page(
            entries,
            search_window(asked).0,
            search_window(asked).1,
            answer.missed@.len(),
            page,
        )
}

impl DataTreeServer {
    /// One page of the entries whose keys start with a prefix, in the order of their keys.
    pub fn search<W>(&self, r: SearchRequest) -> (resp: Result<SearchAnswer, InternalError>) where
        KvEntry: ProstMessage<W>,

        ensures
            resp matches Ok(answer) && is_search_answer::<W>(self@, r.deep_view(), answer),
    {
        let return_value = r.return_value;
        let return_metadata = r.return_metadata;
        let wanted = return_value || return_metadata;
        let result_mapper = |entry: (Vec<u8>, Vec<u8>)| -> (item: PageResult<
            (KeyString, Option<KvEntry>),
        >)
            ensures
                page_item(item) == searched::<W>(Ok((entry.0@, entry.1@)), wanted),
            { search_item::<W>(entry, wanted) };
        let res = match &self.tree {
            KeyColumn::SimpleKeyColumn(tree) => get_page_by_prefix_str(
                tree,
                Some(KeyString(r.key_prefix)),
                Some(r.page),
                Some(r.page_size),
                DEFAULT_PAGE_SIZE,
                result_mapper,
            ),
        };
        let page = match res {
            Ok(page) => page,
            Err(e) => {
                return Err(e);
            },
        };
        let ghost listed = page;
        let ghost asked = search_window(r.deep_view());
        let ghost (through, taken) = choose|through: Scan, taken: Seq<Step>|
            through@ == scan(self@, encode_utf8(r.key_prefix@)) && #[trigger] is_page_of_steps(
                through,
                taken,
                asked,
                result_mapper,
                listed,
            );
        let Page { items: page_results, missed } = page;
        let ghost steps = choose|steps: Seq<Step>| #[trigger]
            mapped(result_mapper, steps, page_results@) && is_page(
                scan(self@, encode_utf8(r.key_prefix@)),
                window(Some(r.page), Some(r.page_size), DEFAULT_PAGE_SIZE).0,
                window(Some(r.page), Some(r.page_size), DEFAULT_PAGE_SIZE).1,
                missed@.len(),
                steps_of(steps),
            );
        let mut lines: Vec<SearchResponse> = Vec::new();
        for page_result in it: page_results.into_iter()
            invariant
                it.seq() == page_results@,
                lines.len() == it.index(),
                forall|i: int|
                    0 <= i < lines.len() ==> (#[trigger] lines[i]).deep_view() == Some(
                        search_reply(page_item(page_results[i]), return_value, return_metadata),
                    ),
        {
            lines.push(search_response(page_result, return_value, return_metadata));
        }
        let answer = SearchAnswer { lines, missed };
        proof {
            let page = steps_of(steps);
            assert forall|i: int| 0 <= i < page.len() implies (
            #[trigger] answer.lines@[i]).deep_view() == Some(
                search_line::<W>(page[i], return_value, return_metadata),
            ) by {
                assert(page[i] == step_of(steps[i]));
            }
            assert(are_lines::<W>(r.deep_view(), page, answer.lines@));
            let rest = after(taken, asked.0);
            assert forall|i: int| 0 <= i < rest.len() implies (
            #[trigger] answer.lines@[i]).deep_view() == Some(
                search_line::<W>(steps_of(rest)[i], return_value, return_metadata),
            ) by {
                assert(steps_of(rest)[i] == step_of(rest[i]));
            }
            assert(is_answer_of_steps::<W>(through, taken, r.deep_view(), answer));
        }
        Ok(answer)
    }
}

} // verus!
