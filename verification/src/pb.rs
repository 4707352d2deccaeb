//! The messages that clients exchange with the database.
//!
//! Each message has a model, its [`DeepView`]: texts as sequences of characters, byte strings
//! as sequences of bytes. An answer that is one of several is generic in what it carries, so
//! that one type serves for the answer and for its model.
use crate::error_handling::{EncodeError, ErrorModel, InternalError};
use crate::wire::{
    bytes_value_in, decode_bytes_value, decode_string_value, encode_bytes_value,
    encode_string_value, field_one, string_value_in, ProstMessage,
};
use vstd::prelude::*;
use vstd::string::StringExecFns;
use vstd::utf8::encode_utf8;

verus! {

/// An entry is in use.
pub const STATUS_ACTIVE: i32 = 0;

/// An entry came about by adding it.
pub const UPDATE_ACTION_ADDED: i32 = 0;

/// A value was hashed with SipHash.
pub const HASHED_WITH_SIP: i32 = 0;

/// A value is stored as it is.
pub const COMPRESSION_NONE: i32 = 0;

/// The hash that stands for a key.
#[derive(Debug, Clone, PartialEq, Eq)]
pub struct KeyUid {
    pub sip: Vec<u8>,
}

/// The family that a key belongs to.
#[derive(Debug, Clone, PartialEq, Eq)]
pub struct KeyFamily {
    pub name: String,
}

/// A key as clients write it.
#[derive(Debug, Clone, PartialEq, Eq)]
pub struct Key {
    pub key: String,
    pub key_family: Option<KeyFamily>,
    pub uid: Option<KeyUid>,
}

/// A point in time.
#[derive(Debug, Clone, Copy, PartialEq, Eq)]
pub struct Timestamp {
    pub seconds: i64,
    pub nanos: i32,
}

/// Who created an entry.
#[derive(Debug, Clone, PartialEq, Eq)]
pub struct Principal {
    pub name: String,
}

/// What is known of a stored value.
#[derive(Debug, Clone, PartialEq, Eq)]
pub struct ValueMetadata {
    pub hashed_with: i32,
    pub hash: Vec<u8>,
    pub compression: i32,
    pub size_compressed: u64,
    pub size_full: u64,
    pub serializer_id: String,
}

/// What is known of a stored entry.
#[derive(Debug, Clone, PartialEq, Eq)]
pub struct KvMetadata {
    pub key_uid: Option<KeyUid>,
    pub status: i32,
    pub expiry: Option<Timestamp>,
    pub action: i32,
    pub created_by: Option<Principal>,
    pub created_at: Option<Timestamp>,
    pub correlation_id: String,
    pub originator_replica_id: String,
    pub value_metadata: Option<ValueMetadata>,
}

/// A value, which the database does not look into.
#[derive(Debug, Clone, PartialEq, Eq)]
pub struct ValueEntry {
    pub content: Vec<u8>,
}

/// An entry of the data tree.
#[derive(Debug, Clone, PartialEq, Eq)]
pub struct KvEntry {
    pub metadata: Option<KvMetadata>,
    pub value: Option<ValueEntry>,
}

/// The name of a value, or of a part of a value, in the content tree.
#[derive(Debug, Clone, PartialEq, Eq)]
pub struct CdnUid {
    pub message: String,
}

/// The parts that a long value was split into.
#[derive(Debug, Clone, PartialEq, Eq)]
pub struct Batch {
    pub uids: Vec<CdnUid>,
}

/// Either a value or the parts of one.
#[derive(Debug, Clone, PartialEq, Eq)]
pub enum CdnMessage {
    Batch(Batch),
    Bytes(Vec<u8>),
}

/// An entry of the content tree.
#[derive(Debug, Clone, PartialEq, Eq)]
pub struct CdnValue {
    pub message: Option<CdnMessage>,
}

/// A value together with its name.
#[derive(Debug, Clone, PartialEq, Eq)]
pub struct CdnKeyValue {
    pub key: Option<CdnUid>,
    pub value: Option<CdnValue>,
}

/// What a [`Key`] says.
pub struct KeyModel {
    pub key: Seq<char>,
    pub key_family: Option<Seq<char>>,
    pub uid: Option<Seq<u8>>,
}

/// What a [`ValueMetadata`] says.
pub struct ValueMetadataModel {
    pub hashed_with: i32,
    pub hash: Seq<u8>,
    pub compression: i32,
    pub size_compressed: u64,
    pub size_full: u64,
    pub serializer_id: Seq<char>,
}

/// What a [`KvMetadata`] says.
pub struct KvMetadataModel {
    pub key_uid: Option<Seq<u8>>,
    pub status: i32,
    pub expiry: Option<Timestamp>,
    pub action: i32,
    pub created_by: Option<Seq<char>>,
    pub created_at: Option<Timestamp>,
    pub correlation_id: Seq<char>,
    pub originator_replica_id: Seq<char>,
    pub value_metadata: Option<ValueMetadataModel>,
}

/// What a [`KvEntry`] says.
pub struct KvEntryModel {
    pub metadata: Option<KvMetadataModel>,
    pub value: Option<Seq<u8>>,
}

/// What a [`CdnMessage`] says.
pub enum CdnMessageModel {
    Batch(Seq<Seq<char>>),
    Bytes(Seq<u8>),
}

/// What a [`CdnKeyValue`] says.
pub struct CdnKeyValueModel {
    pub key: Option<Seq<char>>,
    pub value: Option<Option<CdnMessageModel>>,
}

impl DeepView for KeyUid {
    type V = Seq<u8>;

    open spec fn deep_view(&self) -> Seq<u8> {
        self.sip@
    }
}

impl DeepView for KeyFamily {
    type V = Seq<char>;

    open spec fn deep_view(&self) -> Seq<char> {
        self.name@
    }
}

impl DeepView for Key {
    type V = KeyModel;

    open spec fn deep_view(&self) -> KeyModel {
        KeyModel {
            key: self.key@,
            key_family: self.key_family.deep_view(),
            uid: self.uid.deep_view(),
        }
    }
}

impl DeepView for Timestamp {
    type V = Timestamp;

    open spec fn deep_view(&self) -> Timestamp {
        *self
    }
}

impl DeepView for Principal {
    type V = Seq<char>;

    open spec fn deep_view(&self) -> Seq<char> {
        self.name@
    }
}

impl DeepView for ValueMetadata {
    type V = ValueMetadataModel;

    open spec fn deep_view(&self) -> ValueMetadataModel {
        ValueMetadataModel {
            hashed_with: self.hashed_with,
            hash: self.hash@,
            compression: self.compression,
            size_compressed: self.size_compressed,
            size_full: self.size_full,
            serializer_id: self.serializer_id@,
        }
    }
}

impl DeepView for KvMetadata {
    type V = KvMetadataModel;

    open spec fn deep_view(&self) -> KvMetadataModel {
        KvMetadataModel {
            key_uid: self.key_uid.deep_view(),
            status: self.status,
            expiry: self.expiry,
            action: self.action,
            created_by: self.created_by.deep_view(),
            created_at: self.created_at,
            correlation_id: self.correlation_id@,
            originator_replica_id: self.originator_replica_id@,
            value_metadata: self.value_metadata.deep_view(),
        }
    }
}

impl DeepView for ValueEntry {
    type V = Seq<u8>;

    open spec fn deep_view(&self) -> Seq<u8> {
        self.content@
    }
}

impl DeepView for KvEntry {
    type V = KvEntryModel;

    open spec fn deep_view(&self) -> KvEntryModel {
        KvEntryModel {
            metadata: self.metadata.deep_view(),
            value: self.value.deep_view(),
        }
    }
}

impl DeepView for CdnUid {
    type V = Seq<char>;

    open spec fn deep_view(&self) -> Seq<char> {
        self.message@
    }
}

impl DeepView for Batch {
    type V = Seq<Seq<char>>;

    open spec fn deep_view(&self) -> Seq<Seq<char>> {
        self.uids.deep_view()
    }
}

impl DeepView for CdnMessage {
    type V = CdnMessageModel;

    open spec fn deep_view(&self) -> CdnMessageModel {
        match *self {
            CdnMessage::Batch(batch) => CdnMessageModel::Batch(batch.deep_view()),
            CdnMessage::Bytes(bytes) => CdnMessageModel::Bytes(bytes@),
        }
    }
}

impl DeepView for CdnValue {
    type V = Option<CdnMessageModel>;

    open spec fn deep_view(&self) -> Option<CdnMessageModel> {
        self.message.deep_view()
    }
}

impl DeepView for CdnKeyValue {
    type V = CdnKeyValueModel;

    open spec fn deep_view(&self) -> CdnKeyValueModel {
        CdnKeyValueModel { key: self.key.deep_view(), value: self.value.deep_view() }
    }
}

/// Asks to add an entry under a key that is not in use.
#[derive(Debug, Clone, PartialEq, Eq)]
pub struct AddRequest {
    pub key: Option<Key>,
    pub value: Option<ValueEntry>,
}

/// Asks to add what is stored under one key under another that is not in use.
#[derive(Debug, Clone, PartialEq, Eq)]
pub struct CopyRequest {
    pub key_from: Option<Key>,
    pub key_to: Option<Key>,
}

/// Asks to remove an entry.
#[derive(Debug, Clone, PartialEq, Eq)]
pub struct DeleteRequest {
    pub key: Option<Key>,
}

/// Asks for an entry, with its metadata or without.
#[derive(Debug, Clone, PartialEq, Eq)]
pub struct GetRequest {
    pub key: Option<Key>,
    pub return_metadata: bool,
}

/// Asks whether a key is in use.
#[derive(Debug, Clone, PartialEq, Eq)]
pub struct ContainsRequest {
    pub key: Option<Key>,
}

/// Asks for one page of the entries whose keys start with a prefix.
#[derive(Debug, Clone, PartialEq, Eq)]
pub struct SearchRequest {
    pub key_prefix: String,
    pub page: u32,
    pub page_size: u32,
    pub return_value: bool,
    pub return_metadata: bool,
}

/// Asks to add a value under a name that is not in use.
#[derive(Debug, Clone, PartialEq, Eq)]
pub struct CdnAddRequest {
    pub uid: Option<CdnUid>,
    pub value: Option<CdnValue>,
}

/// Asks to remove a value.
#[derive(Debug, Clone, PartialEq, Eq)]
pub struct CdnDeleteRequest {
    pub uid: Option<CdnUid>,
}

/// Asks for a value, or for a value and all its parts.
#[derive(Debug, Clone, PartialEq, Eq)]
pub struct CdnGetRequest {
    pub uid: Option<CdnUid>,
}

/// Asks whether a name is in use.
#[derive(Debug, Clone, PartialEq, Eq)]
pub struct CdnContainsRequest {
    pub uid: Option<CdnUid>,
}

/// One entry that a search found.
#[derive(Debug, Clone, PartialEq, Eq)]
pub struct SearchResponseItem {
    pub key: Option<Key>,
    pub value: Option<ValueEntry>,
    pub metadata: Option<KvMetadata>,
}

/// What a [`CopyRequest`] says.
pub struct CopyRequestModel {
    pub key_from: Option<KeyModel>,
    pub key_to: Option<KeyModel>,
}

/// What a [`SearchRequest`] says.
pub struct SearchRequestModel {
    pub key_prefix: Seq<char>,
    pub page: u32,
    pub page_size: u32,
    pub return_value: bool,
    pub return_metadata: bool,
}

impl DeepView for SearchRequest {
    type V = SearchRequestModel;

    open spec fn deep_view(&self) -> SearchRequestModel {
        SearchRequestModel {
            key_prefix: self.key_prefix@,
            page: self.page,
            page_size: self.page_size,
            return_value: self.return_value,
            return_metadata: self.return_metadata,
        }
    }
}

/// What a [`SearchResponseItem`] says.
pub struct SearchResponseItemModel {
    pub key: Option<KeyModel>,
    pub value: Option<Seq<u8>>,
    pub metadata: Option<KvMetadataModel>,
}

impl DeepView for CopyRequest {
    type V = CopyRequestModel;

    open spec fn deep_view(&self) -> CopyRequestModel {
        CopyRequestModel {
            key_from: self.key_from.deep_view(),
            key_to: self.key_to.deep_view(),
        }
    }
}

impl DeepView for SearchResponseItem {
    type V = SearchResponseItemModel;

    open spec fn deep_view(&self) -> SearchResponseItemModel {
        SearchResponseItemModel {
            key: self.key.deep_view(),
            value: self.value.deep_view(),
            metadata: self.metadata.deep_view(),
        }
    }
}

/// The answer to a request to add under a key.
#[derive(Debug, Clone, PartialEq, Eq)]
pub enum AddResp<K, E> {
    Success(K),
    Exists(K),
    Error(E),
}

impl<K: DeepView, E: DeepView> DeepView for AddResp<K, E> {
    type V = AddResp<K::V, E::V>;

    open spec fn deep_view(&self) -> AddResp<K::V, E::V> {
        match *self {
            AddResp::Success(x) => AddResp::Success(x.deep_view()),
            AddResp::Exists(x) => AddResp::Exists(x.deep_view()),
            AddResp::Error(x) => AddResp::Error(x.deep_view()),
        }
    }
}

/// The answer to a request to copy.
#[derive(Debug, Clone, PartialEq, Eq)]
pub enum CopyResp<R, E> {
    Success(R),
    FromKeyNotFound(R),
    ToKeyExists(R),
    Error(E),
}

impl<R: DeepView, E: DeepView> DeepView for CopyResp<R, E> {
    type V = CopyResp<R::V, E::V>;

    open spec fn deep_view(&self) -> CopyResp<R::V, E::V> {
        match *self {
            CopyResp::Success(x) => CopyResp::Success(x.deep_view()),
            CopyResp::FromKeyNotFound(x) => CopyResp::FromKeyNotFound(x.deep_view()),
            CopyResp::ToKeyExists(x) => CopyResp::ToKeyExists(x.deep_view()),
            CopyResp::Error(x) => CopyResp::Error(x.deep_view()),
        }
    }
}

/// The answer to a request to remove a key.
#[derive(Debug, Clone, PartialEq, Eq)]
pub enum DeleteResp<K, E> {
    Success(K),
    NotFound(K),
    Error(E),
}

impl<K: DeepView, E: DeepView> DeepView for DeleteResp<K, E> {
    type V = DeleteResp<K::V, E::V>;

    open spec fn deep_view(&self) -> DeleteResp<K::V, E::V> {
        match *self {
            DeleteResp::Success(x) => DeleteResp::Success(x.deep_view()),
            DeleteResp::NotFound(x) => DeleteResp::NotFound(x.deep_view()),
            DeleteResp::Error(x) => DeleteResp::Error(x.deep_view()),
        }
    }
}

/// The answer to a request for what is under a key.
#[derive(Debug, Clone, PartialEq, Eq)]
pub enum GetResp<X, K, E> {
    Success(X),
    NotFound(K),
    Error(E),
}

impl<X: DeepView, K: DeepView, E: DeepView> DeepView for GetResp<X, K, E> {
    type V = GetResp<X::V, K::V, E::V>;

    open spec fn deep_view(&self) -> GetResp<X::V, K::V, E::V> {
        match *self {
            GetResp::Success(x) => GetResp::Success(x.deep_view()),
            GetResp::NotFound(x) => GetResp::NotFound(x.deep_view()),
            GetResp::Error(x) => GetResp::Error(x.deep_view()),
        }
    }
}

/// The answer to the question whether a key is in use.
#[derive(Debug, Clone, PartialEq, Eq)]
pub enum ContainsResp<E> {
    Success(bool),
    Error(E),
}

impl<E: DeepView> DeepView for ContainsResp<E> {
    type V = ContainsResp<E::V>;

    open spec fn deep_view(&self) -> ContainsResp<E::V> {
        match *self {
            ContainsResp::Success(x) => ContainsResp::Success(x),
            ContainsResp::Error(x) => ContainsResp::Error(x.deep_view()),
        }
    }
}

/// One line of the answer to a search.
#[derive(Debug, Clone, PartialEq, Eq)]
pub enum SearchResp<I, E> {
    Success(I),
    KeyError(E),
}

impl<I: DeepView, E: DeepView> DeepView for SearchResp<I, E> {
    type V = SearchResp<I::V, E::V>;

    open spec fn deep_view(&self) -> SearchResp<I::V, E::V> {
        match *self {
            SearchResp::Success(x) => SearchResp::Success(x.deep_view()),
            SearchResp::KeyError(x) => SearchResp::KeyError(x.deep_view()),
        }
    }
}

/// The answer to an [`AddRequest`].
#[derive(Debug, Clone, PartialEq, Eq)]
pub struct AddResponse {
    pub resp: Option<AddResp<Key, InternalError>>,
}

impl DeepView for AddResponse {
    type V = Option<AddResp<KeyModel, ErrorModel>>;

    open spec fn deep_view(&self) -> Option<AddResp<KeyModel, ErrorModel>> {
        self.resp.deep_view()
    }
}

/// The answer to a [`CopyRequest`].
#[derive(Debug, Clone, PartialEq, Eq)]
pub struct CopyResponse {
    pub resp: Option<CopyResp<CopyRequest, InternalError>>,
}

impl DeepView for CopyResponse {
    type V = Option<CopyResp<CopyRequestModel, ErrorModel>>;

    open spec fn deep_view(&self) -> Option<CopyResp<CopyRequestModel, ErrorModel>> {
        self.resp.deep_view()
    }
}

/// The answer to a [`DeleteRequest`].
#[derive(Debug, Clone, PartialEq, Eq)]
pub struct DeleteResponse {
    pub resp: Option<DeleteResp<KeyUid, InternalError>>,
}

impl DeepView for DeleteResponse {
    type V = Option<DeleteResp<Seq<u8>, ErrorModel>>;

    open spec fn deep_view(&self) -> Option<DeleteResp<Seq<u8>, ErrorModel>> {
        self.resp.deep_view()
    }
}

/// The answer to a [`GetRequest`].
#[derive(Debug, Clone, PartialEq, Eq)]
pub struct GetResponse {
    pub resp: Option<GetResp<KvEntry, KeyUid, InternalError>>,
}

impl DeepView for GetResponse {
    type V = Option<GetResp<KvEntryModel, Seq<u8>, ErrorModel>>;

    open spec fn deep_view(&self) -> Option<GetResp<KvEntryModel, Seq<u8>, ErrorModel>> {
        self.resp.deep_view()
    }
}

/// The answer to a [`ContainsRequest`] or a [`CdnContainsRequest`].
#[derive(Debug, Clone, PartialEq, Eq)]
pub struct ContainsResponse {
    pub resp: Option<ContainsResp<InternalError>>,
}

impl DeepView for ContainsResponse {
    type V = Option<ContainsResp<ErrorModel>>;

    open spec fn deep_view(&self) -> Option<ContainsResp<ErrorModel>> {
        self.resp.deep_view()
    }
}

/// One line of the answer to a [`SearchRequest`].
#[derive(Debug, Clone, PartialEq, Eq)]
pub struct SearchResponse {
    pub resp: Option<SearchResp<SearchResponseItem, InternalError>>,
}

impl DeepView for SearchResponse {
    type V = Option<SearchResp<SearchResponseItemModel, ErrorModel>>;

    open spec fn deep_view(&self) -> Option<SearchResp<SearchResponseItemModel, ErrorModel>> {
        self.resp.deep_view()
    }
}

/// The answer to a [`CdnAddRequest`].
#[derive(Debug, Clone, PartialEq, Eq)]
pub struct CdnAddResponse {
    pub resp: Option<AddResp<CdnUid, InternalError>>,
}

impl DeepView for CdnAddResponse {
    type V = Option<AddResp<Seq<char>, ErrorModel>>;

    open spec fn deep_view(&self) -> Option<AddResp<Seq<char>, ErrorModel>> {
        self.resp.deep_view()
    }
}

/// The answer to a [`CdnDeleteRequest`].
#[derive(Debug, Clone, PartialEq, Eq)]
pub struct CdnDeleteResponse {
    pub resp: Option<DeleteResp<CdnUid, InternalError>>,
}

impl DeepView for CdnDeleteResponse {
    type V = Option<DeleteResp<Seq<char>, ErrorModel>>;

    open spec fn deep_view(&self) -> Option<DeleteResp<Seq<char>, ErrorModel>> {
        self.resp.deep_view()
    }
}

/// The answer to a [`CdnGetRequest`] for one value.
#[derive(Debug, Clone, PartialEq, Eq)]
pub struct CdnGetResponse {
    pub resp: Option<GetResp<CdnValue, CdnUid, InternalError>>,
}

impl DeepView for CdnGetResponse {
    type V = Option<GetResp<Option<CdnMessageModel>, Seq<char>, ErrorModel>>;

    open spec fn deep_view(&self) -> Option<GetResp<Option<CdnMessageModel>, Seq<char>, ErrorModel>> {
        self.resp.deep_view()
    }
}

/// One line of the answer to a [`CdnGetRequest`] for a value and its parts.
#[derive(Debug, Clone, PartialEq, Eq)]
pub struct CdnStreamValueResponse {
    pub resp: Option<GetResp<CdnKeyValue, CdnUid, InternalError>>,
}

impl DeepView for CdnStreamValueResponse {
    type V = Option<GetResp<CdnKeyValueModel, Seq<char>, ErrorModel>>;

    open spec fn deep_view(&self) -> Option<GetResp<CdnKeyValueModel, Seq<char>, ErrorModel>> {
        self.resp.deep_view()
    }
}

impl CdnUid {
    /// The name as it is shown to people.
    pub fn display(&self) -> (r: String)
        ensures
            r@ == "Uid: "@ + self.message@,
    {
        "Uid: ".to_owned().concat(self.message.as_str())
    }
}

/// A name is one text field, which is the message that `prost` writes a `String` as; it is read
/// field by field, so that an error tells the field.
impl<W> ProstMessage<W> for CdnUid {
    open spec fn encoding(message: Seq<char>) -> Seq<u8> {
        field_one(encode_utf8(message))
    }

    open spec fn decoding(bytes: Seq<u8>) -> Result<Seq<char>, Seq<char>> {
        string_value_in(bytes, Seq::empty(), "CdnUid"@, "message"@)
    }

    fn encode_message(&self) -> (r: Result<Vec<u8>, EncodeError>) {
        encode_string_value(&self.message)
    }

    fn decode_message(bytes: &Vec<u8>) -> (r: Result<Self, String>) {
        match decode_string_value(bytes, "CdnUid", "message") {
            Ok(message) => Ok(CdnUid { message }),
            Err(description) => Err(description),
        }
    }
}

/// A key hash is one bytes field, which is the message that `prost` writes a `Vec<u8>` as; it is
/// read field by field, so that an error tells the field.
impl<W> ProstMessage<W> for KeyUid {
    open spec fn encoding(message: Seq<u8>) -> Seq<u8> {
        field_one(message)
    }

    open spec fn decoding(bytes: Seq<u8>) -> Result<Seq<u8>, Seq<char>> {
        bytes_value_in(bytes, Seq::empty(), "KeyUid"@, "sip"@)
    }

    fn encode_message(&self) -> (r: Result<Vec<u8>, EncodeError>) {
        encode_bytes_value(&self.sip)
    }

    fn decode_message(bytes: &Vec<u8>) -> (r: Result<Self, String>) {
        match decode_bytes_value(bytes, "KeyUid", "sip") {
            Ok(sip) => Ok(KeyUid { sip }),
            Err(description) => Err(description),
        }
    }
}

} // verus!
