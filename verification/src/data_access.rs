//! Reading and writing entries by key: what the services of the database are made of.
pub use crate::error_handling::unwrap_field;
pub use crate::wire::{ProstMessage, ProstMessageExt};
use crate::error_handling::{
    applied, decode_failure, is_aborted, is_storage_error, missing, undecodable, ErrorModel, InternalError,
};
use crate::key_laws::{law_number_round_trip, law_text_round_trip};
use crate::key_order::{is_scan, scan, Contents, EntryModel};
use crate::pb::{CdnUid, KeyUid};
use crate::store::{
    add_encoded, engine_failed, engine_gave_up, entry_of, lookup, next_step, opt_bytes,
    overlay_contents, Scan, Store,
};
use crate::wire::{bytes_outcome, message_bytes, message_in, outcome, reads_back};
use sled::transaction::TransactionalTree;
use vstd::prelude::*;
use vstd::slice::slice_to_vec;
use vstd::utf8::{decode_utf8, encode_utf8, valid_utf8};

verus! {

/// What an entry of the database can be stored under.
pub trait Uid: DeepView + Sized {
    /// The bytes of the key `uid`, or the error of not having them.
    spec fn key_encoding(uid: <Self as DeepView>::V) -> Result<Seq<u8>, ErrorModel>;

    /// There are enough bytes to read a key from.
    spec fn key_readable(bytes: Seq<u8>) -> bool;

    /// The key that `bytes` are read as, or the error of not being one.
    spec fn key_decoding(bytes: Seq<u8>) -> Result<<Self as DeepView>::V, ErrorModel>;

    /// The bytes of the key. They read back as the key.
    fn to_key_bytes(&self) -> (r: Result<Vec<u8>, InternalError>)
        ensures
            bytes_outcome(r) == Self::key_encoding(self.deep_view()),
            r matches Ok(bytes) ==> {
                &&& Self::key_readable(bytes@)
                &&& Self::key_decoding(bytes@) == Ok::<<Self as DeepView>::V, ErrorModel>(
                    self.deep_view(),
                )
            },
    ;

    /// Reads a key.
    fn from_key_bytes(msg_bytes: &Vec<u8>) -> (r: Result<Self, InternalError>)
        requires
            Self::key_readable(msg_bytes@),
        ensures
            outcome(r) == Self::key_decoding(msg_bytes@),
    ;
}

/// A number as a key.
#[derive(Debug, Clone, Copy, PartialEq, Eq)]
pub struct KeyU64(pub u64);

/// A text as a key.
#[derive(Debug, Clone, PartialEq, Eq)]
pub struct KeyString(pub String);

/// A byte string as a key.
#[derive(Debug, Clone, PartialEq, Eq, Hash)]
pub struct KeyVec(Vec<u8>);

impl DeepView for KeyU64 {
    type V = u64;

    open spec fn deep_view(&self) -> u64 {
        self.0
    }
}

impl DeepView for KeyString {
    type V = Seq<char>;

    open spec fn deep_view(&self) -> Seq<char> {
        self.0@
    }
}

impl DeepView for KeyVec {
    type V = Seq<u8>;

    closed spec fn deep_view(&self) -> Seq<u8> {
        self.0@
    }
}

/// The eight bytes of `n`, most significant first.
pub open spec fn be_bytes(n: u64) -> Seq<u8> {
    seq![
        (n / 0x100_0000_0000_0000) as u8,
        (n / 0x1_0000_0000_0000 % 256) as u8,
        (n / 0x100_0000_0000 % 256) as u8,
        (n / 0x1_0000_0000 % 256) as u8,
        (n / 0x100_0000 % 256) as u8,
        (n / 0x1_0000 % 256) as u8,
        (n / 0x100 % 256) as u8,
        (n % 256) as u8,
    ]
}

/// The number whose eight bytes, most significant first, `bytes` starts with.
pub open spec fn be_value(bytes: Seq<u8>) -> int {
    bytes[0] * 0x100_0000_0000_0000 + bytes[1] * 0x1_0000_0000_0000 + bytes[2] * 0x100_0000_0000
        + bytes[3] * 0x1_0000_0000 + bytes[4] * 0x100_0000 + bytes[5] * 0x1_0000 + bytes[6] * 0x100
        + bytes[7]
}

/// The eight bytes of `n`, most significant first.
pub(crate) fn to_be_bytes(n: u64) -> (r: Vec<u8>)
    ensures
        r@ == be_bytes(n),
{
    let mut bytes: Vec<u8> = Vec::with_capacity(8);
    bytes.push((n / 0x100_0000_0000_0000) as u8);
    bytes.push((n / 0x1_0000_0000_0000 % 256) as u8);
    bytes.push((n / 0x100_0000_0000 % 256) as u8);
    bytes.push((n / 0x1_0000_0000 % 256) as u8);
    bytes.push((n / 0x100_0000 % 256) as u8);
    bytes.push((n / 0x1_0000 % 256) as u8);
    bytes.push((n / 0x100 % 256) as u8);
    bytes.push((n % 256) as u8);
    bytes
}

/// `bytes::Buf::get_u64` of a slice: the number that its first eight bytes make, most
/// significant first. It panics on a shorter slice.
#[verifier::external_body]
fn get_u64(msg_bytes: &Vec<u8>) -> (r: u64)
    requires
        msg_bytes@.len() >= 8,
    ensures
        r == be_value(msg_bytes@),
{
    let mut buf = msg_bytes.as_slice();
    bytes::Buf::get_u64(&mut buf)
}

/// What `String::from_utf8` says is wrong with `bytes`.
pub uninterp spec fn utf8_error_text(bytes: Seq<u8>) -> Seq<char>;

/// The text of `bytes`, or the description of why they are none.
pub open spec fn utf8_text(bytes: Seq<u8>) -> Result<Seq<char>, Seq<char>> {
    if valid_utf8(bytes) {
        Ok(decode_utf8(bytes))
    } else {
        Err(utf8_error_text(bytes))
    }
}

/// `String::from_utf8`: the text if the bytes are valid UTF-8, else the text of the error,
/// which [`utf8_error_text`] names.
#[verifier::external_body]
fn string_from_utf8(bytes: Vec<u8>) -> (r: Result<String, String>)
    ensures
        r is Ok <==> valid_utf8(bytes@),
        r matches Ok(text) ==> text@ == decode_utf8(bytes@),
        r matches Err(why) ==> why@ == utf8_error_text(bytes@),
{
    String::from_utf8(bytes).map_err(|e| e.to_string())
}

impl Uid for KeyU64 {
    open spec fn key_encoding(uid: u64) -> Result<Seq<u8>, ErrorModel> {
        Ok(be_bytes(uid))
    }

    open spec fn key_readable(bytes: Seq<u8>) -> bool {
        bytes.len() >= 8
    }

    open spec fn key_decoding(bytes: Seq<u8>) -> Result<u64, ErrorModel> {
        Ok(be_value(bytes) as u64)
    }

    fn to_key_bytes(&self) -> (r: Result<Vec<u8>, InternalError>) {
        proof {
            law_number_round_trip(self.0);
        }
        Ok(to_be_bytes(self.0))
    }

    fn from_key_bytes(msg_bytes: &Vec<u8>) -> (r: Result<Self, InternalError>) {
        Ok(KeyU64(get_u64(msg_bytes)))
    }
}

impl Uid for KeyString {
    open spec fn key_encoding(uid: Seq<char>) -> Result<Seq<u8>, ErrorModel> {
        Ok(encode_utf8(uid))
    }

    open spec fn key_readable(bytes: Seq<u8>) -> bool {
        true
    }

    open spec fn key_decoding(bytes: Seq<u8>) -> Result<Seq<char>, ErrorModel> {
        match utf8_text(bytes) {
            Ok(text) => Ok(text),
            Err(description) => Err(undecodable(description)),
        }
    }

    fn to_key_bytes(&self) -> (r: Result<Vec<u8>, InternalError>) {
        proof {
            law_text_round_trip(self.0@);
        }
        Ok(slice_to_vec(self.0.as_str().as_bytes()))
    }

    fn from_key_bytes(msg_bytes: &Vec<u8>) -> (r: Result<Self, InternalError>) {
        match string_from_utf8(slice_to_vec(msg_bytes.as_slice())) {
            Ok(text) => Ok(KeyString(text)),
            Err(description) => Err(decode_failure(description)),
        }
    }
}

impl Uid for KeyVec {
    open spec fn key_encoding(uid: Seq<u8>) -> Result<Seq<u8>, ErrorModel> {
        Ok(uid)
    }

    open spec fn key_readable(bytes: Seq<u8>) -> bool {
        true
    }

    open spec fn key_decoding(bytes: Seq<u8>) -> Result<Seq<u8>, ErrorModel> {
        Ok(bytes)
    }

    fn to_key_bytes(&self) -> (r: Result<Vec<u8>, InternalError>) {
        Ok(slice_to_vec(self.0.as_slice()))
    }

    fn from_key_bytes(msg_bytes: &Vec<u8>) -> (r: Result<Self, InternalError>) {
        Ok(KeyVec(slice_to_vec(msg_bytes.as_slice())))
    }
}

impl Uid for CdnUid {
    open spec fn key_encoding(uid: Seq<char>) -> Result<Seq<u8>, ErrorModel> {
        Ok(message_bytes::<(), CdnUid>(uid))
    }

    open spec fn key_readable(bytes: Seq<u8>) -> bool {
        true
    }

    open spec fn key_decoding(bytes: Seq<u8>) -> Result<Seq<char>, ErrorModel> {
        message_in::<(), CdnUid>(bytes)
    }

    fn to_key_bytes(&self) -> (r: Result<Vec<u8>, InternalError>) {
        ProstMessageExt::<()>::to_bytes(self)
    }

    fn from_key_bytes(msg_bytes: &Vec<u8>) -> (r: Result<Self, InternalError>) {
        <CdnUid as ProstMessageExt<()>>::from_bytes(msg_bytes)
    }
}

impl Uid for KeyUid {
    open spec fn key_encoding(uid: Seq<u8>) -> Result<Seq<u8>, ErrorModel> {
        Ok(message_bytes::<(), KeyUid>(uid))
    }

    open spec fn key_readable(bytes: Seq<u8>) -> bool {
        true
    }

    open spec fn key_decoding(bytes: Seq<u8>) -> Result<Seq<u8>, ErrorModel> {
        message_in::<(), KeyUid>(bytes)
    }

    fn to_key_bytes(&self) -> (r: Result<Vec<u8>, InternalError>) {
        ProstMessageExt::<()>::to_bytes(self)
    }

    fn from_key_bytes(msg_bytes: &Vec<u8>) -> (r: Result<Self, InternalError>) {
        <KeyUid as ProstMessageExt<()>>::from_bytes(msg_bytes)
    }
}

/// The bytes of the key `key`, or the error of a request that has no usable one.
pub open spec fn requested_key<T: Uid>(key: Option<T::V>) -> Result<Seq<u8>, ErrorModel> {
    match key {
        None => Err(missing("uid"@)),
        Some(uid) => T::key_encoding(uid),
    }
}

/// The key of a request together with its bytes.
fn request_key<T: Uid>(key: Option<T>) -> (r: Result<(T, Vec<u8>), InternalError>)
    ensures
        match r {
            Ok((uid, uid_bytes)) => {
                &&& key == Some(uid)
                &&& requested_key::<T>(key.deep_view()) == Ok::<Seq<u8>, ErrorModel>(uid_bytes@)
            },
            Err(e) => requested_key::<T>(key.deep_view()) == Err::<Seq<u8>, ErrorModel>(
                e.deep_view(),
            ),
        },
{
    match unwrap_field(key, "uid") {
        Ok(uid) => match uid.to_key_bytes() {
            Ok(uid_bytes) => Ok((uid, uid_bytes)),
            Err(e) => Err(e),
        },
        Err(e) => Err(e),
    }
}

/// The storage engine failed.
pub open spec fn storage_failed<A>(r: Result<A, ErrorModel>) -> bool {
    r matches Err(e) && is_storage_error(e)
}

/// The storage engine gave up the transaction.
pub open spec fn transaction_failed<A>(r: Result<A, ErrorModel>) -> bool {
    r matches Err(e) && is_aborted(e)
}

/// What looking up a key gave.
#[derive(Debug, Clone, PartialEq, Eq)]
pub enum GetResultSuccess<T, U> {
    Success(T, U),
    NotFound(T),
}

pub type GetResult<T, U> = Result<GetResultSuccess<T, U>, InternalError>;

impl<T: DeepView, U: DeepView> DeepView for GetResultSuccess<T, U> {
    type V = GetResultSuccess<T::V, U::V>;

    open spec fn deep_view(&self) -> GetResultSuccess<T::V, U::V> {
        match *self {
            GetResultSuccess::Success(uid, value) => GetResultSuccess::Success(
                uid.deep_view(),
                value.deep_view(),
            ),
            GetResultSuccess::NotFound(uid) => GetResultSuccess::NotFound(uid.deep_view()),
        }
    }
}

/// What a lookup of `uid` gives that found the bytes `found`, or nothing.
pub open spec fn found_spec<W, T: Uid, U: ProstMessage<W>>(
    uid: T::V,
    found: Option<Seq<u8>>,
) -> Result<GetResultSuccess<T::V, U::V>, ErrorModel> {
    match found {
        None => Ok(GetResultSuccess::NotFound(uid)),
        Some(bytes) => match message_in::<W, U>(bytes) {
            Ok(value) => Ok(GetResultSuccess::Success(uid, value)),
            Err(e) => Err(e),
        },
    }
}

/// What looking up `key` in `contents` gives.
pub open spec fn get_spec<W, T: Uid, U: ProstMessage<W>>(
    contents: Contents,
    key: Option<T::V>,
) -> Result<GetResultSuccess<T::V, U::V>, ErrorModel> {
    match requested_key::<T>(key) {
        Ok(uid_bytes) => found_spec::<W, T, U>(key->0, lookup(contents, uid_bytes)),
        Err(e) => Err(e),
    }
}

/// What a lookup of `uid` gives, from what the storage engine gave.
pub fn get_result<W, T: Uid, U: ProstMessage<W>>(
    uid: T,
    found: Result<Option<Vec<u8>>, InternalError>,
) -> (r: GetResult<T, U>)
    ensures
        outcome(r) == match found {
            Ok(value) => found_spec::<W, T, U>(uid.deep_view(), opt_bytes(value)),
            Err(e) => Err(e.deep_view()),
        },
        found matches Err(e) ==> r == Err::<GetResultSuccess<T, U>, InternalError>(e),
        found matches Ok(None) ==> r == Ok::<GetResultSuccess<T, U>, InternalError>(
            GetResultSuccess::NotFound(uid),
        ),
        r matches Ok(GetResultSuccess::Success(key, _)) ==> key == uid,
{
    match found {
        Ok(Some(v_bytes)) => match <U as ProstMessageExt<W>>::from_bytes(&v_bytes) {
            Ok(v) => Ok(GetResultSuccess::Success(uid, v)),
            Err(e) => Err(e),
        },
        Ok(None) => Ok(GetResultSuccess::NotFound(uid)),
        Err(e) => Err(e),
    }
}

/// Looks up `key`.
pub fn get<W, T: Uid, U: ProstMessage<W>>(tree: &Store, key: Option<T>) -> (r: GetResult<T, U>)
    ensures
        ({
            ||| outcome(r) == get_spec::<W, T, U>(tree@, key.deep_view())
            ||| {
                &&& requested_key::<T>(key.deep_view()) is Ok
                &&& storage_failed(outcome(r))
                &&& engine_failed(r)
            }
        }),
{
    let (uid, uid_bytes) = match request_key(key) {
        Ok(pair) => pair,
        Err(e) => {
            return Err(e);
        },
    };
    let found = tree.get(&uid_bytes);
    get_result::<W, T, U>(uid, found)
}

/// Whether `key` is in use, as far as `contents` tell.
pub open spec fn contains_spec<T: Uid>(contents: Contents, key: Option<T::V>) -> Result<
    bool,
    ErrorModel,
> {
    match requested_key::<T>(key) {
        Ok(uid_bytes) => Ok(contents.contains_key(uid_bytes)),
        Err(e) => Err(e),
    }
}

/// Whether `key` is in use.
pub fn contains_key<T: Uid>(tree: &Store, key: Option<T>) -> (r: Result<bool, InternalError>)
    ensures
        ({
            ||| outcome(r) == contains_spec::<T>(tree@, key.deep_view())
            ||| {
                &&& requested_key::<T>(key.deep_view()) is Ok
                &&& storage_failed(outcome(r))
                &&& engine_failed(r)
            }
        }),
{
    let (_uid, uid_bytes) = match request_key(key) {
        Ok(pair) => pair,
        Err(e) => {
            return Err(e);
        },
    };
    tree.contains_key(&uid_bytes)
}

/// What removing a key gave.
#[derive(Debug, Clone, PartialEq, Eq)]
pub enum DeleteResultSuccess<T> {
    Success(T),
    NotFound(T),
}

pub type DeleteResult<T> = Result<DeleteResultSuccess<T>, InternalError>;

impl<T: DeepView> DeepView for DeleteResultSuccess<T> {
    type V = DeleteResultSuccess<T::V>;

    open spec fn deep_view(&self) -> DeleteResultSuccess<T::V> {
        match *self {
            DeleteResultSuccess::Success(uid) => DeleteResultSuccess::Success(uid.deep_view()),
            DeleteResultSuccess::NotFound(uid) => DeleteResultSuccess::NotFound(uid.deep_view()),
        }
    }
}

/// What removing `uid` gives if the bytes `removed`, or nothing, were under it.
pub open spec fn removed_spec<T>(uid: T, removed: Option<Seq<u8>>) -> DeleteResultSuccess<T> {
    match removed {
        Some(_) => DeleteResultSuccess::Success(uid),
        None => DeleteResultSuccess::NotFound(uid),
    }
}

/// What removing `key` from `contents` gives, and what is left.
pub open spec fn delete_spec<T: Uid>(contents: Contents, key: Option<T::V>) -> (
    Result<DeleteResultSuccess<T::V>, ErrorModel>,
    Contents,
) {
    match requested_key::<T>(key) {
        Ok(uid_bytes) => (
            Ok(removed_spec(key->0, lookup(contents, uid_bytes))),
            contents.remove(uid_bytes),
        ),
        Err(e) => (Err(e), contents),
    }
}

/// What removing `uid` gives, from what the storage engine gave.
pub fn delete_result<T: Uid>(uid: T, removed: Result<Option<Vec<u8>>, InternalError>) -> (r:
    DeleteResult<T>)
    ensures
        outcome(r) == match removed {
            Ok(value) => Ok(removed_spec(uid.deep_view(), opt_bytes(value))),
            Err(e) => Err(e.deep_view()),
        },
        r == match removed {
            Ok(Some(_)) => Ok::<DeleteResultSuccess<T>, InternalError>(
                DeleteResultSuccess::Success(uid),
            ),
            Ok(None) => Ok(DeleteResultSuccess::NotFound(uid)),
            Err(e) => Err(e),
        },
{
    match removed {
        Ok(Some(_)) => Ok(DeleteResultSuccess::Success(uid)),
        Ok(None) => Ok(DeleteResultSuccess::NotFound(uid)),
        Err(e) => Err(e),
    }
}

/// Removes `key`.
pub fn delete<T: Uid>(tree: &mut Store, key: Option<T>) -> (r: DeleteResult<T>)
    ensures
        ({
            ||| (outcome(r), final(tree)@) == delete_spec::<T>(old(tree)@, key.deep_view())
            ||| {
                &&& requested_key::<T>(key.deep_view()) is Ok
                &&& storage_failed(outcome(r))
                &&& engine_failed(r)
            }
        }),
{
    let (uid, uid_bytes) = match request_key(key) {
        Ok(pair) => pair,
        Err(e) => {
            return Err(e);
        },
    };
    let removed = tree.remove(&uid_bytes);
    delete_result(uid, removed)
}

/// Removes `key` in a transaction of its own.
pub fn delete_in_transaction<T: Uid>(tree: &mut Store, key: Option<T>) -> (r: DeleteResult<T>)
    ensures
        ({
            ||| (outcome(r), final(tree)@) == delete_spec::<T>(old(tree)@, key.deep_view())
            ||| {
                &&& requested_key::<T>(key.deep_view()) is Ok
                &&& transaction_failed(outcome(r))
                &&& engine_gave_up(r)
            }
        }),
{
    let (uid, uid_bytes) = match request_key(key) {
        Ok(pair) => pair,
        Err(e) => {
            return Err(e);
        },
    };
    let removed = tree.remove_in_transaction(&uid_bytes);
    delete_result(uid, removed)
}

/// What adding an entry gave.
#[derive(Debug, Clone, PartialEq, Eq)]
pub enum AddResultSuccess<T> {
    Success(T),
    Exists(T),
}

pub type AddResult<T> = Result<AddResultSuccess<T>, InternalError>;

impl<T: DeepView> DeepView for AddResultSuccess<T> {
    type V = AddResultSuccess<T::V>;

    open spec fn deep_view(&self) -> AddResultSuccess<T::V> {
        match *self {
            AddResultSuccess::Success(uid) => AddResultSuccess::Success(uid.deep_view()),
            AddResultSuccess::Exists(uid) => AddResultSuccess::Exists(uid.deep_view()),
        }
    }
}

/// The bytes of the value `value`, or the error of a request that has no usable one.
pub open spec fn requested_value<W, U: ProstMessage<W>>(value: Option<U::V>) -> Result<
    Seq<u8>,
    ErrorModel,
> {
    match value {
        None => Err(missing("value"@)),
        Some(message) => Ok(message_bytes::<W, U>(message)),
    }
}

/// The bytes of the entry `key`, `value`, or the first error of a request without them.
pub open spec fn requested_entry<W, T: Uid, U: ProstMessage<W>>(
    key: Option<T::V>,
    value: Option<U::V>,
) -> Result<(Seq<u8>, Seq<u8>), ErrorModel> {
    match requested_key::<T>(key) {
        Ok(uid_bytes) => match requested_value::<W, U>(value) {
            Ok(value_bytes) => Ok((uid_bytes, value_bytes)),
            Err(e) => Err(e),
        },
        Err(e) => Err(e),
    }
}

/// What adding `key` with `value` to `contents` gives, and what they become.
pub open spec fn add_spec<W, T: Uid, U: ProstMessage<W>>(
    contents: Contents,
    key: Option<T::V>,
    value: Option<U::V>,
) -> (Result<AddResultSuccess<T::V>, ErrorModel>, Contents) {
    match requested_entry::<W, T, U>(key, value) {
        Ok((uid_bytes, value_bytes)) => if contents.contains_key(uid_bytes) {
            (Ok(AddResultSuccess::Exists(key->0)), contents)
        } else {
            (Ok(AddResultSuccess::Success(key->0)), contents.insert(uid_bytes, value_bytes))
        },
        Err(e) => (Err(e), contents),
    }
}

/// The entry of a request: the key, the bytes of the key and the bytes of the value. The
/// bytes of the value read back as the value.
fn request_entry<W, T: Uid, U: ProstMessage<W>>(key: Option<T>, value: Option<U>) -> (r: Result<
    (T, Vec<u8>, Vec<u8>),
    InternalError,
>)
    ensures
        match r {
            Ok((uid, uid_bytes, value_bytes)) => {
                &&& key == Some(uid)
                &&& requested_entry::<W, T, U>(key.deep_view(), value.deep_view()) == Ok::<
                    (Seq<u8>, Seq<u8>),
                    ErrorModel,
                >((uid_bytes@, value_bytes@))
                &&& reads_back::<W, U>(value.deep_view()->0)
            },
            Err(e) => requested_entry::<W, T, U>(key.deep_view(), value.deep_view()) == Err::<
                (Seq<u8>, Seq<u8>),
                ErrorModel,
            >(e.deep_view()),
        },
{
    let (uid, uid_bytes) = match request_key(key) {
        Ok(pair) => pair,
        Err(e) => {
            return Err(e);
        },
    };
    match unwrap_field(value, "value") {
        Ok(val) => match ProstMessageExt::<W>::to_bytes(&val) {
            Ok(value_bytes) => Ok((uid, uid_bytes, value_bytes)),
            Err(e) => Err(e),
        },
        Err(e) => Err(e),
    }
}

/// What adding `uid` gives, from whether something was added.
pub fn add_result<T: Uid>(uid: T, added: Result<bool, InternalError>) -> (r: AddResult<T>)
    ensures
        outcome(r) == match added {
            Ok(true) => Ok(AddResultSuccess::Success(uid.deep_view())),
            Ok(false) => Ok(AddResultSuccess::Exists(uid.deep_view())),
            Err(e) => Err(e.deep_view()),
        },
        r == match added {
            Ok(true) => Ok::<AddResultSuccess<T>, InternalError>(AddResultSuccess::Success(uid)),
            Ok(false) => Ok(AddResultSuccess::Exists(uid)),
            Err(e) => Err(e),
        },
{
    match added {
        Ok(true) => Ok(AddResultSuccess::Success(uid)),
        Ok(false) => Ok(AddResultSuccess::Exists(uid)),
        Err(e) => Err(e),
    }
}

/// Adds `value` under `key` unless the key is in use, as part of a transaction. What was
/// added reads back as the value.
pub fn add<W, T: Uid, U: ProstMessage<W>>(
    tree: &mut TransactionalTree,
    key: Option<T>,
    value: Option<U>,
) -> (r: AddResult<T>)
    ensures
        ({
            ||| (outcome(r), overlay_contents(*final(tree))) == add_spec::<W, T, U>(
                overlay_contents(*old(tree)),
                key.deep_view(),
                value.deep_view(),
            )
            ||| {
                &&& requested_entry::<W, T, U>(key.deep_view(), value.deep_view()) is Ok
                &&& transaction_failed(outcome(r))
                &&& engine_gave_up(r)
                &&& overlay_contents(*final(tree)) == overlay_contents(*old(tree))
            }
        }),
        r matches Ok(AddResultSuccess::Success(_)) ==> reads_back::<W, U>(value.deep_view()->0),
{
    match request_entry::<W, T, U>(key, value) {
        Ok((uid, uid_bytes, value_bytes)) => {
            let added = add_encoded(tree, &uid_bytes, &value_bytes);
            add_result(uid, added)
        },
        Err(e) => Err(e),
    }
}

/// Adds `value` under `key` unless the key is in use, in a transaction of its own. What was
/// added reads back as the value.
pub fn add_in_transaction<W, T: Uid, U: ProstMessage<W>>(
    tree: &mut Store,
    key: Option<T>,
    value: Option<U>,
) -> (r: AddResult<T>)
    ensures
        ({
            ||| (outcome(r), final(tree)@) == add_spec::<W, T, U>(
                old(tree)@,
                key.deep_view(),
                value.deep_view(),
            )
            ||| {
                &&& requested_entry::<W, T, U>(key.deep_view(), value.deep_view()) is Ok
                &&& transaction_failed(outcome(r))
                &&& engine_gave_up(r)
            }
        }),
        r matches Ok(AddResultSuccess::Success(_)) ==> reads_back::<W, U>(value.deep_view()->0),
{
    let (uid, uid_bytes, value_bytes) = match request_entry::<W, T, U>(key, value) {
        Ok(entry) => entry,
        Err(e) => {
            return Err(e);
        },
    };
    let added = tree.add(&uid_bytes, &value_bytes);
    add_result(uid, added)
}

/// What a listed entry was turned into.
#[derive(Debug, Clone, PartialEq, Eq)]
pub enum PageResultSuccess<U> {
    Success(U),
}

pub type PageResult<U> = Result<PageResultSuccess<U>, InternalError>;

impl<U: DeepView> DeepView for PageResultSuccess<U> {
    type V = PageResultSuccess<U::V>;

    open spec fn deep_view(&self) -> PageResultSuccess<U::V> {
        match *self {
            PageResultSuccess::Success(value) => PageResultSuccess::Success(value.deep_view()),
        }
    }
}

/// One step of a walk: an entry as it came from the storage engine, or its failure.
pub type Step = Result<(Vec<u8>, Vec<u8>), InternalError>;

/// One step of a walk, as a value.
pub type StepModel = Result<EntryModel, ErrorModel>;

/// The value of a step.
pub open spec fn step_of(step: Step) -> StepModel {
    match step {
        Ok(entry) => Ok(entry_of(entry)),
        Err(e) => Err(e.deep_view()),
    }
}

/// The values of some steps.
pub open spec fn steps_of(steps: Seq<Step>) -> Seq<StepModel> {
    steps.map_values(|step: Step| step_of(step))
}

/// The entries among the steps of a walk.
pub open spec fn walked(walk: Seq<StepModel>) -> Seq<EntryModel>
    decreases walk.len(),
{
    if walk.len() == 0 {
        Seq::empty()
    } else {
        match walk.last() {
            Ok(entry) => walked(walk.drop_last()).push(entry),
            Err(_) => walked(walk.drop_last()),
        }
    }
}

/// `walk` is a walk of at most `limit` steps through `entries`: each step gives the next entry
/// or a failure of the storage engine, and the walk ends early only behind the last entry.
pub open spec fn is_walk(entries: Seq<EntryModel>, walk: Seq<StepModel>, limit: nat) -> bool {
    &&& walked(walk).is_prefix_of(entries)
    &&& walk.len() <= limit
    &&& walk.len() < limit ==> walked(walk) == entries
    &&& forall|i: int| 0 <= i < walk.len() ==> (#[trigger] walk[i]) is Err ==> storage_failed(walk[i])
}

/// The storage engine took the steps `steps` of a walk through `scan`, one behind the other, and
/// `scans` is where it stood before each and behind the last. It took `limit` steps, or fewer
/// because there was no more.
pub open spec fn is_trace(scan: Scan, steps: Seq<Step>, limit: nat, scans: Seq<Scan>) -> bool {
    &&& scans.len() == steps.len() + 1
    &&& scans[0] == scan
    &&& forall|i: int|
        0 <= i < steps.len() ==> call_ensures(
            next_step,
            (scans[i],),
            (Some(#[trigger] steps[i]), scans[i + 1]),
        )
    &&& steps.len() <= limit
    &&& steps.len() < limit ==> exists|end: Scan| #[trigger]
        call_ensures(next_step, (scans.last(),), (None, end))
}

/// `steps` are the steps that the storage engine took on a walk of at most `limit` steps through
/// `scan`.
pub open spec fn were_taken(scan: Scan, steps: Seq<Step>, limit: nat) -> bool {
    exists|scans: Seq<Scan>| #[trigger] is_trace(scan, steps, limit, scans)
}

/// What follows the first `n` items.
pub open spec fn after<A>(items: Seq<A>, n: nat) -> Seq<A> {
    if n <= items.len() {
        items.skip(n as int)
    } else {
        Seq::empty()
    }
}

/// The first `n` items.
pub open spec fn before<A>(items: Seq<A>, n: nat) -> Seq<A> {
    if n <= items.len() {
        items.take(n as int)
    } else {
        items
    }
}

/// The failures among some steps.
pub open spec fn failed(steps: Seq<Step>) -> Seq<InternalError>
    decreases steps.len(),
{
    if steps.len() == 0 {
        Seq::empty()
    } else {
        match steps.last() {
            Ok(_) => failed(steps.drop_last()),
            Err(e) => failed(steps.drop_last()).push(e),
        }
    }
}

/// `page` is what a walk through `entries` gives of at most `size` steps that follow the first
/// `skip` steps, if `missed` of those failed: it goes on behind the entries that the others gave.
pub open spec fn is_page(
    entries: Seq<EntryModel>,
    skip: nat,
    size: nat,
    missed: nat,
    page: Seq<StepModel>,
) -> bool {
    &&& missed <= skip
    &&& is_walk(after(entries, (skip - missed) as nat), page, size)
}

/// How many steps come before the page and how many are on it.
pub open spec fn window(page: Option<u32>, page_size: Option<u32>, default_page_size: u32) -> (
    nat,
    nat,
) {
    let size = match page_size {
        Some(size) => size as nat,
        None => default_page_size as nat,
    };
    let number = match page {
        Some(number) => number as nat,
        None => 0,
    };
    (number * size, size)
}

/// How many steps come before the page and how many are on it.
pub fn page_window(page: Option<u32>, page_size: Option<u32>, default_page_size: u32) -> (r: (
    u64,
    u64,
))
    ensures
        (r.0 as nat, r.1 as nat) == window(page, page_size, default_page_size),
        r.0 + r.1 <= u64::MAX,
{
    let size: u32 = match page_size {
        Some(size) => size,
        None => default_page_size,
    };
    let number: u32 = match page {
        Some(number) => number,
        None => 0,
    };
    assert(number * size <= 0xffff_ffff * 0xffff_ffff) by (nonlinear_arith)
        requires
            number <= 0xffff_ffff,
            size <= 0xffff_ffff,
    ;
    ((number as u64) * (size as u64), size as u64)
}

/// A walk of at most `limit` steps through `scan`.
pub fn walk_steps(scan: Scan, limit: u64) -> (r: Vec<Step>)
    ensures
        is_walk(scan@, steps_of(r@), limit as nat),
        were_taken(scan, r@, limit as nat),
{
    let ghost entries = scan@;
    let ghost start = scan;
    let ghost mut scans: Seq<Scan> = seq![scan];
    let mut scan = scan;
    let mut steps: Vec<Step> = Vec::new();
    let mut taken: u64 = 0;
    let ghost mut walk: Seq<StepModel> = Seq::empty();
    assert(entries.skip(0) =~= entries);
    while taken < limit
        invariant_except_break
            walk.len() == taken,
            scans.last() == scan,
        invariant
            taken <= limit,
            walk.len() <= limit,
            walked(walk).len() <= entries.len(),
            walked(walk) == entries.take(walked(walk).len() as int),
            scan@ == entries.skip(walked(walk).len() as int),
            forall|i: int|
                0 <= i < walk.len() ==> (#[trigger] walk[i]) is Err ==> storage_failed(walk[i]),
            steps_of(steps@) == walk,
            scans.len() == steps@.len() + 1,
            scans[0] == start,
            forall|i: int|
                0 <= i < steps@.len() ==> call_ensures(
                    next_step,
                    (scans[i],),
                    (Some(#[trigger] steps@[i]), scans[i + 1]),
                ),
        ensures
            walk.len() < limit ==> walked(walk) == entries,
            walk.len() < limit ==> exists|end: Scan| #[trigger]
                call_ensures(next_step, (scans.last(),), (None, end)),
        decreases limit - taken,
    {
        let (next, rest) = applied(next_step, scan);
        scan = rest;
        let step = match next {
            Some(step) => step,
            None => {
                proof {
                    assert(walked(walk) =~= entries);
                }
                break;
            },
        };
        proof {
            let grown = walk.push(step_of(step));
            assert(grown.drop_last() =~= walk);
            assert(steps_of(steps@.push(step)) =~= grown);
            assert(walked(grown) =~= entries.take(walked(grown).len() as int));
            assert(scan@ =~= entries.skip(walked(grown).len() as int));
            walk = grown;
            scans = scans.push(scan);
        }
        steps.push(step);
        taken = taken + 1;
    }
    assert(walked(walk).is_prefix_of(entries));
    assert(is_trace(start, steps@, limit as nat, scans));
    steps
}

/// The page that the steps of a walk make: what follows the first `skip` of them, and the
/// failures among those.
pub fn page_of_steps(steps: Vec<Step>, skip: u64) -> (r: (Vec<InternalError>, Vec<Step>))
    ensures
        r.0@ == failed(before(steps@, skip as nat)),
        r.1@ == after(steps@, skip as nat),
{
    let mut missed: Vec<InternalError> = Vec::new();
    let mut page: Vec<Step> = Vec::new();
    let mut passed: u64 = 0;
    let ghost all = steps@;
    for step in it: steps.into_iter()
        invariant
            it.seq() == all,
            passed == if it.index() < skip {
                it.index() as int
            } else {
                skip as int
            },
            missed@ == failed(before(all.take(it.index() as int), skip as nat)),
            page@ == after(all.take(it.index() as int), skip as nat),
    {
        proof {
            let seen = all.take(it.index() as int);
            let more = all.take(it.index() + 1);
            assert(more.drop_last() =~= seen);
            assert(more.last() == step);
            if passed < skip {
                assert(before(more, skip as nat) =~= more);
                assert(before(seen, skip as nat) =~= seen);
                assert(after(more, skip as nat) =~= Seq::<Step>::empty());
                assert(after(seen, skip as nat) =~= Seq::<Step>::empty());
            } else {
                assert(before(more, skip as nat) =~= before(seen, skip as nat));
                assert(after(more, skip as nat) =~= after(seen, skip as nat).push(step));
            }
        }
        if passed < skip {
            passed = passed + 1;
            match step {
                Ok(_) => {},
                Err(e) => {
                    missed.push(e);
                },
            }
        } else {
            page.push(step);
        }
    }
    assert(all.take(all.len() as int) =~= all);
    (missed, page)
}

/// The steps of two walks, one behind the other, gave the entries of the first and then those
/// of the second.
proof fn lemma_walked_concat(first: Seq<StepModel>, second: Seq<StepModel>)
    ensures
        walked(first + second) == walked(first) + walked(second),
    decreases second.len(),
{
    let all = first + second;
    if second.len() == 0 {
        assert(all =~= first);
        assert(walked(first) + walked(second) =~= walked(first));
    } else {
        lemma_walked_concat(first, second.drop_last());
        assert(all.drop_last() =~= first + second.drop_last());
        assert(all.last() == second.last());
        assert(walked(all) =~= walked(first) + walked(second));
    }
}

/// Every step gave an entry or failed, and the failures are those of the storage engine.
proof fn lemma_failed(steps: Seq<Step>)
    requires
        forall|i: int|
            0 <= i < steps.len() ==> (#[trigger] steps[i]) is Err ==> storage_failed(
                step_of(steps[i]),
            ),
    ensures
        failed(steps).len() + walked(steps_of(steps)).len() == steps.len(),
        only_storage_errors(failed(steps)),
    decreases steps.len(),
{
    if steps.len() > 0 {
        let first = steps.drop_last();
        assert forall|i: int| 0 <= i < first.len() && (#[trigger] first[i]) is Err
            implies storage_failed(step_of(first[i])) by {
            assert(first[i] == steps[i]);
        }
        lemma_failed(first);
        assert(steps_of(steps).drop_last() =~= steps_of(first));
        assert(steps_of(steps).last() == step_of(steps.last()));
        assert(steps[steps.len() - 1] == steps.last());
    }
}

/// The errors are failures of the storage engine.
pub open spec fn only_storage_errors(errors: Seq<InternalError>) -> bool {
    forall|i: int| 0 <= i < errors.len() ==> is_storage_error((#[trigger] errors[i]).deep_view())
}

/// What follows the first `skip` steps of a walk is a page.
proof fn lemma_page(entries: Seq<EntryModel>, steps: Seq<Step>, skip: nat, size: nat)
    requires
        is_walk(entries, steps_of(steps), skip + size),
    ensures
        is_page(
            entries,
            skip,
            size,
            failed(before(steps, skip)).len(),
            steps_of(after(steps, skip)),
        ),
        only_storage_errors(failed(before(steps, skip))),
{
    let walk = steps_of(steps);
    let first = before(steps, skip);
    let rest = after(steps, skip);
    assert forall|i: int| 0 <= i < first.len() && (#[trigger] first[i]) is Err
        implies storage_failed(step_of(first[i])) by {
        assert(walk[i] == step_of(first[i]));
    }
    lemma_failed(first);
    assert(walk =~= steps_of(first) + steps_of(rest));
    lemma_walked_concat(steps_of(first), steps_of(rest));
    let missed = failed(first).len();
    let passed = walked(steps_of(first));
    let given = walked(steps_of(rest));
    let left = after(entries, (skip - missed) as nat);
    assert forall|i: int| 0 <= i < rest.len() && (#[trigger] steps_of(rest)[i]) is Err
        implies storage_failed(steps_of(rest)[i]) by {
        assert(steps_of(rest)[i] == walk[skip + i]);
    }
    if skip <= steps.len() {
        assert(passed.len() == skip - missed);
        assert forall|i: int| 0 <= i < given.len() implies given[i] == left[i] by {
            assert(walked(walk)[passed.len() + i] == given[i]);
            assert(entries[passed.len() + i] == given[i]);
        }
        assert(given.is_prefix_of(left));
        if rest.len() < size {
            assert(given =~= left);
        }
    } else {
        assert(rest =~= Seq::<Step>::empty());
        assert(given =~= Seq::<EntryModel>::empty());
        assert(walked(walk) =~= passed);
        assert(left =~= Seq::<EntryModel>::empty());
        assert(given.is_prefix_of(left));
    }
}

/// One page of a listing.
#[derive(Debug, Clone, PartialEq, Eq)]
pub struct Page<U> {
    /// What the entries on the page were turned into, or failures in their place.
    pub items: Vec<PageResult<U>>,
    /// The failures on the way to the page: for each of them it begins one entry earlier.
    pub missed: Vec<InternalError>,
}

/// Each of `items` is what `f` gave for the entry of the step in its place, or the failure of
/// that step.
pub open spec fn mapped<U, F: Fn((Vec<u8>, Vec<u8>)) -> PageResult<U>>(
    f: F,
    steps: Seq<Step>,
    items: Seq<PageResult<U>>,
) -> bool {
    &&& items.len() == steps.len()
    &&& forall|i: int|
        0 <= i < steps.len() ==> match #[trigger] steps[i] {
            Ok(entry) => call_ensures(f, (entry,), items[i]),
            Err(e) => items[i] == Err::<PageResultSuccess<U>, InternalError>(e),
        }
}

/// Turns the entries of `steps` with `f`; failures stay.
pub fn map_page<U, F: Fn((Vec<u8>, Vec<u8>)) -> PageResult<U>>(steps: Vec<Step>, f: F) -> (r: Vec<
    PageResult<U>,
>)
    requires
        forall|entry: (Vec<u8>, Vec<u8>)| call_requires(f, (entry,)),
    ensures
        mapped(f, steps@, r@),
{
    let mut items: Vec<PageResult<U>> = Vec::new();
    for step in it: steps.into_iter()
        invariant
            it.seq() == steps@,
            mapped(f, steps@.take(it.index() as int), items@),
            forall|entry: (Vec<u8>, Vec<u8>)| call_requires(f, (entry,)),
    {
        let item = match step {
            Ok(entry) => f(entry),
            Err(e) => Err(e),
        };
        items.push(item);
    }
    assert(steps@.take(steps@.len() as int) =~= steps@);
    items
}

/// `page` holds what `f` gave for a page of `entries`.
pub open spec fn is_mapped_page<U, F: Fn((Vec<u8>, Vec<u8>)) -> PageResult<U>>(
    entries: Seq<EntryModel>,
    window: (nat, nat),
    f: F,
    page: Page<U>,
) -> bool {
    &&& only_storage_errors(page.missed@)
    &&& exists|steps: Seq<Step>| #[trigger]
        mapped(f, steps, page.items@) && is_page(
            entries,
            window.0,
            window.1,
            page.missed@.len(),
            steps_of(steps),
        )
}

/// `page` holds what `f` gave for the steps `steps` of a walk through `scan` that follow the first
/// `window.0` of them, `window.1` steps at most, and the failures among those first.
pub open spec fn is_page_of_steps<U, F: Fn((Vec<u8>, Vec<u8>)) -> PageResult<U>>(
    scan: Scan,
    steps: Seq<Step>,
    window: (nat, nat),
    f: F,
    page: Page<U>,
) -> bool {
    &&& were_taken(scan, steps, window.0 + window.1)
    &&& page.missed@ == failed(before(steps, window.0))
    &&& mapped(f, after(steps, window.0), page.items@)
}

/// `page` holds what `f` gave for a page of the steps that the storage engine took through
/// `entries`.
pub open spec fn is_taken_page<U, F: Fn((Vec<u8>, Vec<u8>)) -> PageResult<U>>(
    entries: Seq<EntryModel>,
    window: (nat, nat),
    f: F,
    page: Page<U>,
) -> bool {
    exists|scan: Scan, steps: Seq<Step>|
        scan@ == entries && #[trigger] is_page_of_steps(scan, steps, window, f, page)
}

/// `r` is the answer to the request for a page of the entries whose keys start with the bytes of
/// `key`, turned with `f`.
pub open spec fn is_listing<T: Uid, U, F: Fn((Vec<u8>, Vec<u8>)) -> PageResult<U>>(
    contents: Contents,
    key: Option<T::V>,
    window: (nat, nat),
    f: F,
    r: Result<Page<U>, InternalError>,
) -> bool {
    match (requested_key::<T>(key), r) {
        (Ok(prefix), Ok(page)) => {
            &&& is_scan(contents, prefix, scan(contents, prefix))
            &&& is_mapped_page(scan(contents, prefix), window, f, page)
            &&& is_taken_page(scan(contents, prefix), window, f, page)
        },
        (Err(refusal), Err(e)) => e.deep_view() == refusal,
        _ => false,
    }
}

/// Listing of the entries under keys that start with a key.
pub trait Pager: Uid {
    /// The entries under keys that start with the bytes of `key`, in the order of their keys,
    /// page by page: page `page` (from 0) of the pages of `page_size` steps each, or of
    /// `default_page_size`. The entries are turned with `f`.
    fn get_page_by_prefix<U, F: Fn((Vec<u8>, Vec<u8>)) -> PageResult<U>>(
        tree: &Store,
        key: Option<Self>,
        page: Option<u32>,
        page_size: Option<u32>,
        default_page_size: u32,
        f: F,
    ) -> (r: Result<Page<U>, InternalError>)
        requires
            forall|entry: (Vec<u8>, Vec<u8>)| call_requires(f, (entry,)),
        ensures
            is_listing::<Self, U, F>(
                tree@,
                key.deep_view(),
                window(page, page_size, default_page_size),
                f,
                r,
            ),
    ;
}

impl<T: Uid> Pager for T {
    fn get_page_by_prefix<U, F: Fn((Vec<u8>, Vec<u8>)) -> PageResult<U>>(
        tree: &Store,
        key: Option<Self>,
        page: Option<u32>,
        page_size: Option<u32>,
        default_page_size: u32,
        f: F,
    ) -> (r: Result<Page<U>, InternalError>) {
        let (_uid, uid_bytes) = match request_key(key) {
            Ok(pair) => pair,
            Err(e) => {
                return Err(e);
            },
        };
        let (skip, size) = page_window(page, page_size, default_page_size);
        let entries = tree.scan_prefix(&uid_bytes);
        let ghost through = entries;
        let walk = walk_steps(entries, skip + size);
        let ghost taken = walk@;
        proof {
            lemma_page(scan(tree@, uid_bytes@), walk@, skip as nat, size as nat);
        }
        let (missed, steps) = page_of_steps(walk, skip);
        let ghost raw = steps@;
        let items = map_page(steps, f);
        let r = Page { items, missed };
        proof {
            assert(mapped(f, raw, r.items@));
            assert(is_mapped_page(
                scan(tree@, uid_bytes@),
                window(page, page_size, default_page_size),
                f,
                r,
            ));
            assert(is_page_of_steps(
                through,
                taken,
                window(page, page_size, default_page_size),
                f,
                r,
            ));
        }
        Ok(r)
    }
}

/// Listing by a number: of the entries whose keys start with its eight bytes.
pub fn get_page_by_prefix_u64<U, F: Fn((Vec<u8>, Vec<u8>)) -> PageResult<U>>(
    tree: &Store,
    key: KeyU64,
    page: Option<u32>,
    page_size: Option<u32>,
    default_page_size: u32,
    f: F,
) -> (r: Result<Page<U>, InternalError>)
    requires
        forall|entry: (Vec<u8>, Vec<u8>)| call_requires(f, (entry,)),
    ensures
        is_listing::<KeyU64, U, F>(
            tree@,
            Some(key.deep_view()),
            window(page, page_size, default_page_size),
            f,
            r,
        ),
{
    Pager::get_page_by_prefix(tree, Some(key), page, page_size, default_page_size, f)
}

/// Listing by a text: of the entries whose keys start with its bytes.
pub fn get_page_by_prefix_str<U, F: Fn((Vec<u8>, Vec<u8>)) -> PageResult<U>>(
    tree: &Store,
    key: Option<KeyString>,
    page: Option<u32>,
    page_size: Option<u32>,
    default_page_size: u32,
    f: F,
) -> (r: Result<Page<U>, InternalError>)
    requires
        forall|entry: (Vec<u8>, Vec<u8>)| call_requires(f, (entry,)),
    ensures
        is_listing::<KeyString, U, F>(
            tree@,
            key.deep_view(),
            window(page, page_size, default_page_size),
            f,
            r,
        ),
{
    Pager::get_page_by_prefix(tree, key, page, page_size, default_page_size, f)
}

/// Listing by a byte string: of the entries whose keys start with it.
pub fn get_page_by_prefix_bytes<U, F: Fn((Vec<u8>, Vec<u8>)) -> PageResult<U>>(
    tree: &Store,
    key: Option<KeyVec>,
    page: Option<u32>,
    page_size: Option<u32>,
    default_page_size: u32,
    f: F,
) -> (r: Result<Page<U>, InternalError>)
    requires
        forall|entry: (Vec<u8>, Vec<u8>)| call_requires(f, (entry,)),
    ensures
        is_listing::<KeyVec, U, F>(
            tree@,
            key.deep_view(),
            window(page, page_size, default_page_size),
            f,
            r,
        ),
{
    Pager::get_page_by_prefix(tree, key, page, page_size, default_page_size, f)
}

} // verus!
