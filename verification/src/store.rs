//! The storage engine under the database: a tree of keys and values kept by `sled`.
use crate::error_handling::{
    abort_error, applied, conflict_error, is_aborted, is_storage_error, storage_error, InternalError,
};
use crate::key_order::{
    is_scan, lemma_scan_unique, nothing, scan, Contents, EntryModel,
};
use sled::transaction::{ConflictableTransactionError, TransactionError, TransactionalTree};
use sled::{Iter, Tree};
use vstd::prelude::*;

verus! {

#[verifier::external_type_specification]
#[verifier::external_body]
pub struct ExTree(Tree);

#[verifier::external_type_specification]
#[verifier::external_body]
pub struct ExTransactionalTree(TransactionalTree);

/// What a tree holds.
pub uninterp spec fn tree_contents(tree: Tree) -> Contents;

/// What a tree holds as a transaction on it sees it: with the changes of the transaction.
pub uninterp spec fn overlay_contents(tree: TransactionalTree) -> Contents;

/// The entries that a walk has still to give.
pub uninterp spec fn scan_rest(scan: Scan) -> Seq<EntryModel>;

/// A tree of a temporary database.
///
/// A store is made by opening a database that did not exist before, and the handle on its
/// tree never leaves it. So nobody else reads or writes the tree, and what it holds changes
/// only by the operations below.
pub struct Store {
    tree: Tree,
}

/// A walk through the entries of a store, which cannot change meanwhile: a `sled::Iter`.
#[verifier::external_body]
#[allow(dead_code)]
pub struct Scan<'a> {
    iter: Iter,
    store: &'a Store,
}

impl View for Store {
    type V = Contents;

    closed spec fn view(&self) -> Contents {
        tree_contents(self.tree)
    }
}

impl<'a> View for Scan<'a> {
    type V = Seq<EntryModel>;

    open spec fn view(&self) -> Seq<EntryModel> {
        scan_rest(*self)
    }
}

/// The value under `key`, if there is one.
pub open spec fn lookup(contents: Contents, key: Seq<u8>) -> Option<Seq<u8>> {
    if contents.contains_key(key) {
        Some(contents[key])
    } else {
        None
    }
}

/// An optional byte string as a sequence.
pub open spec fn opt_bytes(value: Option<Vec<u8>>) -> Option<Seq<u8>> {
    match value {
        Some(bytes) => Some(bytes@),
        None => None,
    }
}

/// An entry as a pair of sequences.
pub open spec fn entry_of(entry: (Vec<u8>, Vec<u8>)) -> EntryModel {
    (entry.0@, entry.1@)
}

/// `sled::Config::open` of a temporary database, then `sled::Db::open_tree` for two names.
///
/// The database is in a directory of its own, which did not exist before, so its trees are
/// empty; trees of different names are different trees.
#[verifier::external_body]
fn open_trees(first: &str, second: &str) -> (r: Result<(Tree, Tree), sled::Error>)
    requires
        first@ != second@,
    ensures
        r matches Ok(trees) ==> tree_contents(trees.0) == nothing(),
        r matches Ok(trees) ==> tree_contents(trees.1) == nothing(),
{
    let db = sled::Config::new().temporary(true).open()?;
    Ok((db.open_tree(first)?, db.open_tree(second)?))
}

/// `sled::Tree::get`: the value under the key.
#[verifier::external_body]
fn tree_get(store: &Store, key: &Vec<u8>) -> (r: Result<Option<Vec<u8>>, sled::Error>)
    ensures
        r matches Ok(value) ==> opt_bytes(value) == lookup(store@, key@),
{
    Ok(store.tree.get(key)?.map(|value| value.to_vec()))
}

/// `sled::Tree::contains_key`: whether there is a value under the key.
#[verifier::external_body]
fn tree_contains_key(store: &Store, key: &Vec<u8>) -> (r: Result<bool, sled::Error>)
    ensures
        r matches Ok(found) ==> found == store@.contains_key(key@),
{
    store.tree.contains_key(key)
}

/// `sled::Tree::remove`: takes the key out and gives the value that was under it.
///
/// Nothing is claimed of what the tree holds after an error.
#[verifier::external_body]
fn tree_remove(store: &mut Store, key: &Vec<u8>) -> (r: Result<Option<Vec<u8>>, sled::Error>)
    ensures
        r matches Ok(value) ==> opt_bytes(value) == lookup(old(store)@, key@),
        r is Ok ==> final(store)@ == old(store)@.remove(key@),
{
    Ok(store.tree.remove(key)?.map(|value| value.to_vec()))
}

/// `sled::Tree::scan_prefix`: an iterator over the entries whose keys start with the prefix,
/// in the order of the keys.
#[verifier::external_body]
fn tree_scan_prefix<'a>(store: &'a Store, prefix: &Vec<u8>) -> (r: Scan<'a>)
    ensures
        is_scan(store@, prefix@, scan_rest(r)),
{
    Scan { iter: store.tree.scan_prefix(prefix), store }
}

/// `sled::Iter::next`: the next entry.
///
/// The iterator keeps its place when it reports an error.
#[verifier::external_body]
fn iter_next(scan: &mut Scan) -> (r: Option<Result<(Vec<u8>, Vec<u8>), sled::Error>>)
    ensures
        r matches Some(Ok(entry)) ==> old(scan)@.len() > 0,
        r matches Some(Ok(entry)) ==> entry_of(entry) == old(scan)@[0],
        r matches Some(Ok(_)) ==> final(scan)@ == old(scan)@.skip(1),
        r matches Some(Err(_)) ==> final(scan)@ == old(scan)@,
        r is None ==> old(scan)@.len() == 0,
        r is None ==> final(scan)@ == old(scan)@,
{
    let next = scan.iter.next()?;
    Some(next.map(|(key, value)| (key.to_vec(), value.to_vec())))
}

/// `sled::transaction::TransactionalTree::get`: the value under the key.
#[verifier::external_body]
fn overlay_get(tree: &TransactionalTree, key: &Vec<u8>) -> (r: Result<
    Option<Vec<u8>>,
    ConflictableTransactionError<Option<Vec<u8>>>,
>)
    ensures
        r matches Ok(value) ==> opt_bytes(value) == lookup(overlay_contents(*tree), key@),
{
    Ok(tree.get(key)?.map(|value| value.to_vec()))
}

/// `sled::transaction::TransactionalTree::insert`: puts the value under the key and gives
/// the value that was under it. An error leaves all as it was.
#[verifier::external_body]
fn overlay_insert(tree: &mut TransactionalTree, key: &Vec<u8>, value: &Vec<u8>) -> (r:
    Result<Option<Vec<u8>>, ConflictableTransactionError<Option<Vec<u8>>>>)
    ensures
        r matches Ok(last) ==> opt_bytes(last) == lookup(overlay_contents(*old(tree)), key@),
        r is Ok ==> overlay_contents(*final(tree)) == overlay_contents(*old(tree)).insert(
            key@,
            value@,
        ),
        r is Err ==> overlay_contents(*final(tree)) == overlay_contents(*old(tree)),
{
    Ok(tree.insert(key.as_slice(), value.as_slice())?.map(|last| last.to_vec()))
}

/// `sled::transaction::TransactionalTree::remove`: takes the key out and gives the value that
/// was under it. The key is taken out even where that value could not be read.
#[verifier::external_body]
fn overlay_remove(tree: &mut TransactionalTree, key: &Vec<u8>) -> (r: Result<
    Option<Vec<u8>>,
    ConflictableTransactionError<Option<Vec<u8>>>,
>)
    ensures
        r matches Ok(last) ==> opt_bytes(last) == lookup(overlay_contents(*old(tree)), key@),
        overlay_contents(*final(tree)) == overlay_contents(*old(tree)).remove(key@),
{
    Ok(tree.remove(key.as_slice())?.map(|last| last.to_vec()))
}

/// `e` is what [`storage_error`] made of an error of the storage engine. Such an error comes from
/// the storage engine only, so there is no other way to have one than to be given it.
pub open spec fn reported(e: InternalError) -> bool {
    exists|error: sled::Error| #[trigger] call_ensures(storage_error, (error,), e)
}

/// `e` is what [`conflict_error`] or [`abort_error`] made of an error with which the storage engine
/// gave up a transaction. Such an error comes from the storage engine only.
pub open spec fn given_up(e: InternalError) -> bool {
    ||| exists|error: ConflictableTransactionError<Option<Vec<u8>>>| #[trigger]
        call_ensures(conflict_error::<Option<Vec<u8>>>, (error,), e)
    ||| exists|error: TransactionError<InternalError>| #[trigger]
        call_ensures(abort_error::<InternalError>, (error,), e)
}

/// The storage engine reported a failure, which `r` passes on.
pub open spec fn engine_failed<A>(r: Result<A, InternalError>) -> bool {
    r matches Err(e) && reported(e)
}

/// The storage engine gave up the transaction, which `r` passes on.
pub open spec fn engine_gave_up<A>(r: Result<A, InternalError>) -> bool {
    r matches Err(e) && given_up(e)
}

/// Whether something may be added under a key, from what looking it up gave: only if nothing
/// is there.
pub fn may_add(found: Result<Option<Vec<u8>>, InternalError>) -> (r: Result<bool, InternalError>)
    ensures
        r == match found {
            Ok(Some(_)) => Ok(false),
            Ok(None) => Ok(true),
            Err(e) => Err(e),
        },
{
    match found {
        Ok(Some(_)) => Ok(false),
        Ok(None) => Ok(true),
        Err(e) => Err(e),
    }
}

/// What `contents` become when `value` was put under `key`, or was not.
pub open spec fn with_entry(
    contents: Contents,
    key: Seq<u8>,
    value: Seq<u8>,
    added: bool,
) -> Contents {
    if added {
        contents.insert(key, value)
    } else {
        contents
    }
}

/// The value under the key, in a transaction.
fn find_encoded(tree: &TransactionalTree, key: &Vec<u8>) -> (r: Result<
    Option<Vec<u8>>,
    InternalError,
>)
    ensures
        match r {
            Ok(value) => opt_bytes(value) == lookup(overlay_contents(*tree), key@),
            Err(e) => is_aborted(e.deep_view()) && given_up(e),
        },
{
    match overlay_get(tree, key) {
        Ok(value) => Ok(value),
        Err(e) => Err(applied(conflict_error::<Option<Vec<u8>>>, e)),
    }
}

/// Puts `value` under `key` in a transaction unless something is there already; says whether it
/// did.
pub(crate) fn add_encoded(tree: &mut TransactionalTree, key: &Vec<u8>, value: &Vec<u8>) -> (r:
    Result<bool, InternalError>)
    ensures
        match r {
            Ok(added) => {
                &&& added == !overlay_contents(*old(tree)).contains_key(key@)
                &&& overlay_contents(*final(tree)) == with_entry(
                    overlay_contents(*old(tree)),
                    key@,
                    value@,
                    added,
                )
            },
            Err(e) => {
                &&& is_aborted(e.deep_view())
                &&& given_up(e)
                &&& overlay_contents(*final(tree)) == overlay_contents(*old(tree))
            },
        },
{
    match may_add(find_encoded(tree, key)) {
        Ok(true) => match overlay_insert(tree, key, value) {
            Ok(existing) => {
                assert(existing is None);
                Ok(true)
            },
            Err(e) => Err(applied(conflict_error::<Option<Vec<u8>>>, e)),
        },
        Ok(false) => Ok(false),
        Err(e) => Err(e),
    }
}

/// Takes `key` out in a transaction and gives the value that was under it.
pub(crate) fn remove_encoded(tree: &mut TransactionalTree, key: &Vec<u8>) -> (r: Result<
    Option<Vec<u8>>,
    InternalError,
>)
    ensures
        match r {
            Ok(value) => {
                &&& opt_bytes(value) == lookup(overlay_contents(*old(tree)), key@)
                &&& overlay_contents(*final(tree)) == overlay_contents(*old(tree)).remove(key@)
            },
            Err(e) => is_aborted(e.deep_view()) && given_up(e),
        },
{
    match overlay_remove(tree, key) {
        Ok(value) => Ok(value),
        Err(e) => Err(applied(conflict_error::<Option<Vec<u8>>>, e)),
    }
}

/// `sled::Tree::transaction` of [`add_encoded`], whose changes it keeps.
///
/// The closure may run more than once, each time on the tree as it was; the result and the
/// changes are those of the last run. It gets a clone of the transaction's tree, which shares
/// the changes with it. Where [`add_encoded`] failed, it changed nothing, and its error is one
/// with which the storage engine gave up. Nothing is claimed of what the tree holds where the
/// transaction itself failed.
#[verifier::external_body]
fn tree_add(store: &mut Store, key: &Vec<u8>, value: &Vec<u8>) -> (r: Result<
    Result<bool, InternalError>,
    TransactionError<InternalError>,
>)
    ensures
        r matches Ok(Ok(added)) ==> added == !old(store)@.contains_key(key@),
        r matches Ok(Ok(added)) ==> final(store)@ == with_entry(old(store)@, key@, value@, added),
        r matches Ok(Err(e)) ==> is_aborted(e.deep_view()),
        r matches Ok(Err(e)) ==> given_up(e),
        r matches Ok(Err(_)) ==> final(store)@ == old(store)@,
{
    store.tree.transaction(|tree| Ok(add_encoded(&mut tree.clone(), key, value)))
}

/// `sled::Tree::transaction` of [`remove_encoded`], whose changes it keeps.
///
/// The closure may run more than once, each time on the tree as it was; the result and the
/// changes are those of the last run. It gets a clone of the transaction's tree, which shares
/// the changes with it. The error of [`remove_encoded`] is one with which the storage engine gave
/// up. Nothing is claimed of what the tree holds after a failure.
#[verifier::external_body]
fn tree_delete(store: &mut Store, key: &Vec<u8>) -> (r: Result<
    Result<Option<Vec<u8>>, InternalError>,
    TransactionError<InternalError>,
>)
    ensures
        r matches Ok(Ok(value)) ==> opt_bytes(value) == lookup(old(store)@, key@),
        r matches Ok(Ok(_)) ==> final(store)@ == old(store)@.remove(key@),
        r matches Ok(Err(e)) ==> is_aborted(e.deep_view()),
        r matches Ok(Err(e)) ==> given_up(e),
{
    store.tree.transaction(|tree| Ok(remove_encoded(&mut tree.clone(), key)))
}

impl Store {
    /// Opens two empty stores, the trees `first` and `second` of one temporary database.
    pub fn open_temporary(first: &str, second: &str) -> (r: Result<(Store, Store), InternalError>)
        requires
            first@ != second@,
        ensures
            match r {
                Ok((a, b)) => a@ == nothing() && b@ == nothing(),
                Err(e) => is_storage_error(e.deep_view()) && reported(e),
            },
    {
        match open_trees(first, second) {
            Ok((a, b)) => Ok((Store { tree: a }, Store { tree: b })),
            Err(e) => Err(applied(storage_error, e)),
        }
    }

    /// The value under `key`.
    pub fn get(&self, key: &Vec<u8>) -> (r: Result<Option<Vec<u8>>, InternalError>)
        ensures
            match r {
                Ok(value) => opt_bytes(value) == lookup(self@, key@),
                Err(e) => is_storage_error(e.deep_view()) && reported(e),
            },
    {
        match tree_get(self, key) {
            Ok(value) => Ok(value),
            Err(e) => Err(applied(storage_error, e)),
        }
    }

    /// Whether there is a value under `key`.
    pub fn contains_key(&self, key: &Vec<u8>) -> (r: Result<bool, InternalError>)
        ensures
            match r {
                Ok(found) => found == self@.contains_key(key@),
                Err(e) => is_storage_error(e.deep_view()) && reported(e),
            },
    {
        match tree_contains_key(self, key) {
            Ok(found) => Ok(found),
            Err(e) => Err(applied(storage_error, e)),
        }
    }

    /// Takes `key` out and gives the value that was under it.
    pub fn remove(&mut self, key: &Vec<u8>) -> (r: Result<Option<Vec<u8>>, InternalError>)
        ensures
            match r {
                Ok(value) => {
                    &&& opt_bytes(value) == lookup(old(self)@, key@)
                    &&& final(self)@ == old(self)@.remove(key@)
                },
                Err(e) => is_storage_error(e.deep_view()) && reported(e),
            },
    {
        match tree_remove(self, key) {
            Ok(value) => Ok(value),
            Err(e) => Err(applied(storage_error, e)),
        }
    }

    /// Puts `value` under `key` in a transaction unless something is there already; says whether
    /// it did.
    pub fn add(&mut self, key: &Vec<u8>, value: &Vec<u8>) -> (r: Result<bool, InternalError>)
        ensures
            match r {
                Ok(added) => {
                    &&& added == !old(self)@.contains_key(key@)
                    &&& final(self)@ == with_entry(old(self)@, key@, value@, added)
                },
                Err(e) => is_aborted(e.deep_view()) && given_up(e),
            },
    {
        match tree_add(self, key, value) {
            Ok(added) => added,
            Err(e) => Err(applied(abort_error::<InternalError>, e)),
        }
    }

    /// Takes `key` out in a transaction and gives the value that was under it.
    pub fn remove_in_transaction(&mut self, key: &Vec<u8>) -> (r: Result<
        Option<Vec<u8>>,
        InternalError,
    >)
        ensures
            match r {
                Ok(value) => {
                    &&& opt_bytes(value) == lookup(old(self)@, key@)
                    &&& final(self)@ == old(self)@.remove(key@)
                },
                Err(e) => is_aborted(e.deep_view()) && given_up(e),
            },
    {
        match tree_delete(self, key) {
            Ok(removed) => removed,
            Err(e) => Err(applied(abort_error::<InternalError>, e)),
        }
    }

    /// A walk through the entries whose keys start with `prefix`, in the order of the keys.
    pub fn scan_prefix<'a>(&'a self, prefix: &Vec<u8>) -> (r: Scan<'a>)
        ensures
            is_scan(self@, prefix@, r@),
            r@ == scan(self@, prefix@),
    {
        let r = tree_scan_prefix(self, prefix);
        proof {
            lemma_scan_unique(self@, prefix@, r@, scan(self@, prefix@));
        }
        r
    }
}

impl<'a> Scan<'a> {
    /// The next entry. The walk keeps its place when the storage engine fails.
    pub fn next(&mut self) -> (r: Option<Result<(Vec<u8>, Vec<u8>), InternalError>>)
        ensures
            match r {
                Some(Ok(entry)) => {
                    &&& old(self)@.len() > 0
                    &&& entry_of(entry) == old(self)@[0]
                    &&& final(self)@ == old(self)@.skip(1)
                },
                Some(Err(e)) => {
                    &&& is_storage_error(e.deep_view())
                    &&& reported(e)
                    &&& final(self)@ == old(self)@
                },
                None => {
                    &&& old(self)@.len() == 0
                    &&& final(self)@ == old(self)@
                },
            },
    {
        match iter_next(self) {
            Some(Ok(entry)) => Some(Ok(entry)),
            Some(Err(e)) => Some(Err(applied(storage_error, e))),
            None => None,
        }
    }
}

/// The next entry of the walk, or none behind the last, and the walk from there on. The walk keeps
/// its place when the storage engine fails.
pub fn next_step<'a>(scan: Scan<'a>) -> (r: (
    Option<Result<(Vec<u8>, Vec<u8>), InternalError>>,
    Scan<'a>,
))
    ensures
        match r.0 {
            Some(Ok(entry)) => {
                &&& scan@.len() > 0
                &&& entry_of(entry) == scan@[0]
                &&& r.1@ == scan@.skip(1)
            },
            Some(Err(e)) => {
                &&& is_storage_error(e.deep_view())
                &&& reported(e)
                &&& r.1@ == scan@
            },
            None => {
                &&& scan@.len() == 0
                &&& r.1@ == scan@
            },
        },
{
    let mut rest = scan;
    let step = rest.next();
    (step, rest)
}

} // verus!
