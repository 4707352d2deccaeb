//! Reading and writing entries by key.
use fulcrum::data_access::{
    add, add_in_transaction, add_result, contains_key, delete, delete_in_transaction,
    delete_result, get, get_page_by_prefix_bytes, get_page_by_prefix_str, get_page_by_prefix_u64,
    get_result, map_page, page_of_steps, page_window, walk_steps, AddResultSuccess,
    DeleteResultSuccess, GetResultSuccess, KeyString, KeyU64, KeyVec, Page, PageResult,
    PageResultSuccess, Step, Uid,
};
use fulcrum::error_handling::{Cause, DecodeError, EncodeError, InternalError};
use fulcrum::pb::ValueEntry;
use fulcrum::store::{may_add, Store};
use fulcrum::wire::{ProstMessage, ProstMessageExt};

/// Values as they are.
struct Raw;

impl ProstMessage<Raw> for ValueEntry {
    fn encode_message(&self) -> Result<Vec<u8>, EncodeError> {
        Ok(self.content.clone())
    }

    fn decode_message(bytes: &Vec<u8>) -> Result<Self, String> {
        Ok(ValueEntry { content: bytes.clone() })
    }
}

/// Values behind a mark.
struct Marked;

impl ProstMessage<Marked> for ValueEntry {
    fn encode_message(&self) -> Result<Vec<u8>, EncodeError> {
        let mut bytes = vec![b'#'];
        bytes.extend_from_slice(&self.content);
        Ok(bytes)
    }

    fn decode_message(bytes: &Vec<u8>) -> Result<Self, String> {
        match bytes.split_first() {
            Some((b'#', content)) => Ok(ValueEntry { content: content.to_vec() }),
            _ => Err("no mark".to_string()),
        }
    }
}

fn store() -> Store {
    match Store::open_temporary("first", "second") {
        Ok((store, _)) => store,
        Err(e) => panic!("{:?}", e),
    }
}

fn text(key: &str) -> Option<KeyString> {
    Some(KeyString(key.to_string()))
}

fn value(content: &[u8]) -> Option<ValueEntry> {
    Some(ValueEntry { content: content.to_vec() })
}

fn put(store: &mut Store, key: &str, content: &[u8]) {
    assert_eq!(
        add_in_transaction::<Raw, _, _>(store, text(key), value(content)),
        Ok(AddResultSuccess::Success(KeyString(key.to_string())))
    );
}

fn find(store: &Store, key: &str) -> Result<GetResultSuccess<KeyString, ValueEntry>, InternalError> {
    get::<Raw, _, _>(store, text(key))
}

fn found(key: &str, content: &[u8]) -> GetResultSuccess<KeyString, ValueEntry> {
    GetResultSuccess::Success(
        KeyString(key.to_string()),
        ValueEntry { content: content.to_vec() },
    )
}

fn missing(field: &str) -> InternalError {
    InternalError { cause: Some(Cause::MissingRequiredArgument(field.to_string())) }
}

fn undecodable(description: &str) -> InternalError {
    InternalError {
        cause: Some(Cause::StorageValueDecodingError(DecodeError {
            description: description.to_string(),
            stack: vec![],
        })),
    }
}

#[test]
fn added_value_is_found() {
    let mut store = store();
    put(&mut store, "alpha", b"one");
    assert_eq!(find(&store, "alpha"), Ok(found("alpha", b"one")));
    assert_eq!(contains_key(&store, text("alpha")), Ok(true));
}

#[test]
fn unknown_key_is_not_found() {
    let store = store();
    assert_eq!(find(&store, "alpha"), Ok(GetResultSuccess::NotFound(KeyString("alpha".into()))));
    assert_eq!(contains_key(&store, text("alpha")), Ok(false));
}

#[test]
fn second_add_is_refused_and_changes_nothing() {
    let mut store = store();
    put(&mut store, "alpha", b"one");
    assert_eq!(
        add_in_transaction::<Raw, _, _>(&mut store, text("alpha"), value(b"two")),
        Ok(AddResultSuccess::Exists(KeyString("alpha".into())))
    );
    assert_eq!(find(&store, "alpha"), Ok(found("alpha", b"one")));
}

#[test]
fn keys_do_not_interfere() {
    let mut store = store();
    put(&mut store, "alpha", b"one");
    put(&mut store, "beta", b"two");
    assert_eq!(find(&store, "alpha"), Ok(found("alpha", b"one")));
    assert!(delete(&mut store, text("alpha")).is_ok());
    assert_eq!(find(&store, "beta"), Ok(found("beta", b"two")));
}

#[test]
fn empty_key_is_a_key() {
    let mut store = store();
    put(&mut store, "", b"nothing");
    assert_eq!(find(&store, ""), Ok(found("", b"nothing")));
}

#[test]
fn deleted_key_is_gone() {
    let mut store = store();
    put(&mut store, "alpha", b"one");
    let key = KeyString("alpha".to_string());
    assert_eq!(delete(&mut store, text("alpha")), Ok(DeleteResultSuccess::Success(key.clone())));
    assert_eq!(find(&store, "alpha"), Ok(GetResultSuccess::NotFound(key.clone())));
    assert_eq!(delete(&mut store, text("alpha")), Ok(DeleteResultSuccess::NotFound(key)));
}

#[test]
fn deleted_key_can_be_added_again() {
    let mut store = store();
    put(&mut store, "alpha", b"one");
    assert!(delete(&mut store, text("alpha")).is_ok());
    put(&mut store, "alpha", b"two");
    assert_eq!(find(&store, "alpha"), Ok(found("alpha", b"two")));
}

#[test]
fn delete_in_a_transaction_does_the_same() {
    let mut store = store();
    put(&mut store, "alpha", b"one");
    let key = KeyString("alpha".to_string());
    assert_eq!(
        delete_in_transaction(&mut store, text("alpha")),
        Ok(DeleteResultSuccess::Success(key.clone()))
    );
    assert_eq!(contains_key(&store, text("alpha")), Ok(false));
    assert_eq!(
        delete_in_transaction(&mut store, text("alpha")),
        Ok(DeleteResultSuccess::NotFound(key))
    );
}

#[test]
fn absent_key_is_refused_by_every_operation() {
    let mut store = store();
    let none: Option<KeyString> = None;
    assert_eq!(get::<Raw, KeyString, ValueEntry>(&store, None), Err(missing("uid")));
    assert_eq!(contains_key(&store, none.clone()), Err(missing("uid")));
    assert_eq!(delete(&mut store, none.clone()), Err(missing("uid")));
    assert_eq!(delete_in_transaction(&mut store, none.clone()), Err(missing("uid")));
    assert_eq!(
        add_in_transaction::<Raw, _, _>(&mut store, none.clone(), value(b"one")),
        Err(missing("uid"))
    );
    let none_without_value: Option<ValueEntry> = None;
    assert_eq!(
        add_in_transaction::<Raw, _, _>(&mut store, none, none_without_value),
        Err(missing("uid"))
    );
}

#[test]
fn absent_value_is_refused() {
    let mut store = store();
    let none: Option<ValueEntry> = None;
    assert_eq!(
        add_in_transaction::<Raw, _, _>(&mut store, text("alpha"), none),
        Err(missing("value"))
    );
    assert_eq!(contains_key(&store, text("alpha")), Ok(false));
}

#[test]
fn value_is_stored_under_the_schema() {
    let mut store = store();
    assert!(add_in_transaction::<Marked, _, _>(&mut store, text("alpha"), value(b"one")).is_ok());
    assert_eq!(get::<Marked, _, _>(&store, text("alpha")), Ok(found("alpha", b"one")));
    assert_eq!(find(&store, "alpha"), Ok(found("alpha", b"#one")));
}

#[test]
fn unreadable_value_is_reported() {
    let mut store = store();
    put(&mut store, "alpha", b"one");
    assert_eq!(
        get::<Marked, KeyString, ValueEntry>(&store, text("alpha")),
        Err(undecodable("no mark"))
    );
    assert_eq!(contains_key(&store, text("alpha")), Ok(true));
}

#[test]
fn stores_of_one_database_are_apart() {
    let (mut first, second) = match Store::open_temporary("first", "second") {
        Ok(stores) => stores,
        Err(e) => panic!("{:?}", e),
    };
    put(&mut first, "alpha", b"one");
    assert_eq!(contains_key(&first, text("alpha")), Ok(true));
    assert_eq!(contains_key(&second, text("alpha")), Ok(false));
}

#[test]
fn add_works_inside_a_transaction() {
    let db = sled::Config::new().temporary(true).open().unwrap();
    let outcome: sled::transaction::TransactionResult<_, ()> = db.transaction(|tree| {
        let mut tree = tree.clone();
        let first = add::<Raw, _, _>(&mut tree, Some(KeyU64(7)), value(b"one"));
        let second = add::<Raw, _, _>(&mut tree, Some(KeyU64(7)), value(b"two"));
        Ok((first, second))
    });
    let (first, second) = outcome.unwrap();
    assert_eq!(first, Ok(AddResultSuccess::Success(KeyU64(7))));
    assert_eq!(second, Ok(AddResultSuccess::Exists(KeyU64(7))));
    assert_eq!(db.get([0, 0, 0, 0, 0, 0, 0, 7]).unwrap().unwrap().to_vec(), b"one".to_vec());
}

#[test]
fn outcome_of_a_lookup_follows_what_was_found() {
    let key = KeyU64(1);
    assert_eq!(
        get_result::<Raw, _, ValueEntry>(key, Ok(Some(b"one".to_vec()))),
        Ok(GetResultSuccess::Success(key, ValueEntry { content: b"one".to_vec() }))
    );
    assert_eq!(
        get_result::<Raw, _, ValueEntry>(key, Ok(None)),
        Ok(GetResultSuccess::NotFound(key))
    );
    assert_eq!(
        get_result::<Marked, _, ValueEntry>(key, Ok(Some(b"one".to_vec()))),
        Err(undecodable("no mark"))
    );
    assert_eq!(
        get_result::<Raw, _, ValueEntry>(key, Err(missing("disk"))),
        Err(missing("disk"))
    );
}

#[test]
fn outcome_of_a_removal_follows_what_was_removed() {
    let key = KeyU64(1);
    assert_eq!(delete_result(key, Ok(Some(vec![]))), Ok(DeleteResultSuccess::Success(key)));
    assert_eq!(delete_result(key, Ok(None)), Ok(DeleteResultSuccess::NotFound(key)));
    assert_eq!(delete_result(key, Err(missing("disk"))), Err(missing("disk")));
}

#[test]
fn outcome_of_an_addition_follows_whether_it_was_made() {
    let key = KeyU64(1);
    assert_eq!(add_result(key, Ok(true)), Ok(AddResultSuccess::Success(key)));
    assert_eq!(add_result(key, Ok(false)), Ok(AddResultSuccess::Exists(key)));
    assert_eq!(add_result(key, Err(missing("disk"))), Err(missing("disk")));
}

#[test]
fn messages_go_to_bytes_and_back() {
    let entry = ValueEntry { content: b"one".to_vec() };
    let bytes = ProstMessageExt::<Marked>::to_bytes(&entry).unwrap();
    assert_eq!(bytes, b"#one".to_vec());
    assert_eq!(<ValueEntry as ProstMessageExt<Marked>>::from_bytes(&bytes), Ok(entry));
    assert_eq!(
        <ValueEntry as ProstMessageExt<Marked>>::from_bytes(&b"one".to_vec()),
        Err(undecodable("no mark"))
    );
}

#[test]
fn window_of_a_page() {
    assert_eq!(page_window(None, None, 25), (0, 25));
    assert_eq!(page_window(Some(3), None, 25), (75, 25));
    assert_eq!(page_window(Some(3), Some(10), 25), (30, 10));
    assert_eq!(page_window(None, Some(10), 25), (0, 10));
    assert_eq!(page_window(Some(5), Some(0), 25), (0, 0));
    assert_eq!(
        page_window(Some(u32::MAX), Some(u32::MAX), 0),
        (18446744065119617025, 4294967295)
    );
}

fn entry_key(entry: (Vec<u8>, Vec<u8>)) -> PageResult<Vec<u8>> {
    Ok(PageResultSuccess::Success(entry.0))
}

fn keys(page: Result<Page<Vec<u8>>, InternalError>) -> Vec<Vec<u8>> {
    let page = page.unwrap();
    assert_eq!(page.missed, vec![]);
    let mut keys = Vec::new();
    for item in page.items {
        match item {
            Ok(PageResultSuccess::Success(key)) => keys.push(key),
            Err(e) => panic!("{:?}", e),
        }
    }
    keys
}

fn listed(names: &[&str]) -> Vec<Vec<u8>> {
    names.iter().map(|name| name.as_bytes().to_vec()).collect()
}

fn filled() -> Store {
    let mut store = store();
    for name in ["b2", "a", "ab", "b1", "b", "c", "abc"] {
        put(&mut store, name, name.as_bytes());
    }
    store
}

#[test]
fn listing_is_in_the_order_of_the_keys() {
    let store = filled();
    assert_eq!(
        keys(get_page_by_prefix_str(&store, text(""), None, None, 100, entry_key)),
        listed(&["a", "ab", "abc", "b", "b1", "b2", "c"])
    );
}

#[test]
fn listing_keeps_to_the_prefix() {
    let store = filled();
    assert_eq!(
        keys(get_page_by_prefix_str(&store, text("b"), None, None, 100, entry_key)),
        listed(&["b", "b1", "b2"])
    );
    assert_eq!(
        keys(get_page_by_prefix_str(&store, text("z"), None, None, 100, entry_key)),
        listed(&[])
    );
}

#[test]
fn pages_follow_each_other() {
    let store = filled();
    let page = |number: u32| {
        keys(get_page_by_prefix_str(&store, text(""), Some(number), Some(3), 100, entry_key))
    };
    assert_eq!(page(0), listed(&["a", "ab", "abc"]));
    assert_eq!(page(1), listed(&["b", "b1", "b2"]));
    assert_eq!(page(2), listed(&["c"]));
    assert_eq!(page(3), listed(&[]));
    assert_eq!(page(u32::MAX), listed(&[]));
}

#[test]
fn default_page_size_is_used_without_another() {
    let store = filled();
    assert_eq!(
        keys(get_page_by_prefix_str(&store, text(""), Some(1), None, 5, entry_key)),
        listed(&["b2", "c"])
    );
}

#[test]
fn page_of_no_size_is_empty() {
    let store = filled();
    assert_eq!(
        keys(get_page_by_prefix_str(&store, text(""), Some(1), Some(0), 5, entry_key)),
        listed(&[])
    );
}

#[test]
fn listing_without_a_key_is_refused() {
    let store = filled();
    assert_eq!(
        get_page_by_prefix_str(&store, None, None, None, 5, entry_key),
        Err(missing("uid"))
    );
    assert_eq!(
        get_page_by_prefix_bytes(&store, None, None, None, 5, entry_key),
        Err(missing("uid"))
    );
}

#[test]
fn listing_by_number_and_by_bytes() {
    let mut store = store();
    for n in [1u64, 2, 3] {
        assert!(add_in_transaction::<Raw, _, _>(&mut store, Some(KeyU64(n)), value(b"n")).is_ok());
    }
    let two: Vec<u8> = vec![0, 0, 0, 0, 0, 0, 0, 2];
    assert_eq!(
        keys(get_page_by_prefix_u64(&store, KeyU64(2), None, None, 10, entry_key)),
        vec![two.clone()]
    );
    let prefix = KeyVec::from_key_bytes(&vec![0, 0, 0]).unwrap();
    assert_eq!(
        keys(get_page_by_prefix_bytes(&store, Some(prefix), Some(1), Some(1), 10, entry_key)),
        vec![two]
    );
}

#[test]
fn listing_gives_what_the_function_makes_of_the_entries() {
    let store = filled();
    let page = get_page_by_prefix_str(&store, text("b"), None, None, 10, |(key, value)| {
        if key == b"b1" {
            Err(missing("b1"))
        } else {
            Ok(PageResultSuccess::Success((key.len(), value)))
        }
    });
    assert_eq!(
        page,
        Ok(Page {
            items: vec![
                Ok(PageResultSuccess::Success((1, b"b".to_vec()))),
                Err(missing("b1")),
                Ok(PageResultSuccess::Success((2, b"b2".to_vec()))),
            ],
            missed: vec![],
        })
    );
}

fn step(key: &str) -> Step {
    Ok((key.as_bytes().to_vec(), vec![]))
}

#[test]
fn page_follows_the_steps_before_it() {
    let steps = vec![step("a"), step("b"), step("c"), step("d"), step("e")];
    assert_eq!(page_of_steps(steps.clone(), 0), (vec![], steps.clone()));
    assert_eq!(page_of_steps(steps.clone(), 2), (vec![], vec![step("c"), step("d"), step("e")]));
    assert_eq!(page_of_steps(steps.clone(), 4), (vec![], vec![step("e")]));
    assert_eq!(page_of_steps(steps.clone(), 5), (vec![], vec![]));
    assert_eq!(page_of_steps(steps, u64::MAX), (vec![], vec![]));
}

#[test]
fn failures_before_the_page_are_told() {
    let steps = vec![Err(missing("x")), step("a"), Err(missing("y")), step("b"), Err(missing("z"))];
    assert_eq!(
        page_of_steps(steps.clone(), 3),
        (vec![missing("x"), missing("y")], vec![step("b"), Err(missing("z"))])
    );
    assert_eq!(
        page_of_steps(steps, 9),
        (vec![missing("x"), missing("y"), missing("z")], vec![])
    );
}

#[test]
fn walk_goes_as_far_as_it_may() {
    let store = filled();
    let walked = |limit: u64| {
        let steps = walk_steps(store.scan_prefix(&b"b".to_vec()), limit);
        steps.into_iter().map(|step| step.unwrap().0).collect::<Vec<_>>()
    };
    assert_eq!(walked(0), listed(&[]));
    assert_eq!(walked(2), listed(&["b", "b1"]));
    assert_eq!(walked(3), listed(&["b", "b1", "b2"]));
    assert_eq!(walked(u64::MAX), listed(&["b", "b1", "b2"]));
}

#[test]
fn pages_make_up_the_listing() {
    let store = filled();
    let whole = keys(get_page_by_prefix_str(&store, text(""), None, None, 100, entry_key));
    for size in [1u32, 2, 3, 7, 8] {
        let mut all = Vec::new();
        for page in 0..8 {
            let some = keys(get_page_by_prefix_str(
                &store,
                text(""),
                Some(page),
                Some(size),
                5,
                entry_key,
            ));
            let left = whole.len().saturating_sub((page * size) as usize);
            assert_eq!(some.len(), left.min(size as usize));
            all.extend(some);
        }
        assert_eq!(all, whole);
    }
}

#[test]
fn default_is_as_the_first_page_of_its_size() {
    let store = filled();
    let list = |page, page_size, default| {
        keys(get_page_by_prefix_str(&store, text(""), page, page_size, default, entry_key))
    };
    assert_eq!(list(None, None, 3), list(Some(0), Some(3), 99));
    assert_eq!(list(Some(1), Some(2), 1), list(Some(1), Some(2), 50));
    assert_eq!(list(Some(1), Some(0), 5), listed(&[]));
}

#[test]
fn only_a_free_key_may_be_added() {
    assert_eq!(may_add(Ok(None)), Ok(true));
    assert_eq!(may_add(Ok(Some(vec![]))), Ok(false));
    assert_eq!(may_add(Err(missing("disk"))), Err(missing("disk")));
}

#[test]
fn store_adds_and_removes_in_transactions() {
    let mut store = store();
    let key = b"k".to_vec();
    assert_eq!(store.add(&key, &b"one".to_vec()), Ok(true));
    assert_eq!(store.add(&key, &b"two".to_vec()), Ok(false));
    assert_eq!(store.get(&key), Ok(Some(b"one".to_vec())));
    assert_eq!(store.remove_in_transaction(&key), Ok(Some(b"one".to_vec())));
    assert_eq!(store.remove_in_transaction(&key), Ok(None));
    assert_eq!(store.add(&key, &b"two".to_vec()), Ok(true));
}

#[test]
fn failed_steps_stay_on_the_page() {
    let steps = vec![
        Ok((b"k".to_vec(), b"v".to_vec())),
        Err(missing("disk")),
        Ok((b"l".to_vec(), b"w".to_vec())),
    ];
    assert_eq!(
        map_page(steps, entry_key),
        vec![
            Ok(PageResultSuccess::Success(b"k".to_vec())),
            Err(missing("disk")),
            Ok(PageResultSuccess::Success(b"l".to_vec())),
        ]
    );
}

#[test]
fn store_gives_and_takes_bytes() {
    let mut store = store();
    put(&mut store, "alpha", b"one");
    put(&mut store, "beta", b"two");
    assert_eq!(store.get(&b"alpha".to_vec()), Ok(Some(b"one".to_vec())));
    assert_eq!(store.contains_key(&b"beta".to_vec()), Ok(true));
    let mut scan = store.scan_prefix(&b"".to_vec());
    assert_eq!(scan.next(), Some(Ok((b"alpha".to_vec(), b"one".to_vec()))));
    assert_eq!(scan.next(), Some(Ok((b"beta".to_vec(), b"two".to_vec()))));
    assert_eq!(scan.next(), None);
    assert_eq!(scan.next(), None);
    assert_eq!(store.remove(&b"alpha".to_vec()), Ok(Some(b"one".to_vec())));
    assert_eq!(store.remove(&b"alpha".to_vec()), Ok(None));
    assert_eq!(store.get(&b"alpha".to_vec()), Ok(None));
}
