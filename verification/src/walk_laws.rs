//! Laws of walks through a store, and of the pages and searches that are made of them.
//!
//! A step of a walk gives the next entry, or a failure that the storage engine reported. So where
//! no step fails, a page holds just the entries of the ranks that it asks for.
use crate::data_access::{
    after, before, failed, get_page_by_prefix_bytes, get_page_by_prefix_str, get_page_by_prefix_u64,
    is_page_of_steps, is_taken_page, is_trace, map_page, mapped, page_of_steps, page_window,
    step_of, steps_of, utf8_error_text, walk_steps, were_taken, window, KeyString, KeyU64, KeyVec, Page, PageResult,
    PageResultSuccess, Pager, Step, Uid,
};
use crate::data_tree::{
    are_lines, is_answer_of_steps, search_item, search_line, search_response, search_window, DataTreeServer, SearchAnswer,
};
use crate::entry_laws::{
    lemma_number_in, lemma_says, number_in, says_missing, says_unreadable,
};
use crate::error_handling::{ErrorModel, InternalError};
use crate::key_order::{is_scan, lemma_scan_unique, scan, EntryModel};
use crate::pb::{
    KeyModel, KvEntry, SearchRequest, SearchRequestModel, SearchResp, SearchResponse, SearchResponseItem,
    SearchResponseItemModel,
};
use crate::store::{next_step, reported, Scan, Store};
use crate::wire::ProstMessage;
use vstd::prelude::*;
use vstd::utf8::{decode_utf8, encode_utf8, valid_utf8};

verus! {

/// No step that the storage engine takes fails.
pub open spec fn no_step_fails() -> bool {
    forall|scan: Scan, e: InternalError, rest: Scan|
        !#[trigger] call_ensures(next_step, (scan,), (Some(Err(e)), rest))
}

/// How many entries are on the page of `size` steps behind the first `skip`, of `count` in all.
pub open spec fn on_page(count: nat, skip: nat, size: nat) -> nat {
    if count <= skip {
        0
    } else if count - skip <= size {
        (count - skip) as nat
    } else {
        size
    }
}

/// How many of `steps` failed.
pub open spec fn failures(steps: Seq<Step>) -> nat
    decreases steps.len(),
{
    if steps.len() == 0 {
        0
    } else {
        failures(steps.drop_last()) + if steps.last() is Err {
            1nat
        } else {
            0nat
        }
    }
}

/// Where the storage engine stands before each step of a walk: each step that did not fail took
/// it one entry on.
proof fn lemma_trace(scan: Scan, steps: Seq<Step>, limit: nat, scans: Seq<Scan>, i: int)
    requires
        is_trace(scan, steps, limit, scans),
        0 <= i <= steps.len(),
    ensures
        failures(steps.take(i)) <= i,
        i - failures(steps.take(i)) <= scan@.len(),
        scans[i]@ == scan@.skip(i - failures(steps.take(i))),
        i < steps.len() ==> match steps[i] {
            Ok(entry) => {
                &&& i - failures(steps.take(i)) < scan@.len()
                &&& (entry.0@, entry.1@) == scan@[i - failures(steps.take(i))]
            },
            Err(e) => reported(e),
        },
    decreases i,
{
    if i > 0 {
        lemma_trace(scan, steps, limit, scans, i - 1);
        assert(steps.take(i).drop_last() =~= steps.take(i - 1));
        let before = i - 1 - failures(steps.take(i - 1));
        assert(call_ensures(
            next_step,
            (scans[i - 1],),
            (Some(steps[i - 1]), scans[i - 1 + 1]),
        ));
        if steps[i - 1] is Ok {
            assert(scan@.skip(before).skip(1) =~= scan@.skip(before + 1));
        }
    } else {
        assert(steps.take(0) =~= Seq::<Step>::empty());
        assert(scan@.skip(0) =~= scan@);
    }
    if i < steps.len() {
        assert(call_ensures(next_step, (scans[i],), (Some(steps[i]), scans[i + 1])));
    }
}

/// A walk that was taken, step by step.
proof fn lemma_taken(scan: Scan, steps: Seq<Step>, limit: nat)
    requires
        were_taken(scan, steps, limit),
    ensures
        steps.len() <= limit,
        steps.len() < limit ==> steps.len() - failures(steps) == scan@.len(),
        forall|i: int| 0 <= i < steps.len() ==> match #[trigger] steps[i] {
            Ok(entry) => {
                let rank = i - failures(steps.take(i));
                &&& 0 <= rank < scan@.len()
                &&& (entry.0@, entry.1@) == scan@[rank]
            },
            Err(e) => reported(e),
        },
        no_step_fails() ==> forall|i: int| 0 <= i < steps.len() ==> (#[trigger] steps[i]) is Ok,
{
    let scans = choose|scans: Seq<Scan>| #[trigger] is_trace(scan, steps, limit, scans);
    assert forall|i: int| 0 <= i < steps.len() implies match #[trigger] steps[i] {
        Ok(entry) => {
            let rank = i - failures(steps.take(i));
            &&& 0 <= rank < scan@.len()
            &&& (entry.0@, entry.1@) == scan@[rank]
        },
        Err(e) => reported(e),
    } by {
        lemma_trace(scan, steps, limit, scans, i);
    }
    lemma_trace(scan, steps, limit, scans, steps.len() as int);
    assert(steps.take(steps.len() as int) =~= steps);
    if no_step_fails() {
        assert forall|i: int| 0 <= i < steps.len() implies (#[trigger] steps[i]) is Ok by {
            assert(call_ensures(next_step, (scans[i],), (Some(steps[i]), scans[i + 1])));
            if steps[i] is Err {
                let e = steps[i]->Err_0;
                assert(call_ensures(next_step, (scans[i],), (Some(Err(e)), scans[i + 1])));
            }
        }
    }
}

/// Steps none of which failed hold no failures.
proof fn lemma_none_failed(steps: Seq<Step>)
    requires
        forall|i: int| 0 <= i < steps.len() ==> (#[trigger] steps[i]) is Ok,
    ensures
        failures(steps) == 0,
        failed(steps) == Seq::<InternalError>::empty(),
    decreases steps.len(),
{
    if steps.len() > 0 {
        lemma_none_failed(steps.drop_last());
        assert(steps.last() == steps[steps.len() - 1]);
    }
}

/// A walk takes as many steps as it may, or fewer exactly if it has met every entry. Step `i` gives
/// the entry whose rank is `i` less the steps that failed before, or a failure that the storage
/// engine reported.
pub proof fn law_walk(scan: Scan, limit: u64, steps: Vec<Step>)
    requires
        call_ensures(walk_steps, (scan, limit), steps),
    ensures
        steps@.len() <= limit,
        steps@.len() < limit ==> steps@.len() - failures(steps@) == scan@.len(),
        forall|i: int| 0 <= i < steps@.len() ==> match #[trigger] steps@[i] {
            Ok(entry) => {
                let rank = i - failures(steps@.take(i));
                &&& 0 <= rank < scan@.len()
                &&& (entry.0@, entry.1@) == scan@[rank]
            },
            Err(e) => reported(e),
        },
{
    lemma_taken(scan, steps@, limit as nat);
}

/// Where no step fails, a walk gives the entries one by one, up to its limit or the last.
pub proof fn law_walk_without_failures(scan: Scan, limit: u64, steps: Vec<Step>)
    requires
        call_ensures(walk_steps, (scan, limit), steps),
        no_step_fails(),
    ensures
        steps@.len() == on_page(scan@.len(), 0, limit as nat),
        forall|i: int| 0 <= i < steps@.len() ==> {
            &&& (#[trigger] steps@[i]) matches Ok(entry)
            &&& (entry.0@, entry.1@) == scan@[i]
        },
{
    lemma_taken(scan, steps@, limit as nat);
    lemma_none_failed(steps@);
    assert forall|i: int| 0 <= i < steps@.len() implies {
        &&& (#[trigger] steps@[i]) matches Ok(entry)
        &&& (entry.0@, entry.1@) == scan@[i]
    } by {
        lemma_none_failed(steps@.take(i));
    }
    if steps@.len() > 0 {
        let last = steps@.len() - 1;
        lemma_none_failed(steps@.take(last));
        assert(steps@[last] is Ok);
    }
}

/// The places of the failures among some steps.
proof fn lemma_failed_places(steps: Seq<Step>) -> (places: Seq<int>)
    ensures
        places.len() == failed(steps).len(),
        failed(steps).len() == failures(steps),
        forall|i: int, j: int| 0 <= i < j < places.len() ==> places[i] < places[j],
        forall|i: int|
            0 <= i < places.len() ==> 0 <= #[trigger] places[i] < steps.len() && steps[places[i]]
                == Err::<(Vec<u8>, Vec<u8>), InternalError>(failed(steps)[i]),
        forall|p: int| 0 <= p < steps.len() && (#[trigger] steps[p]) is Err ==> places.contains(p),
    decreases steps.len(),
{
    if steps.len() == 0 {
        Seq::empty()
    } else {
        let first = steps.drop_last();
        let old_places = lemma_failed_places(first);
        let last = steps.len() - 1;
        let places = if steps.last() is Err {
            old_places.push(last)
        } else {
            old_places
        };
        assert forall|i: int| 0 <= i < places.len() implies 0 <= #[trigger] places[i] < steps.len()
            && steps[places[i]] == Err::<(Vec<u8>, Vec<u8>), InternalError>(failed(steps)[i]) by {
            if i < old_places.len() {
                assert(first[old_places[i]] == steps[places[i]]);
            }
        }
        assert forall|p: int| 0 <= p < steps.len() && (#[trigger] steps[p]) is Err
            implies places.contains(p) by {
            if p < last {
                assert(first[p] == steps[p]);
                let i = choose|i: int| 0 <= i < old_places.len() && old_places[i] == p;
                assert(places[i] == p);
            } else {
                assert(places[old_places.len() as int] == p);
            }
        }
        places
    }
}

/// `places` are the places of all that failed among `steps`, in order, and `errors` are the
/// failures there.
pub open spec fn are_failures_at(
    steps: Seq<Step>,
    places: Seq<int>,
    errors: Seq<InternalError>,
) -> bool {
    &&& places.len() == errors.len()
    &&& forall|i: int, j: int| 0 <= i < j < places.len() ==> places[i] < places[j]
    &&& forall|i: int|
        0 <= i < places.len() ==> 0 <= #[trigger] places[i] < steps.len() && steps[places[i]]
            == Err::<(Vec<u8>, Vec<u8>), InternalError>(errors[i])
    &&& forall|p: int| 0 <= p < steps.len() && (#[trigger] steps[p]) is Err ==> places.contains(p)
}

/// A page of a walk is what follows the steps before it, all of it, and tells of every failure
/// among those, in order, and of nothing else.
pub proof fn law_page_of_steps(
    steps: Vec<Step>,
    skip: u64,
    missed: Vec<InternalError>,
    page: Vec<Step>,
)
    requires
        call_ensures(page_of_steps, (steps, skip), (missed, page)),
    ensures
        page@.len() == if steps@.len() <= skip {
            0
        } else {
            steps@.len() - skip
        },
        forall|i: int| 0 <= i < page@.len() ==> #[trigger] page@[i] == steps@[skip + i],
        steps@.len() <= skip ==> exists|places: Seq<int>| #[trigger]
            are_failures_at(steps@, places, missed@),
        steps@.len() > skip ==> exists|places: Seq<int>| #[trigger]
            are_failures_at(steps@.take(skip as int), places, missed@),
{
    let first = if steps@.len() <= skip {
        steps@
    } else {
        steps@.take(skip as int)
    };
    assert(first =~= before(steps@, skip as nat));
    let places = lemma_failed_places(first);
    assert(are_failures_at(first, places, missed@));
}

/// Each entry of a page is turned once, in its place; a failure stays in its place.
pub proof fn law_map_page<U, F: Fn((Vec<u8>, Vec<u8>)) -> PageResult<U>>(
    steps: Vec<Step>,
    f: F,
    items: Vec<PageResult<U>>,
)
    requires
        call_ensures(map_page::<U, F>, (steps, f), items),
    ensures
        items@.len() == steps@.len(),
        forall|i: int| 0 <= i < steps@.len() ==> match #[trigger] steps@[i] {
            Ok(entry) => call_ensures(f, (entry,), items@[i]),
            Err(e) => items@[i] == Err::<PageResultSuccess<U>, InternalError>(e),
        },
{
}

/// Page `number` of pages of `size` steps each lies behind the `number` pages before it, the first
/// page being page 0; a page that has no size of its own has the default, and one that has no
/// number is the first.
pub proof fn law_page_window(
    page: Option<u32>,
    page_size: Option<u32>,
    default_page_size: u32,
    r: (u64, u64),
)
    requires
        call_ensures(page_window, (page, page_size, default_page_size), r),
    ensures
        page_size matches Some(size) ==> r.1 == size,
        page_size is None ==> r.1 == default_page_size,
        page matches Some(number) ==> r.0 == number * r.1,
        page is None ==> r.0 == 0,
{
}

/// `items` are what `f` gave for the entries of ranks `skip` and following, one item for each.
pub open spec fn are_items<U, F: Fn((Vec<u8>, Vec<u8>)) -> PageResult<U>>(
    entries: Seq<EntryModel>,
    skip: int,
    f: F,
    items: Seq<PageResult<U>>,
) -> bool {
    forall|i: int| 0 <= i < items.len() ==> is_item(entries[skip + i], f, #[trigger] items[i])
}

/// `item` is what `f` gave for `entry`.
pub open spec fn is_item<U, F: Fn((Vec<u8>, Vec<u8>)) -> PageResult<U>>(
    entry: EntryModel,
    f: F,
    item: PageResult<U>,
) -> bool {
    exists|given: (Vec<u8>, Vec<u8>)|
        (given.0@, given.1@) == entry && #[trigger] call_ensures(f, (given,), item)
}

/// The failures among the steps before a page are failures that the storage engine reported, and
/// there are none where no step fails.
proof fn lemma_missed(scan: Scan, steps: Seq<Step>, limit: nat, skip: nat)
    requires
        were_taken(scan, steps, limit),
    ensures
        forall|i: int|
            0 <= i < failed(before(steps, skip)).len() ==> reported(
                #[trigger] failed(before(steps, skip))[i],
            ),
        no_step_fails() ==> failed(before(steps, skip)).len() == 0,
{
    lemma_taken(scan, steps, limit);
    let first = before(steps, skip);
    let places = lemma_failed_places(first);
    assert forall|i: int| 0 <= i < failed(first).len() implies reported(
        #[trigger] failed(first)[i],
    ) by {
        assert(first[places[i]] == steps[places[i]]);
    }
    if no_step_fails() {
        assert forall|i: int| 0 <= i < first.len() implies (#[trigger] first[i]) is Ok by {
            assert(first[i] == steps[i]);
        }
        lemma_none_failed(first);
    }
}

/// What is on a page where no step fails.
proof fn lemma_smooth_steps(scan: Scan, steps: Seq<Step>, skip: nat, size: nat)
    requires
        were_taken(scan, steps, skip + size),
        no_step_fails(),
    ensures
        after(steps, skip).len() == on_page(scan@.len(), skip, size),
        forall|i: int| 0 <= i < after(steps, skip).len() ==> {
            &&& #[trigger] after(steps, skip)[i] matches Ok(entry)
            &&& (entry.0@, entry.1@) == scan@[skip + i]
        },
{
    lemma_taken(scan, steps, skip + size);
    lemma_none_failed(steps);
    let rest = after(steps, skip);
    assert forall|i: int| 0 <= i < rest.len() implies {
        &&& #[trigger] rest[i] matches Ok(entry)
        &&& (entry.0@, entry.1@) == scan@[skip + i]
    } by {
        assert(rest[i] == steps[skip + i]);
        lemma_none_failed(steps.take(skip + i));
    }
    if steps.len() > 0 {
        let last = steps.len() - 1;
        lemma_none_failed(steps.take(last));
        assert(steps[last] is Ok);
    }
}

/// What a listing gives.
proof fn lemma_listing<U, F: Fn((Vec<u8>, Vec<u8>)) -> PageResult<U>>(
    entries: Seq<EntryModel>,
    asked: (nat, nat),
    f: F,
    page: Page<U>,
)
    requires
        is_taken_page(entries, asked, f, page),
    ensures
        forall|i: int| 0 <= i < page.missed@.len() ==> reported(#[trigger] page.missed@[i]),
        no_step_fails() ==> {
            &&& page.missed@.len() == 0
            &&& page.items@.len() == on_page(entries.len(), asked.0, asked.1)
            &&& are_items(entries, asked.0 as int, f, page.items@)
        },
{
    let (through, steps) = choose|through: Scan, steps: Seq<Step>|
        through@ == entries && #[trigger] is_page_of_steps(through, steps, asked, f, page);
    lemma_missed(through, steps, asked.0 + asked.1, asked.0);
    if no_step_fails() {
        lemma_smooth_steps(through, steps, asked.0, asked.1);
        let rest = after(steps, asked.0);
        assert(mapped(f, rest, page.items@));
        assert forall|i: int| 0 <= i < page.items@.len() implies is_item(
            entries[asked.0 + i],
            f,
            #[trigger] page.items@[i],
        ) by {
            let given = rest[i]->Ok_0;
            assert(call_ensures(f, (given,), page.items@[i]));
        }
    }
}

/// A listing by a text reports only failures that the storage engine reported. Where no step
/// fails, it reports none, and item `i` of page `n` is what `f` gave for the entry of rank
/// `n * page_size + i` among those whose keys start with the text, one item for each such entry.
pub proof fn law_listing_by_text<U, F: Fn((Vec<u8>, Vec<u8>)) -> PageResult<U>>(
    tree: Store,
    key: KeyString,
    page: Option<u32>,
    page_size: Option<u32>,
    default_page_size: u32,
    f: F,
    r: Result<Page<U>, InternalError>,
    entries: Seq<EntryModel>,
)
    requires
        call_ensures(
            get_page_by_prefix_str::<U, F>,
            (&tree, Some(key), page, page_size, default_page_size, f),
            r,
        ),
        is_scan(tree@, encode_utf8(key.0@), entries),
    ensures
        r is Ok,
        forall|i: int| 0 <= i < r->Ok_0.missed@.len() ==> reported(#[trigger] r->Ok_0.missed@[i]),
        no_step_fails() ==> {
            let size = if page_size is Some {
                page_size->0
            } else {
                default_page_size
            };
            let skip = if page is Some {
                page->0 * size
            } else {
                0
            };
            &&& r->Ok_0.missed@.len() == 0
            &&& r->Ok_0.items@.len() == on_page(entries.len(), skip as nat, size as nat)
            &&& are_items(entries, skip, f, r->Ok_0.items@)
        },
{
    lemma_scan_unique(tree@, encode_utf8(key.0@), entries, scan(tree@, encode_utf8(key.0@)));
    lemma_listing(
        entries,
        window(page, page_size, default_page_size),
        f,
        r->Ok_0,
    );
}

/// A listing by a byte string reports only failures that the storage engine reported. Where no
/// step fails, it reports none, and item `i` of page `n` is what `f` gave for the entry of rank
/// `n * page_size + i` among those whose keys start with it, one item for each such entry.
pub proof fn law_listing_by_bytes<U, F: Fn((Vec<u8>, Vec<u8>)) -> PageResult<U>>(
    tree: Store,
    key: KeyVec,
    page: Option<u32>,
    page_size: Option<u32>,
    default_page_size: u32,
    f: F,
    r: Result<Page<U>, InternalError>,
    entries: Seq<EntryModel>,
)
    requires
        call_ensures(
            get_page_by_prefix_bytes::<U, F>,
            (&tree, Some(key), page, page_size, default_page_size, f),
            r,
        ),
        is_scan(tree@, key.deep_view(), entries),
    ensures
        r is Ok,
        forall|i: int| 0 <= i < r->Ok_0.missed@.len() ==> reported(#[trigger] r->Ok_0.missed@[i]),
        no_step_fails() ==> {
            let size = if page_size is Some {
                page_size->0
            } else {
                default_page_size
            };
            let skip = if page is Some {
                page->0 * size
            } else {
                0
            };
            &&& r->Ok_0.missed@.len() == 0
            &&& r->Ok_0.items@.len() == on_page(entries.len(), skip as nat, size as nat)
            &&& are_items(entries, skip, f, r->Ok_0.items@)
        },
{
    lemma_scan_unique(tree@, key.deep_view(), entries, scan(tree@, key.deep_view()));
    lemma_listing(
        entries,
        window(page, page_size, default_page_size),
        f,
        r->Ok_0,
    );
}

/// A listing by a number reports only failures that the storage engine reported. Where no step
/// fails, it reports none, and item `i` of page `n` is what `f` gave for the entry of rank
/// `n * page_size + i` among those whose keys start with the eight bytes of the number, one item
/// for each such entry.
pub proof fn law_listing_by_number<U, F: Fn((Vec<u8>, Vec<u8>)) -> PageResult<U>>(
    tree: Store,
    key: KeyU64,
    page: Option<u32>,
    page_size: Option<u32>,
    default_page_size: u32,
    f: F,
    r: Result<Page<U>, InternalError>,
    prefix: Seq<u8>,
    entries: Seq<EntryModel>,
)
    requires
        call_ensures(
            get_page_by_prefix_u64::<U, F>,
            (&tree, key, page, page_size, default_page_size, f),
            r,
        ),
        prefix.len() == 8,
        number_in(prefix) == key.0,
        is_scan(tree@, prefix, entries),
    ensures
        r is Ok,
        forall|i: int| 0 <= i < r->Ok_0.missed@.len() ==> reported(#[trigger] r->Ok_0.missed@[i]),
        no_step_fails() ==> {
            let size = if page_size is Some {
                page_size->0
            } else {
                default_page_size
            };
            let skip = if page is Some {
                page->0 * size
            } else {
                0
            };
            &&& r->Ok_0.missed@.len() == 0
            &&& r->Ok_0.items@.len() == on_page(entries.len(), skip as nat, size as nat)
            &&& are_items(entries, skip, f, r->Ok_0.items@)
        },
{
    let bytes = <KeyU64 as Uid>::key_encoding(key.0)->Ok_0;
    lemma_number_in(key.0);
    lemma_digits_unique(prefix, bytes);
    lemma_scan_unique(tree@, bytes, entries, scan(tree@, bytes));
    lemma_listing(
        entries,
        window(page, page_size, default_page_size),
        f,
        r->Ok_0,
    );
}

/// As many digits that make the same number are the same digits.
proof fn lemma_digits_unique(a: Seq<u8>, b: Seq<u8>)
    requires
        a.len() == b.len(),
        number_in(a) == number_in(b),
    ensures
        a == b,
    decreases a.len(),
{
    if a.len() > 0 {
        let x = number_in(a.drop_last());
        let y = number_in(b.drop_last());
        assert(x * 256 + a.last() == y * 256 + b.last());
        assert(x == y && a.last() == b.last());
        lemma_digits_unique(a.drop_last(), b.drop_last());
        assert(a =~= a.drop_last().push(a.last()));
        assert(b =~= b.drop_last().push(b.last()));
    } else {
        assert(a =~= b);
    }
}

/// A listing by any kind of key reports only failures that the storage engine reported. Where no
/// step fails, it reports none, and item `i` of page `n` is what `f` gave for the entry of rank
/// `n * page_size + i` among those whose keys start with the bytes of the key, one item for each
/// such entry. Without a key it is refused, and with one that has no bytes, for that.
pub proof fn law_listing<T: Uid, U, F: Fn((Vec<u8>, Vec<u8>)) -> PageResult<U>>(
    tree: Store,
    key: Option<T>,
    page: Option<u32>,
    page_size: Option<u32>,
    default_page_size: u32,
    f: F,
    r: Result<Page<U>, InternalError>,
    entries: Seq<EntryModel>,
)
    requires
        call_ensures(
            <T as Pager>::get_page_by_prefix::<U, F>,
            (&tree, key, page, page_size, default_page_size, f),
            r,
        ),
        key is Some ==> T::key_encoding(key->0.deep_view()) is Ok ==> is_scan(
            tree@,
            T::key_encoding(key->0.deep_view())->Ok_0,
            entries,
        ),
    ensures
        key is None ==> (r matches Err(e) && says_missing(e, "uid"@)),
        key is Some ==> match T::key_encoding(key->0.deep_view()) {
            Err(why) => r matches Err(e) && e.deep_view() == why,
            Ok(_) => {
                &&& r is Ok
                &&& forall|i: int|
                    0 <= i < r->Ok_0.missed@.len() ==> reported(#[trigger] r->Ok_0.missed@[i])
                &&& no_step_fails() ==> {
                    let size = if page_size is Some {
                        page_size->0
                    } else {
                        default_page_size
                    };
                    let skip = if page is Some {
                        page->0 * size
                    } else {
                        0
                    };
                    &&& r->Ok_0.missed@.len() == 0
                    &&& r->Ok_0.items@.len() == on_page(entries.len(), skip as nat, size as nat)
                    &&& are_items(entries, skip, f, r->Ok_0.items@)
                }
            },
        },
{
    if key is Some && T::key_encoding(key->0.deep_view()) is Ok {
        let bytes = T::key_encoding(key->0.deep_view())->Ok_0;
        lemma_scan_unique(tree@, bytes, entries, scan(tree@, bytes));
        lemma_listing(entries, window(page, page_size, default_page_size), f, r->Ok_0);
    } else if r is Err {
        lemma_says(r->Err_0);
    }
}

/// A listing without a text, or without a byte string, is refused for the want of it.
pub proof fn law_listing_without_a_key<U, F: Fn((Vec<u8>, Vec<u8>)) -> PageResult<U>>(
    tree: Store,
    page: Option<u32>,
    page_size: Option<u32>,
    default_page_size: u32,
    f: F,
    by_text: Result<Page<U>, InternalError>,
    by_bytes: Result<Page<U>, InternalError>,
)
    requires
        call_ensures(
            get_page_by_prefix_str::<U, F>,
            (&tree, None, page, page_size, default_page_size, f),
            by_text,
        ),
        call_ensures(
            get_page_by_prefix_bytes::<U, F>,
            (&tree, None, page, page_size, default_page_size, f),
            by_bytes,
        ),
    ensures
        by_text matches Err(e) && says_missing(e, "uid"@),
        by_bytes matches Err(e) && says_missing(e, "uid"@),
{
    lemma_says(by_text->Err_0);
    lemma_says(by_bytes->Err_0);
}

/// `item` tells the text `key`, and of a key nothing else.
pub open spec fn tells_key(item: SearchResponseItem, key: Seq<char>) -> bool {
    item.key matches Some(k) && k.key@ == key && k.key_family is None && k.uid is None
}

/// `line` is the line of a search for an entry: it tells the key, the stored value exactly if it
/// was asked for, and the stored metadata exactly if they were; or else why the key cannot be
/// read or, if any of it was asked for, the entry.
pub open spec fn is_line_for<W>(
    line: SearchResponse,
    entry: EntryModel,
    return_value: bool,
    return_metadata: bool,
) -> bool where KvEntry: ProstMessage<W> {
    if !valid_utf8(entry.0) {
        line.resp matches Some(SearchResp::KeyError(e)) && says_unreadable(
            e,
            utf8_error_text(entry.0),
        )
    } else if !return_value && !return_metadata {
        &&& line.resp matches Some(SearchResp::Success(item))
        &&& tells_key(item, decode_utf8(entry.0))
        &&& item.value is None && item.metadata is None
    } else {
        match <KvEntry as ProstMessage<W>>::decoding(entry.1) {
            Err(why) => line.resp matches Some(SearchResp::KeyError(e)) && says_unreadable(e, why),
            Ok(stored) => {
                &&& line.resp matches Some(SearchResp::Success(item))
                &&& tells_key(item, decode_utf8(entry.0))
                &&& return_value ==> item.value.deep_view() == stored.value
                &&& !return_value ==> item.value is None
                &&& return_metadata ==> item.metadata.deep_view() == stored.metadata
                &&& !return_metadata ==> item.metadata is None
            },
        }
    }
}

/// What a search reads of an entry is the text that its key is in UTF-8 and, if any of it is
/// wanted, what its value reads as; or why that cannot be read, the key first.
pub proof fn law_search_item<W>(
    entry: (Vec<u8>, Vec<u8>),
    wanted: bool,
    item: PageResult<(KeyString, Option<KvEntry>)>,
) where KvEntry: ProstMessage<W>
    requires
        call_ensures(search_item::<W>, (entry, wanted), item),
    ensures
        !valid_utf8(entry.0@) ==> (item matches Err(e) && says_unreadable(
            e,
            utf8_error_text(entry.0@),
        )),
        valid_utf8(entry.0@) && !wanted ==> {
            &&& item matches Ok(PageResultSuccess::Success((key, kept)))
            &&& key.0@ == decode_utf8(entry.0@)
            &&& kept is None
        },
        valid_utf8(entry.0@) && wanted ==> match <KvEntry as ProstMessage<W>>::decoding(entry.1@) {
            Ok(stored) => {
                &&& item matches Ok(PageResultSuccess::Success((key, kept)))
                &&& key.0@ == decode_utf8(entry.0@)
                &&& kept matches Some(read) && read.deep_view() == stored
            },
            Err(why) => item matches Err(e) && says_unreadable(e, why),
        },
{
    if item is Err {
        lemma_says(item->Err_0);
    }
}

/// The line for what was read tells the key, the value exactly if it was read and asked for, and
/// the metadata exactly if they were; and the error for an error.
pub proof fn law_search_response(
    item: PageResult<(KeyString, Option<KvEntry>)>,
    return_value: bool,
    return_metadata: bool,
    line: SearchResponse,
)
    requires
        call_ensures(search_response, (item, return_value, return_metadata), line),
    ensures
        match (item, line.resp) {
            (
                Ok(PageResultSuccess::Success((key, kept))),
                Some(SearchResp::Success(given)),
            ) => {
                &&& tells_key(given, key.0@)
                &&& given.value.deep_view() == if return_value && kept is Some {
                    kept->0.value.deep_view()
                } else {
                    None
                }
                &&& given.metadata.deep_view() == if return_metadata && kept is Some {
                    kept->0.metadata.deep_view()
                } else {
                    None
                }
            },
            (Err(e), Some(SearchResp::KeyError(told))) => told.deep_view() == e.deep_view(),
            _ => false,
        },
{
    if item is Ok {
        let PageResultSuccess::Success((key, kept)) = item->Ok_0;
        let given = line.resp->0->Success_0;
        assert(line.deep_view() == Some(
            SearchResp::<SearchResponseItemModel, ErrorModel>::Success(given.deep_view()),
        ));
        lemma_item(given);
        if kept is Some {
            assert(kept->0.deep_view().value == kept->0.value.deep_view());
            assert(kept->0.deep_view().metadata == kept->0.metadata.deep_view());
        }
    }
}

/// What an item of a search says.
proof fn lemma_item(item: SearchResponseItem)
    ensures
        item.deep_view().value == item.value.deep_view(),
        item.deep_view().metadata == item.metadata.deep_view(),
        forall|key: Seq<char>|
            item.deep_view().key == Some(
                KeyModel { key, key_family: None, uid: None },
            ) ==> #[trigger] tells_key(item, key),
{
}

/// The line for an entry.
proof fn lemma_line<W>(
    line: SearchResponse,
    entry: EntryModel,
    return_value: bool,
    return_metadata: bool,
) where KvEntry: ProstMessage<W>
    requires
        line.deep_view() == Some(search_line::<W>(Ok(entry), return_value, return_metadata)),
    ensures
        is_line_for::<W>(line, entry, return_value, return_metadata),
{
    match line.resp->0 {
        SearchResp::Success(item) => lemma_item(item),
        SearchResp::KeyError(e) => lemma_says(e),
    }
}

/// A search reports only failures that the storage engine reported. Where no step fails, it
/// reports none, and line `i` of page `n` is the line for the entry of rank `n * page_size + i`
/// among those whose keys start with the prefix, one line for each such entry.
pub proof fn law_search_without_failures<W>(
    server: DataTreeServer,
    r: SearchRequest,
    resp: Result<SearchAnswer, InternalError>,
    entries: Seq<EntryModel>,
) where KvEntry: ProstMessage<W>
    requires
        call_ensures(DataTreeServer::search::<W>, (&server, r), resp),
        is_scan(server@, encode_utf8(r.key_prefix@), entries),
    ensures
        resp is Ok,
        forall|i: int|
            0 <= i < resp->Ok_0.missed@.len() ==> reported(#[trigger] resp->Ok_0.missed@[i]),
        no_step_fails() ==> {
            &&& resp->Ok_0.missed@.len() == 0
            &&& resp->Ok_0.lines@.len() == on_page(
                entries.len(),
                (r.page * r.page_size) as nat,
                r.page_size as nat,
            )
            &&& forall|i: int|
                0 <= i < resp->Ok_0.lines@.len() ==> is_line_for::<W>(
                    #[trigger] resp->Ok_0.lines@[i],
                    entries[r.page * r.page_size + i],
                    r.return_value,
                    r.return_metadata,
                )
        },
{
    let prefix = encode_utf8(r.key_prefix@);
    lemma_scan_unique(server@, prefix, entries, scan(server@, prefix));
    let answer = resp->Ok_0;
    let asked = r.deep_view();
    let (skip, size) = search_window(asked);
    let (through, steps) = choose|through: Scan, steps: Seq<Step>|
        through@ == scan(server@, prefix) && #[trigger] is_answer_of_steps::<W>(
            through,
            steps,
            asked,
            answer,
        );
    lemma_missed(through, steps, skip + size, skip);
    if no_step_fails() {
        lemma_smooth_steps(through, steps, skip, size);
        let rest = after(steps, skip);
        assert forall|i: int| 0 <= i < answer.lines@.len() implies is_line_for::<W>(
            #[trigger] answer.lines@[i],
            entries[r.page * r.page_size + i],
            r.return_value,
            r.return_metadata,
        ) by {
            assert(steps_of(rest)[i] == step_of(rest[i]));
            lemma_line::<W>(
                answer.lines@[i],
                entries[skip + i],
                r.return_value,
                r.return_metadata,
            );
        }
    }
}

/// `line` is the line of a search for a step: the one for the entry of the step, or its failure.
pub open spec fn is_line_for_step<W>(
    line: SearchResponse,
    step: Step,
    return_value: bool,
    return_metadata: bool,
) -> bool where KvEntry: ProstMessage<W> {
    match step {
        Ok(entry) => is_line_for::<W>(
            line,
            (entry.0@, entry.1@),
            return_value,
            return_metadata,
        ),
        Err(e) => line.resp matches Some(SearchResp::KeyError(told)) && told.deep_view()
            == e.deep_view(),
    }
}

/// The line for a step.
proof fn lemma_line_for_step<W>(
    line: SearchResponse,
    step: Step,
    return_value: bool,
    return_metadata: bool,
) where KvEntry: ProstMessage<W>
    requires
        line.deep_view() == Some(search_line::<W>(step_of(step), return_value, return_metadata)),
    ensures
        is_line_for_step::<W>(line, step, return_value, return_metadata),
{
    match step {
        Ok(entry) => lemma_line::<W>(
            line,
            (entry.0@, entry.1@),
            return_value,
            return_metadata,
        ),
        Err(_) => {},
    }
}

/// The lines for some steps.
proof fn lemma_lines_for_steps<W>(
    asked: SearchRequestModel,
    steps: Seq<Step>,
    lines: Seq<SearchResponse>,
) where KvEntry: ProstMessage<W>
    requires
        are_lines::<W>(asked, steps_of(steps), lines),
    ensures
        lines.len() == steps.len(),
        forall|i: int|
            0 <= i < lines.len() ==> is_line_for_step::<W>(
                #[trigger] lines[i],
                steps[i],
                asked.return_value,
                asked.return_metadata,
            ),
{
    assert forall|i: int| 0 <= i < lines.len() implies is_line_for_step::<W>(
        #[trigger] lines[i],
        steps[i],
        asked.return_value,
        asked.return_metadata,
    ) by {
        assert(steps_of(steps)[i] == step_of(steps[i]));
        lemma_line_for_step::<W>(
            lines[i],
            steps[i],
            asked.return_value,
            asked.return_metadata,
        );
    }
}

/// Whatever fails, a search has one line for each step of one walk that is on the page, in the
/// order of the steps: the line for the entry of the step, or its failure. It reports every
/// failure among the steps before the page, in order, and nothing else. Step `i` of the walk gives
/// the entry whose rank is `i` less the steps that failed before, or a failure that the storage
/// engine reported.
pub proof fn law_search_line_by_line<W>(
    server: DataTreeServer,
    r: SearchRequest,
    answer: SearchAnswer,
    entries: Seq<EntryModel>,
    skip: int,
) -> (steps: Seq<Step>) where KvEntry: ProstMessage<W>
    requires
        call_ensures(
            DataTreeServer::search::<W>,
            (&server, r),
            Ok::<SearchAnswer, InternalError>(answer),
        ),
        is_scan(server@, encode_utf8(r.key_prefix@), entries),
        skip == r.page * r.page_size,
    ensures
        steps.len() <= skip + r.page_size,
        steps.len() < skip + r.page_size ==> steps.len() - failures(steps) == entries.len(),
        forall|i: int| 0 <= i < steps.len() ==> match #[trigger] steps[i] {
            Ok(entry) => {
                let rank = i - failures(steps.take(i));
                &&& 0 <= rank < entries.len()
                &&& (entry.0@, entry.1@) == entries[rank]
            },
            Err(e) => reported(e),
        },
        steps.len() <= skip ==> {
            &&& answer.lines@.len() == 0
            &&& exists|places: Seq<int>| #[trigger] are_failures_at(steps, places, answer.missed@)
        },
        steps.len() > skip ==> {
            &&& answer.lines@.len() == steps.len() - skip
            &&& exists|places: Seq<int>| #[trigger]
                are_failures_at(steps.take(skip), places, answer.missed@)
        },
        forall|i: int|
            0 <= i < answer.lines@.len() ==> is_line_for_step::<W>(
                #[trigger] answer.lines@[i],
                steps[skip + i],
                r.return_value,
                r.return_metadata,
            ),
{
    let prefix = encode_utf8(r.key_prefix@);
    lemma_scan_unique(server@, prefix, entries, scan(server@, prefix));
    let asked = r.deep_view();
    let (through, steps) = choose|through: Scan, steps: Seq<Step>|
        through@ == scan(server@, prefix) && #[trigger] is_answer_of_steps::<W>(
            through,
            steps,
            asked,
            answer,
        );
    assert(search_window(asked) == (skip as nat, r.page_size as nat));
    lemma_taken(through, steps, (skip + r.page_size) as nat);
    let first = before(steps, skip as nat);
    let places = lemma_failed_places(first);
    assert(are_failures_at(first, places, answer.missed@));
    let rest = after(steps, skip as nat);
    lemma_lines_for_steps::<W>(asked, rest, answer.lines@);
    assert forall|i: int| 0 <= i < answer.lines@.len() implies is_line_for_step::<W>(
        #[trigger] answer.lines@[i],
        steps[skip + i],
        r.return_value,
        r.return_metadata,
    ) by {
        assert(rest[i] == steps[skip + i]);
    }
    if steps.len() == skip {
        assert(steps.take(skip) =~= steps);
    }
    steps
}

} // verus!
