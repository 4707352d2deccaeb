//! Laws of listing page by page.
use crate::data_access::{
    after, is_listing, is_page, is_walk, mapped, requested_key, step_of, steps_of, storage_failed,
    walked, window, Page, PageResult, PageResultSuccess, Step, StepModel, Uid,
};
use crate::error_handling::{is_storage_error, ErrorModel, InternalError};
use crate::key_order::{in_key_order, is_scan, less, scan, Contents, EntryModel};
use crate::store::entry_of;
use vstd::prelude::*;

verus! {

/// No step of the walk failed.
pub open spec fn smooth(walk: Seq<StepModel>) -> bool {
    forall|i: int| 0 <= i < walk.len() ==> (#[trigger] walk[i]) is Ok
}

/// The place `n`, or the place behind the last entry if that comes first.
pub open spec fn clip(entries: Seq<EntryModel>, n: nat) -> nat {
    if n <= entries.len() {
        n
    } else {
        entries.len()
    }
}

/// Page `number` of `entries`, `size` to a page.
pub open spec fn page_of(entries: Seq<EntryModel>, number: nat, size: nat) -> Seq<EntryModel> {
    entries.subrange(
        clip(entries, number * size) as int,
        clip(entries, number * size + size) as int,
    )
}

/// The first `count` pages of `entries`, one behind the other.
pub open spec fn pages(entries: Seq<EntryModel>, count: nat, size: nat) -> Seq<EntryModel>
    decreases count,
{
    if count == 0 {
        Seq::empty()
    } else {
        pages(entries, (count - 1) as nat, size) + page_of(entries, (count - 1) as nat, size)
    }
}

/// A page has no more steps than it may have.
pub proof fn law_page_size(
    entries: Seq<EntryModel>,
    skip: nat,
    size: nat,
    missed: nat,
    page: Seq<StepModel>,
)
    requires
        is_page(entries, skip, size, missed, page),
    ensures
        page.len() <= size,
{
}

/// How many steps come before a page and how many are on it does not depend on the default if a
/// page size is given; and without any it is as for the first page of the default size.
pub proof fn law_default_page_size(page: Option<u32>, page_size: u32, first: u32, second: u32)
    ensures
        window(page, Some(page_size), first) == window(page, Some(page_size), second),
        window(None, None, first) == window(Some(0), Some(first), second),
{
}

/// A page has as many entries as it may have, or as are left.
pub proof fn law_page_length(entries: Seq<EntryModel>, number: nat, size: nat)
    ensures
        page_of(entries, number, size).len() == if number * size >= entries.len() {
            0
        } else if number * size + size <= entries.len() {
            size as int
        } else {
            entries.len() - number * size
        },
{
}

/// A walk in which no step failed gave the first entries, one by one.
pub proof fn lemma_smooth_walk(entries: Seq<EntryModel>, walk: Seq<StepModel>, limit: nat)
    requires
        is_walk(entries, walk, limit),
        smooth(walk),
    ensures
        walk.len() == clip(entries, limit),
        forall|i: int|
            0 <= i < walk.len() ==> #[trigger] walk[i] == Ok::<EntryModel, ErrorModel>(entries[i]),
{
    assert forall|i: int| 0 <= i < walk.len() implies #[trigger] walk[i] == Ok::<
        EntryModel,
        ErrorModel,
    >(entries[i]) by {
        lemma_smooth_prefix(walk, i);
        lemma_walked_at(walk, i);
    }
    lemma_smooth_prefix(walk, walk.len() as int);
    assert(walk.take(walk.len() as int) =~= walk);
}

/// How many entries the first `n` steps of a walk gave, if none failed: `n`.
proof fn lemma_smooth_prefix(walk: Seq<StepModel>, n: int)
    requires
        smooth(walk),
        0 <= n <= walk.len(),
    ensures
        walked(walk.take(n)).len() == n,
    decreases n,
{
    if n > 0 {
        lemma_smooth_prefix(walk, n - 1);
        assert(walk.take(n).drop_last() =~= walk.take(n - 1));
        assert(walk.take(n).last() == walk[n - 1]);
    }
}

/// The first steps of a walk gave the first of the entries that it gave.
proof fn lemma_walked_prefix(walk: Seq<StepModel>, n: int)
    requires
        0 <= n <= walk.len(),
    ensures
        walked(walk.take(n)).is_prefix_of(walked(walk)),
    decreases walk.len(),
{
    if n == walk.len() {
        assert(walk.take(n) =~= walk);
    } else {
        let before = walk.drop_last();
        lemma_walked_prefix(before, n);
        assert(before.take(n) =~= walk.take(n));
        assert(walked(before).is_prefix_of(walked(walk)));
    }
}

/// An entry that a step gave is the one behind those that the steps before it gave.
proof fn lemma_walked_at(walk: Seq<StepModel>, i: int)
    requires
        0 <= i < walk.len(),
        walk[i] is Ok,
    ensures
        walked(walk.take(i + 1)).len() == walked(walk.take(i)).len() + 1,
        walked(walk.take(i)).len() < walked(walk).len(),
        walked(walk)[walked(walk.take(i)).len() as int] == walk[i]->Ok_0,
{
    let with = walk.take(i + 1);
    assert(with.drop_last() =~= walk.take(i));
    assert(with.last() == walk[i]);
    lemma_walked_prefix(walk, i + 1);
    assert(walked(with)[walked(walk.take(i)).len() as int] == walk[i]->Ok_0);
}

/// If no step failed, neither on the way to a page nor on it, the page holds the entries that
/// were asked for.
pub proof fn law_smooth_page(
    entries: Seq<EntryModel>,
    number: nat,
    size: nat,
    page: Seq<StepModel>,
)
    requires
        is_page(entries, number * size, size, 0, page),
        smooth(page),
    ensures
        page.len() == page_of(entries, number, size).len(),
        forall|i: int|
            0 <= i < page.len() ==> #[trigger] page[i] == Ok::<EntryModel, ErrorModel>(
                page_of(entries, number, size)[i],
            ),
{
    let left = after(entries, number * size);
    lemma_smooth_walk(left, page, size);
}

/// The first pages, one behind the other, hold the first entries, each once.
pub proof fn law_pages_in_order(entries: Seq<EntryModel>, count: nat, size: nat)
    ensures
        pages(entries, count, size) == entries.take(clip(entries, count * size) as int),
    decreases count,
{
    if count == 0 {
        assert(pages(entries, count, size) =~= entries.take(0));
    } else {
        let k = (count - 1) as nat;
        law_pages_in_order(entries, k, size);
        assert(count * size == k * size + size) by (nonlinear_arith)
            requires
                count == k + 1,
        ;
        assert(pages(entries, count, size) =~= entries.take(clip(entries, count * size) as int));
    }
}

/// Enough pages, one behind the other, hold all entries.
pub proof fn law_pages_complete(entries: Seq<EntryModel>, count: nat, size: nat)
    requires
        count * size >= entries.len(),
    ensures
        pages(entries, count, size) == entries,
{
    law_pages_in_order(entries, count, size);
    assert(entries.take(entries.len() as int) =~= entries);
}

/// A page behind the last entry is empty.
pub proof fn law_page_past_the_end(entries: Seq<EntryModel>, number: nat, size: nat)
    requires
        number * size >= entries.len(),
    ensures
        page_of(entries, number, size) == Seq::<EntryModel>::empty(),
{
    assert(page_of(entries, number, size) =~= Seq::<EntryModel>::empty());
}

/// An entry on a page is the one of some place in the listing, and entries that come later are
/// of later places.
proof fn lemma_place(
    entries: Seq<EntryModel>,
    skip: nat,
    size: nat,
    missed: nat,
    page: Seq<StepModel>,
    i: int,
) -> (place: int)
    requires
        is_page(entries, skip, size, missed, page),
        0 <= i < page.len(),
        page[i] is Ok,
    ensures
        place == skip - missed + walked(page.take(i)).len(),
        0 <= place < entries.len(),
        entries[place] == page[i]->Ok_0,
{
    let left = after(entries, (skip - missed) as nat);
    lemma_walked_at(page, i);
    let at = walked(page.take(i)).len() as int;
    assert(walked(page)[at] == left[at]);
    skip - missed + at
}

/// The entries on a page are in the order of their keys, whether or not steps between them
/// failed, so no entry is on a page twice.
pub proof fn law_page_order(
    entries: Seq<EntryModel>,
    skip: nat,
    size: nat,
    missed: nat,
    page: Seq<StepModel>,
    i: int,
    j: int,
)
    requires
        is_page(entries, skip, size, missed, page),
        in_key_order(entries),
        0 <= i < j < page.len(),
        page[i] is Ok,
        page[j] is Ok,
    ensures
        less(page[i]->Ok_0.0, page[j]->Ok_0.0),
{
    let a = lemma_place(entries, skip, size, missed, page, i);
    let b = lemma_place(entries, skip, size, missed, page, j);
    lemma_walked_at(page, i);
    let until_j = page.take(j);
    lemma_walked_prefix(until_j, i + 1);
    assert(until_j.take(i + 1) =~= page.take(i + 1));
}

/// An entry on a page is in the database, under a key that starts with the prefix.
pub proof fn law_page_members(
    contents: Contents,
    prefix: Seq<u8>,
    entries: Seq<EntryModel>,
    skip: nat,
    size: nat,
    missed: nat,
    page: Seq<StepModel>,
    i: int,
)
    requires
        is_scan(contents, prefix, entries),
        is_page(entries, skip, size, missed, page),
        0 <= i < page.len(),
        page[i] is Ok,
    ensures
        contents.contains_key(page[i]->Ok_0.0),
        contents[page[i]->Ok_0.0] == page[i]->Ok_0.1,
        prefix.is_prefix_of(page[i]->Ok_0.0),
{
    let place = lemma_place(entries, skip, size, missed, page, i);
    assert(entries[place] == page[i]->Ok_0);
}

/// A key that starts with the prefix is on one of the pages: the one of its place in the
/// listing.
pub proof fn law_every_match_is_on_a_page(
    contents: Contents,
    prefix: Seq<u8>,
    entries: Seq<EntryModel>,
    key: Seq<u8>,
    size: nat,
) -> (number: nat)
    requires
        is_scan(contents, prefix, entries),
        contents.contains_key(key),
        prefix.is_prefix_of(key),
        size > 0,
    ensures
        page_of(entries, number, size).contains((key, contents[key])),
{
    assert(crate::key_order::listed(entries, key));
    let i = choose|i: int| 0 <= i < entries.len() && (#[trigger] entries[i]).0 == key;
    let number = (i / size as int) as nat;
    vstd::arithmetic::div_mod::lemma_fundamental_div_mod(i, size as int);
    vstd::arithmetic::div_mod::lemma_mod_bound(i, size as int);
    vstd::arithmetic::div_mod::lemma_div_pos_is_pos(i, size as int);
    assert(number * size == size * (i / size as int)) by (nonlinear_arith)
        requires
            number == i / size as int,
    ;
    let at = i - number * size;
    assert(page_of(entries, number, size)[at] == entries[i]);
    number
}

/// No step of a listing failed, neither on the way to the page nor on it.
pub open spec fn undisturbed<U>(page: Page<U>) -> bool {
    &&& page.missed@.len() == 0
    &&& forall|i: int|
        0 <= i < page.items@.len() ==> !((#[trigger] page.items@[i]) matches Err(e)
            && is_storage_error(e.deep_view()))
}

/// `item` is what `f` gave for the entry `entry`.
pub open spec fn made_from<U, F: Fn((Vec<u8>, Vec<u8>)) -> PageResult<U>>(
    f: F,
    entry: EntryModel,
    item: PageResult<U>,
) -> bool {
    exists|e: (Vec<u8>, Vec<u8>)| entry_of(e) == entry && #[trigger] call_ensures(f, (e,), item)
}

/// `items` are what `f` gave for `entries`, one by one.
pub open spec fn turned<U, F: Fn((Vec<u8>, Vec<u8>)) -> PageResult<U>>(
    f: F,
    entries: Seq<EntryModel>,
    items: Seq<PageResult<U>>,
) -> bool {
    &&& items.len() == entries.len()
    &&& forall|i: int| 0 <= i < entries.len() ==> made_from(f, entries[i], #[trigger] items[i])
}

/// The entries that a listing under `key` goes through.
pub open spec fn listing_of<T: Uid>(contents: Contents, key: Option<T::V>) -> Seq<EntryModel> {
    scan(contents, requested_key::<T>(key)->Ok_0)
}

/// A listing that was not disturbed gives what `f` makes of the entries on the page that was asked
/// for, and of no others.
pub proof fn law_listing_gives_the_page<T: Uid, U, F: Fn((Vec<u8>, Vec<u8>)) -> PageResult<U>>(
    contents: Contents,
    key: Option<T::V>,
    number: u32,
    size: u32,
    default_page_size: u32,
    f: F,
    page: Page<U>,
)
    requires
        is_listing::<T, U, F>(
            contents,
            key,
            window(Some(number), Some(size), default_page_size),
            f,
            Ok(page),
        ),
        undisturbed(page),
    ensures
        turned(f, page_of(listing_of::<T>(contents, key), number as nat, size as nat), page.items@),
{
    let entries = listing_of::<T>(contents, key);
    let (skip, limit) = window(Some(number), Some(size), default_page_size);
    let steps = choose|steps: Seq<Step>| #[trigger]
        mapped(f, steps, page.items@) && is_page(
            entries,
            skip,
            limit,
            page.missed@.len(),
            steps_of(steps),
        );
    let walk = steps_of(steps);
    assert forall|i: int| 0 <= i < walk.len() implies (#[trigger] walk[i]) is Ok by {
        assert(walk[i] == step_of(steps[i]));
        if steps[i] is Err {
            assert(storage_failed(walk[i]));
            assert(page.items@[i] == Err::<PageResultSuccess<U>, InternalError>(steps[i]->Err_0));
        }
    }
    law_smooth_page(entries, number as nat, size as nat, walk);
    let wanted = page_of(entries, number as nat, size as nat);
    assert forall|i: int| 0 <= i < wanted.len() implies made_from(
        f,
        wanted[i],
        #[trigger] page.items@[i],
    ) by {
        assert(walk[i] == step_of(steps[i]));
        assert(walk[i] is Ok);
        assert(call_ensures(f, (steps[i]->Ok_0,), page.items@[i]));
    }
}

/// The items of some pages, one behind the other.
pub open spec fn all_items<U>(answers: Seq<Page<U>>) -> Seq<PageResult<U>>
    decreases answers.len(),
{
    if answers.len() == 0 {
        Seq::empty()
    } else {
        all_items(answers.drop_last()) + answers.last().items@
    }
}

/// `answers` are those to the requests for the first pages, one after the other.
pub open spec fn are_first_pages<T: Uid, U, F: Fn((Vec<u8>, Vec<u8>)) -> PageResult<U>>(
    contents: Contents,
    key: Option<T::V>,
    size: u32,
    default_page_size: u32,
    f: F,
    answers: Seq<Page<U>>,
) -> bool {
    &&& answers.len() <= u32::MAX
    &&& forall|k: int|
        0 <= k < answers.len() ==> is_listing::<T, U, F>(
            contents,
            key,
            window(Some(k as u32), Some(size), default_page_size),
            f,
            Ok(#[trigger] answers[k]),
        ) && undisturbed(answers[k])
}

/// The first pages of a listing that was not disturbed, one behind the other, hold what `f` makes
/// of the first entries, each once and in order; and enough pages, what it makes of all.
pub proof fn law_listings_make_up_the_whole<
    T: Uid,
    U,
    F: Fn((Vec<u8>, Vec<u8>)) -> PageResult<U>,
>(
    contents: Contents,
    key: Option<T::V>,
    size: u32,
    default_page_size: u32,
    f: F,
    answers: Seq<Page<U>>,
)
    requires
        are_first_pages::<T, U, F>(contents, key, size, default_page_size, f, answers),
    ensures
        ({
            let entries = listing_of::<T>(contents, key);
            let first = clip(entries, answers.len() * size as nat);
            turned(f, entries.take(first as int), all_items(answers))
        }),
        answers.len() * size as nat >= listing_of::<T>(contents, key).len() ==> turned(
            f,
            listing_of::<T>(contents, key),
            all_items(answers),
        ),
{
    let entries = listing_of::<T>(contents, key);
    lemma_listings::<T, U, F>(contents, key, size, default_page_size, f, answers);
    law_pages_in_order(entries, answers.len(), size as nat);
    assert(entries.take(entries.len() as int) =~= entries);
}

proof fn lemma_listings<T: Uid, U, F: Fn((Vec<u8>, Vec<u8>)) -> PageResult<U>>(
    contents: Contents,
    key: Option<T::V>,
    size: u32,
    default_page_size: u32,
    f: F,
    answers: Seq<Page<U>>,
)
    requires
        are_first_pages::<T, U, F>(contents, key, size, default_page_size, f, answers),
    ensures
        turned(
            f,
            pages(listing_of::<T>(contents, key), answers.len(), size as nat),
            all_items(answers),
        ),
    decreases answers.len(),
{
    if answers.len() > 0 {
        let entries = listing_of::<T>(contents, key);
        let first = answers.drop_last();
        let k = answers.len() - 1;
        assert forall|i: int| 0 <= i < first.len() implies is_listing::<T, U, F>(
            contents,
            key,
            window(Some(i as u32), Some(size), default_page_size),
            f,
            Ok(#[trigger] first[i]),
        ) && undisturbed(first[i]) by {
            assert(first[i] == answers[i]);
        }
        lemma_listings::<T, U, F>(contents, key, size, default_page_size, f, first);
        assert(answers[k] == answers.last());
        law_listing_gives_the_page::<T, U, F>(
            contents,
            key,
            k as u32,
            size,
            default_page_size,
            f,
            answers.last(),
        );
        let before_last = pages(entries, k as nat, size as nat);
        let last = page_of(entries, k as nat, size as nat);
        let all = all_items(answers);
        assert forall|i: int| 0 <= i < all.len() implies made_from(
            f,
            (before_last + last)[i],
            #[trigger] all[i],
        ) by {
            if i < before_last.len() {
                assert(all[i] == all_items(first)[i]);
            } else {
                assert(all[i] == answers.last().items@[i - before_last.len()]);
            }
        }
    }
}

/// Requests for the same steps are given the same, if they are not disturbed and `f` gives the
/// same for the same entry.
pub proof fn law_equal_requests<T: Uid, U, F: Fn((Vec<u8>, Vec<u8>)) -> PageResult<U>>(
    contents: Contents,
    key: Option<T::V>,
    size: u32,
    default_page_size: u32,
    f: F,
    first: Page<U>,
    second: Page<U>,
)
    requires
        is_listing::<T, U, F>(contents, key, window(None, None, size), f, Ok(first)),
        is_listing::<T, U, F>(
            contents,
            key,
            window(Some(0), Some(size), default_page_size),
            f,
            Ok(second),
        ),
        undisturbed(first),
        undisturbed(second),
        forall|entry: EntryModel, x: PageResult<U>, y: PageResult<U>|
            #[trigger] made_from(f, entry, x) && #[trigger] made_from(f, entry, y) ==> x == y,
    ensures
        first.items@ == second.items@,
{
    law_default_page_size(None, size, size, default_page_size);
    law_listing_gives_the_page::<T, U, F>(contents, key, 0, size, default_page_size, f, first);
    law_listing_gives_the_page::<T, U, F>(contents, key, 0, size, default_page_size, f, second);
    let wanted = page_of(listing_of::<T>(contents, key), 0, size as nat);
    assert forall|i: int| 0 <= i < wanted.len() implies first.items@[i] == second.items@[i] by {
        assert(made_from(f, wanted[i], first.items@[i]));
        assert(made_from(f, wanted[i], second.items@[i]));
    }
    assert(first.items@ =~= second.items@);
}

} // verus!
