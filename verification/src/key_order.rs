//! The order of keys in the database, and the listing of a database in that order.
use vstd::prelude::*;

verus! {

/// What a database holds: values under keys.
pub type Contents = Map<Seq<u8>, Seq<u8>>;

/// A key and the value under it.
pub type EntryModel = (Seq<u8>, Seq<u8>);

/// A database that holds nothing.
pub open spec fn nothing() -> Contents {
    Map::empty()
}

/// The keys `a` and `b` agree before position `n`, where `a` ends or has the smaller byte.
pub open spec fn less_at(a: Seq<u8>, b: Seq<u8>, n: int) -> bool {
    &&& 0 <= n <= a.len()
    &&& n < b.len()
    &&& forall|i: int| 0 <= i < n ==> a[i] == b[i]
    &&& n == a.len() || a[n] < b[n]
}

/// The key `a` comes before the key `b`: byte by byte, a prefix before what it starts.
pub open spec fn less(a: Seq<u8>, b: Seq<u8>) -> bool {
    exists|n: int| less_at(a, b, n)
}

/// The entries of `items` are in the order of their keys.
pub open spec fn in_key_order(items: Seq<EntryModel>) -> bool {
    forall|i: int, j: int| 0 <= i < j < items.len() ==> less(items[i].0, items[j].0)
}

/// `items` are entries of `contents`, each under a key that starts with `prefix`.
pub open spec fn only_matching(contents: Contents, prefix: Seq<u8>, items: Seq<EntryModel>) -> bool {
    forall|i: int|
        0 <= i < items.len() ==> {
            &&& contents.contains_key((#[trigger] items[i]).0)
            &&& contents[items[i].0] == items[i].1
            &&& prefix.is_prefix_of(items[i].0)
        }
}

/// `key` is the key of one of `items`.
pub open spec fn listed(items: Seq<EntryModel>, key: Seq<u8>) -> bool {
    exists|i: int| 0 <= i < items.len() && (#[trigger] items[i]).0 == key
}

/// Every key of `contents` that starts with `prefix` is in `items`.
pub open spec fn all_matching(contents: Contents, prefix: Seq<u8>, items: Seq<EntryModel>) -> bool {
    forall|key: Seq<u8>|
        contents.contains_key(key) && prefix.is_prefix_of(key) ==> #[trigger] listed(items, key)
}

/// `items` lists the entries of `contents` under keys that start with `prefix`, in the order
/// of their keys.
pub open spec fn is_scan(contents: Contents, prefix: Seq<u8>, items: Seq<EntryModel>) -> bool {
    &&& only_matching(contents, prefix, items)
    &&& all_matching(contents, prefix, items)
    &&& in_key_order(items)
}

/// The listing of the entries under keys that start with `prefix`.
pub open spec fn scan(contents: Contents, prefix: Seq<u8>) -> Seq<EntryModel> {
    choose|items: Seq<EntryModel>| is_scan(contents, prefix, items)
}

/// No key comes before itself.
pub proof fn lemma_less_irreflexive(a: Seq<u8>)
    ensures
        !less(a, a),
{
}

/// Of two keys that each come before the next, the first comes before the last.
pub proof fn lemma_less_transitive(a: Seq<u8>, b: Seq<u8>, c: Seq<u8>)
    requires
        less(a, b),
        less(b, c),
    ensures
        less(a, c),
{
    let m = choose|n: int| less_at(a, b, n);
    let n = choose|n: int| less_at(b, c, n);
    if m <= n {
        assert(less_at(a, c, m));
    } else {
        assert(less_at(a, c, n));
    }
}

/// Of two different keys one comes before the other.
pub proof fn lemma_less_total(a: Seq<u8>, b: Seq<u8>)
    requires
        a != b,
    ensures
        less(a, b) || less(b, a),
    decreases a.len(),
{
    lemma_less_total_from(a, b, 0);
}

proof fn lemma_less_total_from(a: Seq<u8>, b: Seq<u8>, n: int)
    requires
        a != b,
        0 <= n <= a.len(),
        n <= b.len(),
        forall|i: int| 0 <= i < n ==> a[i] == b[i],
    ensures
        less(a, b) || less(b, a),
    decreases a.len() - n,
{
    if n == a.len() {
        if n == b.len() {
            assert(a =~= b);
        } else {
            assert(less_at(a, b, n));
        }
    } else if n == b.len() {
        assert(less_at(b, a, n));
    } else if a[n] < b[n] {
        assert(less_at(a, b, n));
    } else if b[n] < a[n] {
        assert(less_at(b, a, n));
    } else {
        lemma_less_total_from(a, b, n + 1);
    }
}

/// A database that can be listed holds finitely many entries.
pub proof fn law_listed_is_finite(contents: Contents, items: Seq<EntryModel>)
    requires
        is_scan(contents, Seq::empty(), items),
    ensures
        contents.dom().finite(),
{
    let keys = items.map_values(|item: EntryModel| item.0);
    vstd::seq_lib::seq_to_set_is_finite(keys);
    assert forall|key: Seq<u8>| contents.dom().contains(key) implies keys.to_set().contains(
        key,
    ) by {
        assert(Seq::<u8>::empty().is_prefix_of(key));
        assert(listed(items, key));
        let i = choose|i: int| 0 <= i < items.len() && (#[trigger] items[i]).0 == key;
        assert(keys[i] == key);
    }
    vstd::set_lib::lemma_len_subset(contents.dom(), keys.to_set());
}

/// There is one listing: two listings of the same entries agree.
pub proof fn lemma_scan_unique(
    contents: Contents,
    prefix: Seq<u8>,
    first: Seq<EntryModel>,
    second: Seq<EntryModel>,
)
    requires
        is_scan(contents, prefix, first),
        is_scan(contents, prefix, second),
    ensures
        first == second,
{
    lemma_scan_agrees(contents, prefix, first, second, first.len() as int);
    lemma_scan_agrees(contents, prefix, second, first, second.len() as int);
    assert(first =~= second);
}

/// The first `n` entries of one listing are the first `n` entries of the other.
proof fn lemma_scan_agrees(
    contents: Contents,
    prefix: Seq<u8>,
    first: Seq<EntryModel>,
    second: Seq<EntryModel>,
    n: int,
)
    requires
        is_scan(contents, prefix, first),
        is_scan(contents, prefix, second),
        0 <= n <= first.len(),
    ensures
        n <= second.len(),
        forall|i: int| 0 <= i < n ==> first[i] == second[i],
    decreases n,
{
    if n > 0 {
        let m = n - 1;
        lemma_scan_agrees(contents, prefix, first, second, m);
        let key = first[m].0;
        assert(listed(second, key));
        let j = choose|j: int| 0 <= j < second.len() && (#[trigger] second[j]).0 == key;
        if j < m {
            lemma_less_irreflexive(key);
            assert(less(first[j].0, first[m].0));
            assert(false);
        }
        if m < j {
            let other = second[m].0;
            assert(less(other, key));
            assert(listed(first, other));
            let i = choose|i: int| 0 <= i < first.len() && (#[trigger] first[i]).0 == other;
            if i < m {
                assert(less(second[i].0, second[m].0));
                lemma_less_irreflexive(other);
            } else if i == m {
                lemma_less_irreflexive(key);
            } else {
                assert(less(first[m].0, first[i].0));
                lemma_less_transitive(key, other, key);
                lemma_less_irreflexive(key);
            }
            assert(false);
        }
    }
}

} // verus!
