//! Laws of giving a value and its parts.
use crate::cdn::{
    advanced, may_find, met, parts, stepped, stream_from, stream_reply, Found, StreamModel,
};
use crate::data_access::{get_spec, requested_key, GetResultSuccess, ProstMessage};
use crate::error_handling::ErrorModel;
use crate::key_order::Contents;
use crate::pb::{CdnKeyValueModel, CdnMessageModel, CdnUid, CdnValue, GetResp};
use crate::wire::{field_one, message_in};
use vstd::prelude::*;
use vstd::utf8::encode_utf8;

verus! {

/// How far the giving of `root` has come when looking up the names, one after the other, had
/// the outcomes `founds`.
pub open spec fn progress(root: Seq<char>, founds: Seq<Found>) -> StreamModel
    decreases founds.len(),
{
    if founds.len() == 0 {
        stream_from(root)
    } else {
        let before = progress(root, founds.drop_last());
        if before.remaining.len() == 0 {
            before
        } else {
            advanced(before, founds.last())
        }
    }
}

/// The names that were looked up with the outcomes `founds`, in order.
pub open spec fn given(root: Seq<char>, founds: Seq<Found>) -> Seq<Seq<char>>
    decreases founds.len(),
{
    if founds.len() == 0 {
        Seq::empty()
    } else {
        let before = progress(root, founds.drop_last());
        let names = given(root, founds.drop_last());
        if before.remaining.len() == 0 {
            names
        } else {
            names.push(before.remaining[0])
        }
    }
}

/// The names that are met when `keys` are, and were not before, each once, in order.
pub open spec fn fresh(seen: Set<Seq<char>>, keys: Seq<Seq<char>>) -> Seq<Seq<char>>
    decreases keys.len(),
{
    if keys.len() == 0 {
        Seq::empty()
    } else {
        let before = fresh(seen, keys.drop_last());
        if seen.contains(keys.last()) || before.contains(keys.last()) {
            before
        } else {
            before.push(keys.last())
        }
    }
}

proof fn lemma_fresh(seen: Set<Seq<char>>, keys: Seq<Seq<char>>)
    ensures
        fresh(seen, keys).no_duplicates(),
        forall|key: Seq<char>|
            fresh(seen, keys).contains(key) <==> keys.contains(key) && !seen.contains(key),
    decreases keys.len(),
{
    if keys.len() > 0 {
        let rest = keys.drop_last();
        let before = fresh(seen, rest);
        lemma_fresh(seen, rest);
        let key = keys.last();
        assert(keys =~= rest.push(key));
        assert forall|k: Seq<char>| keys.contains(k) <==> rest.contains(k) || k == key by {
            if rest.contains(k) {
                let i = rest.index_of(k);
                assert(keys[i] == k);
            }
            assert(keys[keys.len() - 1] == key);
        }
        let pushed = before.push(key);
        assert forall|k: Seq<char>| pushed.contains(k) <==> before.contains(k) || k == key by {
            if before.contains(k) {
                let i = before.index_of(k);
                assert(pushed[i] == k);
            }
            assert(pushed[pushed.len() - 1] == key);
        }
    }
}

/// Meeting names appends the fresh ones.
proof fn lemma_met(stream: StreamModel, keys: Seq<Seq<char>>)
    ensures
        met(stream, keys).remaining == stream.remaining + fresh(stream.seen, keys),
        met(stream, keys).seen == stream.seen.union(fresh(stream.seen, keys).to_set()),
    decreases keys.len(),
{
    let new = fresh(stream.seen, keys);
    if keys.len() == 0 {
        assert(stream.remaining + new =~= stream.remaining);
        assert(stream.seen.union(new.to_set()) =~= stream.seen);
    } else {
        let rest = keys.drop_last();
        let before = fresh(stream.seen, rest);
        let key = keys.last();
        lemma_met(stream, rest);
        if met(stream, rest).seen.contains(key) {
            assert(new == before);
        } else {
            assert(new == before.push(key));
            assert(stream.remaining + new =~= (stream.remaining + before).push(key));
            assert forall|k: Seq<char>| new.contains(k) <==> before.contains(k) || k == key by {
                if before.contains(k) {
                    let i = before.index_of(k);
                    assert(new[i] == k);
                }
                assert(new[new.len() - 1] == key);
            }
            assert(stream.seen.union(new.to_set()) =~= stream.seen.union(before.to_set()).insert(
                key,
            ));
        }
    }
}

/// The names that were looked up and those that have still to be: the root, and then the names
/// that were met, each once.
proof fn lemma_order(root: Seq<char>, founds: Seq<Found>) -> (order: Seq<Seq<char>>)
    ensures
        given(root, founds) + progress(root, founds).remaining == seq![root] + order,
        order.no_duplicates(),
        order.to_set() == progress(root, founds).seen,
    decreases founds.len(),
{
    let now = progress(root, founds);
    if founds.len() == 0 {
        let order = Seq::<Seq<char>>::empty();
        assert(given(root, founds) + now.remaining =~= seq![root] + order);
        assert(order.to_set() =~= now.seen);
        order
    } else {
        let before = progress(root, founds.drop_last());
        let names = given(root, founds.drop_last());
        let order = lemma_order(root, founds.drop_last());
        if before.remaining.len() == 0 {
            order
        } else {
            let rest = StreamModel { seen: before.seen, remaining: before.remaining.skip(1) };
            let keys = parts(founds.last());
            let new = fresh(rest.seen, keys);
            lemma_met(rest, keys);
            lemma_fresh(rest.seen, keys);
            let longer = order + new;
            assert(names.push(before.remaining[0]) + before.remaining.skip(1) =~= names
                + before.remaining);
            assert(given(root, founds) + now.remaining =~= (names + before.remaining) + new);
            assert(given(root, founds) + now.remaining =~= seq![root] + longer);
            assert(longer.no_duplicates()) by {
                assert forall|i: int, j: int|
                    0 <= i < longer.len() && 0 <= j < longer.len() && i != j implies longer[i]
                    != longer[j] by {
                    if i < order.len() && j >= order.len() {
                        assert(order.to_set().contains(longer[i]));
                        assert(new.contains(longer[j]));
                    }
                    if j < order.len() && i >= order.len() {
                        assert(order.to_set().contains(longer[j]));
                        assert(new.contains(longer[i]));
                    }
                }
            }
            assert(longer.to_set() =~= now.seen) by {
                assert forall|k: Seq<char>| longer.contains(k) <==> order.contains(k)
                    || new.contains(k) by {
                    if order.contains(k) {
                        assert(longer[order.index_of(k)] == k);
                    }
                    if new.contains(k) {
                        assert(longer[order.len() + new.index_of(k)] == k);
                    }
                }
            }
            longer
        }
    }
}

/// Giving the next line is progress by one lookup: of the first of the remaining names.
pub proof fn law_line_is_progress<W>(
    contents: Contents,
    root: Seq<char>,
    founds: Seq<Found>,
    line: Option<Option<GetResp<CdnKeyValueModel, Seq<char>, ErrorModel>>>,
    next: StreamModel,
) -> (found: Found) where CdnValue: ProstMessage<W>
    requires
        progress(root, founds).remaining.len() > 0,
        stepped::<W>(contents, progress(root, founds), line, next),
    ensures
        may_find::<W>(contents, progress(root, founds).remaining[0], found),
        line == Some(Some(stream_reply(found))),
        next == progress(root, founds.push(found)),
        given(root, founds.push(found)) == given(root, founds).push(
            progress(root, founds).remaining[0],
        ),
{
    let stream = progress(root, founds);
    let found = choose|found: Found|
        {
            &&& #[trigger] may_find::<W>(contents, stream.remaining[0], found)
            &&& line == Some(Some(stream_reply(found)))
            &&& next == advanced(stream, found)
        };
    assert(founds.push(found).drop_last() =~= founds);
    found
}

/// The value that was asked for is given first.
pub proof fn law_root_first(root: Seq<char>, founds: Seq<Found>)
    requires
        founds.len() > 0,
    ensures
        given(root, founds).len() > 0,
        given(root, founds)[0] == root,
    decreases founds.len(),
{
    let first = founds.drop_last();
    if first.len() == 0 {
        assert(progress(root, first) == stream_from(root));
    } else {
        law_root_first(root, first);
    }
}

/// No name is given twice, but for the one that was asked for: it is given once more if it
/// comes up among the parts. This holds whatever is stored, also if it changes meanwhile, and
/// whether or not looking up fails.
pub proof fn law_given_once(root: Seq<char>, founds: Seq<Found>, i: int, j: int)
    requires
        0 <= i < j < given(root, founds).len(),
        given(root, founds)[i] == given(root, founds)[j],
    ensures
        i == 0,
        given(root, founds)[i] == root,
{
    let order = lemma_order(root, founds);
    let all = given(root, founds) + progress(root, founds).remaining;
    let line = seq![root] + order;
    assert(all == line);
    assert(j < line.len());
    assert(all[i] == given(root, founds)[i]);
    assert(all[j] == given(root, founds)[j]);
    assert(line[j] == order[j - 1]);
    if i > 0 {
        assert(line[i] == order[i - 1]);
    }
}

/// While something is left to give, every lookup was of a name of its own.
proof fn lemma_lively(root: Seq<char>, founds: Seq<Found>)
    ensures
        given(root, founds).len() <= founds.len(),
        progress(root, founds).remaining.len() > 0 ==> given(root, founds).len() == founds.len(),
    decreases founds.len(),
{
    if founds.len() > 0 {
        lemma_lively(root, founds.drop_last());
    }
}

/// Among `names`, whose parents are `parents`, is the name `part`, with a parent no later than
/// the one at `place`.
pub open spec fn brought_in(
    names: Seq<Seq<char>>,
    parents: Seq<int>,
    part: Seq<char>,
    place: int,
) -> bool {
    exists|i: int| 0 <= i < parents.len() && names[i + 1] == part && #[trigger] parents[i] <= place
}

/// The places of the parents of all names but the first: of the names whose values brought them
/// in.
pub open spec fn parents_of(root: Seq<char>, founds: Seq<Found>) -> Seq<int>
    decreases founds.len(),
{
    if founds.len() == 0 {
        Seq::empty()
    } else {
        let first = founds.drop_last();
        let before = progress(root, first);
        if before.remaining.len() == 0 {
            parents_of(root, first)
        } else {
            parents_of(root, first) + Seq::new(
                fresh(before.seen, parts(founds.last())).len(),
                |i: int| founds.len() - 1,
            )
        }
    }
}

/// The names that were given and those that have still to be.
pub open spec fn names_of(root: Seq<char>, founds: Seq<Found>) -> Seq<Seq<char>> {
    given(root, founds) + progress(root, founds).remaining
}

/// A lookup leaves the names as they were and adds the fresh parts.
proof fn lemma_names_grow(root: Seq<char>, founds: Seq<Found>)
    requires
        founds.len() > 0,
        progress(root, founds.drop_last()).remaining.len() > 0,
    ensures
        names_of(root, founds) == names_of(root, founds.drop_last()) + fresh(
            progress(root, founds.drop_last()).seen,
            parts(founds.last()),
        ),
        given(root, founds).len() == founds.len(),
{
    let first = founds.drop_last();
    let before = progress(root, first);
    let rest = StreamModel { seen: before.seen, remaining: before.remaining.skip(1) };
    lemma_met(rest, parts(founds.last()));
    lemma_lively(root, first);
    assert(given(root, first).push(before.remaining[0]) + before.remaining.skip(1) =~= names_of(
        root,
        first,
    ));
    assert(names_of(root, founds) =~= names_of(root, first) + fresh(
        before.seen,
        parts(founds.last()),
    ));
}

/// Names are given level by level: every name but the first is a part of the value under a name
/// before it, its parent, and the names come in the order of their parents.
pub proof fn law_level_by_level(root: Seq<char>, founds: Seq<Found>)
    ensures
        names_of(root, founds).len() == parents_of(root, founds).len() + 1,
        forall|i: int|
            #![trigger parents_of(root, founds)[i]]
            0 <= i < parents_of(root, founds).len() ==> {
                &&& 0 <= parents_of(root, founds)[i] <= i
                &&& parents_of(root, founds)[i] < given(root, founds).len()
                &&& parts(founds[parents_of(root, founds)[i]]).contains(
                    names_of(root, founds)[i + 1],
                )
            },
        forall|i: int, j: int|
            0 <= i <= j < parents_of(root, founds).len() ==> parents_of(root, founds)[i]
                <= parents_of(root, founds)[j],
    decreases founds.len(),
{
    if founds.len() > 0 {
        let first = founds.drop_last();
        let before = progress(root, first);
        let names = names_of(root, first);
        let parents = parents_of(root, first);
        law_level_by_level(root, first);
        lemma_lively(root, first);
        if before.remaining.len() == 0 {
            assert forall|i: int| #![trigger parents[i]] 0 <= i < parents.len() implies parts(
                founds[parents[i]],
            ).contains(names[i + 1]) by {
                assert(founds[parents[i]] == first[parents[i]]);
            }
        } else {
            let new = fresh(before.seen, parts(founds.last()));
            let longer = parents_of(root, founds);
            let all = names_of(root, founds);
            lemma_names_grow(root, founds);
            lemma_fresh(before.seen, parts(founds.last()));
            assert forall|i: int| #![trigger longer[i]] 0 <= i < longer.len() implies {
                &&& 0 <= longer[i] <= i
                &&& longer[i] < given(root, founds).len()
                &&& parts(founds[longer[i]]).contains(all[i + 1])
            } by {
                if i < parents.len() {
                    assert(longer[i] == parents[i]);
                    assert(founds[parents[i]] == first[parents[i]]);
                    assert(all[i + 1] == names[i + 1]);
                } else {
                    let part = new[i - parents.len()];
                    assert(all[i + 1] == part);
                    assert(new.contains(part));
                }
            }
        }
    }
}

/// The parts of a value that was looked up are all among the names, with this parent or one
/// before it.
pub proof fn law_parts_are_brought_in(
    root: Seq<char>,
    founds: Seq<Found>,
    place: int,
    part: Seq<char>,
)
    requires
        0 <= place < given(root, founds).len(),
        parts(founds[place]).contains(part),
    ensures
        brought_in(names_of(root, founds), parents_of(root, founds), part, place),
    decreases founds.len(),
{
    if founds.len() > 0 {
        let first = founds.drop_last();
        let before = progress(root, first);
        let names = names_of(root, first);
        let parents = parents_of(root, first);
        let longer = parents_of(root, founds);
        let all = names_of(root, founds);
        lemma_lively(root, first);
        law_level_by_level(root, first);
        if before.remaining.len() == 0 {
            assert(first[place] == founds[place]);
            law_parts_are_brought_in(root, first, place, part);
        } else {
            lemma_names_grow(root, founds);
            if place < founds.len() - 1 {
                assert(first[place] == founds[place]);
                law_parts_are_brought_in(root, first, place, part);
                let i = choose|i: int|
                    0 <= i < parents.len() && names[i + 1] == part && #[trigger] parents[i]
                        <= place;
                assert(longer[i] == parents[i]);
                assert(all[i + 1] == part);
            } else if before.seen.contains(part) {
                let order = lemma_order(root, first);
                assert(order.contains(part));
                let i = order.index_of(part);
                assert((seq![root] + order)[i + 1] == part);
                assert(names[i + 1] == part);
                assert(longer[i] == parents[i]);
                assert(all[i + 1] == part);
            } else {
                let new = fresh(before.seen, parts(founds.last()));
                lemma_fresh(before.seen, parts(founds.last()));
                assert(new.contains(part));
                let i = new.index_of(part);
                assert(all[parents.len() + i + 1] == part);
                assert(longer[parents.len() + i] == founds.len() - 1);
            }
        }
    }
}

/// The parts that a value brings in come in the order in which it names them: `places` are
/// their places among its parts.
pub proof fn law_parts_in_order(seen: Set<Seq<char>>, keys: Seq<Seq<char>>) -> (places: Seq<int>)
    ensures
        places.len() == fresh(seen, keys).len(),
        forall|i: int|
            #![trigger places[i]]
            0 <= i < places.len() ==> {
                &&& 0 <= places[i] < keys.len()
                &&& keys[places[i]] == fresh(seen, keys)[i]
            },
        forall|i: int, j: int| 0 <= i < j < places.len() ==> places[i] < places[j],
    decreases keys.len(),
{
    if keys.len() == 0 {
        Seq::empty()
    } else {
        let rest = keys.drop_last();
        let before = fresh(seen, rest);
        let places = law_parts_in_order(seen, rest);
        assert forall|i: int| #![trigger places[i]] 0 <= i < places.len() implies keys[places[i]]
            == before[i] by {
            assert(rest[places[i]] == keys[places[i]]);
        }
        if seen.contains(keys.last()) || before.contains(keys.last()) {
            places
        } else {
            places.push(keys.len() - 1)
        }
    }
}

/// The next line brings in the parts that were not met before, behind all that remain.
pub proof fn law_parts_queue_up(stream: StreamModel, found: Found)
    requires
        stream.remaining.len() > 0,
    ensures
        advanced(stream, found).remaining == stream.remaining.skip(1) + fresh(
            stream.seen,
            parts(found),
        ),
        advanced(stream, found).seen == stream.seen.union(
            fresh(stream.seen, parts(found)).to_set(),
        ),
{
    lemma_met(
        StreamModel { seen: stream.seen, remaining: stream.remaining.skip(1) },
        parts(found),
    );
}

/// The parts of the value under `key`.
pub open spec fn parts_of<W>(contents: Contents, key: Seq<char>) -> Seq<Seq<char>> where
    CdnValue: ProstMessage<W>,
 {
    parts(get_spec::<W, CdnUid, CdnValue>(contents, Some(key)))
}

/// The parts of a batch are exactly the names in it, all of them and in their order, whatever the
/// name of the batch; nothing else has parts.
pub proof fn law_parts_are_the_batch(uid: Seq<char>, uids: Seq<Seq<char>>, found: Found)
    ensures
        parts(Ok(GetResultSuccess::Success(uid, Some(CdnMessageModel::Batch(uids))))) == uids,
        parts(found).len() > 0 ==> {
            &&& found matches Ok(GetResultSuccess::Success(_, Some(CdnMessageModel::Batch(names))))
            &&& parts(found) == names
        },
{
}

/// The parts of the value under a name are exactly the names in what is stored there, if it reads
/// as a batch, all of them and in their order; a name that is not in use has no parts, and
/// neither has one under which anything else is stored.
pub proof fn law_parts_of_what_is_stored<W>(contents: Contents, key: Seq<char>) where
    CdnValue: ProstMessage<W>,

    ensures
        ({
            let bytes = field_one(encode_utf8(key));
            let read = <CdnValue as ProstMessage<W>>::decoding(contents[bytes]);
            &&& contents.contains_key(bytes) ==> (read matches Ok(
                Some(CdnMessageModel::Batch(uids)),
            ) ==> parts_of::<W>(contents, key) == uids)
            &&& parts_of::<W>(contents, key).len() > 0 ==> {
                &&& contents.contains_key(bytes)
                &&& read matches Ok(Some(CdnMessageModel::Batch(_)))
            }
        }),
{
}

/// `founds` are the outcomes of looking up in `contents`.
pub open spec fn faithful<W>(contents: Contents, root: Seq<char>, founds: Seq<Found>) -> bool where
    CdnValue: ProstMessage<W>,

    decreases founds.len(),
{
    founds.len() > 0 ==> {
        let before = progress(root, founds.drop_last());
        &&& faithful::<W>(contents, root, founds.drop_last())
        &&& before.remaining.len() > 0
        &&& founds.last() == get_spec::<W, CdnUid, CdnValue>(contents, Some(before.remaining[0]))
    }
}

/// `path` leads from `root`, part by part.
pub open spec fn is_path<W>(contents: Contents, root: Seq<char>, path: Seq<Seq<char>>) -> bool where
    CdnValue: ProstMessage<W>,
 {
    &&& path.len() > 0
    &&& path[0] == root
    &&& forall|i: int|
        0 <= i < path.len() - 1 ==> parts_of::<W>(contents, #[trigger] path[i]).contains(
            path[i + 1],
        )
}

/// `key` is `root`, or a part of it, or a part of a part, and so on.
pub open spec fn is_part<W>(contents: Contents, root: Seq<char>, key: Seq<char>) -> bool where
    CdnValue: ProstMessage<W>,
 {
    exists|path: Seq<Seq<char>>| #[trigger] is_path::<W>(contents, root, path) && path.last() == key
}

proof fn lemma_part_of_part<W>(
    contents: Contents,
    root: Seq<char>,
    key: Seq<char>,
    part: Seq<char>,
) where CdnValue: ProstMessage<W>
    requires
        is_part::<W>(contents, root, key),
        parts_of::<W>(contents, key).contains(part),
    ensures
        is_part::<W>(contents, root, part),
{
    let path = choose|path: Seq<Seq<char>>| #[trigger]
        is_path::<W>(contents, root, path) && path.last() == key;
    let longer = path.push(part);
    assert forall|i: int| 0 <= i < longer.len() - 1 implies parts_of::<W>(
        contents,
        #[trigger] longer[i],
    ).contains(longer[i + 1]) by {
        if i < path.len() - 1 {
            assert(longer[i] == path[i]);
            assert(longer[i + 1] == path[i + 1]);
        }
    }
    assert(is_path::<W>(contents, root, longer));
}

/// Every name that was looked up or has still to be is a part, and the parts of a value that
/// was looked up were met.
proof fn lemma_parts<W>(contents: Contents, root: Seq<char>, founds: Seq<Found>) where
    CdnValue: ProstMessage<W>,

    requires
        faithful::<W>(contents, root, founds),
    ensures
        forall|k: int|
            #![trigger given(root, founds)[k]]
            0 <= k < given(root, founds).len() ==> {
                &&& is_part::<W>(contents, root, given(root, founds)[k])
                &&& forall|part: Seq<char>|
                    parts_of::<W>(contents, given(root, founds)[k]).contains(part)
                        ==> #[trigger] progress(root, founds).seen.contains(part)
            },
        forall|k: int|
            #![trigger progress(root, founds).remaining[k]]
            0 <= k < progress(root, founds).remaining.len() ==> is_part::<W>(
                contents,
                root,
                progress(root, founds).remaining[k],
            ),
    decreases founds.len(),
{
    let now = progress(root, founds);
    let names = given(root, founds);
    if founds.len() == 0 {
        let path = seq![root];
        assert(is_path::<W>(contents, root, path));
        assert(path.last() == root);
    } else {
        let first = founds.drop_last();
        let before = progress(root, first);
        lemma_parts::<W>(contents, root, first);
        let key = before.remaining[0];
        let rest = StreamModel { seen: before.seen, remaining: before.remaining.skip(1) };
        let keys = parts(founds.last());
        let new = fresh(rest.seen, keys);
        lemma_met(rest, keys);
        lemma_fresh(rest.seen, keys);
        assert(is_part::<W>(contents, root, key));
        assert(keys == parts_of::<W>(contents, key));
        assert forall|k: int|
            #![trigger names[k]]
            0 <= k < names.len() implies {
            &&& is_part::<W>(contents, root, names[k])
            &&& forall|part: Seq<char>|
                parts_of::<W>(contents, names[k]).contains(part) ==> #[trigger] now.seen.contains(
                    part,
                )
        } by {
            if k < names.len() - 1 {
                assert(names[k] == given(root, first)[k]);
                assert forall|part: Seq<char>|
                    parts_of::<W>(contents, names[k]).contains(part) implies #[trigger] now.seen.contains(
                    part,
                ) by {
                    assert(before.seen.contains(part));
                }
            } else {
                assert(names[k] == key);
                assert forall|part: Seq<char>|
                    parts_of::<W>(contents, names[k]).contains(part) implies #[trigger] now.seen.contains(
                    part,
                ) by {
                    if !before.seen.contains(part) {
                        assert(new.contains(part));
                    }
                }
            }
        }
        assert forall|k: int|
            #![trigger now.remaining[k]]
            0 <= k < now.remaining.len() implies is_part::<W>(
            contents,
            root,
            now.remaining[k],
        ) by {
            if k < rest.remaining.len() {
                assert(now.remaining[k] == before.remaining[k + 1]);
            } else {
                let part = new[k - rest.remaining.len()];
                assert(now.remaining[k] == part);
                assert(new.contains(part));
                lemma_part_of_part::<W>(contents, root, key, part);
            }
        }
    }
}

/// Only the value that was asked for and its parts are given.
pub proof fn law_only_parts_given<W>(
    contents: Contents,
    root: Seq<char>,
    founds: Seq<Found>,
    k: int,
) where CdnValue: ProstMessage<W>
    requires
        faithful::<W>(contents, root, founds),
        0 <= k < given(root, founds).len(),
    ensures
        is_part::<W>(contents, root, given(root, founds)[k]),
{
    lemma_parts::<W>(contents, root, founds);
}

/// When nothing is left to give, the value that was asked for and all its parts were given.
pub proof fn law_all_parts_given<W>(
    contents: Contents,
    root: Seq<char>,
    founds: Seq<Found>,
    key: Seq<char>,
) where CdnValue: ProstMessage<W>
    requires
        faithful::<W>(contents, root, founds),
        progress(root, founds).remaining.len() == 0,
        is_part::<W>(contents, root, key),
    ensures
        given(root, founds).contains(key),
{
    let path = choose|path: Seq<Seq<char>>| #[trigger]
        is_path::<W>(contents, root, path) && path.last() == key;
    lemma_path_given::<W>(contents, root, founds, path, path.len() - 1);
}

proof fn lemma_path_given<W>(
    contents: Contents,
    root: Seq<char>,
    founds: Seq<Found>,
    path: Seq<Seq<char>>,
    n: int,
) where CdnValue: ProstMessage<W>
    requires
        faithful::<W>(contents, root, founds),
        progress(root, founds).remaining.len() == 0,
        is_path::<W>(contents, root, path),
        0 <= n < path.len(),
    ensures
        given(root, founds).contains(path[n]),
    decreases n,
{
    let names = given(root, founds);
    let now = progress(root, founds);
    let order = lemma_order(root, founds);
    assert(names =~= names + now.remaining);
    if n == 0 {
        assert((seq![root] + order)[0] == root);
        assert(names[0] == root);
    } else {
        lemma_path_given::<W>(contents, root, founds, path, n - 1);
        lemma_parts::<W>(contents, root, founds);
        let k = names.index_of(path[n - 1]);
        assert(names[k] == path[n - 1]);
        assert(parts_of::<W>(contents, path[n - 1]).contains(path[n]));
        assert(now.seen.contains(path[n]));
        assert(order.contains(path[n]));
        let i = order.index_of(path[n]);
        assert((seq![root] + order)[i + 1] == path[n]);
        assert(names[i + 1] == path[n]);
    }
}

/// The outcomes of the first `n` lookups in `contents`, or of all.
pub open spec fn outcomes<W>(contents: Contents, root: Seq<char>, n: nat) -> Seq<Found> where
    CdnValue: ProstMessage<W>,

    decreases n,
{
    if n == 0 {
        Seq::empty()
    } else {
        let before = outcomes::<W>(contents, root, (n - 1) as nat);
        let stream = progress(root, before);
        if stream.remaining.len() == 0 {
            before
        } else {
            before.push(get_spec::<W, CdnUid, CdnValue>(contents, Some(stream.remaining[0])))
        }
    }
}

/// The parts that the stored bytes `value` name.
pub open spec fn parts_in<W>(value: Seq<u8>) -> Seq<Seq<char>> where CdnValue: ProstMessage<W> {
    match message_in::<W, CdnValue>(value) {
        Ok(Some(CdnMessageModel::Batch(uids))) => uids,
        _ => Seq::empty(),
    }
}

/// The names that values of `contents` name as their parts.
pub open spec fn named<W>(contents: Contents) -> Set<Seq<char>> where CdnValue: ProstMessage<W> {
    Set::new(
        |part: Seq<char>|
            exists|key: Seq<u8>| #[trigger]
                contents.contains_key(key) && parts_in::<W>(contents[key]).contains(part),
    )
}

proof fn lemma_named_finite<W>(contents: Contents) where CdnValue: ProstMessage<W>
    requires
        contents.dom().finite(),
    ensures
        named::<W>(contents).finite(),
    decreases contents.dom().len(),
{
    if contents.dom().len() == 0 {
        assert(named::<W>(contents) =~= Set::empty()) by {
            assert forall|part: Seq<char>| !named::<W>(contents).contains(part) by {
                if named::<W>(contents).contains(part) {
                    let key = choose|key: Seq<u8>| #[trigger]
                        contents.contains_key(key) && parts_in::<W>(contents[key]).contains(part);
                    assert(contents.dom().contains(key));
                }
            }
        }
    } else {
        let key = contents.dom().choose();
        let rest = contents.remove(key);
        lemma_named_finite::<W>(rest);
        let of_key = parts_in::<W>(contents[key]);
        vstd::seq_lib::seq_to_set_is_finite(of_key);
        let bound = named::<W>(rest).union(of_key.to_set());
        assert forall|part: Seq<char>| named::<W>(contents).contains(part) implies bound.contains(
            part,
        ) by {
            let k = choose|k: Seq<u8>| #[trigger]
                contents.contains_key(k) && parts_in::<W>(contents[k]).contains(part);
            if k != key {
                assert(rest.contains_key(k));
                assert(rest[k] == contents[k]);
            }
        }
        vstd::set_lib::lemma_len_subset(named::<W>(contents), bound);
    }
}

/// Every name that was met is named in the database, and as many names were looked up as there
/// were lookups.
proof fn lemma_seen_named<W>(contents: Contents, root: Seq<char>, founds: Seq<Found>) where
    CdnValue: ProstMessage<W>,

    requires
        faithful::<W>(contents, root, founds),
    ensures
        progress(root, founds).seen.subset_of(named::<W>(contents)),
        given(root, founds).len() == founds.len(),
    decreases founds.len(),
{
    if founds.len() > 0 {
        let first = founds.drop_last();
        let before = progress(root, first);
        lemma_seen_named::<W>(contents, root, first);
        let key = before.remaining[0];
        let rest = StreamModel { seen: before.seen, remaining: before.remaining.skip(1) };
        let keys = parts(founds.last());
        lemma_met(rest, keys);
        lemma_fresh(rest.seen, keys);
        assert forall|part: Seq<char>| progress(root, founds).seen.contains(part) implies named::<
            W,
        >(contents).contains(part) by {
            if !before.seen.contains(part) {
                assert(fresh(rest.seen, keys).contains(part));
                assert(keys.contains(part));
                let bytes = requested_key::<CdnUid>(Some(key))->Ok_0;
                assert(contents.contains_key(bytes));
                assert(keys == parts_in::<W>(contents[bytes]));
            }
        }
    }
}

proof fn lemma_outcomes<W>(contents: Contents, root: Seq<char>, n: nat) where
    CdnValue: ProstMessage<W>,

    ensures
        faithful::<W>(contents, root, outcomes::<W>(contents, root, n)),
        progress(root, outcomes::<W>(contents, root, n)).remaining.len() > 0 ==> outcomes::<W>(
            contents,
            root,
            n,
        ).len() == n,
    decreases n,
{
    if n > 0 {
        let before = outcomes::<W>(contents, root, (n - 1) as nat);
        lemma_outcomes::<W>(contents, root, (n - 1) as nat);
        let now = outcomes::<W>(contents, root, n);
        if progress(root, before).remaining.len() > 0 {
            assert(now.drop_last() =~= before);
        }
    }
}

/// The giving ends: after as many lines as there are names of parts in the database, and one
/// more, nothing is left. A store holds finitely many entries, since it can be listed: see
/// [`crate::key_order::law_listed_is_finite`].
pub proof fn law_giving_ends<W>(contents: Contents, root: Seq<char>) where CdnValue: ProstMessage<W>
    requires
        contents.dom().finite(),
    ensures
        ({
            let founds = outcomes::<W>(contents, root, named::<W>(contents).len() + 1);
            &&& faithful::<W>(contents, root, founds)
            &&& progress(root, founds).remaining.len() == 0
        }),
{
    let n = named::<W>(contents).len() + 1;
    let founds = outcomes::<W>(contents, root, n);
    lemma_named_finite::<W>(contents);
    lemma_outcomes::<W>(contents, root, n);
    lemma_seen_named::<W>(contents, root, founds);
    let now = progress(root, founds);
    let order = lemma_order(root, founds);
    order.unique_seq_to_set();
    vstd::set_lib::lemma_len_subset(now.seen, named::<W>(contents));
    assert((given(root, founds) + now.remaining).len() == (seq![root] + order).len());
}

/// `key` is `root`, or can be come to from it by following parts at most `n` times.
pub open spec fn within<W>(
    contents: Contents,
    root: Seq<char>,
    key: Seq<char>,
    n: nat,
) -> bool where CdnValue: ProstMessage<W> {
    exists|path: Seq<Seq<char>>| #[trigger]
        is_path::<W>(contents, root, path) && path.last() == key && path.len() <= n + 1
}

/// How many parents the name at place `i` has one above the other.
spec fn depth(parents: Seq<int>, i: int) -> nat
    decreases i,
{
    if i <= 0 || !(0 <= parents[i - 1] < i) {
        0
    } else {
        depth(parents, parents[i - 1]) + 1
    }
}

/// Every name has a parent before it, and the names come in the order of their parents.
spec fn in_levels(parents: Seq<int>) -> bool {
    &&& forall|i: int| #![trigger parents[i]] 0 <= i < parents.len() ==> 0 <= parents[i] <= i
    &&& forall|i: int, j: int| 0 <= i <= j < parents.len() ==> parents[i] <= parents[j]
}

proof fn lemma_depth_monotone(parents: Seq<int>, i: int, j: int)
    requires
        in_levels(parents),
        0 <= i <= j <= parents.len(),
    ensures
        depth(parents, i) <= depth(parents, j),
    decreases j,
{
    if i > 0 {
        assert(0 <= parents[i - 1] <= i - 1);
        assert(0 <= parents[j - 1] <= j - 1);
        lemma_depth_monotone(parents, parents[i - 1], parents[j - 1]);
    }
}

/// The outcomes are those of looking up the names that were given.
proof fn lemma_found_at<W>(
    contents: Contents,
    root: Seq<char>,
    founds: Seq<Found>,
    place: int,
) where CdnValue: ProstMessage<W>
    requires
        faithful::<W>(contents, root, founds),
        0 <= place < given(root, founds).len(),
    ensures
        place < founds.len(),
        founds[place] == get_spec::<W, CdnUid, CdnValue>(
            contents,
            Some(given(root, founds)[place]),
        ),
    decreases founds.len(),
{
    if founds.len() > 0 {
        let first = founds.drop_last();
        lemma_seen_named::<W>(contents, root, first);
        if place < given(root, first).len() {
            lemma_found_at::<W>(contents, root, first, place);
            assert(founds[place] == first[place]);
        }
    }
}

/// A name that was given can be come to by following parts as often as it has parents.
proof fn lemma_depth_is_enough<W>(
    contents: Contents,
    root: Seq<char>,
    founds: Seq<Found>,
    i: int,
) where CdnValue: ProstMessage<W>
    requires
        faithful::<W>(contents, root, founds),
        0 <= i < given(root, founds).len(),
    ensures
        within::<W>(
            contents,
            root,
            given(root, founds)[i],
            depth(parents_of(root, founds), i),
        ),
    decreases i,
{
    let names = given(root, founds);
    let parents = parents_of(root, founds);
    lemma_lively(root, founds);
    law_level_by_level(root, founds);
    if i == 0 {
        law_root_first(root, founds);
        let path = seq![root];
        assert(is_path::<W>(contents, root, path));
        assert(path.last() == names[0]);
    } else {
        let p = parents[i - 1];
        assert(0 <= p <= i - 1);
        assert(names_of(root, founds)[i] == names[i]);
        lemma_depth_is_enough::<W>(contents, root, founds, p);
        lemma_found_at::<W>(contents, root, founds, p);
        let path = choose|path: Seq<Seq<char>>| #[trigger]
            is_path::<W>(contents, root, path) && path.last() == names[p] && path.len() <= depth(
                parents,
                p,
            ) + 1;
        let longer = path.push(names[i]);
        assert forall|k: int| 0 <= k < longer.len() - 1 implies parts_of::<W>(
            contents,
            #[trigger] longer[k],
        ).contains(longer[k + 1]) by {
            if k < path.len() - 1 {
                assert(longer[k] == path[k]);
                assert(longer[k + 1] == path[k + 1]);
            }
        }
        assert(is_path::<W>(contents, root, longer));
        assert(longer.last() == names[i]);
    }
}

/// Following a path, one comes after `t` parts to a name that has at most `t` parents; or no
/// name that was given has more.
proof fn lemma_along_a_path<W>(
    contents: Contents,
    root: Seq<char>,
    founds: Seq<Found>,
    path: Seq<Seq<char>>,
    t: int,
) where CdnValue: ProstMessage<W>
    requires
        faithful::<W>(contents, root, founds),
        given(root, founds).len() > 0,
        is_path::<W>(contents, root, path),
        0 <= t < path.len(),
    ensures
        (exists|q: int|
            0 <= q < given(root, founds).len() && #[trigger] given(root, founds)[q] == path[t]
                && depth(parents_of(root, founds), q) <= t) || (forall|q: int|
            0 <= q < given(root, founds).len() ==> #[trigger] depth(parents_of(root, founds), q)
                <= t),
    decreases t,
{
    let names = given(root, founds);
    let all = names_of(root, founds);
    let parents = parents_of(root, founds);
    lemma_lively(root, founds);
    law_level_by_level(root, founds);
    if t == 0 {
        law_root_first(root, founds);
        assert(names[0] == path[0]);
        assert(depth(parents, 0) == 0);
    } else {
        lemma_along_a_path::<W>(contents, root, founds, path, t - 1);
        if exists|q: int|
            0 <= q < names.len() && #[trigger] names[q] == path[t - 1] && depth(parents, q) <= t
                - 1 {
            let q = choose|q: int|
                0 <= q < names.len() && #[trigger] names[q] == path[t - 1] && depth(parents, q)
                    <= t - 1;
            lemma_found_at::<W>(contents, root, founds, q);
            assert(parts_of::<W>(contents, path[t - 1]).contains(path[t - 1 + 1]));
            assert(parts(founds[q]).contains(path[t]));
            law_parts_are_brought_in(root, founds, q, path[t]);
            let k = choose|k: int|
                0 <= k < parents.len() && all[k + 1] == path[t] && #[trigger] parents[k] <= q;
            lemma_depth_monotone(parents, parents[k], q);
            assert(depth(parents, k + 1) <= t);
            if k + 1 < names.len() {
                assert(names[k + 1] == path[t]);
            } else {
                assert forall|r: int| 0 <= r < names.len() implies #[trigger] depth(parents, r)
                    <= t by {
                    lemma_depth_monotone(parents, r, k + 1);
                }
            }
        }
    }
}

/// What is nearer is given first: a name that was given before another, other than the one that was
/// asked for, can be come to by following parts no more often than that one.
pub proof fn law_nearest_first<W>(
    contents: Contents,
    root: Seq<char>,
    founds: Seq<Found>,
    i: int,
    j: int,
    n: nat,
) where CdnValue: ProstMessage<W>
    requires
        faithful::<W>(contents, root, founds),
        0 <= i < j < given(root, founds).len(),
        given(root, founds)[j] != root,
        within::<W>(contents, root, given(root, founds)[j], n),
    ensures
        within::<W>(contents, root, given(root, founds)[i], n),
{
    let names = given(root, founds);
    let parents = parents_of(root, founds);
    law_level_by_level(root, founds);
    assert(in_levels(parents));
    let path = choose|path: Seq<Seq<char>>| #[trigger]
        is_path::<W>(contents, root, path) && path.last() == names[j] && path.len() <= n + 1;
    let last = path.len() - 1;
    lemma_along_a_path::<W>(contents, root, founds, path, last);
    if exists|q: int|
        0 <= q < names.len() && #[trigger] names[q] == path[last] && depth(parents, q) <= last {
        let q = choose|q: int|
            0 <= q < names.len() && #[trigger] names[q] == path[last] && depth(parents, q) <= last;
        if q < j {
            law_given_once(root, founds, q, j);
        } else if j < q {
            law_given_once(root, founds, j, q);
        }
    }
    assert(depth(parents, j) <= n);
    lemma_depth_monotone(parents, i, j);
    lemma_depth_is_enough::<W>(contents, root, founds, i);
    let short = choose|path: Seq<Seq<char>>| #[trigger]
        is_path::<W>(contents, root, path) && path.last() == names[i] && path.len() <= depth(
            parents,
            i,
        ) + 1;
    assert(short.len() <= n + 1);
}

/// The value under some part of `root`, or under `root`, names `part`.
pub open spec fn is_named_below<W>(
    contents: Contents,
    root: Seq<char>,
    part: Seq<char>,
) -> bool where CdnValue: ProstMessage<W> {
    exists|key: Seq<char>|
        is_part::<W>(contents, root, key) && #[trigger] parts_of::<W>(contents, key).contains(part)
}

/// When nothing is left to give, the names that were met are those that the value that was asked
/// for and its parts name.
proof fn lemma_met_are_named<W>(
    contents: Contents,
    root: Seq<char>,
    founds: Seq<Found>,
    part: Seq<char>,
) where CdnValue: ProstMessage<W>
    requires
        faithful::<W>(contents, root, founds),
        progress(root, founds).remaining.len() == 0,
    ensures
        progress(root, founds).seen.contains(part) <==> is_named_below::<W>(contents, root, part),
{
    let names = given(root, founds);
    let now = progress(root, founds);
    lemma_parts::<W>(contents, root, founds);
    if now.seen.contains(part) {
        let order = lemma_order(root, founds);
        let parents = parents_of(root, founds);
        let all = names_of(root, founds);
        law_level_by_level(root, founds);
        assert(order.contains(part));
        let i = order.index_of(part);
        assert((seq![root] + order)[i + 1] == part);
        assert(all[i + 1] == part);
        let p = parents[i];
        lemma_found_at::<W>(contents, root, founds, p);
        assert(is_part::<W>(contents, root, names[p]));
        assert(parts_of::<W>(contents, names[p]).contains(part));
    }
    if is_named_below::<W>(contents, root, part) {
        let key = choose|key: Seq<char>|
            is_part::<W>(contents, root, key) && #[trigger] parts_of::<W>(contents, key).contains(
                part,
            );
        law_all_parts_given::<W>(contents, root, founds, key);
        let k = names.index_of(key);
        assert(names[k] == key);
    }
}

/// The value that was asked for is given twice exactly if it, or a part of it, names it as a
/// part.
pub proof fn law_root_twice<W>(contents: Contents, root: Seq<char>, founds: Seq<Found>) where
    CdnValue: ProstMessage<W>,

    requires
        faithful::<W>(contents, root, founds),
        progress(root, founds).remaining.len() == 0,
    ensures
        (exists|i: int| 0 < i < given(root, founds).len() && #[trigger] given(root, founds)[i] == root)
            <==> is_named_below::<W>(contents, root, root),
{
    let names = given(root, founds);
    let now = progress(root, founds);
    let order = lemma_order(root, founds);
    lemma_met_are_named::<W>(contents, root, founds, root);
    assert(names + now.remaining =~= names);
    let line = seq![root] + order;
    assert(names == line);
    if exists|i: int| 0 < i < names.len() && #[trigger] names[i] == root {
        let i = choose|i: int| 0 < i < names.len() && #[trigger] names[i] == root;
        assert(order[i - 1] == line[i]);
        assert(order.contains(root));
    }
    if now.seen.contains(root) {
        assert(order.contains(root));
        let i = order.index_of(root);
        assert(line[i + 1] == root);
        assert(names[i + 1] == root);
    }
}

/// When nothing is left to give, as many lines were given as names are named below the value that
/// was asked for, and one more.
pub proof fn law_lines_counted<W>(contents: Contents, root: Seq<char>, founds: Seq<Found>) where
    CdnValue: ProstMessage<W>,

    requires
        faithful::<W>(contents, root, founds),
        progress(root, founds).remaining.len() == 0,
    ensures
        ({
            let below = Set::new(|part: Seq<char>| is_named_below::<W>(contents, root, part));
            below.finite() && given(root, founds).len() == below.len() + 1
        }),
{
    let below = Set::new(|part: Seq<char>| is_named_below::<W>(contents, root, part));
    let now = progress(root, founds);
    let order = lemma_order(root, founds);
    assert forall|part: Seq<char>| below.contains(part) <==> now.seen.contains(part) by {
        lemma_met_are_named::<W>(contents, root, founds, part);
    }
    assert(below =~= order.to_set());
    vstd::seq_lib::seq_to_set_is_finite(order);
    order.unique_seq_to_set();
    assert((given(root, founds) + now.remaining).len() == (seq![root] + order).len());
}

} // verus!
