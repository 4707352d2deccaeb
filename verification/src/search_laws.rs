//! Laws of searching the data tree.
use crate::data_access::{
    contains_spec, get_spec, is_page, storage_failed, GetResultSuccess, KeyString, ProstMessage,
    StepModel, Uid,
};
use crate::data_tree::{
    are_lines, bare_key, is_search_answer, matches_of, search_line, search_window, searched,
    SearchAnswer,
};
use crate::error_handling::{is_storage_error, ErrorModel};
use crate::key_laws::{law_text_prefix, law_text_round_trip};
use crate::key_order::{lemma_less_irreflexive, less, listed, Contents, EntryModel};
use crate::laws::only_texts;
use crate::page_laws::{
    clip, law_page_members, law_page_order, law_pages_in_order, law_smooth_page, page_of, pages,
    smooth,
};
use crate::pb::{
    KvEntry, SearchRequestModel, SearchResp, SearchResponse, SearchResponseItemModel,
};
use crate::wire::message_in;
use vstd::prelude::*;
use vstd::utf8::{decode_utf8_encode_utf8, encode_utf8};

verus! {

/// A line of the answer to a search.
pub type Line = SearchResp<SearchResponseItemModel, ErrorModel>;

/// The line of an answer says `line`.
pub open spec fn says(response: SearchResponse, line: Line) -> bool {
    response.deep_view() == Some(line)
}

/// No step of a search failed, neither on the way to the page nor on it.
pub open spec fn undisturbed(answer: SearchAnswer) -> bool {
    &&& answer.missed@.len() == 0
    &&& forall|i: int|
        0 <= i < answer.lines@.len() ==> !((#[trigger] answer.lines@[i]).deep_view() matches Some(
            SearchResp::KeyError(e),
        ) && is_storage_error(e))
}

/// The lines that a search for `asked` gives for `entries`.
pub open spec fn lines_for<W>(asked: SearchRequestModel, entries: Seq<EntryModel>) -> Seq<
    Line,
> where KvEntry: ProstMessage<W> {
    entries.map_values(
        |entry: EntryModel|
            search_line::<W>(Ok(entry), asked.return_value, asked.return_metadata),
    )
}

/// `lines` say what a search for `asked` gives for `entries`, one by one.
pub open spec fn say<W>(
    asked: SearchRequestModel,
    entries: Seq<EntryModel>,
    lines: Seq<SearchResponse>,
) -> bool where KvEntry: ProstMessage<W> {
    &&& lines.len() == entries.len()
    &&& forall|i: int|
        0 <= i < lines.len() ==> says(#[trigger] lines[i], lines_for::<W>(asked, entries)[i])
}

/// The page that the lines of an answer are of.
proof fn lemma_search_page<W>(
    contents: Contents,
    asked: SearchRequestModel,
    answer: SearchAnswer,
) -> (page: Seq<StepModel>) where KvEntry: ProstMessage<W>
    requires
        is_search_answer::<W>(contents, asked, answer),
    ensures
        is_page(
            matches_of(contents, asked.key_prefix),
            search_window(asked).0,
            search_window(asked).1,
            answer.missed@.len(),
            page,
        ),
        are_lines::<W>(asked, page, answer.lines@),
        undisturbed(answer) ==> smooth(page),
{
    let page = choose|page: Seq<StepModel>| #[trigger]
        are_lines::<W>(asked, page, answer.lines@) && is_page(
            matches_of(contents, asked.key_prefix),
            search_window(asked).0,
            search_window(asked).1,
            answer.missed@.len(),
            page,
        );
    if undisturbed(answer) {
        assert forall|i: int| 0 <= i < page.len() implies (#[trigger] page[i]) is Ok by {
            assert(answer.lines@[i].deep_view() == Some(
                search_line::<W>(page[i], asked.return_value, asked.return_metadata),
            ));
            if page[i] is Err {
                assert(storage_failed(page[i]));
            }
        }
    }
    page
}

/// A search that was not disturbed gives a line for each entry on the page that was asked for, in
/// order, and no others: on page `page` those ranked from `page * page_size` on.
pub proof fn law_search_gives_the_page<W>(
    contents: Contents,
    asked: SearchRequestModel,
    answer: SearchAnswer,
) where KvEntry: ProstMessage<W>
    requires
        is_search_answer::<W>(contents, asked, answer),
        undisturbed(answer),
    ensures
        say::<W>(
            asked,
            page_of(
                matches_of(contents, asked.key_prefix),
                asked.page as nat,
                asked.page_size as nat,
            ),
            answer.lines@,
        ),
{
    let entries = matches_of(contents, asked.key_prefix);
    let page = lemma_search_page::<W>(contents, asked, answer);
    law_smooth_page(entries, asked.page as nat, asked.page_size as nat, page);
    let wanted = page_of(entries, asked.page as nat, asked.page_size as nat);
    assert forall|i: int| 0 <= i < answer.lines@.len() implies says(
        #[trigger] answer.lines@[i],
        lines_for::<W>(asked, wanted)[i],
    ) by {
        assert(page[i] == Ok::<EntryModel, ErrorModel>(wanted[i]));
    }
}

/// Every key is the bytes of a text and every value those of an entry.
pub open spec fn readable<W>(contents: Contents) -> bool where KvEntry: ProstMessage<W> {
    &&& only_texts(contents)
    &&& forall|key: Seq<u8>| #[trigger]
        contents.contains_key(key) ==> message_in::<W, KvEntry>(contents[key]) is Ok
}

/// If all that is stored can be read, a search that was not disturbed has no errors among its
/// lines: each gives the key of its rank.
pub proof fn law_search_without_errors<W>(
    contents: Contents,
    asked: SearchRequestModel,
    answer: SearchAnswer,
    i: int,
) where KvEntry: ProstMessage<W>
    requires
        is_search_answer::<W>(contents, asked, answer),
        undisturbed(answer),
        readable::<W>(contents),
        0 <= i < answer.lines@.len(),
    ensures
        answer.lines@[i].deep_view() matches Some(SearchResp::Success(item)) && item.key == Some(
            bare_key(
                KeyString::key_decoding(
                    page_of(
                        matches_of(contents, asked.key_prefix),
                        asked.page as nat,
                        asked.page_size as nat,
                    )[i].0,
                )->Ok_0,
            ),
        ),
{
    let entries = matches_of(contents, asked.key_prefix);
    let wanted = page_of(entries, asked.page as nat, asked.page_size as nat);
    law_search_gives_the_page::<W>(contents, asked, answer);
    assert(says(answer.lines@[i], lines_for::<W>(asked, wanted)[i]));
    let place = clip(entries, asked.page as nat * asked.page_size as nat) + i;
    assert(wanted[i] == entries[place]);
    assert(contents.contains_key(entries[place].0));
}

/// What is asked for besides the keys changes neither how many lines a search gives nor which keys
/// they are of.
pub proof fn law_flags_change_no_keys<W>(
    contents: Contents,
    asked: SearchRequestModel,
    answer: SearchAnswer,
    return_value: bool,
    return_metadata: bool,
    other: SearchAnswer,
) where KvEntry: ProstMessage<W>
    requires
        is_search_answer::<W>(contents, asked, answer),
        is_search_answer::<W>(
            contents,
            (SearchRequestModel { return_value, return_metadata, ..asked }),
            other,
        ),
        undisturbed(answer),
        undisturbed(other),
    ensures
        answer.lines@.len() == other.lines@.len(),
        forall|i: int|
            #![trigger answer.lines@[i]]
            #![trigger other.lines@[i]]
            0 <= i < answer.lines@.len() ==> match (
                answer.lines@[i].deep_view(),
                other.lines@[i].deep_view(),
            ) {
                (Some(SearchResp::Success(a)), Some(SearchResp::Success(b))) => a.key == b.key,
                _ => true,
            },
        readable::<W>(contents) ==> forall|i: int|
            #![trigger answer.lines@[i]]
            #![trigger other.lines@[i]]
            0 <= i < answer.lines@.len() ==> {
                &&& answer.lines@[i].deep_view() matches Some(SearchResp::Success(a))
                &&& other.lines@[i].deep_view() matches Some(SearchResp::Success(b))
                &&& a.key == b.key
            },
{
    let also = SearchRequestModel { return_value, return_metadata, ..asked };
    let wanted = page_of(
        matches_of(contents, asked.key_prefix),
        asked.page as nat,
        asked.page_size as nat,
    );
    law_search_gives_the_page::<W>(contents, asked, answer);
    law_search_gives_the_page::<W>(contents, also, other);
    assert forall|i: int|
        #![trigger answer.lines@[i]]
        #![trigger other.lines@[i]]
        0 <= i < answer.lines@.len() implies match (
        answer.lines@[i].deep_view(),
        other.lines@[i].deep_view(),
    ) {
        (Some(SearchResp::Success(a)), Some(SearchResp::Success(b))) => a.key == b.key,
        _ => true,
    } by {
        assert(says(answer.lines@[i], lines_for::<W>(asked, wanted)[i]));
        assert(says(other.lines@[i], lines_for::<W>(also, wanted)[i]));
    }
    if readable::<W>(contents) {
        assert forall|i: int|
            #![trigger answer.lines@[i]]
            #![trigger other.lines@[i]]
            0 <= i < answer.lines@.len() implies {
            &&& answer.lines@[i].deep_view() matches Some(SearchResp::Success(a))
            &&& other.lines@[i].deep_view() matches Some(SearchResp::Success(b))
            &&& a.key == b.key
        } by {
            law_search_without_errors::<W>(contents, asked, answer, i);
            law_search_without_errors::<W>(contents, also, other, i);
        }
    }
}

/// The lines of some answers, one behind the other.
pub open spec fn all_lines(answers: Seq<SearchAnswer>) -> Seq<SearchResponse>
    decreases answers.len(),
{
    if answers.len() == 0 {
        Seq::empty()
    } else {
        all_lines(answers.drop_last()) + answers.last().lines@
    }
}

/// `answers` are those to the search `asked` for the first pages, one after the other.
pub open spec fn are_first_pages<W>(
    contents: Contents,
    asked: SearchRequestModel,
    answers: Seq<SearchAnswer>,
) -> bool where KvEntry: ProstMessage<W> {
    &&& answers.len() <= u32::MAX
    &&& forall|k: int|
        0 <= k < answers.len() ==> is_search_answer::<W>(
            contents,
            SearchRequestModel { page: k as u32, ..asked },
            #[trigger] answers[k],
        ) && undisturbed(answers[k])
}

/// The first pages of a search that was not disturbed, one behind the other, give the first
/// matches, each once and in order; and enough pages give all, as one page does that is large
/// enough.
pub proof fn law_searches_make_up_the_whole<W>(
    contents: Contents,
    asked: SearchRequestModel,
    answers: Seq<SearchAnswer>,
) where KvEntry: ProstMessage<W>
    requires
        are_first_pages::<W>(contents, asked, answers),
    ensures
        ({
            let entries = matches_of(contents, asked.key_prefix);
            let first = clip(entries, answers.len() * asked.page_size as nat);
            say::<W>(asked, entries.take(first as int), all_lines(answers))
        }),
        answers.len() * asked.page_size as nat >= matches_of(contents, asked.key_prefix).len()
            ==> say::<W>(asked, matches_of(contents, asked.key_prefix), all_lines(answers)),
{
    let entries = matches_of(contents, asked.key_prefix);
    lemma_searches::<W>(contents, asked, answers);
    law_pages_in_order(entries, answers.len(), asked.page_size as nat);
    assert(entries.take(entries.len() as int) =~= entries);
}

proof fn lemma_searches<W>(
    contents: Contents,
    asked: SearchRequestModel,
    answers: Seq<SearchAnswer>,
) where KvEntry: ProstMessage<W>
    requires
        are_first_pages::<W>(contents, asked, answers),
    ensures
        say::<W>(
            asked,
            pages(
                matches_of(contents, asked.key_prefix),
                answers.len(),
                asked.page_size as nat,
            ),
            all_lines(answers),
        ),
    decreases answers.len(),
{
    if answers.len() > 0 {
        let entries = matches_of(contents, asked.key_prefix);
        let size = asked.page_size as nat;
        let first = answers.drop_last();
        let k = answers.len() - 1;
        assert forall|i: int| 0 <= i < first.len() implies is_search_answer::<W>(
            contents,
            SearchRequestModel { page: i as u32, ..asked },
            #[trigger] first[i],
        ) && undisturbed(first[i]) by {
            assert(first[i] == answers[i]);
        }
        lemma_searches::<W>(contents, asked, first);
        let asked_last = SearchRequestModel { page: k as u32, ..asked };
        assert(answers[k] == answers.last());
        law_search_gives_the_page::<W>(contents, asked_last, answers.last());
        let before_last = pages(entries, k as nat, size);
        let last = page_of(entries, k as nat, size);
        let all = all_lines(answers);
        assert forall|i: int| 0 <= i < all.len() implies says(
            #[trigger] all[i],
            lines_for::<W>(asked, before_last + last)[i],
        ) by {
            if i < before_last.len() {
                assert(all[i] == all_lines(first)[i]);
                assert(says(all_lines(first)[i], lines_for::<W>(asked, before_last)[i]));
            } else {
                let j = i - before_last.len();
                assert(all[i] == answers.last().lines@[j]);
                assert(says(answers.last().lines@[j], lines_for::<W>(asked_last, last)[j]));
            }
        }
    }
}

/// A search that was not disturbed for one page that is large enough gives all matches.
pub proof fn law_one_page_gives_all<W>(
    contents: Contents,
    asked: SearchRequestModel,
    answer: SearchAnswer,
) where KvEntry: ProstMessage<W>
    requires
        is_search_answer::<W>(contents, asked, answer),
        undisturbed(answer),
        asked.page == 0,
        asked.page_size >= matches_of(contents, asked.key_prefix).len(),
    ensures
        say::<W>(asked, matches_of(contents, asked.key_prefix), answer.lines@),
{
    let entries = matches_of(contents, asked.key_prefix);
    law_search_gives_the_page::<W>(contents, asked, answer);
    assert(page_of(entries, 0, asked.page_size as nat) =~= entries);
}

/// A search in the data tree reads every key that it comes to.
pub proof fn law_search_reads_keys<W>(contents: Contents, key: Seq<u8>) where
    KvEntry: ProstMessage<W>,

    requires
        only_texts(contents),
        contents.contains_key(key),
    ensures
        searched::<W>(Ok((key, contents[key])), false) is Ok,
{
}

/// A search gives only keys that start with the prefix and are in use, and with them the
/// values and the metadata that looking them up gives, if they are asked for.
pub proof fn law_search_gives_matches<W>(
    contents: Contents,
    asked: SearchRequestModel,
    answer: SearchAnswer,
    i: int,
) -> (text: Seq<char>) where KvEntry: ProstMessage<W>
    requires
        is_search_answer::<W>(contents, asked, answer),
        0 <= i < answer.lines@.len(),
        answer.lines@[i].deep_view() matches Some(SearchResp::Success(_)),
    ensures
        answer.lines@[i].deep_view() matches Some(SearchResp::Success(item)) && item.key == Some(
            bare_key(text),
        ),
        asked.key_prefix.is_prefix_of(text),
        contains_spec::<KeyString>(contents, Some(text)) == Ok::<bool, ErrorModel>(true),
        asked.return_value || asked.return_metadata ==> {
            &&& get_spec::<W, KeyString, KvEntry>(contents, Some(text)) matches Ok(
                GetResultSuccess::Success(_, entry),
            )
            &&& answer.lines@[i].deep_view() matches Some(SearchResp::Success(item))
            &&& item.value == if asked.return_value {
                entry.value
            } else {
                None
            }
            &&& item.metadata == if asked.return_metadata {
                entry.metadata
            } else {
                None
            }
        },
        !asked.return_value && !asked.return_metadata ==> {
            &&& answer.lines@[i].deep_view() matches Some(SearchResp::Success(item))
            &&& item.value is None
            &&& item.metadata is None
        },
{
    let prefix = encode_utf8(asked.key_prefix);
    let entries = matches_of(contents, asked.key_prefix);
    let (skip, size) = search_window(asked);
    let page = lemma_search_page::<W>(contents, asked, answer);
    assert(answer.lines@[i].deep_view() == Some(
        search_line::<W>(page[i], asked.return_value, asked.return_metadata),
    ));
    law_page_members(contents, prefix, entries, skip, size, answer.missed@.len(), page, i);
    let key = page[i]->Ok_0.0;
    let text = KeyString::key_decoding(key)->Ok_0;
    decode_utf8_encode_utf8(key);
    law_text_prefix(asked.key_prefix, text);
    text
}

/// A search gives no more lines than a page may have.
pub proof fn law_search_keeps_to_the_page<W>(
    contents: Contents,
    asked: SearchRequestModel,
    answer: SearchAnswer,
) where KvEntry: ProstMessage<W>
    requires
        is_search_answer::<W>(contents, asked, answer),
    ensures
        answer.lines@.len() <= asked.page_size,
{
    let page = lemma_search_page::<W>(contents, asked, answer);
}

/// A search gives the keys in order, so none twice.
pub proof fn law_search_in_order<W>(
    contents: Contents,
    asked: SearchRequestModel,
    answer: SearchAnswer,
    i: int,
    j: int,
    first: Seq<char>,
    second: Seq<char>,
) where KvEntry: ProstMessage<W>
    requires
        is_search_answer::<W>(contents, asked, answer),
        0 <= i < j < answer.lines@.len(),
        answer.lines@[i].deep_view() matches Some(SearchResp::Success(item)) && item.key == Some(
            bare_key(first),
        ),
        answer.lines@[j].deep_view() matches Some(SearchResp::Success(item)) && item.key == Some(
            bare_key(second),
        ),
    ensures
        less(encode_utf8(first), encode_utf8(second)),
        first != second,
{
    let entries = matches_of(contents, asked.key_prefix);
    let (skip, size) = search_window(asked);
    let page = lemma_search_page::<W>(contents, asked, answer);
    assert(answer.lines@[i].deep_view() == Some(
        search_line::<W>(page[i], asked.return_value, asked.return_metadata),
    ));
    assert(answer.lines@[j].deep_view() == Some(
        search_line::<W>(page[j], asked.return_value, asked.return_metadata),
    ));
    law_page_order(entries, skip, size, answer.missed@.len(), page, i, j);
    decode_utf8_encode_utf8(page[i]->Ok_0.0);
    decode_utf8_encode_utf8(page[j]->Ok_0.0);
    lemma_less_irreflexive(encode_utf8(first));
}

/// A key that is in use and starts with the prefix is on the page of its rank: a search for that
/// page which was not disturbed has a line for it.
pub proof fn law_search_is_complete<W>(
    contents: Contents,
    asked: SearchRequestModel,
    answer: SearchAnswer,
    text: Seq<char>,
    rank: int,
) -> (i: int) where KvEntry: ProstMessage<W>
    requires
        is_search_answer::<W>(contents, asked, answer),
        undisturbed(answer),
        0 <= rank < matches_of(contents, asked.key_prefix).len(),
        matches_of(contents, asked.key_prefix)[rank].0 == encode_utf8(text),
        asked.page as nat * asked.page_size as nat <= rank < asked.page as nat
            * asked.page_size as nat + asked.page_size,
    ensures
        0 <= i < answer.lines@.len(),
        match answer.lines@[i].deep_view() {
            Some(SearchResp::Success(item)) => item.key == Some(bare_key(text)),
            Some(SearchResp::KeyError(_)) => asked.return_value || asked.return_metadata,
            None => false,
        },
{
    let entries = matches_of(contents, asked.key_prefix);
    let wanted = page_of(entries, asked.page as nat, asked.page_size as nat);
    law_search_gives_the_page::<W>(contents, asked, answer);
    law_text_round_trip(text);
    let i = rank - asked.page as nat * asked.page_size as nat;
    assert(wanted[i] == entries[rank]);
    assert(says(answer.lines@[i], lines_for::<W>(asked, wanted)[i]));
    i
}

/// Every key that is in use and starts with the prefix has a rank.
pub proof fn law_every_match_has_a_rank<W>(
    contents: Contents,
    asked: SearchRequestModel,
    answer: SearchAnswer,
    text: Seq<char>,
) -> (rank: int) where KvEntry: ProstMessage<W>
    requires
        is_search_answer::<W>(contents, asked, answer),
        contains_spec::<KeyString>(contents, Some(text)) == Ok::<bool, ErrorModel>(true),
        asked.key_prefix.is_prefix_of(text),
    ensures
        0 <= rank < matches_of(contents, asked.key_prefix).len(),
        matches_of(contents, asked.key_prefix)[rank].0 == encode_utf8(text),
{
    let entries = matches_of(contents, asked.key_prefix);
    let key = encode_utf8(text);
    law_text_prefix(asked.key_prefix, text);
    assert(listed(entries, key));
    choose|i: int| 0 <= i < entries.len() && (#[trigger] entries[i]).0 == key
}

} // verus!
