# Fulcrum

A database of keys and values behind gRPC. Two services share one embedded store:

- the *data tree* keeps values under texts. Entries can be added, copied, read, removed and
  listed by prefix, page by page;
- the *content tree* keeps values under names. A long value is kept in parts: a batch that names
  them. A value can be streamed together with all its parts.

## Layout

`src/` is the library, verified with Verus. Taken for granted is what its wrappers say of the
crates that they call: `sled` (`store`, and the error texts in `error_handling`), `prost` (`wire`),
`bytes` and `String::from_utf8` (`data_access`) and `siphasher` (`data_tree`). How entries, values
and contents become bytes is given from outside, by an implementation of `wire::ProstMessage`; that
it keeps the contract of that trait is taken for granted too.

| module | what it holds |
|---|---|
| `error_handling` | the error that every operation reports |
| `wire` | how messages become bytes in the store, and back |
| `pb` | the messages, each with its model |
| `key_order` | the order of keys and the listing in that order |
| `store` | the embedded store, `sled`, and what is taken for granted of it |
| `data_access` | keys; reading, adding, removing and listing entries |
| `data_tree`, `cdn` | the two services |
| `key_laws`, `page_laws`, `laws`, `search_laws`, `stream_laws` | what holds of these together |

What the operations do is stated over `Contents`, the map of key bytes to value bytes that a store
holds. Every operation has a function that says what it answers and what the store holds then
(`get_spec`, `add_spec`, `delete_spec`, `contains_spec`, `copy_spec`, `is_listing`,
`is_search_answer`, `stepped`). The one other thing that can come back is a failure of the store. A
page of a listing or a search tells the failures on the way to it (`missed`) and holds those on it; a
page without any is exactly the page that was asked for.

`tests/` runs the library with the real store. `app/` is the server and a client: messages on the
wire, gRPC, threads.
