//! The data tree service.
use fulcrum::data_access::{
    AddResultSuccess, DeleteResultSuccess, GetResultSuccess, KeyString, PageResultSuccess,
};
use fulcrum::data_tree::{
    add_response, build_kv_entry, contains_response, copied_response, copy_source, delete_response,
    get_response, hasher, search_item, search_response, to_key_uid, DataTreeServer, KeyColumn,
};
use fulcrum::error_handling::{Cause, EncodeError, InternalError};
use fulcrum::pb::{
    AddRequest, AddResp, AddResponse, ContainsRequest, ContainsResp, CopyRequest, CopyResp,
    DeleteRequest, DeleteResp, GetRequest, GetResp, Key, KeyFamily, KeyUid, KvEntry, KvMetadata,
    Principal, SearchRequest, SearchResp, SearchResponseItem, Timestamp, ValueEntry,
    ValueMetadata, COMPRESSION_NONE,
    HASHED_WITH_SIP, STATUS_ACTIVE, UPDATE_ACTION_ADDED,
};
use fulcrum::store::Store;
use fulcrum::wire::ProstMessage;

/// Entries field by field, each with its length: first the metadata, then the value.
struct Plain;

fn push(out: &mut Vec<u8>, field: &[u8]) {
    out.extend_from_slice(&(field.len() as u64).to_be_bytes());
    out.extend_from_slice(field);
}

fn push_time(out: &mut Vec<u8>, time: &Option<Timestamp>) {
    match time {
        None => push(out, b""),
        Some(time) => {
            push(out, b"some");
            push(out, &time.seconds.to_be_bytes());
            push(out, &time.nanos.to_be_bytes());
        }
    }
}

fn push_bytes(out: &mut Vec<u8>, bytes: Option<&[u8]>) {
    match bytes {
        None => push(out, b""),
        Some(bytes) => {
            push(out, b"some");
            push(out, bytes);
        }
    }
}

struct Fields<'a>(&'a [u8]);

impl<'a> Fields<'a> {
    fn pull(&mut self) -> Result<&'a [u8], String> {
        if self.0.len() < 8 {
            return Err("cut off".to_string());
        }
        let (length, rest) = self.0.split_at(8);
        let mut number = [0u8; 8];
        number.copy_from_slice(length);
        let length = u64::from_be_bytes(number) as usize;
        if rest.len() < length {
            return Err("cut off".to_string());
        }
        let (field, rest) = rest.split_at(length);
        self.0 = rest;
        Ok(field)
    }

    fn number(&mut self) -> Result<i64, String> {
        let mut number = 0i64;
        for byte in self.pull()? {
            number = (number << 8) | i64::from(*byte);
        }
        Ok(number)
    }

    fn text(&mut self) -> Result<String, String> {
        String::from_utf8(self.pull()?.to_vec()).map_err(|e| e.to_string())
    }

    fn some(&mut self) -> Result<bool, String> {
        Ok(self.pull()? == b"some")
    }

    fn bytes(&mut self) -> Result<Option<Vec<u8>>, String> {
        if self.some()? {
            Ok(Some(self.pull()?.to_vec()))
        } else {
            Ok(None)
        }
    }

    fn time(&mut self) -> Result<Option<Timestamp>, String> {
        if self.some()? {
            Ok(Some(Timestamp { seconds: self.number()?, nanos: self.number()? as i32 }))
        } else {
            Ok(None)
        }
    }
}

impl ProstMessage<Plain> for KvEntry {
    fn encode_message(&self) -> Result<Vec<u8>, EncodeError> {
        let mut out = Vec::new();
        match &self.metadata {
            None => push(&mut out, b""),
            Some(m) => {
                push(&mut out, b"some");
                push_bytes(&mut out, m.key_uid.as_ref().map(|uid| uid.sip.as_slice()));
                push(&mut out, &m.status.to_be_bytes());
                push_time(&mut out, &m.expiry);
                push(&mut out, &m.action.to_be_bytes());
                push_bytes(&mut out, m.created_by.as_ref().map(|by| by.name.as_bytes()));
                push_time(&mut out, &m.created_at);
                push(&mut out, m.correlation_id.as_bytes());
                push(&mut out, m.originator_replica_id.as_bytes());
                match &m.value_metadata {
                    None => push(&mut out, b""),
                    Some(v) => {
                        push(&mut out, b"some");
                        push(&mut out, &v.hashed_with.to_be_bytes());
                        push(&mut out, &v.hash);
                        push(&mut out, &v.compression.to_be_bytes());
                        push(&mut out, &v.size_compressed.to_be_bytes());
                        push(&mut out, &v.size_full.to_be_bytes());
                        push(&mut out, v.serializer_id.as_bytes());
                    }
                }
            }
        }
        push_bytes(&mut out, self.value.as_ref().map(|v| v.content.as_slice()));
        Ok(out)
    }

    fn decode_message(bytes: &Vec<u8>) -> Result<Self, String> {
        let mut fields = Fields(bytes);
        let metadata = if fields.some()? {
            Some(KvMetadata {
                key_uid: fields.bytes()?.map(|sip| KeyUid { sip }),
                status: fields.number()? as i32,
                expiry: fields.time()?,
                action: fields.number()? as i32,
                created_by: match fields.bytes()? {
                    None => None,
                    Some(name) => Some(Principal {
                        name: String::from_utf8(name).map_err(|e| e.to_string())?,
                    }),
                },
                created_at: fields.time()?,
                correlation_id: fields.text()?,
                originator_replica_id: fields.text()?,
                value_metadata: if fields.some()? {
                    Some(ValueMetadata {
                        hashed_with: fields.number()? as i32,
                        hash: fields.pull()?.to_vec(),
                        compression: fields.number()? as i32,
                        size_compressed: fields.number()? as u64,
                        size_full: fields.number()? as u64,
                        serializer_id: fields.text()?,
                    })
                } else {
                    None
                },
            })
        } else {
            None
        };
        let value = fields.bytes()?.map(|content| ValueEntry { content });
        Ok(KvEntry { metadata, value })
    }
}

/// Values behind a mark, so that no bytes are those of a value and of an entry.
impl ProstMessage<Plain> for ValueEntry {
    fn encode_message(&self) -> Result<Vec<u8>, EncodeError> {
        let mut out = b"value:".to_vec();
        out.extend_from_slice(&self.content);
        Ok(out)
    }

    fn decode_message(bytes: &Vec<u8>) -> Result<Self, String> {
        match bytes.strip_prefix(b"value:") {
            Some(content) => Ok(ValueEntry { content: content.to_vec() }),
            None => Err("no value".to_string()),
        }
    }
}

fn metadata_of(hash: Vec<u8>) -> KvMetadata {
    KvMetadata {
        key_uid: Some(KeyUid { sip: hash }),
        status: STATUS_ACTIVE,
        expiry: None,
        action: UPDATE_ACTION_ADDED,
        created_by: None,
        created_at: None,
        correlation_id: "####".to_string(),
        originator_replica_id: "0".to_string(),
        value_metadata: Some(ValueMetadata {
            hashed_with: HASHED_WITH_SIP,
            hash: vec![1, 2, 3],
            compression: COMPRESSION_NONE,
            size_compressed: 10,
            size_full: 12,
            serializer_id: "TBD".to_string(),
        }),
    }
}

fn server() -> DataTreeServer {
    match Store::open_temporary("cdn", "data") {
        Ok((_, store)) => DataTreeServer { tree: KeyColumn::SimpleKeyColumn(store) },
        Err(e) => panic!("{:?}", e),
    }
}

fn bare(text: &str) -> Key {
    Key { key: text.to_string(), key_family: None, uid: None }
}

fn value(content: &str) -> ValueEntry {
    ValueEntry { content: content.as_bytes().to_vec() }
}

fn uid(text: &str) -> KeyUid {
    to_key_uid(&KeyString(text.to_string()))
}

fn missing(field: &str) -> InternalError {
    InternalError { cause: Some(Cause::MissingRequiredArgument(field.to_string())) }
}

fn add(server: &mut DataTreeServer, key: &str, content: &str) -> Option<AddResp<Key, InternalError>> {
    server.add::<Plain>(AddRequest { key: Some(bare(key)), value: Some(value(content)) }).resp
}

fn get(server: &DataTreeServer, key: &str, return_metadata: bool) -> GetResp<KvEntry, KeyUid, InternalError> {
    server.get::<Plain>(GetRequest { key: Some(bare(key)), return_metadata }).resp.unwrap()
}

fn contains(server: &DataTreeServer, key: &str) -> Option<ContainsResp<InternalError>> {
    server.contains(ContainsRequest { key: Some(bare(key)) }).resp
}

fn only_value(content: &str) -> GetResp<KvEntry, KeyUid, InternalError> {
    GetResp::Success(KvEntry { metadata: None, value: Some(value(content)) })
}

fn search(server: &DataTreeServer, prefix: &str, page: u32, page_size: u32) -> Vec<String> {
    let lines = server.search::<Plain>(SearchRequest {
        key_prefix: prefix.to_string(),
        page,
        page_size,
        return_value: false,
        return_metadata: false,
    });
    let answer = lines.unwrap();
    assert_eq!(answer.missed, vec![]);
    let mut keys = Vec::new();
    for line in answer.lines {
        match line.resp {
            Some(SearchResp::Success(item)) => {
                assert_eq!(item.value, None);
                assert_eq!(item.metadata, None);
                keys.push(item.key.unwrap().key);
            }
            other => panic!("{:?}", other),
        }
    }
    keys
}

#[test]
fn hash_of_a_key() {
    assert_eq!(hasher(&KeyString(String::new())), vec![30, 146, 75, 157, 115, 119, 0, 215]);
    assert_eq!(hasher(&KeyString("abc".into())), vec![63, 200, 132, 150, 71, 112, 238, 222]);
    assert_eq!(hasher(&KeyString("ключ".into())), vec![103, 49, 141, 181, 187, 25, 113, 3]);
    assert_eq!(uid("alpha"), KeyUid { sip: vec![197, 161, 169, 183, 229, 222, 201, 27] });
}

#[test]
fn entry_of_a_value() {
    let key = Key {
        key: "alpha".to_string(),
        key_family: Some(KeyFamily { name: "greek".to_string() }),
        uid: Some(KeyUid { sip: vec![1] }),
    };
    let (entry, text, hash) = build_kv_entry(Some(key), Some(value("one"))).unwrap();
    assert_eq!(text, KeyString("alpha".to_string()));
    assert_eq!(hash, uid("alpha"));
    assert_eq!(entry.value, Some(value("one")));
    assert_eq!(entry.metadata, Some(metadata_of(uid("alpha").sip)));
}

#[test]
fn entry_without_a_value_or_a_key() {
    let (entry, _, _) = build_kv_entry(Some(bare("alpha")), None).unwrap();
    assert_eq!(entry.value, None);
    assert_eq!(build_kv_entry(None, Some(value("one"))), None);
}

#[test]
fn added_value_reads_back() {
    let mut server = server();
    assert_eq!(add(&mut server, "alpha", "one"), Some(AddResp::Success(bare("alpha"))));
    assert_eq!(get(&server, "alpha", false), only_value("one"));
    assert_eq!(
        get(&server, "alpha", true),
        GetResp::Success(KvEntry {
            metadata: Some(metadata_of(uid("alpha").sip)),
            value: Some(value("one")),
        })
    );
    assert_eq!(contains(&server, "alpha"), Some(ContainsResp::Success(true)));
}

#[test]
fn only_the_text_of_a_key_counts() {
    let mut server = server();
    let key = Key {
        key: "alpha".to_string(),
        key_family: Some(KeyFamily { name: "greek".to_string() }),
        uid: None,
    };
    let resp = server.add::<Plain>(AddRequest { key: Some(key), value: Some(value("one")) });
    assert_eq!(resp.resp, Some(AddResp::Success(bare("alpha"))));
    assert_eq!(add(&mut server, "alpha", "two"), Some(AddResp::Exists(bare("alpha"))));
}

#[test]
fn key_in_use_is_not_added() {
    let mut server = server();
    add(&mut server, "alpha", "one");
    assert_eq!(add(&mut server, "alpha", "two"), Some(AddResp::Exists(bare("alpha"))));
    assert_eq!(get(&server, "alpha", false), only_value("one"));
}

#[test]
fn entry_can_be_added_without_a_value() {
    let mut server = server();
    let resp = server.add::<Plain>(AddRequest { key: Some(bare("alpha")), value: None });
    assert_eq!(resp.resp, Some(AddResp::Success(bare("alpha"))));
    assert_eq!(
        get(&server, "alpha", false),
        GetResp::Success(KvEntry { metadata: None, value: None })
    );
}

#[test]
fn schema_of_these_tests_keeps_entries() {
    let mut metadata = metadata_of(vec![7, 8]);
    metadata.expiry = Some(Timestamp { seconds: -5, nanos: 6 });
    metadata.created_by = Some(Principal { name: "ü".to_string() });
    metadata.status = -1;
    for entry in [
        KvEntry { metadata: Some(metadata), value: Some(value("one")) },
        KvEntry { metadata: None, value: Some(value("")) },
        KvEntry { metadata: None, value: None },
    ] {
        let bytes = ProstMessage::<Plain>::encode_message(&entry).unwrap();
        assert!(<ValueEntry as ProstMessage<Plain>>::decode_message(&bytes).is_err());
        assert_eq!(<KvEntry as ProstMessage<Plain>>::decode_message(&bytes), Ok(entry));
    }
    let bytes = ProstMessage::<Plain>::encode_message(&value("one")).unwrap();
    assert_eq!(<ValueEntry as ProstMessage<Plain>>::decode_message(&bytes), Ok(value("one")));
}

#[test]
fn unknown_key_is_answered_with_its_hash() {
    let server = server();
    assert_eq!(get(&server, "alpha", true), GetResp::NotFound(uid("alpha")));
    assert_eq!(contains(&server, "alpha"), Some(ContainsResp::Success(false)));
}

#[test]
fn deleted_entry_is_gone() {
    let mut server = server();
    add(&mut server, "alpha", "one");
    add(&mut server, "beta", "two");
    let request = DeleteRequest { key: Some(bare("alpha")) };
    assert_eq!(server.delete(request.clone()).resp, Some(DeleteResp::Success(uid("alpha"))));
    assert_eq!(get(&server, "alpha", false), GetResp::NotFound(uid("alpha")));
    assert_eq!(server.delete(request).resp, Some(DeleteResp::NotFound(uid("alpha"))));
    assert_eq!(get(&server, "beta", false), only_value("two"));
    assert_eq!(add(&mut server, "alpha", "new"), Some(AddResp::Success(bare("alpha"))));
}

#[test]
fn requests_without_a_key_are_refused() {
    let mut server = server();
    let resp = server.add::<Plain>(AddRequest { key: None, value: Some(value("one")) });
    assert_eq!(resp.resp, Some(AddResp::Error(missing("uid"))));
    let resp = server.get::<Plain>(GetRequest { key: None, return_metadata: true });
    assert_eq!(resp.resp, Some(GetResp::Error(missing("uid"))));
    let resp = server.contains(ContainsRequest { key: None });
    assert_eq!(resp.resp, Some(ContainsResp::Error(missing("uid"))));
    let resp = server.delete(DeleteRequest { key: None });
    assert_eq!(resp.resp, Some(DeleteResp::Error(missing("uid"))));
    let resp = server.copy::<Plain>(CopyRequest { key_from: None, key_to: Some(bare("b")) });
    assert_eq!(resp.resp, Some(CopyResp::Error(missing("uid"))));
}

fn copy(server: &mut DataTreeServer, from: &str, to: &str) -> Option<CopyResp<CopyRequest, InternalError>> {
    server.copy::<Plain>(copy_request(from, to)).resp
}

fn copy_request(from: &str, to: &str) -> CopyRequest {
    CopyRequest { key_from: Some(bare(from)), key_to: Some(bare(to)) }
}

#[test]
fn copy_reads_as_the_source() {
    let mut server = server();
    add(&mut server, "alpha", "one");
    assert_eq!(
        copy(&mut server, "alpha", "beta"),
        Some(CopyResp::Success(copy_request("alpha", "beta")))
    );
    assert_eq!(get(&server, "beta", false), only_value("one"));
    assert_eq!(get(&server, "alpha", false), only_value("one"));
}

#[test]
fn copy_has_metadata_of_its_own() {
    let mut server = server();
    add(&mut server, "alpha", "one");
    copy(&mut server, "alpha", "beta");
    for key in ["alpha", "beta"] {
        assert_eq!(
            get(&server, key, true),
            GetResp::Success(KvEntry {
                metadata: Some(metadata_of(uid(key).sip)),
                value: Some(value("one")),
            })
        );
    }
}

#[test]
fn copy_can_be_copied_and_outlives_its_source() {
    let mut server = server();
    add(&mut server, "alpha", "one");
    copy(&mut server, "alpha", "beta");
    server.delete(DeleteRequest { key: Some(bare("alpha")) });
    assert_eq!(
        copy(&mut server, "beta", "gamma"),
        Some(CopyResp::Success(copy_request("beta", "gamma")))
    );
    assert_eq!(get(&server, "gamma", false), only_value("one"));
}

#[test]
fn copy_of_an_entry_without_a_value_has_none() {
    let mut server = server();
    server.add::<Plain>(AddRequest { key: Some(bare("alpha")), value: None });
    assert_eq!(
        copy(&mut server, "alpha", "beta"),
        Some(CopyResp::Success(copy_request("alpha", "beta")))
    );
    assert_eq!(
        get(&server, "beta", false),
        GetResp::Success(KvEntry { metadata: None, value: None })
    );
}

#[test]
fn copy_of_nothing_is_refused() {
    let mut server = server();
    assert_eq!(
        copy(&mut server, "alpha", "beta"),
        Some(CopyResp::FromKeyNotFound(copy_request("alpha", "beta")))
    );
    assert_eq!(contains(&server, "beta"), Some(ContainsResp::Success(false)));
}

#[test]
fn copy_onto_a_key_in_use_is_refused() {
    let mut server = server();
    add(&mut server, "alpha", "one");
    add(&mut server, "beta", "two");
    assert_eq!(
        copy(&mut server, "alpha", "beta"),
        Some(CopyResp::ToKeyExists(copy_request("alpha", "beta")))
    );
    assert_eq!(get(&server, "beta", false), only_value("two"));
    assert_eq!(
        copy(&mut server, "alpha", "alpha"),
        Some(CopyResp::ToKeyExists(copy_request("alpha", "alpha")))
    );
}

#[test]
fn copy_without_a_target_is_refused() {
    let mut server = server();
    add(&mut server, "alpha", "one");
    let resp = server.copy::<Plain>(CopyRequest { key_from: Some(bare("alpha")), key_to: None });
    assert_eq!(resp.resp, Some(CopyResp::Error(missing("uid"))));
}

#[test]
fn search_finds_the_keys_with_the_prefix() {
    let mut server = server();
    for key in ["beta", "alpha", "alphabet", "ärger", "gamma"] {
        add(&mut server, key, key);
    }
    assert_eq!(search(&server, "alpha", 0, 10), vec!["alpha", "alphabet"]);
    assert_eq!(search(&server, "", 0, 10), vec!["alpha", "alphabet", "beta", "gamma", "ärger"]);
    assert_eq!(search(&server, "ä", 0, 10), vec!["ärger"]);
    assert_eq!(search(&server, "delta", 0, 10), Vec::<String>::new());
}

#[test]
fn search_goes_page_by_page() {
    let mut server = server();
    for key in ["a", "b", "c", "d", "e"] {
        add(&mut server, key, key);
    }
    assert_eq!(search(&server, "", 0, 2), vec!["a", "b"]);
    assert_eq!(search(&server, "", 1, 2), vec!["c", "d"]);
    assert_eq!(search(&server, "", 2, 2), vec!["e"]);
    assert_eq!(search(&server, "", 3, 2), Vec::<String>::new());
    assert_eq!(search(&server, "", 0, 0), Vec::<String>::new());
}

#[test]
fn second_page_of_a_search_goes_on_where_the_first_ended() {
    let mut server = server();
    for key in ["a1", "a2", "a3", "b1"] {
        add(&mut server, key, key);
    }
    assert_eq!(search(&server, "a", 0, 2), vec!["a1", "a2"]);
    assert_eq!(search(&server, "a", 1, 2), vec!["a3"]);
    assert_eq!(search(&server, "a", 2, 2), Vec::<String>::new());
    assert_eq!(search(&server, "a", 0, 3), vec!["a1", "a2", "a3"]);
}

#[test]
fn flags_do_not_change_the_keys_of_a_page() {
    let mut server = server();
    for key in ["a", "b", "c", "d"] {
        add(&mut server, key, key);
    }
    for (return_value, return_metadata) in
        [(false, false), (true, false), (false, true), (true, true)]
    {
        let answer = server.search::<Plain>(SearchRequest {
            key_prefix: String::new(),
            page: 1,
            page_size: 2,
            return_value,
            return_metadata,
        });
        let mut keys = Vec::new();
        for line in answer.unwrap().lines {
            match line.resp {
                Some(SearchResp::Success(item)) => keys.push(item.key.unwrap().key),
                other => panic!("{:?}", other),
            }
        }
        assert_eq!(keys, vec!["c", "d"]);
    }
}

#[test]
fn source_of_a_copy_follows_what_was_found() {
    let key = KeyString("a".to_string());
    let r = copy_request("a", "b");
    let entry = KvEntry { metadata: Some(metadata_of(vec![7])), value: Some(value("one")) };
    assert_eq!(
        copy_source(r.clone(), Ok(GetResultSuccess::Success(key.clone(), entry))),
        Ok((r.clone(), Some(value("one"))))
    );
    assert_eq!(
        copy_source(r.clone(), Ok(GetResultSuccess::NotFound(key))).unwrap_err().resp,
        Some(CopyResp::FromKeyNotFound(r.clone()))
    );
    assert_eq!(
        copy_source(r, Err(missing("disk"))).unwrap_err().resp,
        Some(CopyResp::Error(missing("disk")))
    );
}

#[test]
fn search_gives_what_is_asked_for() {
    let mut server = server();
    add(&mut server, "alpha", "one");
    let metadata = Some(metadata_of(uid("alpha").sip));
    for (return_value, return_metadata) in [(true, false), (false, true), (true, true)] {
        let lines = server.search::<Plain>(SearchRequest {
            key_prefix: "al".to_string(),
            page: 0,
            page_size: 10,
            return_value,
            return_metadata,
        });
        let lines = lines.unwrap().lines;
        assert_eq!(lines.len(), 1);
        assert_eq!(
            lines[0].resp,
            Some(SearchResp::Success(SearchResponseItem {
                key: Some(bare("alpha")),
                value: if return_value { Some(value("one")) } else { None },
                metadata: if return_metadata { metadata.clone() } else { None },
            }))
        );
    }
}

#[test]
fn search_item_reads_key_and_entry() {
    let bytes = ProstMessage::<Plain>::encode_message(&KvEntry {
        metadata: None,
        value: Some(value("one")),
    });
    let bytes = bytes.unwrap();
    let key = KeyString("alpha".to_string());
    assert_eq!(
        search_item::<Plain>((b"alpha".to_vec(), bytes.clone()), true),
        Ok(PageResultSuccess::Success((
            key.clone(),
            Some(KvEntry { metadata: None, value: Some(value("one")) })
        )))
    );
    assert_eq!(
        search_item::<Plain>((b"alpha".to_vec(), b"junk".to_vec()), false),
        Ok(PageResultSuccess::Success((key, None)))
    );
    match search_item::<Plain>((b"alpha".to_vec(), b"junk".to_vec()), true) {
        Err(InternalError { cause: Some(Cause::StorageValueDecodingError(e)) }) => {
            assert_eq!(e.description, "cut off");
        }
        other => panic!("{:?}", other),
    }
    match search_item::<Plain>((vec![0xff], bytes), false) {
        Err(InternalError { cause: Some(Cause::StorageValueDecodingError(e)) }) => {
            assert_eq!(e.description, "invalid utf-8 sequence of 1 bytes from index 0");
        }
        other => panic!("{:?}", other),
    }
}

#[test]
fn failures_become_lines_and_answers() {
    let failure = missing("disk");
    assert_eq!(
        search_response(Err(failure.clone()), true, true).resp,
        Some(SearchResp::KeyError(failure.clone()))
    );
    assert_eq!(
        add_response(Err(failure.clone())),
        AddResponse { resp: Some(AddResp::Error(failure.clone())) }
    );
    assert_eq!(delete_response(Err(failure.clone())).resp, Some(DeleteResp::Error(failure.clone())));
    assert_eq!(get_response(Err(failure.clone()), true).resp, Some(GetResp::Error(failure.clone())));
    assert_eq!(contains_response(Err(failure.clone())).resp, Some(ContainsResp::Error(failure.clone())));
    assert_eq!(
        copied_response(copy_request("a", "b"), Err(failure.clone())).resp,
        Some(CopyResp::Error(failure))
    );
}

#[test]
fn outcomes_become_answers() {
    let key = KeyString("alpha".to_string());
    assert_eq!(
        add_response(Ok(AddResultSuccess::Exists(key.clone()))).resp,
        Some(AddResp::Exists(bare("alpha")))
    );
    assert_eq!(
        delete_response(Ok(DeleteResultSuccess::Success(key.clone()))).resp,
        Some(DeleteResp::Success(uid("alpha")))
    );
    let entry = KvEntry { metadata: Some(metadata_of(vec![7])), value: Some(value("one")) };
    assert_eq!(
        get_response(Ok(GetResultSuccess::Success(key, entry)), false).resp,
        Some(only_value("one"))
    );
    assert_eq!(contains_response(Ok(true)).resp, Some(ContainsResp::Success(true)));
    assert_eq!(
        copied_response(copy_request("a", "b"), Ok(AddResultSuccess::Exists(KeyString("b".into()))))
            .resp,
        Some(CopyResp::ToKeyExists(copy_request("a", "b")))
    );
}
