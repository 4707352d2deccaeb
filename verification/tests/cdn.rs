//! The content tree service.
use fulcrum::cdn::{stream_line, CdnServer, ValueStream};
use fulcrum::data_access::GetResultSuccess;
use fulcrum::error_handling::{Cause, DecodeError, EncodeError, InternalError, StackLine};
use fulcrum::pb::{
    AddResp, Batch, CdnAddRequest, CdnContainsRequest, CdnDeleteRequest, CdnGetRequest,
    CdnKeyValue, CdnMessage, CdnUid, CdnValue, ContainsResp, DeleteResp, GetResp,
};
use fulcrum::store::Store;
use fulcrum::wire::ProstMessage;

/// A value behind a letter that tells its kind; the parts of a batch with their lengths.
struct Lettered;

impl ProstMessage<Lettered> for CdnValue {
    fn encode_message(&self) -> Result<Vec<u8>, EncodeError> {
        let mut out = Vec::new();
        match &self.message {
            None => {}
            Some(CdnMessage::Bytes(bytes)) => {
                out.push(b'v');
                out.extend_from_slice(bytes);
            }
            Some(CdnMessage::Batch(batch)) => {
                out.push(b'b');
                for uid in &batch.uids {
                    out.extend_from_slice(&(uid.message.len() as u64).to_be_bytes());
                    out.extend_from_slice(uid.message.as_bytes());
                }
            }
        }
        Ok(out)
    }

    fn decode_message(bytes: &Vec<u8>) -> Result<Self, String> {
        let message = match bytes.split_first() {
            None => None,
            Some((b'v', content)) => Some(CdnMessage::Bytes(content.to_vec())),
            Some((b'b', content)) => {
                let mut rest = content;
                let mut uids = Vec::new();
                while !rest.is_empty() {
                    if rest.len() < 8 {
                        return Err("cut off".to_string());
                    }
                    let (length, more) = rest.split_at(8);
                    let mut number = [0u8; 8];
                    number.copy_from_slice(length);
                    let length = u64::from_be_bytes(number) as usize;
                    if more.len() < length {
                        return Err("cut off".to_string());
                    }
                    let (text, more) = more.split_at(length);
                    uids.push(name(&String::from_utf8(text.to_vec()).map_err(|e| e.to_string())?));
                    rest = more;
                }
                Some(CdnMessage::Batch(Batch { uids }))
            }
            Some((other, _)) => return Err(format!("unknown kind {}", other)),
        };
        Ok(CdnValue { message })
    }
}

/// The same behind a mark.
struct Marked;

impl ProstMessage<Marked> for CdnValue {
    fn encode_message(&self) -> Result<Vec<u8>, EncodeError> {
        let mut out = vec![b'!'];
        out.extend(ProstMessage::<Lettered>::encode_message(self)?);
        Ok(out)
    }

    fn decode_message(bytes: &Vec<u8>) -> Result<Self, String> {
        match bytes.split_first() {
            Some((b'!', rest)) => {
                <CdnValue as ProstMessage<Lettered>>::decode_message(&rest.to_vec())
            }
            _ => Err("unreadable".to_string()),
        }
    }
}

fn server() -> CdnServer {
    match Store::open_temporary("cdn", "data") {
        Ok((tree, _)) => CdnServer { tree },
        Err(e) => panic!("{:?}", e),
    }
}

fn name(text: &str) -> CdnUid {
    CdnUid { message: text.to_string() }
}

fn bytes(content: &str) -> CdnValue {
    CdnValue { message: Some(CdnMessage::Bytes(content.as_bytes().to_vec())) }
}

fn batch(parts: &[&str]) -> CdnValue {
    let uids = parts.iter().map(|part| name(part)).collect();
    CdnValue { message: Some(CdnMessage::Batch(Batch { uids })) }
}

fn missing(field: &str) -> InternalError {
    InternalError { cause: Some(Cause::MissingRequiredArgument(field.to_string())) }
}

fn no_message() -> InternalError {
    InternalError {
        cause: Some(Cause::StorageValueDecodingError(DecodeError {
            description: "'message' field is required".to_string(),
            stack: vec![StackLine {
                message: "field is required".to_string(),
                field: "message".to_string(),
            }],
        })),
    }
}

fn unreadable() -> InternalError {
    InternalError {
        cause: Some(Cause::StorageValueDecodingError(DecodeError {
            description: "unreadable".to_string(),
            stack: vec![],
        })),
    }
}

fn add(server: &mut CdnServer, uid: &str, value: CdnValue) -> Option<AddResp<CdnUid, InternalError>> {
    server.add::<Lettered>(CdnAddRequest { uid: Some(name(uid)), value: Some(value) }).resp
}

fn get(server: &CdnServer, uid: &str) -> Option<GetResp<CdnValue, CdnUid, InternalError>> {
    server.get::<Lettered>(CdnGetRequest { uid: Some(name(uid)) }).resp
}

fn start(server: &CdnServer, uid: &str) -> ValueStream {
    match server.stream_value(CdnGetRequest { uid: Some(name(uid)) }) {
        Ok(stream) => stream,
        Err(e) => panic!("{}", e),
    }
}

fn line(server: &CdnServer, stream: &mut ValueStream) -> Option<GetResp<CdnKeyValue, CdnUid, InternalError>> {
    stream.next::<Lettered>(server).map(|line| line.resp.unwrap())
}

fn success(uid: &str, value: CdnValue) -> Option<GetResp<CdnKeyValue, CdnUid, InternalError>> {
    Some(GetResp::Success(CdnKeyValue { key: Some(name(uid)), value: Some(value) }))
}

/// The names that a stream gives, in order; those that are not there in brackets.
fn names(server: &CdnServer, uid: &str) -> Vec<String> {
    let mut stream = start(server, uid);
    let mut names = Vec::new();
    while let Some(resp) = line(server, &mut stream) {
        match resp {
            GetResp::Success(kv) => names.push(kv.key.unwrap().message),
            GetResp::NotFound(uid) => names.push(format!("({})", uid.message)),
            GetResp::Error(e) => panic!("{:?}", e),
        }
    }
    names
}

#[test]
fn added_content_reads_back() {
    let mut server = server();
    assert_eq!(add(&mut server, "a", bytes("one")), Some(AddResp::Success(name("a"))));
    assert_eq!(add(&mut server, "b", batch(&["a", "c"])), Some(AddResp::Success(name("b"))));
    assert_eq!(get(&server, "a"), Some(GetResp::Success(bytes("one"))));
    assert_eq!(get(&server, "b"), Some(GetResp::Success(batch(&["a", "c"]))));
    assert_eq!(
        server.contains(CdnContainsRequest { uid: Some(name("a")) }).resp,
        Some(ContainsResp::Success(true))
    );
}

#[test]
fn name_in_use_is_not_added() {
    let mut server = server();
    add(&mut server, "a", bytes("one"));
    assert_eq!(add(&mut server, "a", bytes("two")), Some(AddResp::Exists(name("a"))));
    assert_eq!(get(&server, "a"), Some(GetResp::Success(bytes("one"))));
}

#[test]
fn unknown_name_is_answered_with_itself() {
    let server = server();
    assert_eq!(get(&server, "a"), Some(GetResp::NotFound(name("a"))));
    assert_eq!(
        server.contains(CdnContainsRequest { uid: Some(name("a")) }).resp,
        Some(ContainsResp::Success(false))
    );
}

#[test]
fn deleted_content_is_gone() {
    let mut server = server();
    add(&mut server, "a", bytes("one"));
    add(&mut server, "b", bytes("two"));
    let request = CdnDeleteRequest { uid: Some(name("a")) };
    assert_eq!(server.delete(request.clone()).resp, Some(DeleteResp::Success(name("a"))));
    assert_eq!(get(&server, "a"), Some(GetResp::NotFound(name("a"))));
    assert_eq!(server.delete(request).resp, Some(DeleteResp::NotFound(name("a"))));
    assert_eq!(get(&server, "b"), Some(GetResp::Success(bytes("two"))));
}

#[test]
fn requests_without_a_name_or_a_value_are_refused() {
    let mut server = server();
    let resp = server.add::<Lettered>(CdnAddRequest { uid: None, value: Some(bytes("one")) });
    assert_eq!(resp.resp, Some(AddResp::Error(missing("uid"))));
    let resp = server.add::<Lettered>(CdnAddRequest { uid: None, value: None });
    assert_eq!(resp.resp, Some(AddResp::Error(missing("uid"))));
    let resp = server.add::<Lettered>(CdnAddRequest { uid: Some(name("a")), value: None });
    assert_eq!(resp.resp, Some(AddResp::Error(missing("value"))));
    let resp = server.get::<Lettered>(CdnGetRequest { uid: None });
    assert_eq!(resp.resp, Some(GetResp::Error(missing("uid"))));
    let resp = server.contains(CdnContainsRequest { uid: None });
    assert_eq!(resp.resp, Some(ContainsResp::Error(missing("uid"))));
    let resp = server.delete(CdnDeleteRequest { uid: None });
    assert_eq!(resp.resp, Some(DeleteResp::Error(missing("uid"))));
}

#[test]
fn unreadable_content_is_reported() {
    let mut server = server();
    add(&mut server, "a", bytes("one"));
    let resp = server.get::<Marked>(CdnGetRequest { uid: Some(name("a")) });
    assert_eq!(resp.resp, Some(GetResp::Error(unreadable())));
    let mut stream = start(&server, "a");
    let resp = stream.next::<Marked>(&server).unwrap().resp;
    assert_eq!(resp, Some(GetResp::Error(unreadable())));
    assert_eq!(stream.next::<Marked>(&server), None);
}

#[test]
fn stream_needs_a_name() {
    let server = server();
    match server.stream_value(CdnGetRequest { uid: None }) {
        Ok(_) => panic!("a stream of nothing"),
        Err(message) => assert_eq!(message, "uid field is missing"),
    }
}

#[test]
fn stream_of_a_value_is_the_value() {
    let mut server = server();
    add(&mut server, "a", bytes("one"));
    let mut stream = start(&server, "a");
    assert_eq!(line(&server, &mut stream), success("a", bytes("one")));
    assert_eq!(line(&server, &mut stream), None);
    assert_eq!(line(&server, &mut stream), None);
}

#[test]
fn stream_of_nothing_says_so() {
    let server = server();
    let mut stream = start(&server, "a");
    assert_eq!(line(&server, &mut stream), Some(GetResp::NotFound(name("a"))));
    assert_eq!(line(&server, &mut stream), None);
}

#[test]
fn stream_gives_the_parts_of_a_batch_in_order() {
    let mut server = server();
    add(&mut server, "long", batch(&["p1", "p2", "p3"]));
    add(&mut server, "p1", bytes("one"));
    add(&mut server, "p2", batch(&["q1", "q2"]));
    add(&mut server, "p3", bytes("three"));
    add(&mut server, "q1", bytes("deep one"));
    let mut stream = start(&server, "long");
    assert_eq!(line(&server, &mut stream), success("long", batch(&["p1", "p2", "p3"])));
    assert_eq!(line(&server, &mut stream), success("p1", bytes("one")));
    assert_eq!(line(&server, &mut stream), success("p2", batch(&["q1", "q2"])));
    assert_eq!(line(&server, &mut stream), success("p3", bytes("three")));
    assert_eq!(line(&server, &mut stream), success("q1", bytes("deep one")));
    assert_eq!(line(&server, &mut stream), Some(GetResp::NotFound(name("q2"))));
    assert_eq!(line(&server, &mut stream), None);
}

#[test]
fn stream_gives_what_is_nearer_first() {
    let mut server = server();
    add(&mut server, "top", batch(&["far", "near"]));
    add(&mut server, "far", batch(&["deep"]));
    add(&mut server, "near", batch(&["low", "deep"]));
    add(&mut server, "deep", batch(&["deepest"]));
    add(&mut server, "low", bytes("low"));
    add(&mut server, "deepest", bytes("end"));
    assert_eq!(names(&server, "top"), vec!["top", "far", "near", "deep", "low", "deepest"]);
}

#[test]
fn stream_gives_no_part_twice() {
    let mut server = server();
    add(&mut server, "top", batch(&["x", "y", "x"]));
    add(&mut server, "x", batch(&["z", "y"]));
    add(&mut server, "y", batch(&["z", "x"]));
    add(&mut server, "z", bytes("end"));
    assert_eq!(names(&server, "top"), vec!["top", "x", "y", "z"]);
}

#[test]
fn stream_that_comes_back_to_its_beginning_gives_it_once_more() {
    let mut server = server();
    add(&mut server, "a", batch(&["b"]));
    add(&mut server, "b", batch(&["a"]));
    assert_eq!(names(&server, "a"), vec!["a", "b", "a"]);
    add(&mut server, "self", batch(&["self"]));
    assert_eq!(names(&server, "self"), vec!["self", "self"]);
}

#[test]
fn stream_sees_what_is_stored_when_it_comes_to_it() {
    let mut server = server();
    add(&mut server, "a", batch(&["b", "c"]));
    add(&mut server, "c", bytes("old"));
    let mut stream = start(&server, "a");
    assert_eq!(line(&server, &mut stream), success("a", batch(&["b", "c"])));
    add(&mut server, "b", bytes("just in time"));
    server.delete(CdnDeleteRequest { uid: Some(name("c")) });
    assert_eq!(line(&server, &mut stream), success("b", bytes("just in time")));
    assert_eq!(line(&server, &mut stream), Some(GetResp::NotFound(name("c"))));
    assert_eq!(line(&server, &mut stream), None);
}

#[test]
fn stream_reports_content_without_a_message() {
    let mut server = server();
    add(&mut server, "empty", CdnValue { message: None });
    let mut stream = start(&server, "empty");
    assert_eq!(line(&server, &mut stream), Some(GetResp::Error(no_message())));
    assert_eq!(line(&server, &mut stream), None);
}

#[test]
fn line_follows_what_was_found() {
    let (line, parts) = stream_line(Ok(GetResultSuccess::Success(name("a"), batch(&["x", "y"]))));
    assert_eq!(line.resp, success("a", batch(&["x", "y"])));
    assert_eq!(parts, vec![name("x"), name("y")]);
    let (line, parts) = stream_line(Ok(GetResultSuccess::Success(name("a"), bytes("one"))));
    assert_eq!(line.resp, success("a", bytes("one")));
    assert_eq!(parts, vec![]);
    let (line, parts) = stream_line(Ok(GetResultSuccess::NotFound(name("a"))));
    assert_eq!(line.resp, Some(GetResp::NotFound(name("a"))));
    assert_eq!(parts, vec![]);
    let (line, parts) = stream_line(Err(missing("disk")));
    assert_eq!(line.resp, Some(GetResp::Error(missing("disk"))));
    assert_eq!(parts, vec![]);
    let empty = CdnValue { message: None };
    let (line, parts) = stream_line(Ok(GetResultSuccess::Success(name("a"), empty)));
    assert_eq!(line.resp, Some(GetResp::Error(no_message())));
    assert_eq!(parts, vec![]);
}
