//! How messages become bytes in the database, and back.
use crate::error_handling::{
    decode_failure, encode_failure, undecodable, EncodeError, ErrorModel, InternalError,
};
use prost::encoding::{self, DecodeContext, WireType};
use prost::Message;
use vstd::prelude::*;
use vstd::slice::slice_to_vec;
use vstd::utf8::encode_utf8;

verus! {

/// A message that can be written to the database under the schema `W` and read back.
///
/// The schema fixes the bytes: [`ProstMessage::encoding`] is what a message is written as,
/// and [`ProstMessage::decoding`] is what bytes are read as, or why they cannot be. Each has a
/// body that is some function of its argument, one for every type and schema and otherwise
/// unknown, for implementations outside of this library: there the two stand for what the code
/// does, which has to be as the contracts of the methods say.
pub trait ProstMessage<W>: DeepView + Sized {
    /// The bytes of `message`.
    open spec fn encoding(message: <Self as DeepView>::V) -> Seq<u8> {
        arbitrary::<spec_fn(Option<(Self, W)>, <Self as DeepView>::V) -> Seq<u8>>()(None, message)
    }

    /// The message in `bytes`, or a description of what is wrong with them.
    open spec fn decoding(bytes: Seq<u8>) -> Result<<Self as DeepView>::V, Seq<char>> {
        arbitrary::<
            spec_fn(Option<(Self, W)>, Seq<u8>) -> Result<<Self as DeepView>::V, Seq<char>>,
        >()(None, bytes)
    }

    /// Writes the message into a buffer that grows, so that there is always room for it. What
    /// was written reads back as the message.
    fn encode_message(&self) -> (r: Result<Vec<u8>, EncodeError>)
        ensures
            r matches Ok(bytes) && bytes@ == Self::encoding(self.deep_view()),
            Self::decoding(Self::encoding(self.deep_view())) == Ok::<
                <Self as DeepView>::V,
                Seq<char>,
            >(self.deep_view()),
    ;

    /// Reads a message.
    fn decode_message(bytes: &Vec<u8>) -> (r: Result<Self, String>)
        ensures
            match r {
                Ok(message) => Self::decoding(bytes@) == Ok::<<Self as DeepView>::V, Seq<char>>(
                    message.deep_view(),
                ),
                Err(description) => Self::decoding(bytes@) == Err::<
                    <Self as DeepView>::V,
                    Seq<char>,
                >(description@),
            },
    ;
}

/// What a fallible operation gave, with value and error as what they say.
pub open spec fn outcome<T: DeepView>(r: Result<T, InternalError>) -> Result<T::V, ErrorModel> {
    match r {
        Ok(value) => Ok(value.deep_view()),
        Err(e) => Err(e.deep_view()),
    }
}

/// What an operation that gives bytes gave.
pub open spec fn bytes_outcome(r: Result<Vec<u8>, InternalError>) -> Result<Seq<u8>, ErrorModel> {
    match r {
        Ok(bytes) => Ok(bytes@),
        Err(e) => Err(e.deep_view()),
    }
}

/// The bytes that the database keeps for `message`.
pub open spec fn message_bytes<W, M: ProstMessage<W>>(message: M::V) -> Seq<u8> {
    M::encoding(message)
}

/// The message that the database finds in `bytes`, or the error of not finding one.
pub open spec fn message_in<W, M: ProstMessage<W>>(bytes: Seq<u8>) -> Result<M::V, ErrorModel> {
    match M::decoding(bytes) {
        Ok(message) => Ok(message),
        Err(description) => Err(undecodable(description)),
    }
}

/// The bytes of `message` read back as it.
pub open spec fn reads_back<W, M: ProstMessage<W>>(message: M::V) -> bool {
    message_in::<W, M>(message_bytes::<W, M>(message)) == Ok::<M::V, ErrorModel>(message)
}

/// Messages to and from bytes, with the failures as the database reports them.
pub trait ProstMessageExt<W>: ProstMessage<W> {
    /// The bytes of the message. They read back as the message.
    fn to_bytes(&self) -> (r: Result<Vec<u8>, InternalError>)
        ensures
            r matches Ok(bytes) && bytes@ == message_bytes::<W, Self>(self.deep_view()),
            reads_back::<W, Self>(self.deep_view()),
    ;

    /// The message in the bytes.
    fn from_bytes(msg_bytes: &Vec<u8>) -> (r: Result<Self, InternalError>)
        ensures
            outcome(r) == message_in::<W, Self>(msg_bytes@),
    ;
}

impl<W, T: ProstMessage<W>> ProstMessageExt<W> for T {
    fn to_bytes(&self) -> (r: Result<Vec<u8>, InternalError>) {
        match self.encode_message() {
            Ok(msg_bytes) => Ok(msg_bytes),
            Err(e) => Err(encode_failure(e)),
        }
    }

    fn from_bytes(msg_bytes: &Vec<u8>) -> (r: Result<Self, InternalError>) {
        match Self::decode_message(msg_bytes) {
            Ok(v) => Ok(v),
            Err(description) => Err(decode_failure(description)),
        }
    }
}

/// The base 128 digits of `n`, least significant first, all but the last marked by the top
/// bit.
pub open spec fn varint(n: nat) -> Seq<u8>
    decreases n,
{
    if n < 128 {
        seq![n as u8]
    } else {
        seq![(n % 128 + 128) as u8] + varint(n / 128)
    }
}

/// A message whose only field has the number one and holds `payload`, which counts as absent
/// if it is empty.
pub open spec fn field_one(payload: Seq<u8>) -> Seq<u8> {
    if payload.len() == 0 {
        Seq::empty()
    } else {
        seq![0x0au8] + varint(payload.len()) + payload
    }
}

/// The key of a field at the beginning of `bytes` as `prost` reads it: its number, its wire type
/// and the bytes behind it, or a description of what is wrong.
pub uninterp spec fn key_in(bytes: Seq<u8>) -> Result<(u32, u8, Seq<u8>), Seq<char>>;

/// The text of a field of this wire type at the beginning of `bytes` as `prost` reads it, and the
/// bytes behind it, or a description of what is wrong with the field `field` of `message`.
pub uninterp spec fn string_field_in(
    wire_type: u8,
    bytes: Seq<u8>,
    message: Seq<char>,
    field: Seq<char>,
) -> Result<(Seq<char>, Seq<u8>), Seq<char>>;

/// The byte string of a field of this wire type at the beginning of `bytes` as `prost` reads it,
/// and the bytes behind it, or a description of what is wrong with the field `field` of
/// `message`.
pub uninterp spec fn bytes_field_in(
    wire_type: u8,
    bytes: Seq<u8>,
    message: Seq<char>,
    field: Seq<char>,
) -> Result<(Seq<u8>, Seq<u8>), Seq<char>>;

/// The bytes behind a field of this wire type and number at the beginning of `bytes`, as `prost`
/// passes over it, or a description of what is wrong.
pub uninterp spec fn skipped_in(wire_type: u8, tag: u32, bytes: Seq<u8>) -> Result<
    Seq<u8>,
    Seq<char>,
>;

/// What reading a key gave.
pub open spec fn key_read(r: Result<(u32, u8, Vec<u8>), String>) -> Result<
    (u32, u8, Seq<u8>),
    Seq<char>,
> {
    match r {
        Ok((tag, wire_type, rest)) => Ok((tag, wire_type, rest@)),
        Err(description) => Err(description@),
    }
}

/// What reading a text gave.
pub open spec fn string_read(r: Result<(String, Vec<u8>), String>) -> Result<
    (Seq<char>, Seq<u8>),
    Seq<char>,
> {
    match r {
        Ok((text, rest)) => Ok((text@, rest@)),
        Err(description) => Err(description@),
    }
}

/// What reading a byte string gave.
pub open spec fn bytes_read(r: Result<(Vec<u8>, Vec<u8>), String>) -> Result<
    (Seq<u8>, Seq<u8>),
    Seq<char>,
> {
    match r {
        Ok((value, rest)) => Ok((value@, rest@)),
        Err(description) => Err(description@),
    }
}

/// What passing over a field gave.
pub open spec fn skip_read(r: Result<Vec<u8>, String>) -> Result<Seq<u8>, Seq<char>> {
    match r {
        Ok(rest) => Ok(rest@),
        Err(description) => Err(description@),
    }
}

/// The text in the message `bytes`, whose field one, `field`, is a text and whose other fields
/// mean nothing. Of several fields one the last counts; without one it is `text`.
///
/// Every field takes up bytes, so what follows a field is shorter.
pub open spec fn string_value_in(
    bytes: Seq<u8>,
    text: Seq<char>,
    message: Seq<char>,
    field: Seq<char>,
) -> Result<Seq<char>, Seq<char>>
    decreases bytes.len(),
{
    if bytes.len() == 0 {
        Ok(text)
    } else {
        match key_in(bytes) {
            Err(description) => Err(description),
            Ok((tag, wire_type, rest)) => if tag == 1 {
                match string_field_in(wire_type, rest, message, field) {
                    Err(description) => Err(description),
                    Ok((value, more)) => if more.len() < bytes.len() {
                        string_value_in(more, value, message, field)
                    } else {
                        arbitrary()
                    },
                }
            } else {
                match skipped_in(wire_type, tag, rest) {
                    Err(description) => Err(description),
                    Ok(more) => if more.len() < bytes.len() {
                        string_value_in(more, text, message, field)
                    } else {
                        arbitrary()
                    },
                }
            },
        }
    }
}

/// The byte string in the message `bytes`, whose field one, `field`, is a byte string and whose
/// other fields mean nothing. Of several fields one the last counts; without one it is `value`.
///
/// Every field takes up bytes, so what follows a field is shorter.
pub open spec fn bytes_value_in(
    bytes: Seq<u8>,
    value: Seq<u8>,
    message: Seq<char>,
    field: Seq<char>,
) -> Result<Seq<u8>, Seq<char>>
    decreases bytes.len(),
{
    if bytes.len() == 0 {
        Ok(value)
    } else {
        match key_in(bytes) {
            Err(description) => Err(description),
            Ok((tag, wire_type, rest)) => if tag == 1 {
                match bytes_field_in(wire_type, rest, message, field) {
                    Err(description) => Err(description),
                    Ok((new, more)) => if more.len() < bytes.len() {
                        bytes_value_in(more, new, message, field)
                    } else {
                        arbitrary()
                    },
                }
            } else {
                match skipped_in(wire_type, tag, rest) {
                    Err(description) => Err(description),
                    Ok(more) => if more.len() < bytes.len() {
                        bytes_value_in(more, value, message, field)
                    } else {
                        arbitrary()
                    },
                }
            },
        }
    }
}

/// The message `bytes` reads as `text`, whatever it is called.
pub open spec fn reads_as_string(bytes: Seq<u8>, text: Seq<char>) -> bool {
    forall|message: Seq<char>, field: Seq<char>|
        #[trigger] string_value_in(bytes, Seq::empty(), message, field) == Ok::<
            Seq<char>,
            Seq<char>,
        >(text)
}

/// The message `bytes` reads as `value`, whatever it is called.
pub open spec fn reads_as_bytes(bytes: Seq<u8>, value: Seq<u8>) -> bool {
    forall|message: Seq<char>, field: Seq<char>|
        #[trigger] bytes_value_in(bytes, Seq::empty(), message, field) == Ok::<
            Seq<u8>,
            Seq<char>,
        >(value)
}

/// `prost::Message::encode` of a `String`, into a new buffer.
///
/// The buffer grows as needed, so there is space. The bytes are the field that
/// [`field_one`] says, and reading them field by field gives the text back.
#[verifier::external_body]
pub(crate) fn encode_string_value(text: &String) -> (r: Result<Vec<u8>, EncodeError>)
    ensures
        r is Ok,
        r->Ok_0@ == field_one(encode_utf8(text@)),
        reads_as_string(r->Ok_0@, text@),
{
    let mut bytes = Vec::new();
    match text.encode(&mut bytes) {
        Ok(()) => Ok(bytes),
        Err(e) => Err(
            EncodeError { required: e.required_capacity() as u64, remaining: e.remaining() as u64 },
        ),
    }
}

/// `prost::Message::encode` of a `Vec<u8>`, into a new buffer.
///
/// The buffer grows as needed, so there is space. The bytes are the field that
/// [`field_one`] says, and reading them field by field gives the byte string back.
#[verifier::external_body]
pub(crate) fn encode_bytes_value(value: &Vec<u8>) -> (r: Result<Vec<u8>, EncodeError>)
    ensures
        r is Ok,
        r->Ok_0@ == field_one(value@),
        reads_as_bytes(r->Ok_0@, value@),
{
    let mut bytes = Vec::new();
    match value.encode(&mut bytes) {
        Ok(()) => Ok(bytes),
        Err(e) => Err(
            EncodeError { required: e.required_capacity() as u64, remaining: e.remaining() as u64 },
        ),
    }
}

/// `prost::encoding::decode_key`: the key of the field at the beginning of the bytes. [`key_in`]
/// names the result. A key takes at least one byte, and there are six wire types.
#[verifier::external_body]
fn decode_key(bytes: &Vec<u8>) -> (r: Result<(u32, u8, Vec<u8>), String>)
    ensures
        key_read(r) == key_in(bytes@),
        r matches Ok(key) ==> key.2@.len() < bytes@.len(),
        r matches Ok(key) ==> key.1 <= 5,
{
    let mut buf = bytes.as_slice();
    let (tag, wire_type) = encoding::decode_key(&mut buf).map_err(|e| e.to_string())?;
    Ok((tag, wire_type as u8, buf.to_vec()))
}

/// `prost::encoding::string::merge` into a new text, with the message and the field added to an
/// error by `prost::DecodeError::push`. [`string_field_in`] names the result.
#[verifier::external_body]
fn merge_string(
    wire_type: u8,
    bytes: &Vec<u8>,
    message: &'static str,
    field: &'static str,
) -> (r: Result<(String, Vec<u8>), String>)
    requires
        wire_type <= 5,
    ensures
        string_read(r) == string_field_in(wire_type, bytes@, message@, field@),
        r matches Ok(value) ==> value.1@.len() <= bytes@.len(),
{
    let wire_type = WireType::try_from(u64::from(wire_type)).map_err(|e| e.to_string())?;
    let (mut text, mut buf) = (String::new(), bytes.as_slice());
    let merged = encoding::string::merge(wire_type, &mut text, &mut buf, DecodeContext::default());
    match merged {
        Ok(()) => Ok((text, buf.to_vec())),
        Err(mut e) => {
            e.push(message, field);
            Err(e.to_string())
        },
    }
}

/// `prost::encoding::bytes::merge` into a new byte string, with the message and the field added
/// to an error by `prost::DecodeError::push`. [`bytes_field_in`] names the result.
#[verifier::external_body]
fn merge_bytes(
    wire_type: u8,
    bytes: &Vec<u8>,
    message: &'static str,
    field: &'static str,
) -> (r: Result<(Vec<u8>, Vec<u8>), String>)
    requires
        wire_type <= 5,
    ensures
        bytes_read(r) == bytes_field_in(wire_type, bytes@, message@, field@),
        r matches Ok(value) ==> value.1@.len() <= bytes@.len(),
{
    let wire_type = WireType::try_from(u64::from(wire_type)).map_err(|e| e.to_string())?;
    let (mut value, mut buf) = (Vec::new(), bytes.as_slice());
    let merged = encoding::bytes::merge(wire_type, &mut value, &mut buf, DecodeContext::default());
    match merged {
        Ok(()) => Ok((value, buf.to_vec())),
        Err(mut e) => {
            e.push(message, field);
            Err(e.to_string())
        },
    }
}

/// `prost::encoding::skip_field`: passes over a field. [`skipped_in`] names the result.
#[verifier::external_body]
fn skip_field(wire_type: u8, tag: u32, bytes: &Vec<u8>) -> (r: Result<Vec<u8>, String>)
    requires
        wire_type <= 5,
    ensures
        skip_read(r) == skipped_in(wire_type, tag, bytes@),
        r matches Ok(rest) ==> rest@.len() <= bytes@.len(),
{
    let wire_type = WireType::try_from(u64::from(wire_type)).map_err(|e| e.to_string())?;
    let mut buf = bytes.as_slice();
    let skipped = encoding::skip_field(wire_type, tag, &mut buf, DecodeContext::default());
    skipped.map_err(|e| e.to_string())?;
    Ok(buf.to_vec())
}

/// Reads the message `message`, whose field one, `field`, is a text.
pub(crate) fn decode_string_value(
    bytes: &Vec<u8>,
    message: &'static str,
    field: &'static str,
) -> (r: Result<String, String>)
    ensures
        match r {
            Ok(text) => string_value_in(bytes@, Seq::empty(), message@, field@) == Ok::<
                Seq<char>,
                Seq<char>,
            >(text@),
            Err(description) => string_value_in(bytes@, Seq::empty(), message@, field@) == Err::<
                Seq<char>,
                Seq<char>,
            >(description@),
        },
{
    let mut text = String::new();
    let mut buf = slice_to_vec(bytes.as_slice());
    while buf.len() > 0
        invariant
            string_value_in(buf@, text@, message@, field@) == string_value_in(
                bytes@,
                Seq::empty(),
                message@,
                field@,
            ),
        decreases buf.len(),
    {
        let (tag, wire_type, rest) = match decode_key(&buf) {
            Ok(key) => key,
            Err(description) => {
                return Err(description);
            },
        };
        if tag == 1 {
            match merge_string(wire_type, &rest, message, field) {
                Ok((value, more)) => {
                    text = value;
                    buf = more;
                },
                Err(description) => {
                    return Err(description);
                },
            }
        } else {
            match skip_field(wire_type, tag, &rest) {
                Ok(more) => {
                    buf = more;
                },
                Err(description) => {
                    return Err(description);
                },
            }
        }
    }
    Ok(text)
}

/// Reads the message `message`, whose field one, `field`, is a byte string.
pub(crate) fn decode_bytes_value(
    bytes: &Vec<u8>,
    message: &'static str,
    field: &'static str,
) -> (r: Result<Vec<u8>, String>)
    ensures
        match r {
            Ok(value) => bytes_value_in(bytes@, Seq::empty(), message@, field@) == Ok::<
                Seq<u8>,
                Seq<char>,
            >(value@),
            Err(description) => bytes_value_in(bytes@, Seq::empty(), message@, field@) == Err::<
                Seq<u8>,
                Seq<char>,
            >(description@),
        },
{
    let mut value: Vec<u8> = Vec::new();
    let mut buf = slice_to_vec(bytes.as_slice());
    while buf.len() > 0
        invariant
            bytes_value_in(buf@, value@, message@, field@) == bytes_value_in(
                bytes@,
                Seq::empty(),
                message@,
                field@,
            ),
        decreases buf.len(),
    {
        let (tag, wire_type, rest) = match decode_key(&buf) {
            Ok(key) => key,
            Err(description) => {
                return Err(description);
            },
        };
        if tag == 1 {
            match merge_bytes(wire_type, &rest, message, field) {
                Ok((new, more)) => {
                    value = new;
                    buf = more;
                },
                Err(description) => {
                    return Err(description);
                },
            }
        } else {
            match skip_field(wire_type, tag, &rest) {
                Ok(more) => {
                    buf = more;
                },
                Err(description) => {
                    return Err(description);
                },
            }
        }
    }
    Ok(value)
}

} // verus!
