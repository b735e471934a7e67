//! The part of the HTTP transport that is decided here: what is posted for a
//! call, and what the outcome of the exchange means.

use vstd::prelude::*;
use crate::request::Request;
use crate::members::names_ascend;
use crate::wire::{lemma_held_decreases, wires, Wire, WireValue};

verus! {

/// Why an exchange with the remote endpoint brought back no value.
#[derive(Debug, Clone, Copy, PartialEq, Eq, Structural)]
pub enum TransportError {
    /// The exchange failed at the HTTP level: there was no response, or its
    /// status was not a success.
    HttpStatus,
    /// The response body was not a complete, well-formed encoded value.
    Decode,
}

/// `xmlrpc::Value`. Nothing of it is seen here; what is said of a value is
/// said through [`value_is_plain`] and [`value_content`], and believed, not
/// proved.
#[verifier::external_type_specification]
#[verifier::external_body]
pub struct ExValue(xmlrpc::Value);

/// Whether an `xmlrpc::Value` is a `String`, an `Int`, an `Array` of plain
/// values or a `Struct` of plain values: whether it is made of the four kinds
/// of [`Wire`] and of nothing else, all the way down.
pub uninterp spec fn value_is_plain(value: xmlrpc::Value) -> bool;

/// What a plain `xmlrpc::Value` holds: the text of a `String`, the number of
/// an `Int`, the contents of the elements of an `Array` in their order, and
/// the names and contents of the members of a `Struct` in the order of its
/// map. Of a value that is not plain nothing is said.
pub uninterp spec fn value_content(value: xmlrpc::Value) -> Wire;

/// The XML document that `xmlrpc::Request::write_as_xml` writes for a call of
/// `procedure` with the arguments `args`. The document is not described here,
/// only named: equal calls are written as equal documents.
pub uninterp spec fn request_xml(procedure: Seq<char>, args: Seq<Wire>) -> Seq<u8>;

/// Whether each of `values` is plain.
pub open spec fn all_plain(values: Seq<xmlrpc::Value>) -> bool {
    forall|i: int| 0 <= i < values.len() ==> value_is_plain(#[trigger] values[i])
}

/// Whether the value of each of `members` is plain.
pub open spec fn members_plain(members: Seq<(String, xmlrpc::Value)>) -> bool {
    forall|i: int| 0 <= i < members.len() ==> value_is_plain((#[trigger] members[i]).1)
}

/// The content of each of `values`, in order.
pub open spec fn contents(values: Seq<xmlrpc::Value>) -> Seq<Wire> {
    Seq::new(values.len(), |i: int| value_content(values[i]))
}

/// The content of each of `members` under its name, in order.
pub open spec fn member_contents(members: Seq<(String, xmlrpc::Value)>) -> Seq<(Seq<char>, Wire)> {
    Seq::new(members.len(), |i: int| (members[i].0@, value_content(members[i].1)))
}

/// `xmlrpc::Value::from` on a `&str`: a `Value::String` of the same text.
#[verifier::external_body]
fn string_value(text: &str) -> (value: xmlrpc::Value)
    ensures
        value_is_plain(value),
        value_content(value) == Wire::String(text@),
{
    xmlrpc::Value::from(text)
}

/// `xmlrpc::Value::from` on an `i32`: a `Value::Int` of the same number.
#[verifier::external_body]
fn int_value(number: i32) -> (value: xmlrpc::Value)
    ensures
        value_is_plain(value),
        value_content(value) == Wire::Int(number),
{
    xmlrpc::Value::from(number)
}

/// `xmlrpc::Value::Array` of `items`: it holds them in their order, and is
/// plain as they are.
#[verifier::external_body]
fn array_value(items: Vec<xmlrpc::Value>) -> (value: xmlrpc::Value)
    requires
        all_plain(items@),
    ensures
        value_is_plain(value),
        value_content(value) == Wire::Array(contents(items@)),
{
    xmlrpc::Value::Array(items)
}

/// `xmlrpc::Value::Struct` of the `BTreeMap` collected from `members`. The
/// map walks its keys in the ascending order of `String`, which goes character
/// by character; `members` come in that order with no name twice, so the
/// struct holds them as they come, and is plain as their values are.
#[verifier::external_body]
fn struct_value(members: Vec<(String, xmlrpc::Value)>) -> (value: xmlrpc::Value)
    requires
        members_plain(members@),
        names_ascend(member_contents(members@)),
    ensures
        value_is_plain(value),
        value_content(value) == Wire::Struct(member_contents(members@)),
{
    xmlrpc::Value::Struct(members.into_iter().collect())
}

/// `xmlrpc::Request::write_as_xml`, into a fresh buffer, on the request that
/// `xmlrpc::Request::new` makes for `procedure` and `xmlrpc::Request::arg`
/// extends by each of `args` in turn. The arguments are plain: the writer
/// gives up on some dates, which no plain value holds. The document then
/// depends on nothing but the call, and writing to a `Vec` does not fail.
#[verifier::external_body]
fn write_as_xml(procedure: &str, args: Vec<xmlrpc::Value>) -> (body: Vec<u8>)
    requires
        all_plain(args@),
    ensures
        body@ == request_xml(procedure@, contents(args@)),
{
    let mut call = xmlrpc::Request::new(procedure);
    for value in args {
        call = call.arg(value);
    }
    let mut body = Vec::new();
    call.write_as_xml(&mut body).expect("could not write request to buffer");
    body
}

/// The plain `xmlrpc::Value` with the content of `value`.
fn to_xmlrpc(value: &WireValue) -> (converted: xmlrpc::Value)
    ensures
        value_is_plain(converted),
        value_content(converted) == value@,
    decreases value,
{
    match value {
        WireValue::String(text) => string_value(text.as_str()),
        WireValue::Int(number) => int_value(*number),
        WireValue::Array(items) => {
            let mut converted: Vec<xmlrpc::Value> = Vec::new();
            let mut i: usize = 0;
            while i < items.len()
                invariant
                    i <= items.len(),
                    converted.len() == i,
                    value is Array,
                    value->Array_0 == *items,
                    all_plain(converted@),
                    forall|j: int| 0 <= j < i ==> value_content(converted[j]) == items[j]@,
                decreases items.len() - i,
            {
                converted.push(to_xmlrpc(&items[i]));
                i += 1;
            }
            assert(contents(converted@) =~= value@->Array_0);
            array_value(converted)
        },
        WireValue::Struct(members) => {
            let entries = members.entries();
            let mut converted: Vec<(String, xmlrpc::Value)> = Vec::new();
            let mut i: usize = 0;
            while i < entries.len()
                invariant
                    i <= entries.len(),
                    converted.len() == i,
                    value is Struct,
                    value->Struct_0 == *members,
                    entries@ == members.held(),
                    members_plain(converted@),
                    forall|j: int|
                        0 <= j < i ==> converted[j].0@ == entries[j].0@ && value_content(
                            converted[j].1,
                        ) == entries[j].1@,
                decreases entries.len() - i,
            {
                proof {
                    lemma_held_decreases(*members, i as int);
                }
                converted.push((entries[i].0.clone(), to_xmlrpc(&entries[i].1)));
                i += 1;
            }
            assert(member_contents(converted@) =~= members@);
            assert(value@->Struct_0 =~= members@);
            struct_value(converted)
        },
    }
}

/// The XML document that carries `request`.
pub fn encode(request: &Request) -> (body: Vec<u8>)
    ensures
        body@ == request_xml(request@.procedure, request@.args),
{
    let args = request.args();
    let mut converted: Vec<xmlrpc::Value> = Vec::new();
    let mut i: usize = 0;
    while i < args.len()
        invariant
            i <= args.len(),
            converted.len() == i,
            all_plain(converted@),
            forall|j: int| 0 <= j < i ==> value_content(converted[j]) == args[j]@,
        decreases args.len() - i,
    {
        converted.push(to_xmlrpc(&args[i]));
        i += 1;
    }
    assert(contents(converted@) =~= wires(args@));
    write_as_xml(request.procedure(), converted)
}

/// What is to be posted for one call.
#[derive(Debug, PartialEq)]
pub struct HttpPost {
    /// The endpoint to post to.
    pub url: String,
    /// The encoded call.
    pub body: Vec<u8>,
    /// The value of the `Content-Length` header: the length of `body`.
    pub content_length: u64,
}

/// Frames an encoded call for posting to `endpoint_url`: the body goes out
/// as it is, with its length as the content length.
pub fn frame(endpoint_url: &str, body: Vec<u8>) -> (post: HttpPost)
    ensures
        post.url@ == endpoint_url@,
        post.body@ == body@,
        post.content_length == body@.len(),
{
    let content_length = body.len() as u64;
    HttpPost { url: endpoint_url.to_owned(), body, content_length }
}

/// Encodes `request` and frames it for posting to `endpoint_url`.
pub fn prepare(endpoint_url: &str, request: &Request) -> (post: HttpPost)
    ensures
        post.url@ == endpoint_url@,
        post.body@ == request_xml(request@.procedure, request@.args),
        post.content_length == post.body@.len(),
{
    frame(endpoint_url, encode(request))
}

/// Whether an HTTP status code reports success.
pub open spec fn is_success(status: u16) -> bool {
    200 <= status < 300
}

/// Whether a response with the status code `status` is to be read at all.
pub fn succeeded(status: u16) -> (ok: bool)
    ensures
        ok == is_success(status),
{
    200 <= status && status < 300
}

/// What an exchange ends in. `status` is the status code of the response, if
/// there was one; `decoded` is the value its body decoded to, if it did. A
/// status that is no success fails the exchange whatever the body holds.
pub open spec fn exchange_outcome(status: Option<u16>, decoded: Option<WireValue>) -> Result<
    WireValue,
    TransportError,
> {
    match (status, decoded) {
        (Some(code), Some(value)) if is_success(code) => Ok(value),
        (Some(code), None) if is_success(code) => Err(TransportError::Decode),
        _ => Err(TransportError::HttpStatus),
    }
}

/// Judges one exchange; see [`exchange_outcome`].
pub fn receive(status: Option<u16>, decoded: Option<WireValue>) -> (reply: Result<
    WireValue,
    TransportError,
>)
    ensures
        reply == exchange_outcome(status, decoded),
{
    match status {
        Some(code) => {
            if succeeded(code) {
                match decoded {
                    Some(value) => Ok(value),
                    None => Err(TransportError::Decode),
                }
            } else {
                Err(TransportError::HttpStatus)
            }
        },
        None => Err(TransportError::HttpStatus),
    }
}

} // verus!
