//! The data plane's reading of a client request: the header fields that
//! `httparse` finds, the first `Host` field, the host name without its port,
//! and the backend that the route table gives for it.
use crate::tables::RouteTable;
use crate::text::{ascii, ascii_literal};
use vstd::prelude::*;
use vstd::string::StringSliceAdditionalSpecFns;
use vstd::utf8::{
    decode_utf8, encode_utf8_decode_utf8, is_char_boundary, is_char_boundary_iff_not_is_continuation_byte,
    is_char_boundary_start_end_of_seq, valid_utf8,
};

verus! {

/// How many header fields the request parser has room for.
pub const MAX_HEADERS: usize = 16;

/// One header field of a request, by value: its name and its raw value.
pub struct HeaderField {
    pub name: Vec<u8>,
    pub value: Vec<u8>,
}

/// Header fields as (name, value) byte sequences.
pub open spec fn header_views(fields: Seq<HeaderField>) -> Seq<(Seq<u8>, Seq<u8>)> {
    Seq::new(fields.len(), |i: int| (fields[i].name@, fields[i].value@))
}

/// The header slots that `httparse::Request::parse` leaves in the request,
/// as (name, value) pairs, when it parses `buf` with room for `capacity`
/// headers and returns `Ok` (a complete or a partial head); `None` when it
/// returns an error.
pub uninterp spec fn httparse_header_slots(buf: Seq<u8>, capacity: usize) -> Option<Seq<(Seq<u8>, Seq<u8>)>>;

/// `httparse::Request::parse` on `buf` with `capacity` header slots, each
/// slot left in the request copied out as a `HeaderField`. The contract
/// claims only that the outcome is `httparse_header_slots(buf, capacity)`.
/// `capacity` is bounded so that allocating the slots cannot fail.
#[verifier::external_body]
fn parse_request_headers(buf: &[u8], capacity: usize) -> (r: Option<Vec<HeaderField>>)
    requires
        capacity <= MAX_HEADERS,
    ensures
        r is Some <==> httparse_header_slots(buf@, capacity) is Some,
        r matches Some(fields) ==> header_views(fields@) == httparse_header_slots(buf@, capacity)->0,
{
    let mut slots = vec![httparse::EMPTY_HEADER; capacity];
    let mut req = httparse::Request::new(&mut slots);
    match req.parse(buf) {
        Ok(_) => Some(
            req.headers.iter().map(|h| HeaderField { name: h.name.as_bytes().to_vec(), value: h.value.to_vec() }).collect(),
        ),
        Err(_) => None,
    }
}

/// `std::str::from_utf8`: the text that `bytes` encode, if they are valid
/// UTF-8.
#[verifier::external_body]
fn utf8_text(bytes: &[u8]) -> (r: Option<&str>)
    ensures
        r is Some <==> valid_utf8(bytes@),
        r matches Some(s) ==> s.spec_bytes() == bytes@,
{
    std::str::from_utf8(bytes).ok()
}

/// ASCII lower case of one byte.
pub open spec fn ascii_lower(b: u8) -> u8 {
    if 65 <= b <= 90 {
        (b + 32) as u8
    } else {
        b
    }
}

/// Equality of two byte strings up to ASCII case.
pub open spec fn eq_ignore_ascii_case(a: Seq<u8>, b: Seq<u8>) -> bool {
    a.len() == b.len() && forall|i: int| 0 <= i < a.len() ==> ascii_lower(a[i]) == ascii_lower(b[i])
}

fn lower(b: u8) -> (r: u8)
    ensures
        r == ascii_lower(b),
{
    if 65u8 <= b && b <= 90u8 {
        b + 32u8
    } else {
        b
    }
}

pub fn bytes_eq_ignore_ascii_case(a: &[u8], b: &[u8]) -> (r: bool)
    ensures
        r == eq_ignore_ascii_case(a@, b@),
{
    if a.len() != b.len() {
        return false;
    }
    let mut i: usize = 0;
    while i < a.len()
        invariant
            a@.len() == b@.len(),
            i <= a@.len(),
            forall|j: int| 0 <= j < i ==> ascii_lower(a@[j]) == ascii_lower(b@[j]),
        decreases a@.len() - i,
    {
        if lower(a[i]) != lower(b[i]) {
            return false;
        }
        i = i + 1;
    }
    true
}

/// The field name is `Host`, in any ASCII case.
pub open spec fn is_host_name(name: Seq<u8>) -> bool {
    eq_ignore_ascii_case(name, ascii("Host"@))
}

/// The value of the first field, at or after index `from`, whose name is
/// `Host`.
pub open spec fn first_host_from(fields: Seq<(Seq<u8>, Seq<u8>)>, from: nat) -> Option<Seq<u8>>
    decreases fields.len() - from,
{
    if from >= fields.len() {
        None
    } else if is_host_name(fields[from as int].0) {
        Some(fields[from as int].1)
    } else {
        first_host_from(fields, from + 1)
    }
}

/// Index of the first field named `Host`.
fn find_host_field(fields: &Vec<HeaderField>) -> (r: Option<usize>)
    ensures
        r matches Some(i) ==> i < fields@.len() && first_host_from(header_views(fields@), 0) == Some(
            fields@[i as int].value@,
        ),
        r is None ==> first_host_from(header_views(fields@), 0) is None,
{
    proof {
        reveal_strlit("Host");
    }
    let host = ascii_literal("Host");
    let ghost views = header_views(fields@);
    let mut i: usize = 0;
    while i < fields.len()
        invariant
            i <= fields@.len(),
            views == header_views(fields@),
            host@ == ascii("Host"@),
            first_host_from(views, 0) == first_host_from(views, i as nat),
        decreases fields@.len() - i,
    {
        if bytes_eq_ignore_ascii_case(fields[i].name.as_slice(), host.as_slice()) {
            return Some(i);
        }
        i = i + 1;
    }
    None
}

/// The index of the first `:` in `bytes` at or after `from`, or the length
/// of `bytes` when there is none.
pub open spec fn colon_from(bytes: Seq<u8>, from: nat) -> nat
    decreases bytes.len() - from,
{
    if from >= bytes.len() {
        bytes.len()
    } else if bytes[from as int] == 58 {
        from
    } else {
        colon_from(bytes, from + 1)
    }
}

/// The bytes before the first `:` (all of them when there is none): a host
/// name without its port.
pub open spec fn before_colon(bytes: Seq<u8>) -> Seq<u8> {
    bytes.take(colon_from(bytes, 0) as int)
}

fn colon_index(bytes: &[u8]) -> (r: usize)
    ensures
        r == colon_from(bytes@, 0),
        r <= bytes@.len(),
        r < bytes@.len() ==> bytes@[r as int] == 58,
{
    let mut i: usize = 0;
    while i < bytes.len()
        invariant
            i <= bytes@.len(),
            colon_from(bytes@, 0) == colon_from(bytes@, i as nat),
        decreases bytes@.len() - i,
    {
        if bytes[i] == 58u8 {
            return i;
        }
        i = i + 1;
    }
    i
}

/// The route key named by a `Host` value: the text before the first `:`,
/// when the whole value is valid UTF-8.
pub open spec fn host_key(value: Seq<u8>) -> Option<Seq<char>> {
    if valid_utf8(value) {
        Some(decode_utf8(before_colon(value)))
    } else {
        None
    }
}

/// The route key of a request whose header fields are `fields`.
pub open spec fn host_of_fields(fields: Seq<(Seq<u8>, Seq<u8>)>) -> Option<Seq<char>> {
    match first_host_from(fields, 0) {
        Some(value) => host_key(value),
        None => None,
    }
}

/// The backend that `routes` gives for a request with header fields
/// `fields`.
pub open spec fn backend_of_fields(routes: Map<Seq<char>, Seq<char>>, fields: Seq<(Seq<u8>, Seq<u8>)>) -> Option<
    Seq<char>,
> {
    match host_of_fields(fields) {
        Some(host) => if routes.contains_key(host) {
            Some(routes[host])
        } else {
            None
        },
        None => None,
    }
}

/// The route key of the raw request `request`.
pub open spec fn requested_host(request: Seq<u8>) -> Option<Seq<char>> {
    match httparse_header_slots(request, MAX_HEADERS) {
        Some(fields) => host_of_fields(fields),
        None => None,
    }
}

/// The backend that `routes` gives for the raw request `request`.
pub open spec fn routed_backend(routes: Map<Seq<char>, Seq<char>>, request: Seq<u8>) -> Option<Seq<char>> {
    match httparse_header_slots(request, MAX_HEADERS) {
        Some(fields) => backend_of_fields(routes, fields),
        None => None,
    }
}

/// The backend registered for the host that the first `Host` field of
/// `fields` names (port stripped), if that field exists, is valid UTF-8 and
/// its host has a route.
pub fn backend_for_fields(routes: &RouteTable, fields: &Vec<HeaderField>) -> (r: Option<String>)
    ensures
        r is Some <==> backend_of_fields(routes@, header_views(fields@)) is Some,
        r matches Some(b) ==> backend_of_fields(routes@, header_views(fields@)) == Some(b@),
{
    match find_host_field(fields) {
        None => None,
        Some(i) => {
            let value = fields[i].value.as_slice();
            match utf8_text(value) {
                None => None,
                Some(text) => {
                    let bytes = text.as_bytes();
                    let cut: usize = colon_index(bytes);
                    proof {
                        is_char_boundary_start_end_of_seq(bytes@);
                        if cut < bytes@.len() {
                            is_char_boundary_iff_not_is_continuation_byte(bytes@, cut as int);
                        }
                        assert(is_char_boundary(text.spec_bytes(), cut as int));
                    }
                    let (host, _port) = text.split_at(cut);
                    proof {
                        encode_utf8_decode_utf8(host@);
                        assert(host.spec_bytes() =~= before_colon(value@));
                    }
                    routes.get(host)
                },
            }
        },
    }
}

/// The backend for a raw client request: the request head is parsed with
/// room for `MAX_HEADERS` fields, then routed as `backend_for_fields` does.
pub fn select_backend(routes: &RouteTable, request: &[u8]) -> (r: Option<String>)
    ensures
        r is Some <==> routed_backend(routes@, request@) is Some,
        r matches Some(b) ==> routed_backend(routes@, request@) == Some(b@),
        r is Some <==> (httparse_header_slots(request@, MAX_HEADERS) matches Some(fields) && backend_of_fields(
            routes@,
            fields,
        ) is Some),
        r matches Some(b) ==> httparse_header_slots(request@, MAX_HEADERS) matches Some(fields) && backend_of_fields(
            routes@,
            fields,
        ) == Some(b@),
{
    match parse_request_headers(request, MAX_HEADERS) {
        None => None,
        Some(fields) => backend_for_fields(routes, &fields),
    }
}

} // verus!
