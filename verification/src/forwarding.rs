//! The request mutation applied on the way to a backend: the path in the
//! request line is swapped for its registered rewrite, and the client's
//! address is announced in `X-Forwarded-For` and `X-Real-IP` lines right
//! after the request line. The rest of the request is passed on untouched.
use crate::tables::RewriteTable;
use crate::text::{append_bytes, ascii, ascii_literal};
use vstd::prelude::*;

verus! {

/// The first index in `[from, to)` where `bytes` holds `b`, or `to`.
pub open spec fn byte_from(bytes: Seq<u8>, b: u8, from: nat, to: nat) -> nat
    decreases to - from,
{
    if from >= to {
        to
    } else if bytes[from as int] == b {
        from
    } else {
        byte_from(bytes, b, from + 1, to)
    }
}

/// The first index at or after `from` where a CR LF pair starts.
pub open spec fn crlf_from(bytes: Seq<u8>, from: nat) -> Option<nat>
    decreases bytes.len() - from,
{
    if from + 2 > bytes.len() {
        None
    } else if bytes[from as int] == 13 && bytes[(from + 1) as int] == 10 {
        Some(from)
    } else {
        crlf_from(bytes, from + 1)
    }
}

pub open spec fn crlf() -> Seq<u8> {
    seq![13u8, 10u8]
}

/// The header lines that tell a backend who the client is.
pub open spec fn forwarding_headers(client_ip: Seq<u8>) -> Seq<u8> {
    ascii("X-Forwarded-For: "@) + client_ip + crlf() + ascii("X-Real-IP: "@) + client_ip + crlf()
}

/// A request line with its path rewritten. The target is what follows the
/// first space, up to the next space; its path is the target up to the
/// first `?`. When the path has a registered rewrite, the path is replaced
/// by it and the query and everything else stay; otherwise the line is kept.
pub open spec fn rewritten_request_line(rewrites: Map<Seq<u8>, Seq<u8>>, line: Seq<u8>) -> Seq<u8> {
    let sp1 = byte_from(line, 32, 0, line.len());
    if sp1 == line.len() {
        line
    } else {
        let start = sp1 + 1;
        let sp2 = byte_from(line, 32, start, line.len());
        let q = byte_from(line, 63, start, sp2);
        let path = line.subrange(start as int, q as int);
        if rewrites.contains_key(path) {
            line.take(start as int) + rewrites[path] + line.skip(q as int)
        } else {
            line
        }
    }
}

/// The bytes sent to the backend for the request bytes `request` of a
/// client at `client_ip`: the request line rewritten, then its CR LF, the
/// forwarding headers, and everything after the request line as it was. A
/// request without a complete first line is passed on unchanged.
pub open spec fn forwarded_bytes(rewrites: Map<Seq<u8>, Seq<u8>>, request: Seq<u8>, client_ip: Seq<u8>) -> Seq<u8> {
    match crlf_from(request, 0) {
        None => request,
        Some(end) => rewritten_request_line(rewrites, request.take(end as int)) + crlf()
            + forwarding_headers(client_ip) + request.skip((end + 2) as int),
    }
}

fn find_byte(bytes: &[u8], b: u8, from: usize, to: usize) -> (r: usize)
    requires
        from <= to <= bytes@.len(),
    ensures
        r == byte_from(bytes@, b, from as nat, to as nat),
        from <= r <= to,
        r < to ==> bytes@[r as int] == b,
{
    let mut i: usize = from;
    while i < to
        invariant
            from <= i <= to <= bytes@.len(),
            byte_from(bytes@, b, from as nat, to as nat) == byte_from(bytes@, b, i as nat, to as nat),
        decreases to - i,
    {
        if bytes[i] == b {
            return i;
        }
        i = i + 1;
    }
    i
}

fn find_crlf(bytes: &[u8]) -> (r: Option<usize>)
    ensures
        r matches Some(i) ==> crlf_from(bytes@, 0) == Some(i as nat) && i + 2 <= bytes@.len(),
        r is None ==> crlf_from(bytes@, 0) is None,
{
    let mut i: usize = 0;
    while i < bytes.len() && bytes.len() - i >= 2
        invariant
            i <= bytes@.len(),
            crlf_from(bytes@, 0) == crlf_from(bytes@, i as nat),
        decreases bytes@.len() - i,
    {
        if bytes[i] == 13u8 && bytes[i + 1] == 10u8 {
            return Some(i);
        }
        i = i + 1;
    }
    None
}

fn append_rewritten_line(out: &mut Vec<u8>, rewrites: &RewriteTable, line: &[u8])
    ensures
        final(out)@ == old(out)@ + rewritten_request_line(rewrites@, line@),
{
    let len: usize = line.len();
    let sp1: usize = find_byte(line, 32u8, 0, len);
    if sp1 == len {
        append_bytes(out, line);
        return;
    }
    let start: usize = sp1 + 1;
    let sp2: usize = find_byte(line, 32u8, start, len);
    let q: usize = find_byte(line, 63u8, start, sp2);
    let (head, tail) = line.split_at(q);
    let (before, path) = head.split_at(start);
    assert(path@ =~= line@.subrange(start as int, q as int));
    match rewrites.get(path) {
        Some(new_path) => {
            append_bytes(out, before);
            append_bytes(out, new_path.as_slice());
            append_bytes(out, tail);
            assert(before@ =~= line@.take(start as int));
            assert(tail@ =~= line@.skip(q as int));
            assert(final(out)@ =~= old(out)@ + rewritten_request_line(rewrites@, line@));
        },
        None => {
            append_bytes(out, line);
        },
    }
}

/// The bytes to send to the backend for a client request; see
/// `forwarded_bytes`.
pub fn forwarded_request(rewrites: &RewriteTable, request: &[u8], client_ip: &[u8]) -> (r: Vec<u8>)
    ensures
        r@ == forwarded_bytes(rewrites@, request@, client_ip@),
{
    let end: usize = match find_crlf(request) {
        Some(i) => i,
        None => return vstd::slice::slice_to_vec(request),
    };
    let (line, rest) = request.split_at(end);
    let (_, after) = rest.split_at(2);
    let mut out: Vec<u8> = Vec::new();
    append_rewritten_line(&mut out, rewrites, line);
    proof {
        reveal_strlit("X-Forwarded-For: ");
        reveal_strlit("X-Real-IP: ");
    }
    let newline: Vec<u8> = vec![13u8, 10u8];
    append_bytes(&mut out, newline.as_slice());
    let xff = ascii_literal("X-Forwarded-For: ");
    append_bytes(&mut out, xff.as_slice());
    append_bytes(&mut out, client_ip);
    append_bytes(&mut out, newline.as_slice());
    let real_ip = ascii_literal("X-Real-IP: ");
    append_bytes(&mut out, real_ip.as_slice());
    append_bytes(&mut out, client_ip);
    append_bytes(&mut out, newline.as_slice());
    append_bytes(&mut out, after);
    assert(line@ =~= request@.take(end as int));
    assert(after@ =~= request@.skip((end + 2) as int));
    assert(out@ =~= forwarded_bytes(rewrites@, request@, client_ip@));
    out
}

} // verus!
