use vstd::prelude::*;

use crate::bytes::{append_bytes, decimal_bytes, decimal_of};
use crate::method::{method_token, Method};

verus! {

/// ` HTTP/1.1\r\nHost: `
pub open spec fn version_and_host() -> Seq<u8> {
    seq![32u8, 72, 84, 84, 80, 47, 49, 46, 49, 13, 10, 72, 111, 115, 116, 58, 32]
}

/// `Content-Length: `
pub open spec fn content_length_prefix() -> Seq<u8> {
    seq![67u8, 111, 110, 116, 101, 110, 116, 45, 76, 101, 110, 103, 116, 104, 58, 32]
}

pub open spec fn crlf() -> Seq<u8> {
    seq![13u8, 10]
}

/// `: `
pub open spec fn colon_space() -> Seq<u8> {
    seq![58u8, 32]
}

/// Each header as `<Name>: <Value>\r\n`, in the order given.
pub open spec fn header_lines(h: Seq<(Seq<u8>, Seq<u8>)>) -> Seq<u8>
    decreases h.len(),
{
    if h.len() == 0 {
        Seq::empty()
    } else {
        header_lines(h.drop_last()) + h.last().0 + colon_space() + h.last().1 + crlf()
    }
}

/// The request head: the request line and `Host`, the headers, a
/// `Content-Length` when a body is sent, and the blank line.
pub open spec fn request_bytes(
    m: Method,
    path: Seq<u8>,
    host: Seq<u8>,
    headers: Seq<(Seq<u8>, Seq<u8>)>,
    body_len: Option<u64>,
) -> Seq<u8> {
    let line = method_token(m) + seq![32u8] + path + version_and_host() + host + crlf();
    let length = match body_len {
        Some(n) => content_length_prefix() + decimal_of(n as nat),
        None => Seq::empty(),
    };
    line + header_lines(headers) + length + crlf() + crlf()
}

pub open spec fn pairs_view(h: Seq<(Vec<u8>, Vec<u8>)>) -> Seq<(Seq<u8>, Seq<u8>)> {
    Seq::new(h.len(), |i: int| (h[i].0@, h[i].1@))
}

/// How many bytes of a body are left from `current` to `end`.
pub fn remaining_length(current: u64, end: u64) -> (r: u64)
    ensures
        r == if current <= end {
            end - current
        } else {
            0
        },
{
    if current <= end {
        end - current
    } else {
        0
    }
}

/// The bytes of the request head that opens the exchange.
pub fn request_head(
    method: Method,
    path: &[u8],
    host: &[u8],
    headers: &Vec<(Vec<u8>, Vec<u8>)>,
    body_len: Option<u64>,
) -> (r: Vec<u8>)
    ensures
        r@ == request_bytes(method, path@, host@, pairs_view(headers@), body_len),
{
    let mut r = method.token();
    r.push(32u8);
    append_bytes(&mut r, path);
    let vh: Vec<u8> = vec![32u8, 72, 84, 84, 80, 47, 49, 46, 49, 13, 10, 72, 111, 115, 116, 58, 32];
    append_bytes(&mut r, vh.as_slice());
    append_bytes(&mut r, host);
    r.push(13u8);
    r.push(10u8);
    let ghost line = r@;
    let mut i: usize = 0;
    while i < headers.len()
        invariant
            i <= headers@.len(),
            r@ == line + header_lines(pairs_view(headers@).subrange(0, i as int)),
        decreases headers.len() - i,
    {
        let ghost before = r@;
        append_bytes(&mut r, headers[i].0.as_slice());
        r.push(58u8);
        r.push(32u8);
        append_bytes(&mut r, headers[i].1.as_slice());
        r.push(13u8);
        r.push(10u8);
        proof {
            let hs = pairs_view(headers@).subrange(0, i as int + 1);
            assert(hs.drop_last() =~= pairs_view(headers@).subrange(0, i as int));
            assert(r@ =~= line + header_lines(hs));
        }
        i = i + 1;
    }
    assert(pairs_view(headers@).subrange(0, i as int) =~= pairs_view(headers@));
    let ghost with_headers = r@;
    match body_len {
        Some(n) => {
            let cl: Vec<u8> = vec![67u8, 111, 110, 116, 101, 110, 116, 45, 76, 101, 110, 103, 116, 104, 58, 32];
            append_bytes(&mut r, cl.as_slice());
            let d = decimal_bytes(n);
            append_bytes(&mut r, d.as_slice());
        },
        None => {},
    }
    r.push(13u8);
    r.push(10u8);
    r.push(13u8);
    r.push(10u8);
    assert(r@ =~= request_bytes(method, path@, host@, pairs_view(headers@), body_len));
    r
}

/// The request headers a task is set up with; none when the setting is absent.
pub fn get_headers(setting: Option<Vec<(Vec<u8>, Vec<u8>)>>) -> (r: Vec<(Vec<u8>, Vec<u8>)>)
    ensures
        r@ == match setting {
            Some(h) => h@,
            None => Seq::empty(),
        },
{
    match setting {
        Some(h) => h,
        None => Vec::new(),
    }
}

} // verus!
