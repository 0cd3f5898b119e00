use vstd::prelude::*;
use vstd::string::StringSliceAdditionalSpecFns;

verus! {

/// Status line and blank line that open every `200` response.
pub open spec fn ok_head() -> Seq<u8> {
    "HTTP/1.1 200 OK\r\n\r\n".spec_bytes()
}

/// The whole response to a request that escapes the web root.
pub open spec fn forbidden_line() -> Seq<u8> {
    "HTTP/1.1 403 OK\r\n".spec_bytes()
}

/// The whole response when nothing, not even a fallback page, can be served.
pub open spec fn not_found_line() -> Seq<u8> {
    "HTTP/1.1 404 OK\r\n".spec_bytes()
}

/// The whole response to a known method other than `GET`.
pub open spec fn not_implemented_line() -> Seq<u8> {
    "HTTP/1.1 501 Not Implemented\r\n".spec_bytes()
}

/// Headers of a binary attachment, before its length.
pub open spec fn binary_head() -> Seq<u8> {
    "HTTP/1.1 200 OK\r\nAccept-Ranges: bytes\r\nContent-Type: application/octet-stream\r\nContent-Length: ".spec_bytes()
}

/// Headers of a binary attachment, after its length, through the blank line.
pub open spec fn binary_tail() -> Seq<u8> {
    "\r\nContent-Disposition: attachment;\r\n\r\n".spec_bytes()
}

/// ASCII `0`.
pub const DIGIT_ZERO: u8 = 48;

/// The decimal digits of `n`, most significant first, without leading zeros.
pub open spec fn decimal_spec(n: u64) -> Seq<u8>
    decreases n,
{
    if n < 10 {
        seq![(DIGIT_ZERO + n) as u8]
    } else {
        decimal_spec(n / 10).push((DIGIT_ZERO + n % 10) as u8)
    }
}

/// The full header block of a binary attachment of `len` bytes.
pub open spec fn binary_header_spec(len: u64) -> Seq<u8> {
    binary_head() + decimal_spec(len) + binary_tail()
}

pub(crate) fn bytes_of(s: &str) -> (r: Vec<u8>)
    ensures
        r@ == s.spec_bytes(),
{
    vstd::slice::slice_to_vec(s.as_bytes())
}

/// A `200` response carrying `body`.
pub fn ok_with_body(body: &[u8]) -> (r: Vec<u8>)
    ensures
        r@ == ok_head() + body@,
{
    let mut r = bytes_of("HTTP/1.1 200 OK\r\n\r\n");
    r.extend_from_slice(body);
    r
}

/// The `403` status line.
pub fn forbidden() -> (r: Vec<u8>)
    ensures
        r@ == forbidden_line(),
{
    bytes_of("HTTP/1.1 403 OK\r\n")
}

/// The bare `404` status line.
pub fn not_found() -> (r: Vec<u8>)
    ensures
        r@ == not_found_line(),
{
    bytes_of("HTTP/1.1 404 OK\r\n")
}

/// The `501` status line.
pub fn not_implemented() -> (r: Vec<u8>)
    ensures
        r@ == not_implemented_line(),
{
    bytes_of("HTTP/1.1 501 Not Implemented\r\n")
}

/// The decimal digits of `n`.
pub fn decimal(n: u64) -> (r: Vec<u8>)
    ensures
        r@ == decimal_spec(n),
    decreases n,
{
    if n < 10 {
        let mut r: Vec<u8> = Vec::new();
        r.push(DIGIT_ZERO + n as u8);
        assert(r@ =~= decimal_spec(n));
        r
    } else {
        let mut r = decimal(n / 10);
        r.push(DIGIT_ZERO + (n % 10) as u8);
        r
    }
}

/// Headers announcing a binary attachment of `len` bytes, through the blank line.
pub fn binary_header(len: u64) -> (r: Vec<u8>)
    ensures
        r@ == binary_header_spec(len),
{
    let mut r = bytes_of(
        "HTTP/1.1 200 OK\r\nAccept-Ranges: bytes\r\nContent-Type: application/octet-stream\r\nContent-Length: ",
    );
    let d = decimal(len);
    r.extend_from_slice(d.as_slice());
    r.extend_from_slice("\r\nContent-Disposition: attachment;\r\n\r\n".as_bytes());
    r
}

} // verus!
