use vstd::prelude::*;
use vstd::string::StringSliceAdditionalSpecFns;

verus! {

/// ASCII space.
pub const SPACE: u8 = 32;

pub const ASCII_H: u8 = 72;

pub const ASCII_T: u8 = 84;

pub const ASCII_P: u8 = 80;

/// The request methods the server recognises.
#[derive(Clone, Copy, Debug, PartialEq, Eq, Structural)]
pub enum Method {
    Get,
    Post,
    Put,
    Delete,
    Head,
    Options,
    Trace,
    Connect,
    Patch,
    Unknown,
}

/// A parsed request line: its method and the raw requested path.
#[derive(Debug)]
pub struct Request {
    pub method: Method,
    pub path: Vec<u8>,
}

/// Index of the first space in `line`, or its length when there is none.
pub open spec fn token_end(line: Seq<u8>) -> int
    decreases line.len(),
{
    if line.len() == 0 {
        0
    } else if line[0] == SPACE {
        0
    } else {
        1 + token_end(line.drop_first())
    }
}

/// The method token: everything before the first space.
pub open spec fn method_token(line: Seq<u8>) -> Seq<u8> {
    line.subrange(0, token_end(line))
}

/// The method that a token names, compared case-sensitively.
pub open spec fn method_named(t: Seq<u8>) -> Method {
    if t == "GET".spec_bytes() {
        Method::Get
    } else if t == "POST".spec_bytes() {
        Method::Post
    } else if t == "PUT".spec_bytes() {
        Method::Put
    } else if t == "DELETE".spec_bytes() {
        Method::Delete
    } else if t == "HEAD".spec_bytes() {
        Method::Head
    } else if t == "OPTIONS".spec_bytes() {
        Method::Options
    } else if t == "TRACE".spec_bytes() {
        Method::Trace
    } else if t == "CONNECT".spec_bytes() {
        Method::Connect
    } else if t == "PATCH".spec_bytes() {
        Method::Patch
    } else {
        Method::Unknown
    }
}

/// `HTTP` starts at index `i` of `line`.
pub open spec fn http_at(line: Seq<u8>, i: int) -> bool {
    0 <= i && i + 4 <= line.len() && line[i] == ASCII_H && line[i + 1] == ASCII_T && line[i + 2] == ASCII_T
        && line[i + 3] == ASCII_P
}

/// The first index from `i` on at which `HTTP` starts, if any.
pub open spec fn find_http_from(line: Seq<u8>, i: int) -> Option<int>
    decreases line.len() - i,
{
    if i < 0 || i + 4 > line.len() {
        None
    } else if http_at(line, i) {
        Some(i)
    } else {
        find_http_from(line, i + 1)
    }
}

/// The first index at which `HTTP` starts, if any.
pub open spec fn find_http(line: Seq<u8>) -> Option<int> {
    find_http_from(line, 0)
}

/// The raw path of a request line whose `HTTP` starts at `h`: the bytes after
/// the method token and its space, up to `h`, without the space before `h`.
pub open spec fn path_before(line: Seq<u8>, h: int) -> Seq<u8> {
    let start = token_end(line) + 1;
    if start > h {
        Seq::empty()
    } else if start < h && line[h - 1] == SPACE {
        line.subrange(start, h - 1)
    } else {
        line.subrange(start, h)
    }
}

/// What a request line parses to: nothing when it holds no `HTTP`.
pub open spec fn parse_spec(line: Seq<u8>) -> Option<(Method, Seq<u8>)> {
    match find_http(line) {
        Some(h) => Some((method_named(method_token(line)), path_before(line, h))),
        None => None,
    }
}

pub(crate) fn bytes_eq(a: &[u8], b: &[u8]) -> (r: bool)
    ensures
        r == (a@ == b@),
{
    if a.len() != b.len() {
        return false;
    }
    let mut i: usize = 0;
    while i < a.len()
        invariant
            a@.len() == b@.len(),
            i <= a@.len(),
            a@.subrange(0, i as int) == b@.subrange(0, i as int),
        decreases a@.len() - i,
    {
        if a[i] != b[i] {
            assert(a@[i as int] != b@[i as int]);
            return false;
        }
        assert(a@.subrange(0, i + 1) == a@.subrange(0, i as int).push(a@[i as int]));
        assert(b@.subrange(0, i + 1) == b@.subrange(0, i as int).push(b@[i as int]));
        i += 1;
    }
    assert(a@ == a@.subrange(0, a@.len() as int));
    assert(b@ == b@.subrange(0, b@.len() as int));
    true
}

proof fn lemma_token_end(line: Seq<u8>, i: int)
    requires
        0 <= i <= line.len(),
        forall|j: int| 0 <= j < i ==> line[j] != SPACE,
        i == line.len() || line[i] == SPACE,
    ensures
        token_end(line) == i,
    decreases i,
{
    if i > 0 {
        lemma_token_end(line.drop_first(), i - 1);
    }
}

fn token_len(line: &[u8]) -> (n: usize)
    ensures
        n == token_end(line@),
        n <= line@.len(),
{
    let mut i: usize = 0;
    while i < line.len() && line[i] != SPACE
        invariant
            i <= line@.len(),
            forall|j: int| 0 <= j < i ==> line@[j] != SPACE,
        decreases line@.len() - i,
    {
        i += 1;
    }
    proof {
        lemma_token_end(line@, i as int);
    }
    i
}

/// The method named by the first token of a request line.
pub fn method_of(line: &[u8]) -> (m: Method)
    ensures
        m == method_named(method_token(line@)),
{
    let n = token_len(line);
    let t = vstd::slice::slice_subrange(line, 0, n);
    if bytes_eq(t, "GET".as_bytes()) {
        Method::Get
    } else if bytes_eq(t, "POST".as_bytes()) {
        Method::Post
    } else if bytes_eq(t, "PUT".as_bytes()) {
        Method::Put
    } else if bytes_eq(t, "DELETE".as_bytes()) {
        Method::Delete
    } else if bytes_eq(t, "HEAD".as_bytes()) {
        Method::Head
    } else if bytes_eq(t, "OPTIONS".as_bytes()) {
        Method::Options
    } else if bytes_eq(t, "TRACE".as_bytes()) {
        Method::Trace
    } else if bytes_eq(t, "CONNECT".as_bytes()) {
        Method::Connect
    } else if bytes_eq(t, "PATCH".as_bytes()) {
        Method::Patch
    } else {
        Method::Unknown
    }
}

/// Index of the first `HTTP` in `line`, if any.
fn http_index(line: &[u8]) -> (r: Option<usize>)
    ensures
        match r {
            Some(h) => find_http(line@) == Some(h as int),
            None => find_http(line@) is None,
        },
        r matches Some(h) ==> h + 4 <= line@.len(),
{
    let mut h: usize = 0;
    while h < line.len() && line.len() - h >= 4
        invariant
            h <= line@.len(),
            find_http(line@) == find_http_from(line@, h as int),
        decreases line@.len() - h,
    {
        if line[h] == ASCII_H && line[h + 1] == ASCII_T && line[h + 2] == ASCII_T && line[h + 3]
            == ASCII_P {
            return Some(h);
        }
        h += 1;
    }
    None
}

/// Parses `<METHOD> <PATH> HTTP/<version>`. A line without `HTTP` is malformed
/// and gives `None`.
pub fn parse_request_line(line: &[u8]) -> (r: Option<Request>)
    ensures
        match r {
            Some(q) => parse_spec(line@) == Some((q.method, q.path@)),
            None => parse_spec(line@) is None,
        },
{
    match http_index(line) {
        None => None,
        Some(h) => {
            let method = method_of(line);
            let n = token_len(line);
            let path = if n >= h {
                Vec::new()
            } else if n + 1 < h && line[h - 1] == SPACE {
                vstd::slice::slice_to_vec(vstd::slice::slice_subrange(line, n + 1, h - 1))
            } else {
                vstd::slice::slice_to_vec(vstd::slice::slice_subrange(line, n + 1, h))
            };
            assert(path@ == path_before(line@, h as int));
            Some(Request { method, path })
        },
    }
}

} // verus!
