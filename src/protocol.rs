use vstd::prelude::*;
use crate::job::opt_view;
use crate::scheduler::texts;

verus! {

/// What httparse reads as a request's method and path.
pub uninterp spec fn request_line_of(b: Seq<u8>) -> (Option<Seq<char>>, Option<Seq<char>>);

/// Relies on httparse's `Request::parse`: the method and the path it reads
/// from the start of `buf`, each present once parsing got that far. What
/// follows the request line is left to the caller.
#[verifier::external_body]
fn parse_request_line(buf: &[u8]) -> (r: (Option<String>, Option<String>))
    ensures
        (opt_view(r.0), opt_view(r.1)) == request_line_of(buf@),
{
    let mut headers = [httparse::EMPTY_HEADER; 16];
    let mut req = httparse::Request::new(&mut headers);
    let _ = req.parse(buf);
    (req.method.map(|m| m.to_string()), req.path.map(|p| p.to_string()))
}

/// The one method the endpoint serves.
pub open spec fn post_method() -> Seq<char> {
    "POST"@
}

/// The one path the endpoint serves.
pub open spec fn command_path() -> Seq<char> {
    "/command"@
}

/// Whether the blank-line separator `\r\n\r\n` starts at `i`.
pub open spec fn separator_at(b: Seq<u8>, i: int) -> bool {
    &&& 0 <= i
    &&& i + 4 <= b.len()
    &&& b[i] == 13u8
    &&& b[i + 1] == 10u8
    &&& b[i + 2] == 13u8
    &&& b[i + 3] == 10u8
}

/// Where the first separator at or after `i` starts, or -1.
pub open spec fn first_separator(b: Seq<u8>, i: int) -> int
    decreases b.len() - i,
{
    if 0 <= i && i + 4 <= b.len() {
        if separator_at(b, i) {
            i
        } else {
            first_separator(b, i + 1)
        }
    } else {
        -1
    }
}

/// Where the first zero byte at or after `i` stands, or the length.
pub open spec fn first_nul(b: Seq<u8>, i: int) -> int
    decreases b.len() - i,
{
    if 0 <= i < b.len() {
        if b[i] == 0u8 {
            i
        } else {
            first_nul(b, i + 1)
        }
    } else {
        b.len() as int
    }
}

/// A request's body: what follows the first blank line, cut at the first
/// zero byte. None where there is no blank line or nothing is left.
pub open spec fn body_of(b: Seq<u8>) -> Option<Seq<u8>> {
    let s = first_separator(b, 0);
    if s < 0 {
        None
    } else {
        let rest = b.subrange(s + 4, b.len() as int);
        let body = rest.subrange(0, first_nul(rest, 0));
        if body.len() == 0 {
            None
        } else {
            Some(body)
        }
    }
}

/// How the endpoint deals with a request before any command runs.
pub enum Routed {
    /// Any method but POST.
    MethodNotAllowed,
    /// Any path but the command path.
    NotFound,
    /// No body, or an empty one.
    BadRequest,
    /// The body, to be read as a command envelope.
    Command(Vec<u8>),
}

/// The routing decision for a request with the given method and path.
pub open spec fn routed(method: Option<Seq<char>>, path: Option<Seq<char>>, b: Seq<u8>, r: Routed) -> bool {
    if method != Some(post_method()) {
        r is MethodNotAllowed
    } else if path != Some(command_path()) {
        r is NotFound
    } else {
        match body_of(b) {
            None => r is BadRequest,
            Some(body) => r is Command && r->Command_0@ == body,
        }
    }
}

proof fn lemma_first_separator(b: Seq<u8>, i: int)
    requires
        0 <= i,
    ensures
        first_separator(b, i) == -1 || (i <= first_separator(b, i) && separator_at(b, first_separator(b, i))),
    decreases b.len() - i,
{
    if i + 4 <= b.len() && !separator_at(b, i) {
        lemma_first_separator(b, i + 1);
    }
}

/// A request whose method is not POST is refused with 405 and carries no
/// command to run.
pub proof fn lemma_non_post_refused(
    method: Option<Seq<char>>,
    path: Option<Seq<char>>,
    b: Seq<u8>,
    r: Routed,
)
    requires
        routed(method, path, b, r),
        method != Some(post_method()),
    ensures
        r is MethodNotAllowed,
        !(r is Command),
{
}

/// A POST to the command path with no blank line after its head is refused
/// with 400 and carries no command to run.
pub proof fn lemma_no_separator_refused(b: Seq<u8>, r: Routed)
    requires
        routed(Some(post_method()), Some(command_path()), b, r),
        forall|i: int| !separator_at(b, i),
    ensures
        r is BadRequest,
        !(r is Command),
{
    lemma_first_separator(b, 0);
}

/// The body of the request in `buf`, see `body_of`.
pub fn extract_body(buf: &[u8]) -> (r: Option<Vec<u8>>)
    ensures
        match body_of(buf@) {
            None => r is None,
            Some(body) => r is Some && r->0@ == body,
        },
{
    let n = buf.len();
    let mut i: usize = 0;
    let mut found = false;
    while !found && 4 <= n && i <= n - 4
        invariant
            i <= n,
            n == buf@.len(),
            first_separator(buf@, 0) == first_separator(buf@, i as int),
            found ==> i + 4 <= n && separator_at(buf@, i as int),
        decreases n - i + (if found { 0int } else { 1int }),
    {
        if buf[i] == 13u8 && buf[i + 1] == 10u8 && buf[i + 2] == 13u8 && buf[i + 3] == 10u8 {
            found = true;
        } else {
            i += 1;
        }
    }
    if !found {
        return None;
    }
    let ghost rest = buf@.subrange(i + 4, n as int);
    let start: usize = i + 4;
    let mut j: usize = start;
    let mut body: Vec<u8> = Vec::new();
    while j < n && buf[j] != 0u8
        invariant
            start <= j <= n,
            n == buf@.len(),
            rest == buf@.subrange(start as int, n as int),
            first_nul(rest, 0) == first_nul(rest, j - start),
            body@ == rest.subrange(0, j - start),
        decreases n - j,
    {
        body.push(buf[j]);
        j += 1;
        assert(body@ =~= rest.subrange(0, j - start));
    }
    assert(first_nul(rest, 0) == j - start);
    if body.len() == 0 {
        None
    } else {
        Some(body)
    }
}

fn is_text(s: &Option<String>, expected: &str) -> (r: bool)
    ensures
        r == (opt_view(*s) == Some(expected@)),
{
    match s {
        Some(v) => v.eq(&String::from_str(expected)),
        None => false,
    }
}

/// Routes a request whose method and path are already known.
pub fn classify(method: &Option<String>, path: &Option<String>, buf: &[u8]) -> (r: Routed)
    ensures
        routed(opt_view(*method), opt_view(*path), buf@, r),
{
    if !is_text(method, "POST") {
        Routed::MethodNotAllowed
    } else if !is_text(path, "/command") {
        Routed::NotFound
    } else {
        match extract_body(buf) {
            None => Routed::BadRequest,
            Some(body) => Routed::Command(body),
        }
    }
}

/// Routes the request in `buf`: its method and path as httparse reads them,
/// then its body.
pub fn route_request(buf: &[u8]) -> (r: Routed)
    ensures
        routed(request_line_of(buf@).0, request_line_of(buf@).1, buf@, r),
{
    let (method, path) = parse_request_line(buf);
    classify(&method, &path, buf)
}

/// The texts of `lines`, one after another.
pub open spec fn concat(lines: Seq<Seq<char>>) -> Seq<char>
    decreases lines.len(),
{
    if lines.len() == 0 {
        Seq::empty()
    } else {
        concat(lines.drop_last()) + lines.last()
    }
}

/// A success response: the status line, a blank line, and the command's
/// answer texts with no headers.
pub open spec fn ok_response(lines: Seq<Seq<char>>) -> Seq<char> {
    "HTTP/1.1 200 Ok\r\n\r\n"@ + concat(lines)
}

pub fn response_text(lines: &Vec<String>) -> (r: String)
    ensures
        r@ == ok_response(texts(lines@)),
{
    let mut r = String::from_str("HTTP/1.1 200 Ok\r\n\r\n");
    let ghost head = r@;
    let mut i: usize = 0;
    while i < lines.len()
        invariant
            i <= lines@.len(),
            head == "HTTP/1.1 200 Ok\r\n\r\n"@,
            r@ == head + concat(texts(lines@).subrange(0, i as int)),
        decreases lines@.len() - i,
    {
        r.append(lines[i].as_str());
        proof {
            let t = texts(lines@);
            assert(t.subrange(0, i + 1).drop_last() =~= t.subrange(0, i as int));
            assert(r@ =~= head + concat(t.subrange(0, i + 1)));
        }
        i += 1;
    }
    assert(texts(lines@).subrange(0, i as int) =~= texts(lines@));
    r
}

/// The response to a request that carries a body that is not a command.
pub fn bad_request_text() -> (r: String)
    ensures
        r@ == "HTTP/1.1 400 Bad Request\r\n\r\n\r\n"@,
{
    String::from_str("HTTP/1.1 400 Bad Request\r\n\r\n\r\n")
}

impl Routed {
    /// The response to a request refused before any command runs; None for
    /// a command, whose response comes from the scheduler.
    pub fn rejection(&self) -> (r: Option<String>)
        ensures
            match self {
                Routed::MethodNotAllowed => r is Some && r->0@ == "HTTP/1.1 405 Method Not Allowed\r\n\r\n\r\n"@,
                Routed::NotFound => r is Some && r->0@ == "HTTP/1.1 404 Not Found\r\n\r\n\r\n"@,
                Routed::BadRequest => r is Some && r->0@ == "HTTP/1.1 400 Bad Request\r\n\r\n\r\n"@,
                Routed::Command(_) => r is None,
            },
    {
        match self {
            Routed::MethodNotAllowed => Some(String::from_str("HTTP/1.1 405 Method Not Allowed\r\n\r\n\r\n")),
            Routed::NotFound => Some(String::from_str("HTTP/1.1 404 Not Found\r\n\r\n\r\n")),
            Routed::BadRequest => Some(bad_request_text()),
            Routed::Command(_) => None,
        }
    }
}

} // verus!
