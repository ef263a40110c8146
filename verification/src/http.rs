use vstd::prelude::*;

verus! {

/// What `httparse::Response::parse` makes of a complete response head in
/// `bytes` (with room for 64 headers): the status code and the length of
/// the head; none when the head is incomplete or malformed.
pub uninterp spec fn httparse_response_head(bytes: Seq<u8>) -> Option<(u16, nat)>;

/// Parses the head of an HTTP response with `httparse::Response::parse`.
///
/// Claimed of the outside code: the result depends on the bytes alone (the
/// header room is fixed here); a complete parse reports how many bytes the
/// head took, never more than there are, and sets the status code.
#[verifier::external_body]
fn parse_response_head(bytes: &[u8]) -> (head: Option<(u16, usize)>)
    ensures
        match head {
            Some((code, len)) => len <= bytes@.len() && httparse_response_head(bytes@) == Some(
                (code, len as nat),
            ),
            None => httparse_response_head(bytes@) is None,
        },
{
    let mut headers = [httparse::EMPTY_HEADER; 64];
    let mut response = httparse::Response::new(&mut headers);
    match response.parse(bytes) {
        Ok(httparse::Status::Complete(len)) => response.code.map(|code| (code, len)),
        _ => None,
    }
}

/// A daemon's answer: status code and body.
pub struct HttpResponse {
    pub status: u16,
    pub body: Vec<u8>,
}

/// The status and body of `bytes`, given what the head parser made of them.
pub open spec fn response_parts(bytes: Seq<u8>, head: Option<(u16, nat)>) -> Option<(u16, Seq<u8>)> {
    match head {
        Some((code, len)) => if len <= bytes.len() { Some((code, bytes.skip(len as int))) } else { None },
        None => None,
    }
}

/// Split a response into status and body, given the parsed head.
pub fn split_response(bytes: &[u8], head: Option<(u16, usize)>) -> (response: Option<HttpResponse>)
    ensures
        match response {
            Some(r) => response_parts(bytes@, match head {
                Some((c, l)) => Some((c, l as nat)),
                None => None,
            }) == Some((r.status, r.body@)),
            None => response_parts(bytes@, match head {
                Some((c, l)) => Some((c, l as nat)),
                None => None,
            }) is None,
        },
{
    match head {
        Some((code, len)) => {
            if len > bytes.len() {
                return None;
            }
            let mut body: Vec<u8> = Vec::new();
            let mut i: usize = len;
            while i < bytes.len()
                invariant
                    len <= i <= bytes@.len(),
                    body@ == bytes@.subrange(len as int, i as int),
                decreases bytes@.len() - i,
            {
                body.push(bytes[i]);
                proof {
                    assert(bytes@.subrange(len as int, i + 1) =~= bytes@.subrange(len as int, i as int).push(bytes@[i as int]));
                }
                i = i + 1;
            }
            assert(body@ =~= bytes@.skip(len as int));
            Some(HttpResponse { status: code, body })
        },
        None => None,
    }
}

/// Parse a daemon's raw answer into status code and body.
pub fn parse_http_response(bytes: &[u8]) -> (response: Option<HttpResponse>)
    ensures
        match response {
            Some(r) => response_parts(bytes@, httparse_response_head(bytes@)) == Some((r.status, r.body@)),
            None => response_parts(bytes@, httparse_response_head(bytes@)) is None,
        },
{
    let head = parse_response_head(bytes);
    split_response(bytes, head)
}

/// The request that asks the daemon for `method path` over HTTP/1.0.
pub open spec fn request_text(method: Seq<char>, path: Seq<char>) -> Seq<char> {
    method + " "@ + path + " HTTP/1.0\r\nHost: localhost\r\n\r\n"@
}

/// The bytes of an HTTP/1.0 request `method path` with no body.
pub fn http_request(method: &str, path: &str) -> (request: String)
    ensures
        request@ == request_text(method@, path@),
{
    String::from_str(method).concat(" ").concat(path).concat(" HTTP/1.0\r\nHost: localhost\r\n\r\n")
}

/// The request that asks a daemon for its container list.
pub open spec fn container_list_request_text() -> Seq<char> {
    request_text("GET"@, "/containers/json"@)
}

/// The bytes of `GET /containers/json` over HTTP/1.0.
pub fn container_list_request() -> (request: String)
    ensures
        request@ == container_list_request_text(),
{
    http_request("GET", "/containers/json")
}

/// Converts bytes to text with `String::from_utf8`.
///
/// Claimed of std, as its documentation says: the conversion succeeds
/// exactly when the bytes are valid UTF-8, and then holds the characters
/// they encode.
#[verifier::external_body]
fn utf8_text(bytes: Vec<u8>) -> (text: Option<String>)
    ensures
        text is Some <==> vstd::utf8::valid_utf8(bytes@),
        text matches Some(t) ==> t@ == vstd::utf8::decode_utf8(bytes@),
{
    String::from_utf8(bytes).ok()
}

/// The body of a successful (`200`) answer, as text; none for any other
/// status or a body that is not UTF-8.
pub open spec fn success_body(response: Option<(u16, Seq<u8>)>) -> Option<Seq<char>> {
    match response {
        Some((status, body)) => if status == 200 && vstd::utf8::valid_utf8(body) {
            Some(vstd::utf8::decode_utf8(body))
        } else {
            None
        },
        None => None,
    }
}

/// The body of a daemon's answer, when the daemon answered `200 OK` with
/// UTF-8 text.
pub fn success_body_text(bytes: &[u8]) -> (body: Option<String>)
    ensures
        match body {
            Some(b) => success_body(response_parts(bytes@, httparse_response_head(bytes@))) == Some(b@),
            None => success_body(response_parts(bytes@, httparse_response_head(bytes@))) is None,
        },
{
    match parse_http_response(bytes) {
        Some(response) => {
            if response.status == 200 {
                utf8_text(response.body)
            } else {
                None
            }
        },
        None => None,
    }
}

/// The status code of a daemon's answer, when its head parses.
pub fn response_status(bytes: &[u8]) -> (status: Option<u16>)
    ensures
        status == match response_parts(bytes@, httparse_response_head(bytes@)) {
            Some((code, _)) => Some(code),
            None => None::<u16>,
        },
{
    match parse_http_response(bytes) {
        Some(response) => Some(response.status),
        None => None,
    }
}

} // verus!
