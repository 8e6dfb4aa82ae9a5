use crate::text::push_char;
use vstd::prelude::*;
use vstd::string::StringSliceAdditionalSpecFns;
use vstd::utf8::encode_utf8;

verus! {

/// The lowercase hexadecimal digit for a value below 16.
pub open spec fn hex_digit(d: nat) -> char {
    if d == 0 {
        '0'
    } else if d == 1 {
        '1'
    } else if d == 2 {
        '2'
    } else if d == 3 {
        '3'
    } else if d == 4 {
        '4'
    } else if d == 5 {
        '5'
    } else if d == 6 {
        '6'
    } else if d == 7 {
        '7'
    } else if d == 8 {
        '8'
    } else if d == 9 {
        '9'
    } else if d == 10 {
        'a'
    } else if d == 11 {
        'b'
    } else if d == 12 {
        'c'
    } else if d == 13 {
        'd'
    } else if d == 14 {
        'e'
    } else {
        'f'
    }
}

fn hex_char(d: u32) -> (c: char)
    requires
        d < 16,
    ensures
        c == hex_digit(d as nat),
{
    match d {
        0 => '0',
        1 => '1',
        2 => '2',
        3 => '3',
        4 => '4',
        5 => '5',
        6 => '6',
        7 => '7',
        8 => '8',
        9 => '9',
        10 => 'a',
        11 => 'b',
        12 => 'c',
        13 => 'd',
        14 => 'e',
        _ => 'f',
    }
}

/// How one character is written inside a JSON string literal.
pub open spec fn json_escape_char(c: char) -> Seq<char> {
    if c == '"' {
        seq!['\\', '"']
    } else if c == '\\' {
        seq!['\\', '\\']
    } else if c == '\n' {
        seq!['\\', 'n']
    } else if c == '\r' {
        seq!['\\', 'r']
    } else if c == '\t' {
        seq!['\\', 't']
    } else if (c as u32) < 0x20 {
        seq!['\\', 'u', '0', '0', hex_digit((c as u32 / 16) as nat), hex_digit(
            (c as u32 % 16) as nat,
        )]
    } else {
        seq![c]
    }
}

/// How a whole string is written inside a JSON string literal.
pub open spec fn json_escape(s: Seq<char>) -> Seq<char>
    decreases s.len(),
{
    if s.len() == 0 {
        Seq::empty()
    } else {
        json_escape(s.drop_last()) + json_escape_char(s.last())
    }
}

/// Appends `s` to `out`, escaped for a JSON string literal.
fn append_json_escaped(out: &mut String, s: &str)
    ensures
        final(out)@ == old(out)@ + json_escape(s@),
{
    for c in it: s.chars()
        invariant
            it.seq() == s@,
            out@ == old(out)@ + json_escape(s@.take(it.index() as int)),
    {
        let ghost i = it.index() as int;
        proof {
            assert(s@.take(i + 1).drop_last() =~= s@.take(i));
            assert(s@.take(i + 1).last() == c);
        }
        if c == '"' {
            push_char(out, '\\');
            push_char(out, '"');
        } else if c == '\\' {
            push_char(out, '\\');
            push_char(out, '\\');
        } else if c == '\n' {
            push_char(out, '\\');
            push_char(out, 'n');
        } else if c == '\r' {
            push_char(out, '\\');
            push_char(out, 'r');
        } else if c == '\t' {
            push_char(out, '\\');
            push_char(out, 't');
        } else if (c as u32) < 0x20 {
            push_char(out, '\\');
            push_char(out, 'u');
            push_char(out, '0');
            push_char(out, '0');
            push_char(out, hex_char(c as u32 / 16));
            push_char(out, hex_char(c as u32 % 16));
        } else {
            push_char(out, c);
        }
        proof {
            assert(out@ =~= old(out)@ + json_escape(s@.take(i + 1)));
        }
    }
    proof {
        assert(s@.take(s@.len() as int) =~= s@);
    }
}

/// The characters of the JSON body `{"message": ...}` carrying `m`.
pub open spec fn spec_message_body_chars(m: Seq<char>) -> Seq<char> {
    "{\"message\":\""@ + json_escape(m) + "\"}"@
}

/// The characters of the JSON body `{"error": ...}` carrying `m`.
pub open spec fn spec_error_body_chars(m: Seq<char>) -> Seq<char> {
    "{\"error\":\""@ + json_escape(m) + "\"}"@
}

/// The bytes of the JSON body `{"message": ...}` carrying `m`.
pub fn json_message_body(m: &str) -> (b: Vec<u8>)
    ensures
        b@ == encode_utf8(spec_message_body_chars(m@)),
{
    let mut s = String::from_str("{\"message\":\"");
    append_json_escaped(&mut s, m);
    s.append("\"}");
    let ss = s.as_str();
    proof {
        assert(ss@ =~= spec_message_body_chars(m@));
        assert(ss.spec_bytes() == encode_utf8(ss@));
    }
    ss.as_bytes_vec()
}

/// The bytes of the JSON body `{"error": ...}` carrying `m`.
pub fn json_error_body(m: &str) -> (b: Vec<u8>)
    ensures
        b@ == encode_utf8(spec_error_body_chars(m@)),
{
    let mut s = String::from_str("{\"error\":\"");
    append_json_escaped(&mut s, m);
    s.append("\"}");
    let ss = s.as_str();
    proof {
        assert(ss@ =~= spec_error_body_chars(m@));
        assert(ss.spec_bytes() == encode_utf8(ss@));
    }
    ss.as_bytes_vec()
}

/// The single `content-type: application/json` header that every response
/// of the service carries.
pub open spec fn spec_json_headers() -> Seq<(Seq<u8>, Seq<u8>)> {
    seq![(encode_utf8("content-type"@), encode_utf8("application/json"@))]
}

fn json_headers() -> (h: Vec<(Vec<u8>, Vec<u8>)>)
    ensures
        headers_view(h@) == spec_json_headers(),
{
    let name = "content-type".as_bytes_vec();
    let value = "application/json".as_bytes_vec();
    proof {
        assert("content-type".spec_bytes() == encode_utf8("content-type"@));
        assert("application/json".spec_bytes() == encode_utf8("application/json"@));
    }
    let mut h: Vec<(Vec<u8>, Vec<u8>)> = Vec::new();
    h.push((name, value));
    proof {
        assert(headers_view(h@) =~= spec_json_headers());
    }
    h
}

/// The mathematical value of a header list: each name and value as bytes.
pub open spec fn headers_view(h: Seq<(Vec<u8>, Vec<u8>)>) -> Seq<(Seq<u8>, Seq<u8>)> {
    Seq::new(h.len(), |i: int| (h[i].0@, h[i].1@))
}

/// The model of an HTTP response: status code, headers and body bytes.
#[verifier::ext_equal]
pub struct HttpResponseView {
    pub status: u16,
    pub headers: Seq<(Seq<u8>, Seq<u8>)>,
    pub body: Seq<u8>,
}

/// An HTTP response as the service hands it back: a status code, exact
/// header bytes and exact body bytes.
#[derive(Debug, Clone, PartialEq, Eq)]
pub struct HttpResponse {
    pub status: u16,
    pub headers: Vec<(Vec<u8>, Vec<u8>)>,
    pub body: Vec<u8>,
}

impl View for HttpResponse {
    type V = HttpResponseView;

    open spec fn view(&self) -> HttpResponseView {
        HttpResponseView {
            status: self.status,
            headers: headers_view(self.headers@),
            body: self.body@,
        }
    }
}

/// The response view for a JSON body with the given status.
pub open spec fn spec_json_response(status: u16, body_chars: Seq<char>) -> HttpResponseView {
    HttpResponseView {
        status,
        headers: spec_json_headers(),
        body: encode_utf8(body_chars),
    }
}

impl HttpResponse {
    /// A 200 response whose JSON body carries `m` under the `message` key.
    pub fn ok_json_message(m: &str) -> (r: HttpResponse)
        ensures
            r@ == spec_json_response(200, spec_message_body_chars(m@)),
    {
        let r = HttpResponse { status: 200, headers: json_headers(), body: json_message_body(m) };
        proof {
            assert(r@ =~= spec_json_response(200, spec_message_body_chars(m@)));
        }
        r
    }
}

/// A fresh vector holding the same bytes.
pub fn copy_bytes(v: &Vec<u8>) -> (r: Vec<u8>)
    ensures
        r@ == v@,
{
    let mut r: Vec<u8> = Vec::new();
    let n = v.len();
    let mut i: usize = 0;
    while i < n
        invariant
            i <= n,
            n == v@.len(),
            r@ == v@.take(i as int),
        decreases n - i,
    {
        r.push(v[i]);
        proof {
            assert(r@ =~= v@.take(i as int + 1));
        }
        i += 1;
    }
    proof {
        assert(v@.take(n as int) =~= v@);
    }
    r
}

/// A fresh header list holding the same names and values.
pub fn copy_headers(v: &Vec<(Vec<u8>, Vec<u8>)>) -> (r: Vec<(Vec<u8>, Vec<u8>)>)
    ensures
        headers_view(r@) == headers_view(v@),
{
    let mut r: Vec<(Vec<u8>, Vec<u8>)> = Vec::new();
    let n = v.len();
    let mut i: usize = 0;
    while i < n
        invariant
            i <= n,
            n == v@.len(),
            r@.len() == i,
            forall|j: int| 0 <= j < i ==> #[trigger] r@[j].0@ == v@[j].0@ && r@[j].1@ == v@[j].1@,
        decreases n - i,
    {
        let name = copy_bytes(&v[i].0);
        let value = copy_bytes(&v[i].1);
        r.push((name, value));
        i += 1;
    }
    proof {
        assert(headers_view(r@) =~= headers_view(v@));
    }
    r
}

/// A 303 redirect to `location`.
pub fn see_other(location: &str) -> (r: HttpResponse)
    ensures
        r@.status == 303,
        r@.headers == seq![(encode_utf8("location"@), encode_utf8(location@))],
        r@.body.len() == 0,
{
    let name = "location".as_bytes_vec();
    let value = location.as_bytes_vec();
    proof {
        assert("location".spec_bytes() == encode_utf8("location"@));
        assert(location.spec_bytes() == encode_utf8(location@));
    }
    let mut headers: Vec<(Vec<u8>, Vec<u8>)> = Vec::new();
    headers.push((name, value));
    let r = HttpResponse { status: 303, headers, body: Vec::new() };
    proof {
        assert(r@.headers =~= seq![(encode_utf8("location"@), encode_utf8(location@))]);
    }
    r
}

/// A serving error, keeping the user-readable cause; it renders as a JSON
/// response whose status matches the variant.
pub enum ServerError {
    UnexpectedError(String),
    BadRequestError(String),
    NotFoundError(String),
}

impl ServerError {
    /// The message shown to the client.
    pub open spec fn spec_message(&self) -> Seq<char> {
        match self {
            ServerError::UnexpectedError(m) => m@,
            ServerError::BadRequestError(m) => m@,
            ServerError::NotFoundError(m) => m@,
        }
    }

    /// The status code of the variant.
    pub open spec fn spec_status(&self) -> u16 {
        match self {
            ServerError::UnexpectedError(_) => 500,
            ServerError::BadRequestError(_) => 400,
            ServerError::NotFoundError(_) => 404,
        }
    }

    pub fn status_code(&self) -> (c: u16)
        ensures
            c == self.spec_status(),
    {
        match self {
            ServerError::UnexpectedError(_) => 500,
            ServerError::BadRequestError(_) => 400,
            ServerError::NotFoundError(_) => 404,
        }
    }

    /// The response view an error renders to.
    pub open spec fn spec_response(&self) -> HttpResponseView {
        spec_json_response(self.spec_status(), spec_error_body_chars(self.spec_message()))
    }

    /// Renders the error as the JSON response the client receives.
    pub fn error_response(&self) -> (r: HttpResponse)
        ensures
            r@ == self.spec_response(),
    {
        let status = self.status_code();
        let body = match self {
            ServerError::UnexpectedError(m) => json_error_body(m.as_str()),
            ServerError::BadRequestError(m) => json_error_body(m.as_str()),
            ServerError::NotFoundError(m) => json_error_body(m.as_str()),
        };
        let r = HttpResponse { status, headers: json_headers(), body };
        proof {
            assert(r@ =~= self.spec_response());
        }
        r
    }
}

/// Wraps a validation failure as a 400.
pub fn e400(m: String) -> (e: ServerError)
    ensures
        e == ServerError::BadRequestError(m),
{
    ServerError::BadRequestError(m)
}

/// Wraps a missing entity as a 404.
pub fn e404(m: String) -> (e: ServerError)
    ensures
        e == ServerError::NotFoundError(m),
{
    ServerError::NotFoundError(m)
}

/// Wraps an internal failure as a 500, keeping the cause out of sight.
pub fn e500(m: String) -> (e: ServerError)
    ensures
        e == ServerError::UnexpectedError(m),
{
    ServerError::UnexpectedError(m)
}

/// A JSON payload carrying a success message.
pub struct ResponseMessage {
    pub message: String,
}

impl ResponseMessage {
    pub fn from(message: String) -> (r: ResponseMessage)
        ensures
            r.message@ == message@,
    {
        ResponseMessage { message }
    }

    /// The exact bytes this payload serializes to.
    pub fn to_json_body(&self) -> (b: Vec<u8>)
        ensures
            b@ == encode_utf8(spec_message_body_chars(self.message@)),
    {
        json_message_body(self.message.as_str())
    }
}

/// A JSON payload carrying a user-visible error message.
pub struct ResponseErrorMessage {
    pub error: String,
}

impl ResponseErrorMessage {
    pub fn from(error: String) -> (r: ResponseErrorMessage)
        ensures
            r.error@ == error@,
    {
        ResponseErrorMessage { error }
    }

    /// The exact bytes this payload serializes to.
    pub fn to_json_body(&self) -> (b: Vec<u8>)
        ensures
            b@ == encode_utf8(spec_error_body_chars(self.error@)),
    {
        json_error_body(self.error.as_str())
    }
}

} // verus!
