//! Connection settings: the base URL of the service and the Basic
//! authorization header that every request carries.
use vstd::prelude::*;
use vstd::utf8::encode_utf8;
use crate::decode::QueryError;
use crate::wire::{base64_of, encode_base64, json_string, json_string_text};

verus! {

/// `c` is the letter given in its lower and its upper case.
pub open spec fn is_letter(c: char, lower: char, upper: char) -> bool {
    c == lower || c == upper
}

/// The URL's scheme is `https`, in any mix of cases; any other scheme, or
/// none, means a plaintext or unknown transport.
pub open spec fn uses_tls(url: Seq<char>) -> bool {
    &&& url.len() >= 6
    &&& is_letter(url[0], 'h', 'H')
    &&& is_letter(url[1], 't', 'T')
    &&& is_letter(url[2], 't', 'T')
    &&& is_letter(url[3], 'p', 'P')
    &&& is_letter(url[4], 's', 'S')
    &&& url[5] == ':'
}

/// `user:password`, the text that Basic authorization encodes.
pub open spec fn credentials_text(username: Seq<char>, password: Seq<char>) -> Seq<char> {
    username + seq![':'] + password
}

/// The value of the `Authorization` header for these credentials.
pub open spec fn basic_authorization(username: Seq<char>, password: Seq<char>) -> Seq<char> {
    seq!['B', 'a', 's', 'i', 'c', ' '] + base64_of(encode_utf8(credentials_text(username, password)))
}

/// The query-stream endpoint under a base URL.
pub open spec fn query_stream_url(base: Seq<char>) -> Seq<char> {
    base + seq!['/', 'q', 'u', 'e', 'r', 'y', '-', 's', 't', 'r', 'e', 'a', 'm']
}

/// The JSON envelope that carries a statement: `{"sql":<statement as a JSON string>}`.
pub open spec fn query_body_text(sql: Seq<char>) -> Seq<char> {
    seq!['{', '"', 's', 'q', 'l', '"', ':'] + json_string_text(sql) + seq!['}']
}

/// A connection to the query service: its base URL and the authorization
/// header value sent with every request. It holds no network state.
pub struct KsqlDB {
    pub url: String,
    pub authorization: String,
}

impl KsqlDB {
    /// Settings for `url` with Basic authorization of `username:password`.
    /// Nothing is sent and nothing is checked here: a URL without TLS is
    /// refused when a request is made. The credentials, as UTF-8, must take
    /// at most half the address space.
    pub fn new(url: String, username: String, password: String) -> (r: KsqlDB)
        requires
            encode_utf8(credentials_text(username@, password@)).len() <= usize::MAX / 2,
        ensures
            r.url@ == url@,
            r.authorization@ == basic_authorization(username@, password@),
    {
        proof {
            reveal_strlit(":");
            reveal_strlit("Basic ");
            assert(":"@ =~= seq![':']);
            assert("Basic "@ =~= seq!['B', 'a', 's', 'i', 'c', ' ']);
        }
        let mut credentials = username;
        credentials.append(":");
        credentials.append(password.as_str());
        let encoded = encode_base64(credentials.as_str().as_bytes());
        let mut authorization = String::from_str("Basic ");
        authorization.append(encoded.as_str());
        KsqlDB { url, authorization }
    }

    /// Whether requests may be sent to this connection's URL.
    pub fn is_secure(&self) -> (r: bool)
        ensures
            r == uses_tls(self.url@),
    {
        let s = self.url.as_str();
        if s.unicode_len() < 6 {
            return false;
        }
        let c0 = s.get_char(0);
        let c1 = s.get_char(1);
        let c2 = s.get_char(2);
        let c3 = s.get_char(3);
        let c4 = s.get_char(4);
        let c5 = s.get_char(5);
        (c0 == 'h' || c0 == 'H') && (c1 == 't' || c1 == 'T') && (c2 == 't' || c2 == 'T')
            && (c3 == 'p' || c3 == 'P') && (c4 == 's' || c4 == 'S') && c5 == ':'
    }

    /// The URL of the query-stream endpoint, or `InsecureUrl` where the base
    /// URL does not use TLS: no plaintext request is ever prepared.
    pub fn endpoint(&self) -> (r: Result<String, QueryError>)
        ensures
            r is Err <==> !uses_tls(self.url@),
            r matches Err(e) ==> e == QueryError::InsecureUrl,
            r matches Ok(u) ==> u@ == query_stream_url(self.url@),
    {
        if !self.is_secure() {
            return Err(QueryError::InsecureUrl);
        }
        proof {
            reveal_strlit("/query-stream");
            assert("/query-stream"@ =~= seq!['/', 'q', 'u', 'e', 'r', 'y', '-', 's', 't', 'r', 'e', 'a', 'm']);
        }
        let mut u = self.url.clone();
        u.append("/query-stream");
        Ok(u)
    }
}

/// The request body that carries `sql` to the query-stream endpoint.
pub fn query_body(sql: &str) -> (r: String)
    ensures
        r@ == query_body_text(sql@),
{
    proof {
        reveal_strlit("{\"sql\":");
        reveal_strlit("}");
        assert("{\"sql\":"@ =~= seq!['{', '"', 's', 'q', 'l', '"', ':']);
        assert("}"@ =~= seq!['}']);
    }
    let quoted = json_string(sql);
    let mut body = String::from_str("{\"sql\":");
    body.append(quoted.as_str());
    body.append("}");
    body
}

} // verus!
