//! HTTP responses as plain data: status, headers, raw body bytes and timing,
//! with classification and lookup helpers.

use vstd::prelude::*;

use crate::string_map::StringMap;
use crate::text;

verus! {

broadcast use vstd::std_specs::vec::group_vec_axioms, vstd::seq::group_seq_axioms;

#[verifier::external_type_specification]
#[verifier::external_body]
pub struct ExFromUtf8Error(std::string::FromUtf8Error);

/// Relies on String::from_utf8: decodes the bytes as UTF-8 text, failing
/// exactly on byte sequences that are not valid UTF-8.
#[verifier::external_body]
fn string_from_utf8(bytes: Vec<u8>) -> (r: Result<String, std::string::FromUtf8Error>)
    ensures
        match r {
            Ok(s) => vstd::utf8::valid_utf8(bytes@) && vstd::utf8::encode_utf8(s@) == bytes@,
            Err(_) => !vstd::utf8::valid_utf8(bytes@),
        },
{
    String::from_utf8(bytes)
}

/// Relies on core::str::from_utf8: borrows the bytes as UTF-8 text, failing
/// exactly on byte sequences that are not valid UTF-8.
#[verifier::external_body]
pub(crate) fn str_from_utf8(bytes: &[u8]) -> (r: Option<&str>)
    ensures
        match r {
            Some(s) => vstd::utf8::valid_utf8(bytes@) && vstd::utf8::encode_utf8(s@) == bytes@,
            None => !vstd::utf8::valid_utf8(bytes@),
        },
{
    core::str::from_utf8(bytes).ok()
}

/// The first entry whose key matches the name up to ASCII case, if any.
pub open spec fn ci_lookup(kvs: Seq<(Seq<char>, Seq<char>)>, name: Seq<char>) -> Option<Seq<char>>
    decreases kvs.len(),
{
    if kvs.len() == 0 {
        None
    } else if text::eq_ignore_case(kvs[0].0, name) {
        Some(kvs[0].1)
    } else {
        ci_lookup(kvs.drop_first(), name)
    }
}

/// An HTTP response: status line, headers, raw body bytes, elapsed time and
/// the final URL.
#[derive(Debug)]
pub struct HttpResponse {
    pub status: u16,
    pub status_text: String,
    pub headers: StringMap,
    pub body: Vec<u8>,
    pub elapsed: core::time::Duration,
    pub url: String,
}

impl HttpResponse {
    /// A response from its parts.
    pub fn new(
        status: u16,
        status_text: String,
        headers: StringMap,
        body: Vec<u8>,
        elapsed: core::time::Duration,
        url: String,
    ) -> (r: HttpResponse)
        ensures
            r.status == status,
            r.status_text == status_text,
            r.headers == headers,
            r.body == body,
            r.elapsed == elapsed,
            r.url == url,
    {
        HttpResponse { status, status_text, headers, body, elapsed, url }
    }

    /// Whether the status lies in the success range.
    pub fn is_success(&self) -> (r: bool)
        ensures
            r == (200 <= self.status < 300),
    {
        self.status >= 200 && self.status < 300
    }

    /// Whether the status lies in the redirect range.
    pub fn is_redirect(&self) -> (r: bool)
        ensures
            r == (300 <= self.status < 400),
    {
        self.status >= 300 && self.status < 400
    }

    /// Whether the status lies in the client-error range.
    pub fn is_client_error(&self) -> (r: bool)
        ensures
            r == (400 <= self.status < 500),
    {
        self.status >= 400 && self.status < 500
    }

    /// Whether the status lies in the server-error range.
    pub fn is_server_error(&self) -> (r: bool)
        ensures
            r == (500 <= self.status < 600),
    {
        self.status >= 500 && self.status < 600
    }

    /// The body decoded as owned UTF-8 text, failing exactly on bytes that
    /// are not valid UTF-8.
    pub fn body_as_string(&self) -> (r: Result<String, std::string::FromUtf8Error>)
        ensures
            match r {
                Ok(s) => vstd::utf8::valid_utf8(self.body@) && vstd::utf8::encode_utf8(s@)
                    == self.body@,
                Err(_) => !vstd::utf8::valid_utf8(self.body@),
            },
    {
        string_from_utf8(self.body.clone())
    }

    /// The body borrowed as UTF-8 text, when the bytes are valid UTF-8.
    pub fn body_as_str(&self) -> (r: Option<&str>)
        ensures
            match r {
                Some(s) => vstd::utf8::valid_utf8(self.body@) && vstd::utf8::encode_utf8(s@)
                    == self.body@,
                None => !vstd::utf8::valid_utf8(self.body@),
            },
    {
        str_from_utf8(self.body.as_slice())
    }

    /// The value of the first header whose name is `content-type` up to
    /// ASCII case.
    pub fn content_type(&self) -> (r: Option<&str>)
        ensures
            match r {
                Some(v) => ci_lookup(self.headers.kvs(), "content-type"@) == Some(v@),
                None => ci_lookup(self.headers.kvs(), "content-type"@) is None,
            },
    {
        self.get_header("content-type")
    }

    /// The value of the first header whose name matches up to ASCII case.
    #[verifier::loop_isolation(false)]
    pub fn get_header(&self, name: &str) -> (r: Option<&str>)
        ensures
            match r {
                Some(v) => ci_lookup(self.headers.kvs(), name@) == Some(v@),
                None => ci_lookup(self.headers.kvs(), name@) is None,
            },
    {
        let ghost kvs = self.headers.kvs();
        let n = self.headers.len();
        let mut i: usize = 0;
        proof {
            assert(kvs.skip(0) =~= kvs);
        }
        while i < n
            invariant
                i <= n,
                ci_lookup(kvs, name@) == ci_lookup(kvs.skip(i as int), name@),
            decreases n - i,
        {
            proof {
                assert(kvs.skip(i as int)[0] == kvs[i as int]);
                assert(kvs.skip(i as int).drop_first() =~= kvs.skip(i + 1));
            }
            if text::str_eq_ignore_case(self.headers.key_at(i).as_str(), name) {
                return Some(self.headers.value_at(i).as_str());
            }
            i = i + 1;
        }
        proof {
            assert(kvs.skip(n as int) =~= Seq::<(Seq<char>, Seq<char>)>::empty());
        }
        None
    }

    /// Whether the content type names JSON.
    pub fn is_json(&self) -> (r: bool)
        ensures
            r == match ci_lookup(self.headers.kvs(), "content-type"@) {
                Some(ct) => text::contains_seq(ct, "application/json"@),
                None => false,
            },
    {
        match self.content_type() {
            Some(ct) => text::contains_str(ct, "application/json"),
            None => false,
        }
    }

    /// Whether the content type names HTML.
    pub fn is_html(&self) -> (r: bool)
        ensures
            r == match ci_lookup(self.headers.kvs(), "content-type"@) {
                Some(ct) => text::contains_seq(ct, "text/html"@),
                None => false,
            },
    {
        match self.content_type() {
            Some(ct) => text::contains_str(ct, "text/html"),
            None => false,
        }
    }

    /// Whether the content type names XML in any form.
    pub fn is_xml(&self) -> (r: bool)
        ensures
            r == match ci_lookup(self.headers.kvs(), "content-type"@) {
                Some(ct) => text::contains_seq(ct, "xml"@),
                None => false,
            },
    {
        match self.content_type() {
            Some(ct) => text::contains_str(ct, "xml"),
            None => false,
        }
    }

    /// The content-length header read as a number, when it is one and fits
    /// the machine word.
    pub fn content_length(&self) -> (r: Option<usize>)
        ensures
            r == match ci_lookup(self.headers.kvs(), "content-length"@) {
                Some(v) => if text::is_usize_numeral(v) {
                    Some(text::usize_numeral_value(v) as usize)
                } else {
                    None
                },
                None => None,
            },
    {
        match self.get_header("content-length") {
            Some(v) => text::parse_usize(v),
            None => None,
        }
    }
}

} // verus!
