//! HTTP requests as plain data: method, URL, ordered headers, body and
//! transport options, with builder methods.

use vstd::prelude::*;

use crate::string_map::StringMap;
use crate::text;

verus! {

/// An HTTP request method.
#[derive(Debug, Clone, PartialEq, Eq, Hash, Structural)]
pub enum HttpMethod {
    Get,
    Post,
    Put,
    Patch,
    Delete,
    Head,
    Options,
}

/// The upper-case wire name of a method.
pub open spec fn method_name(m: HttpMethod) -> Seq<char> {
    match m {
        HttpMethod::Get => "GET"@,
        HttpMethod::Post => "POST"@,
        HttpMethod::Put => "PUT"@,
        HttpMethod::Patch => "PATCH"@,
        HttpMethod::Delete => "DELETE"@,
        HttpMethod::Head => "HEAD"@,
        HttpMethod::Options => "OPTIONS"@,
    }
}

impl HttpMethod {
    /// The upper-case wire name of the method.
    pub fn as_str(&self) -> (r: &str)
        ensures
            r@ == method_name(*self),
    {
        match self {
            HttpMethod::Get => "GET",
            HttpMethod::Post => "POST",
            HttpMethod::Put => "PUT",
            HttpMethod::Patch => "PATCH",
            HttpMethod::Delete => "DELETE",
            HttpMethod::Head => "HEAD",
            HttpMethod::Options => "OPTIONS",
        }
    }
}

/// One request header: a name and a value.
#[derive(Debug, Clone, PartialEq, Eq)]
pub struct HttpHeader {
    pub name: String,
    pub value: String,
}

impl HttpHeader {
    /// A header from its name and value.
    pub fn new(name: &str, value: &str) -> (r: HttpHeader)
        ensures
            r.name@ == name@,
            r.value@ == value@,
    {
        HttpHeader { name: name.to_owned(), value: value.to_owned() }
    }
}

/// The body of a request.
#[derive(Debug, PartialEq)]
pub enum RequestBody {
    Empty,
    Text(String),
    Json(String),
    FormUrlEncoded(StringMap),
    FormData(Vec<FormDataPart>),
    Binary(Vec<u8>),
}

/// One part of a multipart form body.
#[derive(Debug, PartialEq)]
pub struct FormDataPart {
    pub name: String,
    pub content: FormDataContent,
}

/// The content of one multipart form part: inline text or a file.
#[derive(Debug, PartialEq)]
pub enum FormDataContent {
    Text(String),
    File { filename: String, data: Vec<u8>, content_type: Option<String> },
}

/// The first header whose name matches up to ASCII case, if any.
pub open spec fn header_lookup(hs: Seq<HttpHeader>, name: Seq<char>) -> Option<Seq<char>>
    decreases hs.len(),
{
    if hs.len() == 0 {
        None
    } else if text::eq_ignore_case(hs[0].name@, name) {
        Some(hs[0].value@)
    } else {
        header_lookup(hs.drop_first(), name)
    }
}

/// An HTTP request: method, URL, ordered headers, body and options.
#[derive(Debug)]
pub struct HttpRequest {
    pub method: HttpMethod,
    pub url: String,
    pub headers: Vec<HttpHeader>,
    pub body: RequestBody,
    pub timeout_seconds: Option<u64>,
    pub follow_redirects: bool,
}

impl HttpRequest {
    /// A request with no headers, no body, a thirty-second timeout, and
    /// redirects followed.
    pub fn new(method: HttpMethod, url: &str) -> (r: HttpRequest)
        ensures
            r.method == method,
            r.url@ == url@,
            r.headers@.len() == 0,
            r.body == RequestBody::Empty,
            r.timeout_seconds == Some(30u64),
            r.follow_redirects == true,
    {
        HttpRequest {
            method,
            url: url.to_owned(),
            headers: Vec::new(),
            body: RequestBody::Empty,
            timeout_seconds: Some(30),
            follow_redirects: true,
        }
    }

    /// A GET request for the URL.
    pub fn get(url: &str) -> (r: HttpRequest)
        ensures
            r.method == HttpMethod::Get,
            r.url@ == url@,
            r.headers@.len() == 0,
            r.body == RequestBody::Empty,
            r.timeout_seconds == Some(30u64),
            r.follow_redirects == true,
    {
        Self::new(HttpMethod::Get, url)
    }

    /// A POST request for the URL.
    pub fn post(url: &str) -> (r: HttpRequest)
        ensures
            r.method == HttpMethod::Post,
            r.url@ == url@,
            r.headers@.len() == 0,
            r.body == RequestBody::Empty,
            r.timeout_seconds == Some(30u64),
            r.follow_redirects == true,
    {
        Self::new(HttpMethod::Post, url)
    }

    /// A PUT request for the URL.
    pub fn put(url: &str) -> (r: HttpRequest)
        ensures
            r.method == HttpMethod::Put,
            r.url@ == url@,
            r.headers@.len() == 0,
            r.body == RequestBody::Empty,
            r.timeout_seconds == Some(30u64),
            r.follow_redirects == true,
    {
        Self::new(HttpMethod::Put, url)
    }

    /// A PATCH request for the URL.
    pub fn patch(url: &str) -> (r: HttpRequest)
        ensures
            r.method == HttpMethod::Patch,
            r.url@ == url@,
            r.headers@.len() == 0,
            r.body == RequestBody::Empty,
            r.timeout_seconds == Some(30u64),
            r.follow_redirects == true,
    {
        Self::new(HttpMethod::Patch, url)
    }

    /// A DELETE request for the URL.
    pub fn delete(url: &str) -> (r: HttpRequest)
        ensures
            r.method == HttpMethod::Delete,
            r.url@ == url@,
            r.headers@.len() == 0,
            r.body == RequestBody::Empty,
            r.timeout_seconds == Some(30u64),
            r.follow_redirects == true,
    {
        Self::new(HttpMethod::Delete, url)
    }

    /// The request with one more header appended.
    pub fn with_header(self, name: &str, value: &str) -> (r: HttpRequest)
        ensures
            r.method == self.method,
            r.url == self.url,
            r.body == self.body,
            r.timeout_seconds == self.timeout_seconds,
            r.follow_redirects == self.follow_redirects,
            r.headers@.len() == self.headers@.len() + 1,
            r.headers@.drop_last() == self.headers@,
            r.headers@.last().name@ == name@,
            r.headers@.last().value@ == value@,
    {
        let mut r = self;
        r.headers.push(HttpHeader::new(name, value));
        r
    }

    /// The request with all given headers appended, in order.
    pub fn with_headers(self, headers: Vec<HttpHeader>) -> (r: HttpRequest)
        ensures
            r.method == self.method,
            r.url == self.url,
            r.body == self.body,
            r.timeout_seconds == self.timeout_seconds,
            r.follow_redirects == self.follow_redirects,
            r.headers@ == self.headers@ + headers@,
    {
        let ghost pre = self.headers@;
        let mut r = self;
        let mut rest = headers;
        let n = rest.len();
        let mut i: usize = 0;
        while i < n
            invariant
                n == rest@.len(),
                i <= n,
                r.method == self.method,
                r.url == self.url,
                r.body == self.body,
                r.timeout_seconds == self.timeout_seconds,
                r.follow_redirects == self.follow_redirects,
                r.headers@ == pre + rest@.subrange(0, i as int),
                rest@ == headers@,
            decreases n - i,
        {
            let h = HttpHeader { name: rest[i].name.clone(), value: rest[i].value.clone() };
            proof {
                assert(h == rest@[i as int]);
            }
            r.headers.push(h);
            proof {
                assert(pre + rest@.subrange(0, i + 1) =~= (pre + rest@.subrange(0, i as int)).push(
                    rest@[i as int],
                ));
            }
            i = i + 1;
        }
        proof {
            assert(rest@.subrange(0, n as int) =~= rest@);
        }
        r
    }

    /// The request with its body replaced.
    pub fn with_body(self, body: RequestBody) -> (r: HttpRequest)
        ensures
            r.method == self.method,
            r.url == self.url,
            r.headers == self.headers,
            r.body == body,
            r.timeout_seconds == self.timeout_seconds,
            r.follow_redirects == self.follow_redirects,
    {
        let mut r = self;
        r.body = body;
        r
    }

    /// The request with the given text as a JSON body.
    pub fn with_json_body(self, json: &str) -> (r: HttpRequest)
        ensures
            r.method == self.method,
            r.url == self.url,
            r.headers == self.headers,
            r.body matches RequestBody::Json(j) && j@ == json@,
            r.timeout_seconds == self.timeout_seconds,
            r.follow_redirects == self.follow_redirects,
    {
        let mut r = self;
        r.body = RequestBody::Json(json.to_owned());
        r
    }

    /// The request with the given text as a plain-text body.
    pub fn with_text_body(self, text: &str) -> (r: HttpRequest)
        ensures
            r.method == self.method,
            r.url == self.url,
            r.headers == self.headers,
            r.body matches RequestBody::Text(t) && t@ == text@,
            r.timeout_seconds == self.timeout_seconds,
            r.follow_redirects == self.follow_redirects,
    {
        let mut r = self;
        r.body = RequestBody::Text(text.to_owned());
        r
    }

    /// The request with the given timeout in seconds.
    pub fn with_timeout(self, seconds: u64) -> (r: HttpRequest)
        ensures
            r.method == self.method,
            r.url == self.url,
            r.headers == self.headers,
            r.body == self.body,
            r.timeout_seconds == Some(seconds),
            r.follow_redirects == self.follow_redirects,
    {
        let mut r = self;
        r.timeout_seconds = Some(seconds);
        r
    }

    /// The request with no timeout at all.
    pub fn without_timeout(self) -> (r: HttpRequest)
        ensures
            r.method == self.method,
            r.url == self.url,
            r.headers == self.headers,
            r.body == self.body,
            r.timeout_seconds is None,
            r.follow_redirects == self.follow_redirects,
    {
        let mut r = self;
        r.timeout_seconds = None;
        r
    }

    /// The request with redirect following set as given.
    pub fn follow_redirects(self, follow: bool) -> (r: HttpRequest)
        ensures
            r.method == self.method,
            r.url == self.url,
            r.headers == self.headers,
            r.body == self.body,
            r.timeout_seconds == self.timeout_seconds,
            r.follow_redirects == follow,
    {
        let mut r = self;
        r.follow_redirects = follow;
        r
    }

    /// Appends one header in place.
    pub fn add_header(&mut self, name: &str, value: &str)
        ensures
            final(self).method == old(self).method,
            final(self).url == old(self).url,
            final(self).body == old(self).body,
            final(self).timeout_seconds == old(self).timeout_seconds,
            final(self).follow_redirects == old(self).follow_redirects,
            final(self).headers@.len() == old(self).headers@.len() + 1,
            final(self).headers@.drop_last() == old(self).headers@,
            final(self).headers@.last().name@ == name@,
            final(self).headers@.last().value@ == value@,
    {
        self.headers.push(HttpHeader::new(name, value));
        proof {
            assert(self.headers@.drop_last() =~= old(self).headers@);
        }
    }

    /// The value of the first header whose name matches up to ASCII case.
    #[verifier::loop_isolation(false)]
    pub fn get_header(&self, name: &str) -> (r: Option<&str>)
        ensures
            match r {
                Some(v) => header_lookup(self.headers@, name@) == Some(v@),
                None => header_lookup(self.headers@, name@) is None,
            },
    {
        let n = self.headers.len();
        let mut i: usize = 0;
        proof {
            assert(self.headers@.skip(0) =~= self.headers@);
        }
        while i < n
            invariant
                n == self.headers@.len(),
                i <= n,
                header_lookup(self.headers@, name@) == header_lookup(
                    self.headers@.skip(i as int),
                    name@,
                ),
            decreases n - i,
        {
            proof {
                assert(self.headers@.skip(i as int)[0] == self.headers@[i as int]);
                assert(self.headers@.skip(i as int).drop_first() =~= self.headers@.skip(i + 1));
            }
            if text::str_eq_ignore_case(self.headers[i].name.as_str(), name) {
                return Some(self.headers[i].value.as_str());
            }
            i = i + 1;
        }
        proof {
            assert(self.headers@.skip(n as int) =~= Seq::<HttpHeader>::empty());
        }
        None
    }

    /// The value of the content-type header, if one is set.
    pub fn content_type(&self) -> (r: Option<&str>)
        ensures
            match r {
                Some(v) => header_lookup(self.headers@, "Content-Type"@) == Some(v@),
                None => header_lookup(self.headers@, "Content-Type"@) is None,
            },
    {
        self.get_header("Content-Type")
    }
}

impl Default for HttpRequest {
    /// A GET request for the empty URL.
    fn default() -> (r: HttpRequest)
        ensures
            r.method == HttpMethod::Get,
            r.url@ == Seq::<char>::empty(),
            r.headers@.len() == 0,
            r.body == RequestBody::Empty,
            r.timeout_seconds == Some(30u64),
            r.follow_redirects == true,
    {
        proof {
            reveal_strlit("");
        }
        Self::get("")
    }
}

} // verus!
