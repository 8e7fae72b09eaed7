//! Saved request collections: named folders of requests, nested folders, and
//! lookup of a saved request by its identifier.

use vstd::prelude::*;

use crate::request::{HttpHeader, HttpMethod, HttpRequest, RequestBody};
use crate::text;

verus! {

broadcast use vstd::std_specs::vec::group_vec_axioms, vstd::seq::group_seq_axioms;

/// A named collection of saved requests and folders.
#[derive(Debug)]
pub struct Collection {
    pub name: String,
    pub description: Option<String>,
    pub folders: Vec<Folder>,
    pub requests: Vec<SavedRequest>,
}

/// A folder inside a collection: saved requests and nested folders.
#[derive(Debug)]
pub struct Folder {
    pub name: String,
    pub description: Option<String>,
    pub requests: Vec<SavedRequest>,
    pub folders: Vec<Folder>,
}

/// A saved request: an identifier, a display name and the request itself in
/// storable form.
#[derive(Debug)]
pub struct SavedRequest {
    pub id: String,
    pub name: String,
    pub description: Option<String>,
    pub request: SerializableRequest,
}

/// A request in storable form: plain texts and pairs only.
#[derive(Debug)]
pub struct SerializableRequest {
    pub method: String,
    pub url: String,
    pub headers: Vec<(String, String)>,
    pub body: Option<String>,
    pub timeout_seconds: Option<u64>,
}

/// The first saved request with the given identifier, if any.
pub open spec fn find_req(reqs: Seq<SavedRequest>, id: Seq<char>) -> Option<SavedRequest>
    decreases reqs.len(),
{
    if reqs.len() == 0 {
        None
    } else if reqs[0].id@ == id {
        Some(reqs[0])
    } else {
        find_req(reqs.drop_first(), id)
    }
}

/// The first saved request with the identifier in a folder: its own requests
/// first, then its nested folders in order, depth first.
pub open spec fn folder_find(f: Folder, id: Seq<char>) -> Option<SavedRequest>
    decreases f, 0int,
{
    match find_req(f.requests@, id) {
        Some(r) => Some(r),
        None => {
            proof {
                assert(decreases_to!(f => f.folders@));
            }
            folders_find(f.folders@, id)
        },
    }
}

/// The first saved request with the identifier in a folder list, in order.
pub open spec fn folders_find(fs: Seq<Folder>, id: Seq<char>) -> Option<SavedRequest>
    decreases fs, 1int,
{
    if fs.len() == 0 {
        None
    } else {
        proof {
            assert(decreases_to!(fs => fs[0]));
            assert(decreases_to!(fs => fs.drop_first()));
        }
        match folder_find(fs[0], id) {
            Some(r) => Some(r),
            None => folders_find(fs.drop_first(), id),
        }
    }
}

/// The first saved request with the identifier in a collection: its own
/// requests first, then its folders in order, depth first.
pub open spec fn collection_find(c: Collection, id: Seq<char>) -> Option<SavedRequest> {
    match find_req(c.requests@, id) {
        Some(r) => Some(r),
        None => folders_find(c.folders@, id),
    }
}

/// The name-value views of owned text pairs.
pub open spec fn pair_views(ps: Seq<(String, String)>) -> Seq<(Seq<char>, Seq<char>)> {
    ps.map_values(|p: (String, String)| (p.0@, p.1@))
}

/// The name-value views of a header list.
pub open spec fn header_views(hs: Seq<HttpHeader>) -> Seq<(Seq<char>, Seq<char>)> {
    hs.map_values(|h: HttpHeader| (h.name@, h.value@))
}

/// The text a request body stores: the payload of a text or JSON body,
/// nothing for the other body forms.
pub open spec fn body_text(b: RequestBody) -> Option<Seq<char>> {
    match b {
        RequestBody::Text(t) => Some(t@),
        RequestBody::Json(j) => Some(j@),
        _ => None,
    }
}

/// The method a stored method text denotes, after ASCII upper-casing; an
/// unrecognised text denotes GET.
pub open spec fn method_of(s: Seq<char>) -> HttpMethod {
    let u = text::upper_seq(s);
    if u == "GET"@ {
        HttpMethod::Get
    } else if u == "POST"@ {
        HttpMethod::Post
    } else if u == "PUT"@ {
        HttpMethod::Put
    } else if u == "PATCH"@ {
        HttpMethod::Patch
    } else if u == "DELETE"@ {
        HttpMethod::Delete
    } else if u == "HEAD"@ {
        HttpMethod::Head
    } else if u == "OPTIONS"@ {
        HttpMethod::Options
    } else {
        HttpMethod::Get
    }
}

impl Collection {
    /// A collection with the given name and nothing in it.
    pub fn new(name: &str) -> (r: Collection)
        ensures
            r.name@ == name@,
            r.description is None,
            r.folders@.len() == 0,
            r.requests@.len() == 0,
    {
        Collection {
            name: name.to_owned(),
            description: None,
            folders: Vec::new(),
            requests: Vec::new(),
        }
    }

    /// The collection with its description set.
    pub fn with_description(self, description: &str) -> (r: Collection)
        ensures
            r.name == self.name,
            r.description matches Some(d) && d@ == description@,
            r.folders == self.folders,
            r.requests == self.requests,
    {
        let mut r = self;
        r.description = Some(description.to_owned());
        r
    }

    /// Appends a saved request.
    pub fn add_request(&mut self, request: SavedRequest)
        ensures
            final(self).name == old(self).name,
            final(self).description == old(self).description,
            final(self).folders == old(self).folders,
            final(self).requests@ == old(self).requests@.push(request),
    {
        self.requests.push(request);
    }

    /// Appends a folder.
    pub fn add_folder(&mut self, folder: Folder)
        ensures
            final(self).name == old(self).name,
            final(self).description == old(self).description,
            final(self).requests == old(self).requests,
            final(self).folders@ == old(self).folders@.push(folder),
    {
        self.folders.push(folder);
    }

    /// The first saved request with the identifier, searching the
    /// collection's own requests first and then its folders depth first.
    #[verifier::loop_isolation(false)]
    pub fn find_request(&self, id: &str) -> (r: Option<&SavedRequest>)
        ensures
            match collection_find(*self, id@) {
                Some(req) => r matches Some(p) && *p == req,
                None => r is None,
            },
    {
        let n = self.requests.len();
        let mut i: usize = 0;
        proof {
            assert(self.requests@.skip(0) =~= self.requests@);
        }
        while i < n
            invariant
                n == self.requests@.len(),
                i <= n,
                find_req(self.requests@, id@) == find_req(self.requests@.skip(i as int), id@),
            decreases n - i,
        {
            proof {
                assert(self.requests@.skip(i as int)[0] == self.requests@[i as int]);
                assert(self.requests@.skip(i as int).drop_first() =~= self.requests@.skip(i + 1));
            }
            if text::str_eq(self.requests[i].id.as_str(), id) {
                return Some(&self.requests[i]);
            }
            i = i + 1;
        }
        proof {
            assert(self.requests@.skip(n as int) =~= Seq::<SavedRequest>::empty());
        }
        let m = self.folders.len();
        let mut j: usize = 0;
        proof {
            assert(self.folders@.skip(0) =~= self.folders@);
        }
        while j < m
            invariant
                m == self.folders@.len(),
                j <= m,
                folders_find(self.folders@, id@) == folders_find(
                    self.folders@.skip(j as int),
                    id@,
                ),
            decreases m - j,
        {
            proof {
                assert(self.folders@.skip(j as int)[0] == self.folders@[j as int]);
                assert(self.folders@.skip(j as int).drop_first() =~= self.folders@.skip(j + 1));
            }
            match self.folders[j].find_request(id) {
                Some(r) => {
                    return Some(r);
                },
                None => {},
            }
            j = j + 1;
        }
        proof {
            assert(self.folders@.skip(m as int) =~= Seq::<Folder>::empty());
        }
        None
    }
}

impl Folder {
    /// A folder with the given name and nothing in it.
    pub fn new(name: &str) -> (r: Folder)
        ensures
            r.name@ == name@,
            r.description is None,
            r.requests@.len() == 0,
            r.folders@.len() == 0,
    {
        Folder { name: name.to_owned(), description: None, requests: Vec::new(), folders: Vec::new() }
    }

    /// The folder with its description set.
    pub fn with_description(self, description: &str) -> (r: Folder)
        ensures
            r.name == self.name,
            r.description matches Some(d) && d@ == description@,
            r.requests == self.requests,
            r.folders == self.folders,
    {
        let mut r = self;
        r.description = Some(description.to_owned());
        r
    }

    /// Appends a saved request.
    pub fn add_request(&mut self, request: SavedRequest)
        ensures
            final(self).name == old(self).name,
            final(self).description == old(self).description,
            final(self).folders == old(self).folders,
            final(self).requests@ == old(self).requests@.push(request),
    {
        self.requests.push(request);
    }

    /// Appends a nested folder.
    pub fn add_folder(&mut self, folder: Folder)
        ensures
            final(self).name == old(self).name,
            final(self).description == old(self).description,
            final(self).requests == old(self).requests,
            final(self).folders@ == old(self).folders@.push(folder),
    {
        self.folders.push(folder);
    }

    /// The first saved request with the identifier, searching this folder's
    /// own requests first and then its nested folders depth first.
    #[verifier::loop_isolation(false)]
    pub fn find_request(&self, id: &str) -> (r: Option<&SavedRequest>)
        ensures
            match folder_find(*self, id@) {
                Some(req) => r matches Some(p) && *p == req,
                None => r is None,
            },
        decreases *self,
    {
        let n = self.requests.len();
        let mut i: usize = 0;
        proof {
            assert(self.requests@.skip(0) =~= self.requests@);
        }
        while i < n
            invariant
                n == self.requests@.len(),
                i <= n,
                find_req(self.requests@, id@) == find_req(self.requests@.skip(i as int), id@),
            decreases n - i,
        {
            proof {
                assert(self.requests@.skip(i as int)[0] == self.requests@[i as int]);
                assert(self.requests@.skip(i as int).drop_first() =~= self.requests@.skip(i + 1));
            }
            if text::str_eq(self.requests[i].id.as_str(), id) {
                return Some(&self.requests[i]);
            }
            i = i + 1;
        }
        proof {
            assert(self.requests@.skip(n as int) =~= Seq::<SavedRequest>::empty());
        }
        let m = self.folders.len();
        let mut j: usize = 0;
        proof {
            assert(self.folders@.skip(0) =~= self.folders@);
        }
        while j < m
            invariant
                m == self.folders@.len(),
                j <= m,
                folders_find(self.folders@, id@) == folders_find(
                    self.folders@.skip(j as int),
                    id@,
                ),
            decreases m - j,
        {
            proof {
                assert(self.folders@.skip(j as int)[0] == self.folders@[j as int]);
                assert(self.folders@.skip(j as int).drop_first() =~= self.folders@.skip(j + 1));
                assert(decreases_to!(*self => self.folders));
                assert(decreases_to!(self.folders => self.folders@));
                assert(decreases_to!(self.folders@ => self.folders@[j as int]));
            }
            match self.folders[j].find_request(id) {
                Some(r) => {
                    return Some(r);
                },
                None => {},
            }
            j = j + 1;
        }
        proof {
            assert(self.folders@.skip(m as int) =~= Seq::<Folder>::empty());
        }
        None
    }
}

impl SavedRequest {
    /// A saved request from an identifier, a name and a live request.
    pub fn new(id: &str, name: &str, request: &HttpRequest) -> (r: SavedRequest)
        ensures
            r.id@ == id@,
            r.name@ == name@,
            r.description is None,
            r.request.method@ == crate::request::method_name(request.method),
            r.request.url@ == request.url@,
            pair_views(r.request.headers@) == header_views(request.headers@),
            match body_text(request.body) {
                Some(t) => r.request.body matches Some(s) && s@ == t,
                None => r.request.body is None,
            },
            r.request.timeout_seconds == request.timeout_seconds,
    {
        SavedRequest {
            id: id.to_owned(),
            name: name.to_owned(),
            description: None,
            request: SerializableRequest::from_request(request),
        }
    }

    /// The saved request with its description set.
    pub fn with_description(self, description: &str) -> (r: SavedRequest)
        ensures
            r.id == self.id,
            r.name == self.name,
            r.description matches Some(d) && d@ == description@,
            r.request == self.request,
    {
        let mut r = self;
        r.description = Some(description.to_owned());
        r
    }

    /// The live request this saved request denotes.
    pub fn to_http_request(&self) -> (r: HttpRequest)
        ensures
            r.method == method_of(self.request.method@),
            r.url@ == self.request.url@,
            header_views(r.headers@) == pair_views(self.request.headers@),
            match self.request.body {
                Some(b) => r.body matches RequestBody::Text(t) && t@ == b@,
                None => r.body == RequestBody::Empty,
            },
            r.timeout_seconds == (match self.request.timeout_seconds {
                Some(t) => Some(t),
                None => Some(30u64),
            }),
            r.follow_redirects == true,
    {
        self.request.to_http_request()
    }
}

impl SerializableRequest {
    /// The storable form of a live request: plain texts for the method and
    /// headers, the text of a text or JSON body, nothing for other bodies.
    #[verifier::loop_isolation(false)]
    pub fn from_request(request: &HttpRequest) -> (r: SerializableRequest)
        ensures
            r.method@ == crate::request::method_name(request.method),
            r.url@ == request.url@,
            pair_views(r.headers@) == header_views(request.headers@),
            match body_text(request.body) {
                Some(t) => r.body matches Some(s) && s@ == t,
                None => r.body is None,
            },
            r.timeout_seconds == request.timeout_seconds,
    {
        let mut headers: Vec<(String, String)> = Vec::new();
        let n = request.headers.len();
        let mut i: usize = 0;
        while i < n
            invariant
                n == request.headers@.len(),
                i <= n,
                headers@.len() == i,
                forall|k: int|
                    0 <= k < i ==> headers@[k].0@ == request.headers@[k].name@ && headers@[k].1@
                        == request.headers@[k].value@,
            decreases n - i,
        {
            headers.push((request.headers[i].name.clone(), request.headers[i].value.clone()));
            i = i + 1;
        }
        proof {
            assert(pair_views(headers@) =~= header_views(request.headers@));
        }
        let body: Option<String> = match &request.body {
            RequestBody::Text(t) => Some(t.clone()),
            RequestBody::Json(j) => Some(j.clone()),
            _ => None,
        };
        SerializableRequest {
            method: request.method.as_str().to_owned(),
            url: request.url.clone(),
            headers,
            body,
            timeout_seconds: request.timeout_seconds,
        }
    }

    /// The live request this storable form denotes: the method read back
    /// case-insensitively with GET as the fallback, the body as plain text.
    #[verifier::loop_isolation(false)]
    pub fn to_http_request(&self) -> (r: HttpRequest)
        ensures
            r.method == method_of(self.method@),
            r.url@ == self.url@,
            header_views(r.headers@) == pair_views(self.headers@),
            match self.body {
                Some(b) => r.body matches RequestBody::Text(t) && t@ == b@,
                None => r.body == RequestBody::Empty,
            },
            r.timeout_seconds == (match self.timeout_seconds {
                Some(t) => Some(t),
                None => Some(30u64),
            }),
            r.follow_redirects == true,
    {
        let upper = text::ascii_uppercase(self.method.as_str());
        let u = upper.as_str();
        let method: HttpMethod = if text::str_eq(u, "GET") {
            HttpMethod::Get
        } else if text::str_eq(u, "POST") {
            HttpMethod::Post
        } else if text::str_eq(u, "PUT") {
            HttpMethod::Put
        } else if text::str_eq(u, "PATCH") {
            HttpMethod::Patch
        } else if text::str_eq(u, "DELETE") {
            HttpMethod::Delete
        } else if text::str_eq(u, "HEAD") {
            HttpMethod::Head
        } else if text::str_eq(u, "OPTIONS") {
            HttpMethod::Options
        } else {
            HttpMethod::Get
        };
        let mut req = HttpRequest::new(method, self.url.as_str());
        let n = self.headers.len();
        let mut i: usize = 0;
        while i < n
            invariant
                n == self.headers@.len(),
                i <= n,
                req.method == method,
                req.url@ == self.url@,
                req.body == RequestBody::Empty,
                req.timeout_seconds == Some(30u64),
                req.follow_redirects == true,
                req.headers@.len() == i,
                forall|k: int|
                    0 <= k < i ==> req.headers@[k].name@ == self.headers@[k].0@
                        && req.headers@[k].value@ == self.headers@[k].1@,
            decreases n - i,
        {
            req.add_header(self.headers[i].0.as_str(), self.headers[i].1.as_str());
            proof {
                assert(forall|k: int|
                    0 <= k < i ==> req.headers@[k] == req.headers@.drop_last()[k]);
            }
            i = i + 1;
        }
        proof {
            assert(header_views(req.headers@) =~= pair_views(self.headers@));
        }
        match &self.body {
            Some(b) => {
                req.body = RequestBody::Text(b.clone());
            },
            None => {},
        }
        match self.timeout_seconds {
            Some(t) => {
                req.timeout_seconds = Some(t);
            },
            None => {},
        }
        req
    }
}

} // verus!
