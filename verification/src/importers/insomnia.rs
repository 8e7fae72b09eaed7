//! The Insomnia v4 export format: its intermediate representation, parsing
//! an export document into resources, and conversion to format-agnostic
//! collections.
//!
//! Parsing is stated by [`sp_parse_export`] over the document's value tree,
//! conversion by [`sp_collections`] over resource models, and the whole
//! pipeline by [`import_outcome_ok`].

use vstd::prelude::*;

use crate::importers::{ImportError, ImportResult, ImportedCollection, ImportedRequest};
use crate::json::{kvs_map, Json, JsonElement, JsonObject, JsonVal};
use crate::string_map::StringMap;
use crate::text;

verus! {

broadcast use vstd::std_specs::vec::group_vec_axioms, vstd::seq::group_seq_axioms;

/// A parsed export: its format version and its resources in file order.
#[derive(Debug)]
pub struct InsomniaExport {
    pub version: String,
    pub resources: Vec<InsomniaResource>,
}

/// One resource of an export.
#[derive(Debug)]
pub struct InsomniaResource {
    pub id: String,
    pub name: String,
    pub parent_id: Option<String>,
    pub resource_type: InsomniaResourceType,
}

/// The kind-specific payload of a resource.
#[derive(Debug)]
pub enum InsomniaResourceType {
    Workspace { description: Option<String> },
    RequestGroup { description: Option<String> },
    Request {
        method: String,
        url: String,
        headers: Vec<(String, String)>,
        body: Option<String>,
        description: Option<String>,
    },
    Environment { data: StringMap },
}

/// The importer for this format.
pub struct InsomniaImporter;

/// The model of a resource: its texts as character sequences.
pub struct SpecResource {
    pub id: Seq<char>,
    pub name: Seq<char>,
    pub parent: Option<Seq<char>>,
    pub rtype: SpecResourceType,
}

/// The model of a resource's kind-specific payload.
pub enum SpecResourceType {
    Workspace { description: Option<Seq<char>> },
    Group { description: Option<Seq<char>> },
    Request {
        method: Seq<char>,
        url: Seq<char>,
        headers: Seq<(Seq<char>, Seq<char>)>,
        body: Option<Seq<char>>,
        description: Option<Seq<char>>,
    },
    Environment { data: Map<Seq<char>, Seq<char>> },
}

/// The model of an imported request.
pub struct SpecImportedReq {
    pub id: Seq<char>,
    pub name: Seq<char>,
    pub description: Option<Seq<char>>,
    pub method: Seq<char>,
    pub url: Seq<char>,
    pub headers: Seq<(Seq<char>, Seq<char>)>,
    pub body: Option<Seq<char>>,
}

/// The model of an imported collection.
pub struct SpecCollection {
    pub name: Seq<char>,
    pub description: Option<Seq<char>>,
    pub requests: Seq<SpecImportedReq>,
}

/// The view of an optional owned text.
pub open spec fn opt_view(o: Option<String>) -> Option<Seq<char>> {
    match o {
        Some(s) => Some(s@),
        None => None,
    }
}

/// The views of owned text pairs, in order.
pub open spec fn hdr_views(s: Seq<(String, String)>) -> Seq<(Seq<char>, Seq<char>)>
    decreases s.len(),
{
    if s.len() == 0 {
        Seq::empty()
    } else {
        hdr_views(s.drop_last()).push((s.last().0@, s.last().1@))
    }
}

impl InsomniaResourceType {
    /// The model of this payload.
    pub open spec fn model(&self) -> SpecResourceType {
        match self {
            InsomniaResourceType::Workspace { description } => SpecResourceType::Workspace {
                description: opt_view(*description),
            },
            InsomniaResourceType::RequestGroup { description } => SpecResourceType::Group {
                description: opt_view(*description),
            },
            InsomniaResourceType::Request { method, url, headers, body, description } => (
            SpecResourceType::Request {
                method: method@,
                url: url@,
                headers: hdr_views(headers@),
                body: opt_view(*body),
                description: opt_view(*description),
            }),
            InsomniaResourceType::Environment { data } => SpecResourceType::Environment {
                data: data.model(),
            },
        }
    }
}

impl InsomniaResource {
    /// The model of this resource.
    pub open spec fn model(&self) -> SpecResource {
        SpecResource {
            id: self.id@,
            name: self.name@,
            parent: opt_view(self.parent_id),
            rtype: self.resource_type.model(),
        }
    }
}

/// The models of a resource list, in order.
pub open spec fn res_views(s: Seq<InsomniaResource>) -> Seq<SpecResource>
    decreases s.len(),
{
    if s.len() == 0 {
        Seq::empty()
    } else {
        res_views(s.drop_last()).push(s.last().model())
    }
}

/// The models of an imported request list, in order.
pub open spec fn req_views(s: Seq<ImportedRequest>) -> Seq<SpecImportedReq>
    decreases s.len(),
{
    if s.len() == 0 {
        Seq::empty()
    } else {
        req_views(s.drop_last()).push(
            SpecImportedReq {
                id: s.last().id@,
                name: s.last().name@,
                description: opt_view(s.last().description),
                method: s.last().method@,
                url: s.last().url@,
                headers: hdr_views(s.last().headers@),
                body: opt_view(s.last().body),
            },
        )
    }
}

/// The models of an imported collection list, in order.
pub open spec fn col_views(s: Seq<ImportedCollection>) -> Seq<SpecCollection>
    decreases s.len(),
{
    if s.len() == 0 {
        Seq::empty()
    } else {
        col_views(s.drop_last()).push(
            SpecCollection {
                name: s.last().name@,
                description: opt_view(s.last().description),
                requests: req_views(s.last().requests@),
            },
        )
    }
}

/// The value bound to a key of an object model, if any.
pub open spec fn sp_get(m: Map<Seq<char>, JsonVal>, k: Seq<char>) -> Option<JsonVal> {
    if m.dom().contains(k) {
        Some(m[k])
    } else {
        None
    }
}

/// The text bound to a key of an object model, when the key is bound to a
/// string value.
pub open spec fn sp_get_str(m: Map<Seq<char>, JsonVal>, k: Seq<char>) -> Option<Seq<char>> {
    match sp_get(m, k) {
        Some(JsonVal::Str(s)) => Some(s),
        _ => None,
    }
}

/// The export format version an object states: the numeral text of a number
/// value, or a string value's text.
pub open spec fn sp_version(m: Map<Seq<char>, JsonVal>) -> Option<Seq<char>> {
    match sp_get(m, "__export_format"@) {
        Some(JsonVal::Num(t)) => Some(t),
        Some(JsonVal::Str(s)) => Some(s),
        _ => None,
    }
}

/// The header pairs of a header array: each element that is an object with
/// string name and value contributes one pair, anything else is skipped.
pub open spec fn sp_headers(hs: Seq<JsonVal>) -> Seq<(Seq<char>, Seq<char>)>
    decreases hs.len(),
{
    if hs.len() == 0 {
        Seq::empty()
    } else {
        let rest = sp_headers(hs.drop_first());
        match hs[0] {
            JsonVal::Obj(h) => match (sp_get_str(h, "name"@), sp_get_str(h, "value"@)) {
                (Some(n), Some(v)) => seq![(n, v)] + rest,
                _ => rest,
            },
            _ => rest,
        }
    }
}

/// The variable mapping of an environment's data object: its string-valued
/// keys, each bound to that string.
pub open spec fn sp_env_map(m: Map<Seq<char>, JsonVal>) -> Map<Seq<char>, Seq<char>> {
    Map::new(
        |k: Seq<char>| m.dom().contains(k) && m[k] is Str,
        |k: Seq<char>| m[k]->Str_0,
    )
}

/// The same mapping read off an entry sequence, later entries overwriting.
pub open spec fn sp_env_seq(kvs: Seq<(Seq<char>, JsonVal)>) -> Map<Seq<char>, Seq<char>>
    decreases kvs.len(),
{
    if kvs.len() == 0 {
        Map::empty()
    } else {
        let rest = sp_env_seq(kvs.drop_last());
        if kvs.last().1 is Str {
            rest.insert(kvs.last().0, kvs.last().1->Str_0)
        } else {
            rest
        }
    }
}

/// Every key of the sequence reading occurs in the sequence.
proof fn lemma_env_seq_dom(kvs: Seq<(Seq<char>, JsonVal)>, k: Seq<char>)
    ensures
        sp_env_seq(kvs).dom().contains(k) ==> exists|j: int| 0 <= j < kvs.len() && kvs[j].0 == k,
    decreases kvs.len(),
{
    if kvs.len() > 0 {
        lemma_env_seq_dom(kvs.drop_last(), k);
        if sp_env_seq(kvs).dom().contains(k) {
            if kvs.last().1 is Str && kvs.last().0 == k {
                assert(kvs[kvs.len() - 1].0 == k);
            } else {
                let j = choose|j: int| 0 <= j < kvs.drop_last().len() && kvs.drop_last()[j].0 == k;
                assert(kvs[j].0 == k);
            }
        }
    }
}

/// A key of the underlying map occurs in the entry sequence.
proof fn lemma_kvs_map_key(kvs: Seq<(Seq<char>, JsonVal)>, k: Seq<char>)
    ensures
        kvs_map(kvs).dom().contains(k) ==> exists|j: int| 0 <= j < kvs.len() && kvs[j].0 == k,
    decreases kvs.len(),
{
    if kvs.len() > 0 {
        lemma_kvs_map_key(kvs.drop_last(), k);
        if kvs_map(kvs).dom().contains(k) {
            if kvs.last().0 == k {
                assert(kvs[kvs.len() - 1].0 == k);
            } else {
                let j = choose|j: int| 0 <= j < kvs.drop_last().len() && kvs.drop_last()[j].0 == k;
                assert(kvs[j].0 == k);
            }
        }
    }
}

/// With distinct keys, reading the entries and reading the map they denote
/// give the same variable mapping.
proof fn lemma_env_bridge(kvs: Seq<(Seq<char>, JsonVal)>)
    requires
        crate::json::keys_unique(kvs),
    ensures
        sp_env_seq(kvs) == sp_env_map(kvs_map(kvs)),
    decreases kvs.len(),
{
    if kvs.len() == 0 {
        assert(sp_env_seq(kvs) =~= sp_env_map(kvs_map(kvs)));
    } else {
        let pre = kvs.drop_last();
        assert(crate::json::keys_unique(pre)) by {
            assert(forall|a: int, b: int|
                0 <= a < b < pre.len() ==> pre[a] == kvs[a] && pre[b] == kvs[b]);
        }
        lemma_env_bridge(pre);
        let k = kvs.last().0;
        assert(forall|j: int| 0 <= j < pre.len() ==> pre[j] == kvs[j] && #[trigger] pre[j].0 != k);
        assert(!kvs_map(pre).dom().contains(k)) by {
            lemma_kvs_map_key(pre, k);
        }
        assert(!sp_env_seq(pre).dom().contains(k)) by {
            lemma_env_seq_dom(pre, k);
        }
        assert(sp_env_seq(kvs) =~= sp_env_map(kvs_map(kvs)));
    }
}

/// What one array element contributes to the resource list: nothing, one
/// resource, or a missing-field fault.
pub enum SpecResOut {
    Skip,
    Res(SpecResource),
    Fail(Seq<char>),
}

/// The resource a value denotes. A non-object is skipped; `_id`, `name` and
/// `_type` must be string members; an unknown type text is skipped; a
/// request additionally needs string `method` and `url` members.
pub open spec fn sp_resource(v: JsonVal) -> SpecResOut {
    match v {
        JsonVal::Obj(m) => {
            if sp_get_str(m, "_id"@) is None {
                SpecResOut::Fail("_id"@)
            } else if sp_get_str(m, "name"@) is None {
                SpecResOut::Fail("name"@)
            } else if sp_get_str(m, "_type"@) is None {
                SpecResOut::Fail("_type"@)
            } else {
                let id = sp_get_str(m, "_id"@).unwrap();
                let name = sp_get_str(m, "name"@).unwrap();
                let parent = sp_get_str(m, "parentId"@);
                let t = sp_get_str(m, "_type"@).unwrap();
                if t == "workspace"@ {
                    SpecResOut::Res(
                        SpecResource {
                            id,
                            name,
                            parent,
                            rtype: SpecResourceType::Workspace {
                                description: sp_get_str(m, "description"@),
                            },
                        },
                    )
                } else if t == "request_group"@ {
                    SpecResOut::Res(
                        SpecResource {
                            id,
                            name,
                            parent,
                            rtype: SpecResourceType::Group {
                                description: sp_get_str(m, "description"@),
                            },
                        },
                    )
                } else if t == "request"@ {
                    if sp_get_str(m, "method"@) is None {
                        SpecResOut::Fail("method"@)
                    } else if sp_get_str(m, "url"@) is None {
                        SpecResOut::Fail("url"@)
                    } else {
                        SpecResOut::Res(
                            SpecResource {
                                id,
                                name,
                                parent,
                                rtype: SpecResourceType::Request {
                                    method: sp_get_str(m, "method"@).unwrap(),
                                    url: sp_get_str(m, "url"@).unwrap(),
                                    headers: match sp_get(m, "headers"@) {
                                        Some(JsonVal::Arr(hs)) => sp_headers(hs),
                                        _ => Seq::empty(),
                                    },
                                    body: match sp_get(m, "body"@) {
                                        Some(JsonVal::Obj(b)) => sp_get_str(b, "text"@),
                                        _ => None,
                                    },
                                    description: sp_get_str(m, "description"@),
                                },
                            },
                        )
                    }
                } else if t == "environment"@ {
                    SpecResOut::Res(
                        SpecResource {
                            id,
                            name,
                            parent,
                            rtype: SpecResourceType::Environment {
                                data: match sp_get(m, "data"@) {
                                    Some(JsonVal::Obj(d)) => sp_env_map(d),
                                    _ => Map::empty(),
                                },
                            },
                        },
                    )
                } else {
                    SpecResOut::Skip
                }
            }
        },
        _ => SpecResOut::Skip,
    }
}

/// The resources an array denotes, in order, or the first missing-field
/// fault.
pub open spec fn sp_resources(vs: Seq<JsonVal>) -> Result<Seq<SpecResource>, Seq<char>>
    decreases vs.len(),
{
    if vs.len() == 0 {
        Ok(Seq::empty())
    } else {
        match sp_resource(vs[0]) {
            SpecResOut::Fail(k) => Err(k),
            SpecResOut::Skip => sp_resources(vs.drop_first()),
            SpecResOut::Res(r) => match sp_resources(vs.drop_first()) {
                Ok(rest) => Ok(seq![r] + rest),
                Err(k) => Err(k),
            },
        }
    }
}

/// A structural fault of an export document.
pub enum ExportFault {
    BadRoot,
    NoVersion,
    WrongVersion(Seq<char>),
    NoResources,
    BadResources,
    MissingKey(Seq<char>),
}

/// Whether an import error is the one a structural fault maps to.
pub open spec fn fault_matches(e: ImportError, f: ExportFault) -> bool {
    match f {
        ExportFault::BadRoot => e matches ImportError::InvalidFormat(m) && m@
            == "Root must be an object"@,
        ExportFault::NoVersion => e matches ImportError::MissingField(m) && m@
            == "__export_format"@,
        ExportFault::WrongVersion(v) => e matches ImportError::UnsupportedVersion(m) && m@
            == "Insomnia v"@ + v + " (only v4 supported)"@,
        ExportFault::NoResources => e matches ImportError::MissingField(m) && m@ == "resources"@,
        ExportFault::BadResources => e matches ImportError::InvalidFormat(m) && m@
            == "resources must be an array"@,
        ExportFault::MissingKey(k) => e matches ImportError::MissingField(m) && m@ == k,
    }
}

/// What an export document denotes: its version text and resources, or the
/// first structural fault.
pub open spec fn sp_parse_export(v: JsonVal) -> Result<(Seq<char>, Seq<SpecResource>), ExportFault> {
    match v {
        JsonVal::Obj(m) => match sp_version(m) {
            None => Err(ExportFault::NoVersion),
            Some(ver) => if ver != "4"@ {
                Err(ExportFault::WrongVersion(ver))
            } else {
                match sp_get(m, "resources"@) {
                    None => Err(ExportFault::NoResources),
                    Some(JsonVal::Arr(vs)) => match sp_resources(vs) {
                        Ok(rs) => Ok((ver, rs)),
                        Err(k) => Err(ExportFault::MissingKey(k)),
                    },
                    Some(_) => Err(ExportFault::BadResources),
                }
            },
        },
        _ => Err(ExportFault::BadRoot),
    }
}

/// Whether a parse result is what the content denotes.
pub open spec fn parse_outcome_ok(content: Seq<char>, r: ImportResult<InsomniaExport>) -> bool {
    match crate::json::spec_parse_text(content) {
        Err(m) => r matches Err(e) && (e matches ImportError::ParseError(t) && t@ == "ParseError: "@
            + m),
        Ok(root) => match sp_parse_export(root) {
            Ok(pr) => r matches Ok(exp) && exp.version@ == pr.0 && res_views(exp.resources@)
                == pr.1,
            Err(f) => r matches Err(e) && fault_matches(e, f),
        },
    }
}

/// The parent a resource hangs under, the root standing for none.
pub open spec fn parent_or_root(r: SpecResource) -> Seq<char> {
    match r.parent {
        Some(p) => p,
        None => Seq::empty(),
    }
}

/// The imported form of a request resource.
pub open spec fn to_spec_req(r: SpecResource) -> SpecImportedReq {
    SpecImportedReq {
        id: r.id,
        name: r.name,
        description: r.rtype->Request_description,
        method: r.rtype->Request_method,
        url: r.rtype->Request_url,
        headers: r.rtype->Request_headers,
        body: r.rtype->Request_body,
    }
}

/// The imported requests hanging directly under the given workspace, in
/// resource order.
pub open spec fn sp_requests_for(rs: Seq<SpecResource>, wid: Seq<char>) -> Seq<SpecImportedReq>
    decreases rs.len(),
{
    if rs.len() == 0 {
        Seq::empty()
    } else {
        let rest = sp_requests_for(rs.drop_first(), wid);
        if rs[0].rtype is Request && parent_or_root(rs[0]) == wid {
            seq![to_spec_req(rs[0])] + rest
        } else {
            rest
        }
    }
}

/// One collection per workspace, in resource order, each holding the
/// requests hanging directly under it.
pub open spec fn sp_collections(all: Seq<SpecResource>, rs: Seq<SpecResource>) -> Seq<
    SpecCollection,
>
    decreases rs.len(),
{
    if rs.len() == 0 {
        Seq::empty()
    } else {
        let rest = sp_collections(all, rs.drop_first());
        if rs[0].rtype is Workspace {
            seq![
                SpecCollection {
                    name: rs[0].name,
                    description: rs[0].rtype->Workspace_description,
                    requests: sp_requests_for(all, rs[0].id),
                },
            ] + rest
        } else {
            rest
        }
    }
}

/// Whether a conversion result is what the resources denote.
pub open spec fn convert_outcome_ok(
    rv: Seq<SpecResource>,
    r: ImportResult<Vec<ImportedCollection>>,
) -> bool {
    r matches Ok(cols) && col_views(cols@) == sp_collections(rv, rv)
}

/// Whether an import result is what the content denotes: the parse faults
/// surface unchanged, and a parsed export is converted.
pub open spec fn import_outcome_ok(
    content: Seq<char>,
    r: ImportResult<Vec<ImportedCollection>>,
) -> bool {
    match crate::json::spec_parse_text(content) {
        Err(m) => r matches Err(e) && (e matches ImportError::ParseError(t) && t@ == "ParseError: "@
            + m),
        Ok(root) => match sp_parse_export(root) {
            Ok(pr) => r matches Ok(cols) && col_views(cols@) == sp_collections(pr.1, pr.1),
            Err(f) => r matches Err(e) && fault_matches(e, f),
        },
    }
}


/// Copies owned text pairs.
fn clone_pairs(v: &Vec<(String, String)>) -> (r: Vec<(String, String)>)
    ensures
        r@ == v@,
{
    let mut r: Vec<(String, String)> = Vec::new();
    let mut i: usize = 0;
    while i < v.len()
        invariant
            i <= v@.len(),
            r@ == v@.subrange(0, i as int),
        decreases v@.len() - i,
    {
        r.push((v[i].0.clone(), v[i].1.clone()));
        proof {
            assert(r@ =~= v@.subrange(0, i + 1));
        }
        i = i + 1;
    }
    proof {
        assert(r@ =~= v@);
    }
    r
}

/// The string member of an object, or a missing-field fault.
fn get_string(obj: &JsonObject, key: &str) -> (r: Result<String, ImportError>)
    ensures
        match sp_get_str(obj.model(), key@) {
            Some(t) => r matches Ok(s) && s@ == t,
            None => r matches Err(e) && (e matches ImportError::MissingField(m) && m@ == key@),
        },
{
    match obj.get(key) {
        Some(JsonElement::String(s)) => Ok(s.clone()),
        _ => Err(ImportError::MissingField(key.to_owned())),
    }
}

/// The string member of an object, if it is there and a string.
fn get_optional_string(obj: &JsonObject, key: &str) -> (r: Option<String>)
    ensures
        match sp_get_str(obj.model(), key@) {
            Some(t) => r matches Some(s) && s@ == t,
            None => r is None,
        },
{
    match obj.get(key) {
        Some(JsonElement::String(s)) => Some(s.clone()),
        _ => None,
    }
}

/// The header pairs of a header array, as [`sp_headers`] states.
#[verifier::loop_isolation(false)]
fn read_headers(harr: &Vec<JsonElement>) -> (r: Vec<(String, String)>)
    ensures
        hdr_views(r@) == sp_headers(crate::json::seq_models(harr@)),
{
    let ghost models = crate::json::seq_models(harr@);
    proof {
        crate::json::lemma_seq_models(harr@);
        assert(models.skip(0) =~= models);
    }
    let mut out: Vec<(String, String)> = Vec::new();
    let n = harr.len();
    let mut i: usize = 0;
    while i < n
        invariant
            n == harr@.len(),
            i <= n,
            sp_headers(models) == hdr_views(out@) + sp_headers(models.skip(i as int)),
        decreases n - i,
    {
        proof {
            crate::json::lemma_seq_models(harr@);
            assert(models.skip(i as int)[0] == models[i as int]);
            assert(models.skip(i as int).drop_first() =~= models.skip(i + 1));
        }
        match &harr[i] {
            JsonElement::Object(hobj) => {
                let name = get_optional_string(hobj, "name");
                let value = get_optional_string(hobj, "value");
                match (name, value) {
                    (Some(nm), Some(vl)) => {
                        let ghost pre = out@;
                        out.push((nm, vl));
                        proof {
                            assert(out@.drop_last() =~= pre);
                            assert(hdr_views(out@) =~= hdr_views(pre) + seq![
                                (out@.last().0@, out@.last().1@),
                            ]);
                        }
                    },
                    _ => {},
                }
            },
            _ => {},
        }
        i = i + 1;
    }
    proof {
        assert(models.skip(n as int) =~= Seq::<JsonVal>::empty());
        assert(hdr_views(out@) + Seq::<(Seq<char>, Seq<char>)>::empty() =~= hdr_views(out@));
    }
    out
}

/// The variable mapping of an environment data object, as [`sp_env_map`]
/// states.
#[verifier::loop_isolation(false)]
fn read_env_data(obj: &JsonObject) -> (r: StringMap)
    ensures
        r.model() == sp_env_map(obj.model()),
{
    let ghost kvs = obj.kvs();
    obj.keys_unique_holds();
    let mut data = StringMap::new();
    let n = obj.entry_count();
    let mut i: usize = 0;
    proof {
        assert(kvs.subrange(0, 0) =~= Seq::<(Seq<char>, JsonVal)>::empty());
        assert(data.model() =~= sp_env_seq(kvs.subrange(0, 0)));
    }
    while i < n
        invariant
            n == kvs.len(),
            i <= n,
            data.model() == sp_env_seq(kvs.subrange(0, i as int)),
        decreases n - i,
    {
        let key = obj.key_at(i);
        let value = obj.value_at(i);
        let ghost pre = data.model();
        match value {
            JsonElement::String(s) => {
                data.insert(key.clone(), s.clone());
            },
            _ => {},
        }
        proof {
            assert(kvs.subrange(0, i + 1).drop_last() =~= kvs.subrange(0, i as int));
            assert(kvs.subrange(0, i + 1).last() == kvs[i as int]);
        }
        i = i + 1;
    }
    proof {
        assert(kvs.subrange(0, n as int) =~= kvs);
        lemma_env_bridge(kvs);
    }
    data
}

/// The resource one array element denotes: a skipped element, a resource,
/// or a missing-field fault, as [`sp_resource`] states.
fn read_resource(v: &JsonElement) -> (r: Result<Option<InsomniaResource>, ImportError>)
    ensures
        match sp_resource(v.model()) {
            SpecResOut::Skip => r matches Ok(o) && o is None,
            SpecResOut::Res(sr) => r matches Ok(o) && (o matches Some(ir) && ir.model() == sr),
            SpecResOut::Fail(k) => r matches Err(e) && (e matches ImportError::MissingField(m)
                && m@ == k),
        },
{
    let obj = match v {
        JsonElement::Object(m) => m,
        _ => {
            return Ok(None);
        },
    };
    let id = match get_string(obj, "_id") {
        Ok(s) => s,
        Err(e) => {
            return Err(e);
        },
    };
    let name = match get_string(obj, "name") {
        Ok(s) => s,
        Err(e) => {
            return Err(e);
        },
    };
    let type_str = match get_string(obj, "_type") {
        Ok(s) => s,
        Err(e) => {
            return Err(e);
        },
    };
    let parent_id = get_optional_string(obj, "parentId");
    let resource_type: InsomniaResourceType = if text::str_eq(type_str.as_str(), "workspace") {
        InsomniaResourceType::Workspace { description: get_optional_string(obj, "description") }
    } else if text::str_eq(type_str.as_str(), "request_group") {
        InsomniaResourceType::RequestGroup { description: get_optional_string(obj, "description") }
    } else if text::str_eq(type_str.as_str(), "request") {
        let method = match get_string(obj, "method") {
            Ok(s) => s,
            Err(e) => {
                return Err(e);
            },
        };
        let url = match get_string(obj, "url") {
            Ok(s) => s,
            Err(e) => {
                return Err(e);
            },
        };
        let headers: Vec<(String, String)> = match obj.get("headers") {
            Some(JsonElement::Array(harr)) => read_headers(harr),
            _ => Vec::new(),
        };
        let body: Option<String> = match obj.get("body") {
            Some(JsonElement::Object(bobj)) => get_optional_string(bobj, "text"),
            _ => None,
        };
        proof {
            assert(hdr_views(Seq::<(String, String)>::empty()) =~= Seq::<
                (Seq<char>, Seq<char>),
            >::empty());
        }
        InsomniaResourceType::Request {
            method,
            url,
            headers,
            body,
            description: get_optional_string(obj, "description"),
        }
    } else if text::str_eq(type_str.as_str(), "environment") {
        let data: StringMap = match obj.get("data") {
            Some(JsonElement::Object(dobj)) => read_env_data(dobj),
            _ => StringMap::new(),
        };
        proof {
            assert(sp_env_map(Map::<Seq<char>, JsonVal>::empty()) =~= Map::<
                Seq<char>,
                Seq<char>,
            >::empty());
        }
        InsomniaResourceType::Environment { data }
    } else {
        return Ok(None);
    };
    Ok(Some(InsomniaResource { id, name, parent_id, resource_type }))
}

impl InsomniaImporter {
    /// Whether the text shows this format's markers.
    pub fn detects(content: &str) -> (r: bool)
        ensures
            r == crate::importers::spec_can_import(content@),
    {
        text::contains_str(content, "\"__export_format\"") && text::contains_str(
            content,
            "\"resources\"",
        )
    }

    /// Parses an export text into its version and resources, as
    /// [`parse_outcome_ok`] states.
    #[verifier::loop_isolation(false)]
    pub fn parse_text(content: &str) -> (r: ImportResult<InsomniaExport>)
        requires
            content@.len() <= crate::tokenizer::MAX_SOURCE_LEN,
        ensures
            parse_outcome_ok(content@, r),
    {
        let json = match Json::parse_text(content) {
            Ok(j) => j,
            Err(e) => {
                let msg = e.display_message();
                return Err(ImportError::ParseError(msg));
            },
        };
        let obj = match json.root {
            JsonElement::Object(map) => map,
            _ => {
                let mut m = String::new();
                m.append("Root must be an object");
                return Err(ImportError::InvalidFormat(m));
            },
        };
        let version: String = match obj.get("__export_format") {
            Some(JsonElement::Number(n)) => n.clone(),
            Some(JsonElement::String(s)) => s.clone(),
            _ => {
                return Err(ImportError::MissingField("__export_format".to_owned()));
            },
        };
        if !text::str_eq(version.as_str(), "4") {
            let mut m = String::new();
            m.append("Insomnia v");
            m.append(version.as_str());
            m.append(" (only v4 supported)");
            return Err(ImportError::UnsupportedVersion(m));
        }
        let resources_array: &Vec<JsonElement> = match obj.get("resources") {
            Some(JsonElement::Array(arr)) => arr,
            Some(_) => {
                let mut m = String::new();
                m.append("resources must be an array");
                return Err(ImportError::InvalidFormat(m));
            },
            None => {
                return Err(ImportError::MissingField("resources".to_owned()));
            },
        };
        let ghost models = crate::json::seq_models(resources_array@);
        proof {
            crate::json::lemma_seq_models(resources_array@);
            assert(models.skip(0) =~= models);
        }
        let mut resources: Vec<InsomniaResource> = Vec::new();
        let n = resources_array.len();
        let mut i: usize = 0;
        while i < n
            invariant
                n == resources_array@.len(),
                i <= n,
                match sp_resources(models.skip(i as int)) {
                    Ok(rest) => sp_resources(models) == Ok::<Seq<SpecResource>, Seq<char>>(
                        res_views(resources@) + rest,
                    ),
                    Err(k) => sp_resources(models) == Err::<Seq<SpecResource>, Seq<char>>(k),
                },
            decreases n - i,
        {
            proof {
                crate::json::lemma_seq_models(resources_array@);
                assert(models.skip(i as int)[0] == models[i as int]);
                assert(models.skip(i as int).drop_first() =~= models.skip(i + 1));
            }
            match read_resource(&resources_array[i]) {
                Err(e) => {
                    return Err(e);
                },
                Ok(None) => {},
                Ok(Some(res)) => {
                    let ghost pre = resources@;
                    resources.push(res);
                    proof {
                        assert(resources@.drop_last() =~= pre);
                        match sp_resources(models.skip(i + 1)) {
                            Ok(rest) => {
                                assert(res_views(pre) + (seq![resources@.last().model()] + rest)
                                    =~= res_views(resources@) + rest);
                            },
                            Err(_) => {},
                        }
                    }
                },
            }
            i = i + 1;
        }
        proof {
            assert(models.skip(n as int) =~= Seq::<JsonVal>::empty());
            match sp_resources(models) {
                Ok(rs) => {
                    assert(res_views(resources@) + Seq::<SpecResource>::empty() =~= res_views(
                        resources@,
                    ));
                },
                Err(_) => {},
            }
        }
        Ok(InsomniaExport { version, resources })
    }

    /// Converts a parsed export into collections: one per workspace, in
    /// resource order, each holding the requests hanging directly under it,
    /// as [`sp_collections`] states.
    #[verifier::loop_isolation(false)]
    pub fn convert_export(source: InsomniaExport) -> (r: ImportResult<Vec<ImportedCollection>>)
        ensures
            convert_outcome_ok(res_views(source.resources@), r),
    {
        let ghost all = res_views(source.resources@);
        proof {
            lemma_res_views(source.resources@);
            assert(all.skip(0) =~= all);
        }
        let mut collections: Vec<ImportedCollection> = Vec::new();
        let n = source.resources.len();
        let mut w: usize = 0;
        while w < n
            invariant
                n == source.resources@.len(),
                w <= n,
                sp_collections(all, all) == col_views(collections@) + sp_collections(
                    all,
                    all.skip(w as int),
                ),
            decreases n - w,
        {
            proof {
                lemma_res_views(source.resources@);
                assert(all.skip(w as int)[0] == all[w as int]);
                assert(all.skip(w as int).drop_first() =~= all.skip(w + 1));
            }
            match &source.resources[w].resource_type {
                InsomniaResourceType::Workspace { description } => {
                    let mut requests: Vec<ImportedRequest> = Vec::new();
                    let ghost wid = source.resources@[w as int].id@;
                    let mut k: usize = 0;
                    proof {
                        assert(all.skip(0) =~= all);
                    }
                    while k < n
                        invariant
                            n == source.resources@.len(),
                            k <= n,
                            sp_requests_for(all, wid) == req_views(requests@) + sp_requests_for(
                                all.skip(k as int),
                                wid,
                            ),
                        decreases n - k,
                    {
                        proof {
                            lemma_res_views(source.resources@);
                            assert(all.skip(k as int)[0] == all[k as int]);
                            assert(all.skip(k as int).drop_first() =~= all.skip(k + 1));
                        }
                        let res = &source.resources[k];
                        let is_child: bool = match &res.parent_id {
                            Some(p) => text::str_eq(
                                p.as_str(),
                                source.resources[w].id.as_str(),
                            ),
                            None => source.resources[w].id.as_str().is_empty(),
                        };
                        proof {
                            if wid.len() == 0 {
                                assert(wid =~= Seq::<char>::empty());
                            }
                        }
                        match &res.resource_type {
                            InsomniaResourceType::Request {
                                method,
                                url,
                                headers,
                                body,
                                description,
                            } => {
                                if is_child {
                                    let req = ImportedRequest {
                                        id: res.id.clone(),
                                        name: res.name.clone(),
                                        description: match description {
                                            Some(d) => Some(d.clone()),
                                            None => None,
                                        },
                                        method: method.clone(),
                                        url: url.clone(),
                                        headers: clone_pairs(headers),
                                        body: match body {
                                            Some(b) => Some(b.clone()),
                                            None => None,
                                        },
                                    };
                                    let ghost pre = requests@;
                                    requests.push(req);
                                    proof {
                                        assert(requests@.drop_last() =~= pre);
                                        assert(req_views(requests@) =~= req_views(pre).push(
                                            to_spec_req(all[k as int]),
                                        ));
                                        assert(req_views(pre) + (seq![to_spec_req(all[k as int])]
                                            + sp_requests_for(all.skip(k + 1), wid)) =~= req_views(
                                            requests@,
                                        ) + sp_requests_for(all.skip(k + 1), wid));
                                    }
                                }
                            },
                            _ => {},
                        }
                        k = k + 1;
                    }
                    proof {
                        assert(all.skip(n as int) =~= Seq::<SpecResource>::empty());
                        assert(req_views(requests@) + Seq::<SpecImportedReq>::empty() =~= req_views(
                            requests@,
                        ));
                    }
                    let col = ImportedCollection {
                        name: source.resources[w].name.clone(),
                        description: match description {
                            Some(d) => Some(d.clone()),
                            None => None,
                        },
                        requests,
                    };
                    let ghost pre_cols = collections@;
                    collections.push(col);
                    proof {
                        assert(collections@.drop_last() =~= pre_cols);
                        assert(col_views(collections@) =~= col_views(pre_cols).push(
                            SpecCollection {
                                name: all[w as int].name,
                                description: all[w as int].rtype->Workspace_description,
                                requests: sp_requests_for(all, all[w as int].id),
                            },
                        ));
                        assert(col_views(pre_cols) + (seq![
                            SpecCollection {
                                name: all[w as int].name,
                                description: all[w as int].rtype->Workspace_description,
                                requests: sp_requests_for(all, all[w as int].id),
                            },
                        ] + sp_collections(all, all.skip(w + 1))) =~= col_views(collections@)
                            + sp_collections(all, all.skip(w + 1)));
                    }
                },
                _ => {},
            }
            w = w + 1;
        }
        proof {
            assert(all.skip(n as int) =~= Seq::<SpecResource>::empty());
            assert(col_views(collections@) + Seq::<SpecCollection>::empty() =~= col_views(
                collections@,
            ));
        }
        Ok(collections)
    }

    /// The whole pipeline on a text: parse, then convert, as
    /// [`import_outcome_ok`] states.
    pub fn import_text(content: &str) -> (r: ImportResult<Vec<ImportedCollection>>)
        requires
            content@.len() <= crate::tokenizer::MAX_SOURCE_LEN,
        ensures
            import_outcome_ok(content@, r),
    {
        match Self::parse_text(content) {
            Ok(source) => Self::convert_export(source),
            Err(e) => Err(e),
        }
    }
}

/// The length and entries of `res_views`, stated pointwise.
proof fn lemma_res_views(s: Seq<InsomniaResource>)
    ensures
        res_views(s).len() == s.len(),
        forall|i: int| 0 <= i < s.len() ==> res_views(s)[i] == s[i].model(),
    decreases s.len(),
{
    if s.len() > 0 {
        lemma_res_views(s.drop_last());
        assert forall|i: int| 0 <= i < s.len() implies res_views(s)[i] == s[i].model() by {
            if i < s.len() - 1 {
                assert(s.drop_last()[i] == s[i]);
            }
        }
    }
}

impl crate::importers::ImportFormat for InsomniaImporter {
    type Source = InsomniaExport;

    /// Whether the text shows this format's markers.
    fn can_import(content: &str) -> (r: bool)
        ensures
            r == crate::importers::spec_can_import(content@),
    {
        Self::detects(content)
    }

    /// Parses the text, as [`parse_outcome_ok`] states.
    fn parse(content: &str) -> (r: ImportResult<InsomniaExport>)
        ensures
            parse_outcome_ok(content@, r),
    {
        Self::parse_text(content)
    }

    /// Converts the representation, as [`convert_outcome_ok`] states.
    fn convert(source: InsomniaExport) -> (r: ImportResult<Vec<ImportedCollection>>)
        ensures
            convert_outcome_ok(res_views(source.resources@), r),
    {
        Self::convert_export(source)
    }

    /// The whole pipeline on a text, as [`import_outcome_ok`] states.
    fn import(content: &str) -> (r: ImportResult<Vec<ImportedCollection>>)
        ensures
            import_outcome_ok(content@, r),
    {
        Self::import_text(content)
    }
}

} // verus!
