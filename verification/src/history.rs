//! Request history records: plain snapshots of a request, its response and
//! timing, and the body preview a response is reduced to.

use vstd::prelude::*;
use vstd::string::StringSliceAdditionalSpecFns;

use crate::response::HttpResponse;
use crate::text;

verus! {

broadcast use vstd::std_specs::vec::group_vec_axioms, vstd::seq::group_seq_axioms;

/// One history record: an identifier, a timestamp, the request and response
/// snapshots, and the measured duration in milliseconds.
#[derive(Debug)]
pub struct HistoryEntry {
    pub id: String,
    pub timestamp: u64,
    pub request: HistoryRequest,
    pub response: HistoryResponse,
    pub duration_ms: u64,
}

/// The request side of a history record.
#[derive(Debug)]
pub struct HistoryRequest {
    pub method: String,
    pub url: String,
    pub headers: Vec<(String, String)>,
    pub body: Option<String>,
}

/// The response side of a history record: the status line, the headers, and
/// a bounded text preview of the body.
#[derive(Debug)]
pub struct HistoryResponse {
    pub status: u16,
    pub status_text: String,
    pub headers: Vec<(String, String)>,
    pub body_preview: String,
}

/// The byte length above which a body preview is cut short.
pub const PREVIEW_LIMIT: usize = 500;

/// The fallback preview of a body that is not UTF-8 text.
pub open spec fn binary_preview(len: nat) -> Seq<char> {
    "<binary data, "@ + text::dec_rep(len) + " bytes>"@
}

/// Whether a preview text is right for a body: a UTF-8 body within the
/// limit decoded whole, a longer one cut at the last character boundary
/// within the limit and marked with an ellipsis, and anything else
/// summarised with its byte count.
pub open spec fn preview_ok(body: Seq<u8>, p: Seq<char>) -> bool {
    if vstd::utf8::valid_utf8(body) {
        if body.len() <= PREVIEW_LIMIT {
            vstd::utf8::encode_utf8(p) == body
        } else {
            exists|t: Seq<char>| #[trigger] is_preview_prefix(body, t) && p == t + "..."@
        }
    } else {
        p == binary_preview(body.len())
    }
}

/// Whether `t` is the decoded maximal prefix of the body within the preview
/// limit: its encoding is a prefix of the body ending at the last character
/// boundary not beyond the limit.
pub open spec fn is_preview_prefix(body: Seq<u8>, t: Seq<char>) -> bool {
    exists|b: int|
        {
            &&& 0 <= b <= PREVIEW_LIMIT
            &&& #[trigger] vstd::utf8::is_char_boundary(body, b)
            &&& forall|b2: int|
                b < b2 <= PREVIEW_LIMIT ==> !vstd::utf8::is_char_boundary(body, b2)
            &&& vstd::utf8::encode_utf8(t) == body.subrange(0, b)
        }
}

impl HistoryResponse {
    /// The history snapshot of a response: the status line and headers
    /// copied, the body reduced to a preview. UTF-8 bodies within the limit
    /// appear whole; longer ones are cut at a character boundary and marked
    /// with an ellipsis; anything else is summarised with its byte count.
    #[verifier::loop_isolation(false)]
    pub fn from_response(response: &HttpResponse) -> (r: HistoryResponse)
        ensures
            r.status == response.status,
            r.status_text@ == response.status_text@,
            r.headers@.len() == response.headers.kvs().len(),
            forall|k: int|
                0 <= k < r.headers@.len() ==> #[trigger] r.headers@[k].0@
                    == response.headers.kvs()[k].0 && r.headers@[k].1@
                    == response.headers.kvs()[k].1,
            preview_ok(response.body@, r.body_preview@),
    {
        let body_byte_count = response.body.len();
        let body_preview: String = match crate::response::str_from_utf8(response.body.as_slice()) {
            Some(body_str) => {
                if body_str.len() > PREVIEW_LIMIT {
                    let ghost body = response.body@;
                    let mut b: usize = PREVIEW_LIMIT;
                    while !body_str.is_char_boundary(b)
                        invariant
                            0 <= b <= PREVIEW_LIMIT,
                            forall|b2: int|
                                b < b2 <= PREVIEW_LIMIT ==> !vstd::utf8::is_char_boundary(
                                    body,
                                    b2,
                                ),
                        decreases b,
                    {
                        b = b - 1;
                    }
                    let pair = body_str.split_at(b);
                    let mut preview = pair.0.to_owned();
                    preview.append("...");
                    proof {
                        assert(vstd::utf8::encode_utf8(pair.0@) == body.subrange(0, b as int));
                        assert(is_preview_prefix(body, pair.0@));
                        assert(preview@ == pair.0@ + "..."@);
                        assert(preview_ok(response.body@, preview@));
                    }
                    preview
                } else {
                    let whole = body_str.to_owned();
                    proof {
                        assert(body_str.spec_bytes() == vstd::utf8::encode_utf8(body_str@));
                        assert(body_str.spec_bytes().len() == body_byte_count);
                        assert(response.body@.len() <= PREVIEW_LIMIT);
                        assert(preview_ok(response.body@, whole@));
                    }
                    whole
                }
            },
            None => {
                let mut msg = String::new();
                msg.append("<binary data, ");
                let len_str = text::dec_string(response.body.len());
                msg.append(len_str.as_str());
                msg.append(" bytes>");
                proof {
                    assert(msg@ =~= binary_preview(response.body@.len()));
                    assert(preview_ok(response.body@, msg@));
                }
                msg
            },
        };
        let mut headers: Vec<(String, String)> = Vec::new();
        let ghost kvs = response.headers.kvs();
        let n = response.headers.len();
        let mut i: usize = 0;
        while i < n
            invariant
                i <= n,
                headers@.len() == i,
                forall|k: int|
                    0 <= k < i ==> #[trigger] headers@[k].0@ == kvs[k].0 && headers@[k].1@
                        == kvs[k].1,
            decreases n - i,
        {
            headers.push((response.headers.key_at(i).clone(), response.headers.value_at(i).clone()));
            i = i + 1;
        }
        HistoryResponse {
            status: response.status,
            status_text: response.status_text.clone(),
            headers,
            body_preview,
        }
    }
}

} // verus!
