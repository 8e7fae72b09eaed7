//! Content types and form-body encoding: MIME names, their recognition, and
//! percent-encoding of form data.

use vstd::prelude::*;

use crate::string_map::StringMap;
use crate::text;

verus! {

broadcast use vstd::std_specs::vec::group_vec_axioms, vstd::seq::group_seq_axioms;

/// A request content type, by family.
#[derive(Debug, PartialEq)]
pub enum ContentType {
    Json,
    Xml,
    Text,
    FormUrlEncoded,
    FormData,
    Binary,
    Custom(String),
}

/// The MIME name of each content-type family; a custom type names itself.
pub open spec fn mime_name(ct: ContentType) -> Seq<char> {
    match ct {
        ContentType::Json => "application/json"@,
        ContentType::Xml => "application/xml"@,
        ContentType::Text => "text/plain"@,
        ContentType::FormUrlEncoded => "application/x-www-form-urlencoded"@,
        ContentType::FormData => "multipart/form-data"@,
        ContentType::Binary => "application/octet-stream"@,
        ContentType::Custom(mime) => mime@,
    }
}

/// The content-type family a MIME text denotes: the first family whose
/// marker occurs in the lower-cased text, otherwise a custom type carrying
/// the text unchanged.
pub open spec fn spec_from_mime(mime: Seq<char>) -> ContentType {
    let s = text::lower_seq(mime);
    if text::contains_seq(s, "application/json"@) {
        ContentType::Json
    } else if text::contains_seq(s, "application/xml"@) || text::contains_seq(s, "text/xml"@) {
        ContentType::Xml
    } else if text::contains_seq(s, "text/plain"@) {
        ContentType::Text
    } else if text::contains_seq(s, "application/x-www-form-urlencoded"@) {
        ContentType::FormUrlEncoded
    } else if text::contains_seq(s, "multipart/form-data"@) {
        ContentType::FormData
    } else if text::contains_seq(s, "application/octet-stream"@) {
        ContentType::Binary
    } else {
        ContentType::Custom(arbitrary())
    }
}

/// Whether a MIME text falls to the custom family.
pub open spec fn is_custom_mime(mime: Seq<char>) -> bool {
    spec_from_mime(mime) is Custom
}

impl ContentType {
    /// The MIME name of this content type.
    pub fn as_mime_type(&self) -> (r: &str)
        ensures
            r@ == mime_name(*self),
    {
        match self {
            ContentType::Json => "application/json",
            ContentType::Xml => "application/xml",
            ContentType::Text => "text/plain",
            ContentType::FormUrlEncoded => "application/x-www-form-urlencoded",
            ContentType::FormData => "multipart/form-data",
            ContentType::Binary => "application/octet-stream",
            ContentType::Custom(mime) => mime.as_str(),
        }
    }

    /// The content-type family of a MIME text: marker search in the
    /// lower-cased text, first match winning; anything unrecognised becomes
    /// a custom type holding the text unchanged.
    pub fn from_mime_type(mime: &str) -> (r: ContentType)
        ensures
            !is_custom_mime(mime@) ==> r == spec_from_mime(mime@),
            is_custom_mime(mime@) ==> (r matches ContentType::Custom(m) && m@ == mime@),
    {
        let lower = text::ascii_lowercase(mime);
        let s = lower.as_str();
        if text::contains_str(s, "application/json") {
            ContentType::Json
        } else if text::contains_str(s, "application/xml") || text::contains_str(s, "text/xml") {
            ContentType::Xml
        } else if text::contains_str(s, "text/plain") {
            ContentType::Text
        } else if text::contains_str(s, "application/x-www-form-urlencoded") {
            ContentType::FormUrlEncoded
        } else if text::contains_str(s, "multipart/form-data") {
            ContentType::FormData
        } else if text::contains_str(s, "application/octet-stream") {
            ContentType::Binary
        } else {
            ContentType::Custom(mime.to_owned())
        }
    }
}

/// The uppercase hexadecimal digit of a value below sixteen.
pub open spec fn hex_digit(d: int) -> char {
    if d == 0 {
        '0'
    } else if d == 1 {
        '1'
    } else if d == 2 {
        '2'
    } else if d == 3 {
        '3'
    } else if d == 4 {
        '4'
    } else if d == 5 {
        '5'
    } else if d == 6 {
        '6'
    } else if d == 7 {
        '7'
    } else if d == 8 {
        '8'
    } else if d == 9 {
        '9'
    } else if d == 10 {
        'A'
    } else if d == 11 {
        'B'
    } else if d == 12 {
        'C'
    } else if d == 13 {
        'D'
    } else if d == 14 {
        'E'
    } else {
        'F'
    }
}

/// Whether a character passes through percent-encoding unchanged.
pub open spec fn is_unreserved(c: char) -> bool {
    ||| ('A' <= c && c <= 'Z')
    ||| ('a' <= c && c <= 'z')
    ||| ('0' <= c && c <= '9')
    ||| c == '-'
    ||| c == '_'
    ||| c == '.'
    ||| c == '~'
}

/// What one character becomes under form percent-encoding: unreserved
/// characters stand, a space becomes a plus, anything else becomes a
/// percent escape of its low byte.
pub open spec fn encode_char(c: char) -> Seq<char> {
    if is_unreserved(c) {
        seq![c]
    } else if c == ' ' {
        seq!['+']
    } else {
        let b = (c as u32) as int % 256;
        seq!['%', hex_digit(b / 16), hex_digit(b % 16)]
    }
}

/// The percent-encoding of a text, character by character.
pub open spec fn spec_urlencode(s: Seq<char>) -> Seq<char>
    decreases s.len(),
{
    if s.len() == 0 {
        Seq::empty()
    } else {
        encode_char(s[0]) + spec_urlencode(s.drop_first())
    }
}

/// One encoded form pair: encoded key, equals sign, encoded value.
pub open spec fn spec_form_pair(p: (Seq<char>, Seq<char>)) -> Seq<char> {
    spec_urlencode(p.0) + seq!['='] + spec_urlencode(p.1)
}

/// Encoded form pairs joined by ampersands, in entry order.
pub open spec fn spec_form_encode(kvs: Seq<(Seq<char>, Seq<char>)>) -> Seq<char>
    decreases kvs.len(),
{
    if kvs.len() == 0 {
        Seq::empty()
    } else if kvs.len() == 1 {
        spec_form_pair(kvs[0])
    } else {
        spec_form_pair(kvs[0]) + seq!['&'] + spec_form_encode(kvs.drop_first())
    }
}

/// Percent-encodes a text for a form body, as [`spec_urlencode`] states.
pub fn encode(s: &str) -> (r: String)
    ensures
        r@ == spec_urlencode(s@),
{
    let cs = text::chars_vec(s);
    let n = cs.len();
    let mut out = String::new();
    let mut i: usize = 0;
    proof {
        assert(out@ + spec_urlencode(s@) =~= spec_urlencode(s@));
        assert(s@.skip(0) =~= s@);
    }
    while i < n
        invariant
            n == s@.len(),
            cs@ == s@,
            i <= n,
            spec_urlencode(s@) == out@ + spec_urlencode(s@.skip(i as int)),
        decreases n - i,
    {
        let c = cs[i];
        proof {
            assert(s@.skip(i as int)[0] == s@[i as int]);
            assert(s@.skip(i as int).drop_first() =~= s@.skip(i + 1));
        }
        if (('A' <= c && c <= 'Z') || ('a' <= c && c <= 'z') || ('0' <= c && c <= '9') || c == '-'
            || c == '_' || c == '.' || c == '~') {
            text::push_char(&mut out, c);
        } else if c == ' ' {
            text::push_char(&mut out, '+');
        } else {
            let b = (c as u32) % 256;
            text::push_char(&mut out, '%');
            text::push_char(&mut out, hex_char(b / 16));
            text::push_char(&mut out, hex_char(b % 16));
        }
        i = i + 1;
    }
    proof {
        assert(s@.skip(n as int) =~= Seq::<char>::empty());
    }
    out
}

/// The uppercase hexadecimal digit character of a value below sixteen.
fn hex_char(d: u32) -> (r: char)
    requires
        d < 16,
    ensures
        r == hex_digit(d as int),
{
    match d {
        0 => '0',
        1 => '1',
        2 => '2',
        3 => '3',
        4 => '4',
        5 => '5',
        6 => '6',
        7 => '7',
        8 => '8',
        9 => '9',
        10 => 'A',
        11 => 'B',
        12 => 'C',
        13 => 'D',
        14 => 'E',
        _ => 'F',
    }
}

/// Encodes a whole form mapping: percent-encoded pairs joined by
/// ampersands, in entry order, as [`spec_form_encode`] states.
#[verifier::loop_isolation(false)]
pub fn encode_form_urlencoded(data: &StringMap) -> (r: String)
    ensures
        r@ == spec_form_encode(data.kvs()),
{
    let ghost kvs = data.kvs();
    let n = data.len();
    let mut out = String::new();
    let mut i: usize = 0;
    proof {
        assert(kvs.skip(0) =~= kvs);
        assert(out@ + spec_form_encode(kvs) =~= spec_form_encode(kvs));
    }
    while i < n
        invariant
            i <= n,
            spec_form_encode(kvs) == out@ + spec_form_encode(kvs.skip(i as int)),
        decreases n - i,
    {
        proof {
            assert(kvs.skip(i as int)[0] == kvs[i as int]);
            assert(kvs.skip(i as int).drop_first() =~= kvs.skip(i + 1));
        }
        let ghost out0 = out@;
        let k = encode(data.key_at(i).as_str());
        let v = encode(data.value_at(i).as_str());
        out.append(k.as_str());
        out.append("=");
        out.append(v.as_str());
        proof {
            reveal_strlit("=");
            assert(out@ =~= out0 + spec_form_pair(kvs[i as int]));
        }
        if i + 1 < n {
            out.append("&");
            proof {
                reveal_strlit("&");
                assert(out@ =~= out0 + (spec_form_pair(kvs[i as int]) + seq!['&']));
            }
        }
        proof {
            if i + 1 < n {
                assert(spec_form_encode(kvs.skip(i as int)) == spec_form_pair(kvs[i as int])
                    + seq!['&'] + spec_form_encode(kvs.skip(i + 1)));
                assert(out0 + (spec_form_pair(kvs[i as int]) + seq!['&']) + spec_form_encode(
                    kvs.skip(i + 1),
                ) =~= out0 + spec_form_encode(kvs.skip(i as int)));
            } else {
                assert(kvs.skip(i as int).len() == 1);
                assert(spec_form_encode(kvs.skip(i as int)) == spec_form_pair(
                    kvs.skip(i as int)[0],
                ));
                assert(kvs.skip(i + 1) =~= Seq::<(Seq<char>, Seq<char>)>::empty());
                assert(out0 + spec_form_pair(kvs[i as int]) + spec_form_encode(kvs.skip(i + 1))
                    =~= out0 + spec_form_encode(kvs.skip(i as int)));
            }
        }
        i = i + 1;
    }
    proof {
        assert(kvs.skip(n as int) =~= Seq::<(Seq<char>, Seq<char>)>::empty());
    }
    out
}

} // verus!
