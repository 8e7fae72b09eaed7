//! The value tree and the recursive-descent tree builder: one root value per
//! document, or the first structural fault.
//!
//! The parser's behaviour is stated by the specification functions
//! [`sp_value`], [`sp_object`], [`sp_array`], [`sp_members`] and
//! [`sp_items`], which read the token list exactly as the executable parser
//! walks its cursor, and by [`spec_parse_text`] for the whole pipeline from
//! source text to value tree.

use vstd::prelude::*;

use crate::error::ParseError;
use crate::parse::Parse;
use crate::text;
use crate::token_stream::TokenStream;
use crate::tokenizer::{lex, lex_err_msg, SpecToken, TokenKind, Tokenizer, MAX_SOURCE_LEN};

verus! {

broadcast use vstd::std_specs::vec::group_vec_axioms, vstd::seq::group_seq_axioms;

/// The mathematical model of a value tree. A number is modelled by its
/// decimal numeral, an object by a finite map from key text to value.
pub enum JsonVal {
    Num(Seq<char>),
    Str(Seq<char>),
    Bool(bool),
    Arr(Seq<JsonVal>),
    Obj(Map<Seq<char>, JsonVal>),
    Null,
}

/// One parsed value: the tagged union a document denotes. A `Number` holds
/// the decimal numeral exactly as written, escapes in a `String` are already
/// decoded, and an `Object` keeps at most one entry per key.
#[derive(Debug, PartialEq)]
pub enum JsonElement {
    Number(String),
    String(String),
    Boolean(bool),
    Array(Vec<JsonElement>),
    Object(JsonObject),
    Null,
}

/// An object: a mapping from text keys to values, keys unique, built with
/// last-write-wins insertion.
#[derive(Debug, PartialEq)]
pub struct JsonObject {
    entries: Vec<(String, JsonElement)>,
}

/// The map denoted by a key-value sequence, later entries overwriting
/// earlier ones.
pub open spec fn kvs_map(s: Seq<(Seq<char>, JsonVal)>) -> Map<Seq<char>, JsonVal>
    decreases s.len(),
{
    if s.len() == 0 {
        Map::empty()
    } else {
        kvs_map(s.drop_last()).insert(s.last().0, s.last().1)
    }
}

/// Whether the keys of a key-value sequence are pairwise distinct.
pub open spec fn keys_unique(s: Seq<(Seq<char>, JsonVal)>) -> bool {
    forall|i: int, j: int| 0 <= i < j < s.len() ==> s[i].0 != s[j].0
}

/// The models of a sequence of trees, in order.
pub open spec fn seq_models(items: Seq<JsonElement>) -> Seq<JsonVal>
    decreases items, 0int,
{
    if items.len() == 0 {
        Seq::empty()
    } else {
        proof {
            assert(decreases_to!(items => items.drop_last()));
            assert(decreases_to!(items => items.last()));
        }
        seq_models(items.drop_last()).push(items.last().model())
    }
}

/// The key-value models of an entry sequence, in order.
pub open spec fn entry_models(entries: Seq<(String, JsonElement)>) -> Seq<(Seq<char>, JsonVal)>
    decreases entries, 0int,
{
    if entries.len() == 0 {
        Seq::empty()
    } else {
        proof {
            assert(decreases_to!(entries => entries.drop_last()));
            assert(decreases_to!(entries => entries.last()));
        }
        entry_models(entries.drop_last()).push((entries.last().0@, entries.last().1.model()))
    }
}

impl JsonElement {
    /// The value this tree denotes.
    pub open spec fn model(&self) -> JsonVal
        decreases self, 1int,
    {
        match self {
            JsonElement::Number(s) => JsonVal::Num(s@),
            JsonElement::String(s) => JsonVal::Str(s@),
            JsonElement::Boolean(b) => JsonVal::Bool(*b),
            JsonElement::Array(items) => {
                proof {
                    assert(decreases_to!(*items => items@));
                }
                JsonVal::Arr(seq_models(items@))
            },
            JsonElement::Object(obj) => JsonVal::Obj(obj.model()),
            JsonElement::Null => JsonVal::Null,
        }
    }
}

impl JsonObject {
    /// The entries as key-value models, in insertion order.
    pub closed spec fn kvs(&self) -> Seq<(Seq<char>, JsonVal)>
        decreases self, 0int,
    {
        proof {
            assert(decreases_to!(self.entries => self.entries@));
        }
        entry_models(self.entries@)
    }

    /// The mapping this object denotes.
    pub open spec fn model(&self) -> Map<Seq<char>, JsonVal>
        decreases self, 1int,
    {
        kvs_map(self.kvs())
    }

    /// Each key occurs in at most one entry.
    #[verifier::type_invariant]
    pub closed spec fn wf(&self) -> bool {
        keys_unique(self.kvs())
    }

    /// An empty object.
    pub fn new() -> (r: JsonObject)
        ensures
            r.model() == Map::<Seq<char>, JsonVal>::empty(),
            r.kvs() == Seq::<(Seq<char>, JsonVal)>::empty(),
    {
        let r = JsonObject { entries: Vec::new() };
        proof {
            assert(r.kvs() =~= Seq::<(Seq<char>, JsonVal)>::empty());
        }
        r
    }

    /// Binds the key to the value, overwriting any earlier binding.
    #[verifier::loop_isolation(false)]
    pub fn insert(&mut self, key: String, value: JsonElement)
        ensures
            final(self).model() == old(self).model().insert(key@, value.model()),
    {
        proof {
            use_type_invariant(&*self);
        }
        let mut entries: Vec<(String, JsonElement)> = Vec::new();
        core::mem::swap(&mut entries, &mut self.entries);
        let ghost kvs0 = entry_models(entries@);
        proof {
            lemma_entry_models(entries@);
        }
        let n = entries.len();
        let mut i: usize = 0;
        while i < n
            invariant
                n == entries@.len(),
                i <= n,
                entry_models(entries@) == kvs0,
                keys_unique(kvs0),
                forall|k: int| 0 <= k < i ==> kvs0[k].0 != key@,
            decreases n - i,
        {
            proof {
                lemma_entry_models(entries@);
            }
            if entries[i].0 == key {
                let ghost pre = entries@;
                entries.set(i, (key, value));
                proof {
                    lemma_entry_models(entries@);
                    assert(entry_models(entries@) =~= kvs0.update(
                        i as int,
                        (kvs0[i as int].0, value.model()),
                    ));
                    lemma_kvs_map_update(kvs0, i as int, value.model());
                    assert(keys_unique(entry_models(entries@)));
                }
                core::mem::swap(&mut entries, &mut self.entries);
                return ;
            }
            i = i + 1;
        }
        let ghost pre = entries@;
        entries.push((key, value));
        proof {
            lemma_entry_models(pre);
            lemma_entry_models(entries@);
            assert(entry_models(entries@) =~= kvs0.push((key@, value.model())));
            lemma_kvs_map_contains(kvs0, key@);
            assert(keys_unique(entry_models(entries@)));
            assert(kvs0.push((key@, value.model())).drop_last() =~= kvs0);
        }
        core::mem::swap(&mut entries, &mut self.entries);
    }

    /// The number of keys bound in the object.
    pub fn len(&self) -> (r: usize)
        ensures
            r == self.model().dom().len(),
    {
        proof {
            use_type_invariant(&*self);
            lemma_entry_models(self.entries@);
            lemma_kvs_map_dom_len(self.kvs());
        }
        self.entries.len()
    }

    /// The value bound to the key, if the key is bound at all.
    #[verifier::loop_isolation(false)]
    pub fn get(&self, key: &str) -> (r: Option<&JsonElement>)
        ensures
            match r {
                Some(v) => self.model().contains_key(key@) && v.model() == self.model()[key@],
                None => !self.model().contains_key(key@),
            },
    {
        proof {
            use_type_invariant(&*self);
            lemma_entry_models(self.entries@);
        }
        let n = self.entries.len();
        let mut i: usize = 0;
        while i < n
            invariant
                n == self.entries@.len(),
                i <= n,
                forall|k: int| 0 <= k < i ==> self.kvs()[k].0 != key@,
            decreases n - i,
        {
            proof {
                use_type_invariant(&*self);
                lemma_entry_models(self.entries@);
            }
            if crate::text::str_eq(self.entries[i].0.as_str(), key) {
                proof {
                    lemma_kvs_map_get(self.kvs(), key@, i as int);
                }
                return Some(&self.entries[i].1);
            }
            i = i + 1;
        }
        proof {
            use_type_invariant(&*self);
            lemma_entry_models(self.entries@);
            lemma_kvs_map_contains(self.kvs(), key@);
        }
        None
    }

    /// Recalls that the entries carry pairwise distinct keys.
    pub fn keys_unique_holds(&self)
        ensures
            keys_unique(self.kvs()),
    {
        proof {
            use_type_invariant(&*self);
        }
    }

    /// The number of entries, equal to the number of keys.
    pub fn entry_count(&self) -> (r: usize)
        ensures
            r == self.kvs().len(),
    {
        proof {
            lemma_entry_models(self.entries@);
        }
        self.entries.len()
    }

    /// The key of the entry at the given position.
    pub fn key_at(&self, i: usize) -> (r: &String)
        requires
            i < self.kvs().len(),
        ensures
            r@ == self.kvs()[i as int].0,
    {
        proof {
            lemma_entry_models(self.entries@);
        }
        &self.entries[i].0
    }

    /// The value of the entry at the given position.
    pub fn value_at(&self, i: usize) -> (r: &JsonElement)
        requires
            i < self.kvs().len(),
        ensures
            r.model() == self.kvs()[i as int].1,
    {
        proof {
            lemma_entry_models(self.entries@);
        }
        &self.entries[i].1
    }
}

impl Clone for JsonElement {
    /// A copy denoting the same value.
    #[verifier::loop_isolation(false)]
    fn clone(&self) -> (r: JsonElement)
        ensures
            r.model() == self.model(),
        decreases self, 1int,
    {
        match self {
            JsonElement::Number(s) => JsonElement::Number(s.clone()),
            JsonElement::String(s) => JsonElement::String(s.clone()),
            JsonElement::Boolean(b) => JsonElement::Boolean(*b),
            JsonElement::Null => JsonElement::Null,
            JsonElement::Object(obj) => {
                proof {
                    assert(decreases_to!(*self => *obj));
                }
                JsonElement::Object(obj.clone())
            },
            JsonElement::Array(items) => {
                let mut out: Vec<JsonElement> = Vec::new();
                let n = items.len();
                let mut i: usize = 0;
                while i < n
                    invariant
                        n == items@.len(),
                        i <= n,
                        out@.len() == i,
                        forall|k: int|
                            0 <= k < i ==> #[trigger] out@[k].model() == items@[k].model(),
                    decreases n - i,
                {
                    proof {
                        assert(decreases_to!(*self => *items));
                        assert(decreases_to!(*items => items@));
                        assert(decreases_to!(items@ => items@[i as int]));
                    }
                    out.push(items[i].clone());
                    i = i + 1;
                }
                proof {
                    lemma_seq_models(out@);
                    lemma_seq_models(items@);
                    assert(seq_models(out@) =~= seq_models(items@));
                }
                JsonElement::Array(out)
            },
        }
    }
}

impl Clone for JsonObject {
    /// A copy with the same entries.
    #[verifier::loop_isolation(false)]
    fn clone(&self) -> (r: JsonObject)
        ensures
            r.kvs() == self.kvs(),
            r.model() == self.model(),
        decreases self, 0int,
    {
        proof {
            use_type_invariant(&*self);
        }
        let mut entries: Vec<(String, JsonElement)> = Vec::new();
        let n = self.entries.len();
        let mut i: usize = 0;
        while i < n
            invariant
                n == self.entries@.len(),
                i <= n,
                entries@.len() == i,
                forall|k: int|
                    0 <= k < i ==> #[trigger] entries@[k].0@ == self.entries@[k].0@
                        && entries@[k].1.model() == self.entries@[k].1.model(),
            decreases n - i,
        {
            proof {
                assert(decreases_to!(*self => self.entries));
                assert(decreases_to!(self.entries => self.entries@));
                assert(decreases_to!(self.entries@ => self.entries@[i as int]));
                assert(decreases_to!(self.entries@[i as int] => self.entries@[i as int].1));
            }
            entries.push((self.entries[i].0.clone(), self.entries[i].1.clone()));
            i = i + 1;
        }
        proof {
            lemma_entry_models(entries@);
            lemma_entry_models(self.entries@);
            assert(entry_models(entries@) =~= self.kvs());
            assert(keys_unique(entry_models(entries@)));
        }
        JsonObject { entries }
    }
}

/// The length and entries of `seq_models`, stated pointwise.
pub proof fn lemma_seq_models(items: Seq<JsonElement>)
    ensures
        seq_models(items).len() == items.len(),
        forall|i: int| 0 <= i < items.len() ==> seq_models(items)[i] == items[i].model(),
    decreases items.len(),
{
    if items.len() > 0 {
        lemma_seq_models(items.drop_last());
        assert forall|i: int| 0 <= i < items.len() implies seq_models(items)[i]
            == items[i].model() by {
            if i < items.len() - 1 {
                assert(items.drop_last()[i] == items[i]);
            }
        }
    }
}

/// The length and entries of `entry_models`, stated pointwise.
proof fn lemma_entry_models(entries: Seq<(String, JsonElement)>)
    ensures
        entry_models(entries).len() == entries.len(),
        forall|i: int| 0 <= i < entries.len() ==> entry_models(entries)[i] == (
            entries[i].0@,
            entries[i].1.model(),
        ),
    decreases entries.len(),
{
    if entries.len() > 0 {
        lemma_entry_models(entries.drop_last());
        assert forall|i: int| 0 <= i < entries.len() implies entry_models(entries)[i] == (
            entries[i].0@,
            entries[i].1.model(),
        ) by {
            if i < entries.len() - 1 {
                assert(entries.drop_last()[i] == entries[i]);
            }
        }
    }
}

/// A key is in the map of a key-value sequence exactly when some entry
/// carries it.
proof fn lemma_kvs_map_contains(s: Seq<(Seq<char>, JsonVal)>, k: Seq<char>)
    ensures
        kvs_map(s).contains_key(k) <==> exists|i: int| 0 <= i < s.len() && s[i].0 == k,
    decreases s.len(),
{
    if s.len() > 0 {
        lemma_kvs_map_contains(s.drop_last(), k);
        if s.last().0 == k {
            assert(s[s.len() - 1].0 == k);
        } else if kvs_map(s).contains_key(k) {
            let i = choose|i: int| 0 <= i < s.drop_last().len() && s.drop_last()[i].0 == k;
            assert(s[i].0 == k);
        } else {
            assert forall|i: int| 0 <= i < s.len() implies s[i].0 != k by {
                if i < s.len() - 1 {
                    assert(s.drop_last()[i].0 == s[i].0);
                }
            }
        }
    }
}

/// With distinct keys, the map sends an entry's key to that entry's value.
proof fn lemma_kvs_map_get(s: Seq<(Seq<char>, JsonVal)>, k: Seq<char>, i: int)
    requires
        keys_unique(s),
        0 <= i < s.len(),
        s[i].0 == k,
    ensures
        kvs_map(s).contains_key(k),
        kvs_map(s)[k] == s[i].1,
    decreases s.len(),
{
    if i == s.len() - 1 {
    } else {
        assert(s.drop_last()[i] == s[i]);
        assert(keys_unique(s.drop_last())) by {
            assert forall|a: int, b: int|
                0 <= a < b < s.drop_last().len() implies s.drop_last()[a].0
                != s.drop_last()[b].0 by {
                assert(s.drop_last()[a] == s[a] && s.drop_last()[b] == s[b]);
            }
        }
        lemma_kvs_map_get(s.drop_last(), k, i);
        assert(s.last().0 != k);
    }
}

/// With distinct keys, overwriting one entry's value is insertion into the
/// map under that entry's key.
proof fn lemma_kvs_map_update(s: Seq<(Seq<char>, JsonVal)>, i: int, v: JsonVal)
    requires
        keys_unique(s),
        0 <= i < s.len(),
    ensures
        kvs_map(s.update(i, (s[i].0, v))) == kvs_map(s).insert(s[i].0, v),
        keys_unique(s.update(i, (s[i].0, v))),
    decreases s.len(),
{
    let s2 = s.update(i, (s[i].0, v));
    assert(keys_unique(s2)) by {
        assert forall|a: int, b: int| 0 <= a < b < s2.len() implies s2[a].0 != s2[b].0 by {
            assert(s2[a].0 == s[a].0 && s2[b].0 == s[b].0);
        }
    }
    if i == s.len() - 1 {
        assert(s2.drop_last() =~= s.drop_last());
        assert(kvs_map(s2) =~= kvs_map(s).insert(s[i].0, v));
    } else {
        assert(keys_unique(s.drop_last())) by {
            assert forall|a: int, b: int|
                0 <= a < b < s.drop_last().len() implies s.drop_last()[a].0
                != s.drop_last()[b].0 by {
                assert(s.drop_last()[a] == s[a] && s.drop_last()[b] == s[b]);
            }
        }
        assert(s2.drop_last() =~= s.drop_last().update(i, (s.drop_last()[i].0, v)));
        lemma_kvs_map_update(s.drop_last(), i, v);
        assert(s2.last() == s.last());
        assert(s.last().0 != s[i].0);
        assert(kvs_map(s2) == kvs_map(s2.drop_last()).insert(s2.last().0, s2.last().1));
        assert(kvs_map(s2) =~= kvs_map(s).insert(s[i].0, v));
    }
}

/// With distinct keys, the map has exactly one key per entry.
proof fn lemma_kvs_map_dom_len(s: Seq<(Seq<char>, JsonVal)>)
    requires
        keys_unique(s),
    ensures
        kvs_map(s).dom().len() == s.len(),
        kvs_map(s).dom().finite(),
    decreases s.len(),
{
    if s.len() > 0 {
        assert(keys_unique(s.drop_last())) by {
            assert forall|a: int, b: int|
                0 <= a < b < s.drop_last().len() implies s.drop_last()[a].0
                != s.drop_last()[b].0 by {
                assert(s.drop_last()[a] == s[a] && s.drop_last()[b] == s[b]);
            }
        }
        lemma_kvs_map_dom_len(s.drop_last());
        lemma_kvs_map_contains(s.drop_last(), s.last().0);
        assert(!kvs_map(s.drop_last()).contains_key(s.last().0)) by {
            if kvs_map(s.drop_last()).contains_key(s.last().0) {
                let i = choose|i: int|
                    0 <= i < s.drop_last().len() && s.drop_last()[i].0 == s.last().0;
                assert(s[i].0 == s[s.len() - 1].0);
            }
        }
        assert(kvs_map(s).dom() =~= kvs_map(s.drop_last()).dom().insert(s.last().0));
        vstd::set::axiom_set_insert_len(kvs_map(s.drop_last()).dom(), s.last().0);
    }
}


/// The token at a position, clamped to the last token past the end, as the
/// cursor reads it.
pub open spec fn tok_at(toks: Seq<SpecToken>, p: int) -> SpecToken {
    if toks.len() == 0 {
        crate::token_stream::empty_sentinel()
    } else if 0 <= p < toks.len() {
        toks[p]
    } else {
        toks.last()
    }
}

/// The display name of a token kind, as the parser's messages spell it.
pub open spec fn kind_label(k: TokenKind) -> Seq<char> {
    match k {
        TokenKind::String => "String"@,
        TokenKind::Number => "Number"@,
        TokenKind::Boolean => "Boolean"@,
        TokenKind::LeftBrace => "LeftBrace"@,
        TokenKind::RightBrace => "RightBrace"@,
        TokenKind::LeftBracket => "LeftBracket"@,
        TokenKind::RightBracket => "RightBracket"@,
        TokenKind::Comma => "Comma"@,
        TokenKind::Colon => "Colon"@,
        TokenKind::Null => "Null"@,
        TokenKind::Identifier => "Identifier"@,
        TokenKind::EndOfFile => "EndOfFile"@,
    }
}

/// The message for a token no value can start with.
pub open spec fn msg_unexpected(k: TokenKind) -> Seq<char> {
    "Unexpected token: "@ + kind_label(k)
}

/// The message for an object key that is not a string.
pub open spec fn msg_expected_key(k: TokenKind) -> Seq<char> {
    "Expected string key in object, found "@ + kind_label(k)
}

/// The message for a missing colon after an object key.
pub open spec fn msg_expected_colon() -> Seq<char> {
    "Expected ':' after object key"@
}

/// The message for a missing separator after an object member.
pub open spec fn msg_obj_sep(k: TokenKind) -> Seq<char> {
    "Expected ',' or '}' in object, found "@ + kind_label(k)
}

/// The message for a missing separator after an array element.
pub open spec fn msg_arr_sep(k: TokenKind) -> Seq<char> {
    "Expected ',' or ']' in array, found "@ + kind_label(k)
}

/// The message for a numeric lexeme outside the numeral grammar.
pub open spec fn msg_invalid_number(lexeme: Seq<char>) -> Seq<char> {
    "Invalid number '"@ + lexeme + "'"@
}

/// The message for a boolean lexeme that is neither keyword.
pub open spec fn msg_invalid_bool(lexeme: Seq<char>) -> Seq<char> {
    "Invalid boolean literal '"@ + lexeme + "'"@
}

/// The message for an object opener that is not a left brace.
pub open spec fn msg_expected_obj() -> Seq<char> {
    "Expected '{' at start of object"@
}

/// The message for an array opener that is not a left bracket.
pub open spec fn msg_expected_arr() -> Seq<char> {
    "Expected '[' at start of array"@
}

/// Whether a lexeme is a decimal numeral: an optional minus sign, digits,
/// and at most one fractional part introduced by a dot and holding at least
/// one digit.
pub open spec fn is_numeric_lexeme(s: Seq<char>) -> bool {
    let t = if s.len() > 0 && s[0] == '-' {
        s.subrange(1, s.len() as int)
    } else {
        s
    };
    let a = crate::tokenizer::digits_run(t, 0);
    &&& a > 0
    &&& {
        ||| a == t.len()
        ||| (a < t.len() && t[a as int] == '.' && crate::tokenizer::digits_run(t, a as int + 1)
            > 0 && a + 1 + crate::tokenizer::digits_run(t, a as int + 1) == t.len())
    }
}

/// The fuel that certainly suffices to parse any value of the token list.
pub open spec fn fuel_for(toks: Seq<SpecToken>) -> nat {
    (2 * toks.len() + 4) as nat
}

/// Parses one value at position `p`: a leaf for a literal token, a nested
/// object or array for an opening brace or bracket, and a fault for any
/// other token.
pub open spec fn sp_value(toks: Seq<SpecToken>, p: int, fuel: nat) -> Result<
    (JsonVal, int),
    Seq<char>,
>
    decreases fuel, 1int,
{
    if fuel == 0 {
        Err(Seq::empty())
    } else {
        let t = tok_at(toks, p);
        match t.kind {
            TokenKind::String => Ok((JsonVal::Str(t.lexeme), p + 1)),
            TokenKind::Number => if is_numeric_lexeme(t.lexeme) {
                Ok((JsonVal::Num(t.lexeme), p + 1))
            } else {
                Err(msg_invalid_number(t.lexeme))
            },
            TokenKind::Boolean => if t.lexeme == crate::tokenizer::kw_true() {
                Ok((JsonVal::Bool(true), p + 1))
            } else if t.lexeme == crate::tokenizer::kw_false() {
                Ok((JsonVal::Bool(false), p + 1))
            } else {
                Err(msg_invalid_bool(t.lexeme))
            },
            TokenKind::Null => Ok((JsonVal::Null, p + 1)),
            TokenKind::LeftBrace => sp_object(toks, p, fuel),
            TokenKind::LeftBracket => sp_array(toks, p, fuel),
            _ => Err(msg_unexpected(t.kind)),
        }
    }
}

/// Parses an object at position `p`: the empty object directly, otherwise
/// its member list.
pub open spec fn sp_object(toks: Seq<SpecToken>, p: int, fuel: nat) -> Result<
    (JsonVal, int),
    Seq<char>,
>
    decreases fuel, 0int,
{
    if tok_at(toks, p).kind != TokenKind::LeftBrace {
        Err(msg_expected_obj())
    } else if tok_at(toks, p + 1).kind == TokenKind::RightBrace {
        Ok((JsonVal::Obj(Map::empty()), p + 2))
    } else if fuel == 0 {
        Err(Seq::empty())
    } else {
        match sp_members(toks, p + 1, (fuel - 1) as nat) {
            Ok((kvs, next)) => Ok((JsonVal::Obj(kvs_map(kvs)), next)),
            Err(m) => Err(m),
        }
    }
}

/// Parses an array at position `p`: the empty array directly, otherwise its
/// element list.
pub open spec fn sp_array(toks: Seq<SpecToken>, p: int, fuel: nat) -> Result<
    (JsonVal, int),
    Seq<char>,
>
    decreases fuel, 0int,
{
    if tok_at(toks, p).kind != TokenKind::LeftBracket {
        Err(msg_expected_arr())
    } else if tok_at(toks, p + 1).kind == TokenKind::RightBracket {
        Ok((JsonVal::Arr(Seq::empty()), p + 2))
    } else if fuel == 0 {
        Err(Seq::empty())
    } else {
        match sp_items(toks, p + 1, (fuel - 1) as nat) {
            Ok((vs, next)) => Ok((JsonVal::Arr(vs), next)),
            Err(m) => Err(m),
        }
    }
}

/// Parses a non-empty member list from position `p`: a string key, a colon,
/// a value, then either a comma and more members or the closing brace.
pub open spec fn sp_members(toks: Seq<SpecToken>, p: int, fuel: nat) -> Result<
    (Seq<(Seq<char>, JsonVal)>, int),
    Seq<char>,
>
    decreases fuel, 0int,
{
    if fuel == 0 {
        Err(Seq::empty())
    } else {
        let key_t = tok_at(toks, p);
        if key_t.kind != TokenKind::String {
            Err(msg_expected_key(key_t.kind))
        } else if tok_at(toks, p + 1).kind != TokenKind::Colon {
            Err(msg_expected_colon())
        } else {
            match sp_value(toks, p + 2, (fuel - 1) as nat) {
                Err(m) => Err(m),
                Ok((v, next)) => {
                    let sep = tok_at(toks, next);
                    if sep.kind == TokenKind::Comma {
                        match sp_members(toks, next + 1, (fuel - 1) as nat) {
                            Ok((kvs, after)) => Ok((seq![(key_t.lexeme, v)] + kvs, after)),
                            Err(m) => Err(m),
                        }
                    } else if sep.kind == TokenKind::RightBrace {
                        Ok((seq![(key_t.lexeme, v)], next + 1))
                    } else {
                        Err(msg_obj_sep(sep.kind))
                    }
                },
            }
        }
    }
}

/// Parses a non-empty element list from position `p`: a value, then either
/// a comma and more elements or the closing bracket.
pub open spec fn sp_items(toks: Seq<SpecToken>, p: int, fuel: nat) -> Result<
    (Seq<JsonVal>, int),
    Seq<char>,
>
    decreases fuel, 0int,
{
    if fuel == 0 {
        Err(Seq::empty())
    } else {
        match sp_value(toks, p, (fuel - 1) as nat) {
            Err(m) => Err(m),
            Ok((v, next)) => {
                let sep = tok_at(toks, next);
                if sep.kind == TokenKind::Comma {
                    match sp_items(toks, next + 1, (fuel - 1) as nat) {
                        Ok((vs, after)) => Ok((seq![v] + vs, after)),
                        Err(m) => Err(m),
                    }
                } else if sep.kind == TokenKind::RightBracket {
                    Ok((seq![v], next + 1))
                } else {
                    Err(msg_arr_sep(sep.kind))
                }
            },
        }
    }
}


/// Enough fuel for a parse starting at position `p`.
pub open spec fn enough_fuel(toks: Seq<SpecToken>, p: int, fuel: nat) -> bool {
    fuel >= 2 * (toks.len() - p) + 2
}

/// With enough fuel, the outcome of value parsing does not depend on the
/// fuel, and success consumes at least one token without passing the end.
pub proof fn lemma_value_fuel(toks: Seq<SpecToken>, p: int, f1: nat, f2: nat)
    requires
        crate::tokenizer::eof_shape(toks),
        0 <= p <= toks.len(),
        enough_fuel(toks, p, f1),
        enough_fuel(toks, p, f2),
    ensures
        sp_value(toks, p, f1) == sp_value(toks, p, f2),
        sp_value(toks, p, f1) matches Ok(r) ==> p < r.1 < toks.len(),
    decreases f1 + f2, 1int,
{
    let t = tok_at(toks, p);
    match t.kind {
        TokenKind::LeftBrace => {
            lemma_object_fuel(toks, p, f1, f2);
        },
        TokenKind::LeftBracket => {
            lemma_array_fuel(toks, p, f1, f2);
        },
        TokenKind::EndOfFile => {},
        _ => {
            assert(p < toks.len() - 1);
        },
    }
}

/// The object form of [`lemma_value_fuel`].
pub proof fn lemma_object_fuel(toks: Seq<SpecToken>, p: int, f1: nat, f2: nat)
    requires
        crate::tokenizer::eof_shape(toks),
        0 <= p <= toks.len(),
        enough_fuel(toks, p, f1),
        enough_fuel(toks, p, f2),
    ensures
        sp_object(toks, p, f1) == sp_object(toks, p, f2),
        sp_object(toks, p, f1) matches Ok(r) ==> p < r.1 < toks.len(),
    decreases f1 + f2, 0int,
{
    if tok_at(toks, p).kind == TokenKind::LeftBrace {
        assert(p < toks.len() - 1);
        if tok_at(toks, p + 1).kind == TokenKind::RightBrace {
            assert(p + 1 < toks.len() - 1);
        } else {
            lemma_members_fuel(toks, p + 1, (f1 - 1) as nat, (f2 - 1) as nat);
        }
    }
}

/// The array form of [`lemma_value_fuel`].
pub proof fn lemma_array_fuel(toks: Seq<SpecToken>, p: int, f1: nat, f2: nat)
    requires
        crate::tokenizer::eof_shape(toks),
        0 <= p <= toks.len(),
        enough_fuel(toks, p, f1),
        enough_fuel(toks, p, f2),
    ensures
        sp_array(toks, p, f1) == sp_array(toks, p, f2),
        sp_array(toks, p, f1) matches Ok(r) ==> p < r.1 < toks.len(),
    decreases f1 + f2, 0int,
{
    if tok_at(toks, p).kind == TokenKind::LeftBracket {
        assert(p < toks.len() - 1);
        if tok_at(toks, p + 1).kind == TokenKind::RightBracket {
            assert(p + 1 < toks.len() - 1);
        } else {
            lemma_items_fuel(toks, p + 1, (f1 - 1) as nat, (f2 - 1) as nat);
        }
    }
}

/// The member-list form of [`lemma_value_fuel`].
pub proof fn lemma_members_fuel(toks: Seq<SpecToken>, p: int, f1: nat, f2: nat)
    requires
        crate::tokenizer::eof_shape(toks),
        0 <= p <= toks.len(),
        enough_fuel(toks, p, f1),
        enough_fuel(toks, p, f2),
    ensures
        sp_members(toks, p, f1) == sp_members(toks, p, f2),
        sp_members(toks, p, f1) matches Ok(r) ==> p < r.1 < toks.len(),
    decreases f1 + f2, 2int,
{
    let key_t = tok_at(toks, p);
    if key_t.kind == TokenKind::String && tok_at(toks, p + 1).kind == TokenKind::Colon {
        assert(p < toks.len() - 1);
        assert(p + 1 < toks.len() - 1);
        lemma_value_fuel(toks, p + 2, (f1 - 1) as nat, (f2 - 1) as nat);
        match sp_value(toks, p + 2, (f1 - 1) as nat) {
            Ok((v, next)) => {
                let sep = tok_at(toks, next);
                if sep.kind == TokenKind::Comma {
                    assert(next < toks.len() - 1);
                    lemma_members_fuel(toks, next + 1, (f1 - 1) as nat, (f2 - 1) as nat);
                } else if sep.kind == TokenKind::RightBrace {
                    assert(next < toks.len() - 1);
                }
            },
            Err(_) => {},
        }
    }
}

/// The element-list form of [`lemma_value_fuel`].
pub proof fn lemma_items_fuel(toks: Seq<SpecToken>, p: int, f1: nat, f2: nat)
    requires
        crate::tokenizer::eof_shape(toks),
        0 <= p <= toks.len(),
        f1 >= 2 * (toks.len() - p) + 3,
        f2 >= 2 * (toks.len() - p) + 3,
    ensures
        sp_items(toks, p, f1) == sp_items(toks, p, f2),
        sp_items(toks, p, f1) matches Ok(r) ==> p < r.1 < toks.len(),
    decreases f1 + f2, 2int,
{
    lemma_value_fuel(toks, p, (f1 - 1) as nat, (f2 - 1) as nat);
    match sp_value(toks, p, (f1 - 1) as nat) {
        Ok((v, next)) => {
            let sep = tok_at(toks, next);
            if sep.kind == TokenKind::Comma {
                assert(next < toks.len() - 1);
                lemma_items_fuel(toks, next + 1, (f1 - 1) as nat, (f2 - 1) as nat);
            } else if sep.kind == TokenKind::RightBracket {
                assert(next < toks.len() - 1);
            }
        },
        Err(_) => {},
    }
}


/// The display name of a token kind, as the parser's messages print it.
fn kind_label_str(k: TokenKind) -> (r: &'static str)
    ensures
        r@ == kind_label(k),
{
    match k {
        TokenKind::String => "String",
        TokenKind::Number => "Number",
        TokenKind::Boolean => "Boolean",
        TokenKind::LeftBrace => "LeftBrace",
        TokenKind::RightBrace => "RightBrace",
        TokenKind::LeftBracket => "LeftBracket",
        TokenKind::RightBracket => "RightBracket",
        TokenKind::Comma => "Comma",
        TokenKind::Colon => "Colon",
        TokenKind::Null => "Null",
        TokenKind::Identifier => "Identifier",
        TokenKind::EndOfFile => "EndOfFile",
    }
}

/// A message naming a token kind after a fixed prefix.
fn msg_with_kind(prefix: &str, k: TokenKind) -> (r: String)
    ensures
        r@ == prefix@ + kind_label(k),
{
    let mut m = String::new();
    m.append(prefix);
    m.append(kind_label_str(k));
    proof {
        assert(m@ =~= prefix@ + kind_label(k));
    }
    m
}

/// A message quoting a lexeme between a fixed prefix and a closing quote.
fn msg_with_lexeme(prefix: &str, lexeme: &str) -> (r: String)
    ensures
        r@ == prefix@ + lexeme@ + "'"@,
{
    let mut m = String::new();
    m.append(prefix);
    m.append(lexeme);
    m.append("'");
    proof {
        assert(m@ =~= prefix@ + lexeme@ + "'"@);
    }
    m
}

/// The number of consecutive ASCII digits from the given offset.
fn digits_count(body: &[char], from: usize) -> (r: usize)
    requires
        from <= body@.len(),
    ensures
        r == crate::tokenizer::digits_run(body@, from as int),
        from + r <= body@.len(),
{
    let n = body.len();
    let mut i: usize = from;
    while i < n && text::digit_char(body[i])
        invariant
            n == body@.len(),
            from <= i <= n,
            crate::tokenizer::digits_run(body@, from as int) == (i - from)
                + crate::tokenizer::digits_run(body@, i as int),
        decreases n - i,
    {
        proof {
            assert(crate::tokenizer::digits_run(body@, i as int) == 1
                + crate::tokenizer::digits_run(body@, i as int + 1));
        }
        i = i + 1;
    }
    proof {
        assert(crate::tokenizer::digits_run(body@, i as int) == 0);
    }
    i - from
}

/// Whether a lexeme lies in the decimal numeral grammar.
fn numeric_lexeme(s: &str) -> (r: bool)
    ensures
        r == is_numeric_lexeme(s@),
{
    let cs = text::chars_vec(s);
    let off: usize = if cs.len() > 0 && cs[0] == '-' {
        1
    } else {
        0
    };
    let body = vstd::slice::slice_subrange(cs.as_slice(), off, cs.len());
    proof {
        if s@.len() > 0 && s@[0] == '-' {
            assert(body@ =~= s@.subrange(1, s@.len() as int));
        } else {
            assert(body@ =~= s@);
        }
    }
    let a = digits_count(body, 0);
    if a == 0 {
        return false;
    }
    if a == body.len() {
        return true;
    }
    if body[a] != '.' {
        return false;
    }
    let b = digits_count(body, a + 1);
    if b == 0 {
        return false;
    }
    a + 1 + b == body.len()
}

/// Parses one value at the cursor, as [`sp_value`] states.
#[verifier::loop_isolation(false)]
fn parse_value(tokens: &mut TokenStream) -> (r: Result<JsonElement, ParseError>)
    requires
        crate::tokenizer::eof_shape(old(tokens).toks()),
        0 <= old(tokens).pos() <= old(tokens).toks().len(),
    ensures
        final(tokens).toks() == old(tokens).toks(),
        match sp_value(old(tokens).toks(), old(tokens).pos(), fuel_for(old(tokens).toks())) {
            Ok(pr) => r matches Ok(e) && e.model() == pr.0 && final(tokens).pos() == pr.1,
            Err(m) => r matches Err(pe) && pe.message@ == m,
        },
    decreases old(tokens).toks().len() - old(tokens).pos(), 1int,
{
    let ghost toks = tokens.toks();
    let ghost p0 = tokens.pos();
    let n = tokens.token_count();
    let t = tokens.current();
    match t.kind {
        TokenKind::String => {
            let tk = tokens.advance();
            Ok(JsonElement::String(tk.lexeme))
        },
        TokenKind::Number => {
            let tk = tokens.advance();
            if numeric_lexeme(tk.lexeme.as_str()) {
                Ok(JsonElement::Number(tk.lexeme))
            } else {
                let m = msg_with_lexeme("Invalid number '", tk.lexeme.as_str());
                Err(ParseError::new(m.as_str()))
            }
        },
        TokenKind::Boolean => {
            let tk = tokens.advance();
            proof {
                reveal_strlit("true");
                reveal_strlit("false");
                assert("true"@ =~= crate::tokenizer::kw_true());
                assert("false"@ =~= crate::tokenizer::kw_false());
            }
            if text::str_eq(tk.lexeme.as_str(), "true") {
                Ok(JsonElement::Boolean(true))
            } else if text::str_eq(tk.lexeme.as_str(), "false") {
                Ok(JsonElement::Boolean(false))
            } else {
                let m = msg_with_lexeme("Invalid boolean literal '", tk.lexeme.as_str());
                Err(ParseError::new(m.as_str()))
            }
        },
        TokenKind::Null => {
            tokens.advance();
            Ok(JsonElement::Null)
        },
        TokenKind::LeftBrace => parse_object(tokens),
        TokenKind::LeftBracket => parse_array(tokens),
        _ => {
            let m = msg_with_kind("Unexpected token: ", t.kind);
            Err(ParseError::new(m.as_str()))
        },
    }
}

/// Parses an object at the cursor, as [`sp_object`] states.
#[verifier::loop_isolation(false)]
fn parse_object(tokens: &mut TokenStream) -> (r: Result<JsonElement, ParseError>)
    requires
        crate::tokenizer::eof_shape(old(tokens).toks()),
        0 <= old(tokens).pos() <= old(tokens).toks().len(),
    ensures
        final(tokens).toks() == old(tokens).toks(),
        match sp_object(old(tokens).toks(), old(tokens).pos(), fuel_for(old(tokens).toks())) {
            Ok(pr) => r matches Ok(e) && e.model() == pr.0 && final(tokens).pos() == pr.1,
            Err(m) => r matches Err(pe) && pe.message@ == m,
        },
    decreases old(tokens).toks().len() - old(tokens).pos(), 0int,
{
    let ghost toks = tokens.toks();
    let ghost p0 = tokens.pos();
    let ghost fuel0 = fuel_for(toks);
    let n = tokens.token_count();
    let start = tokens.current();
    if start.kind != TokenKind::LeftBrace {
        return Err(ParseError::new("Expected '{' at start of object"));
    }
    tokens.advance();
    let mut map = JsonObject::new();
    if tokens.current().kind == TokenKind::RightBrace {
        tokens.advance();
        return Ok(JsonElement::Object(map));
    }
    let ghost fm0 = (fuel0 - 1) as nat;
    let ghost mut acc: Seq<(Seq<char>, JsonVal)> = Seq::empty();
    let ghost mut f_cur = fm0;
    proof {
        match sp_members(toks, p0 + 1, fm0) {
            Ok(pr) => {
                assert(acc + pr.0 =~= pr.0);
            },
            Err(_) => {},
        }
    }
    loop
        invariant
            tokens.toks() == toks,
            p0 + 1 <= tokens.pos() <= toks.len(),
            f_cur >= 2 * (toks.len() - tokens.pos()) + 2,
            f_cur <= fm0,
            map.model() == kvs_map(acc),
            match sp_members(toks, tokens.pos(), f_cur) {
                Ok(pr) => sp_members(toks, p0 + 1, fm0) == Ok::<
                    (Seq<(Seq<char>, JsonVal)>, int),
                    Seq<char>,
                >((acc + pr.0, pr.1)),
                Err(m) => sp_members(toks, p0 + 1, fm0) == Err::<
                    (Seq<(Seq<char>, JsonVal)>, int),
                    Seq<char>,
                >(m),
            },
        decreases toks.len() - tokens.pos(), 2int,
    {
        let ghost p_m = tokens.pos();
        let key_token = tokens.current();
        if key_token.kind != TokenKind::String {
            let m = msg_with_kind("Expected string key in object, found ", key_token.kind);
            return Err(ParseError::new(m.as_str()));
        }
        let key = tokens.advance().lexeme;
        if tokens.current().kind != TokenKind::Colon {
            return Err(ParseError::new("Expected ':' after object key"));
        }
        tokens.advance();
        proof {
            lemma_value_fuel(toks, p_m + 2, fuel_for(toks), (f_cur - 1) as nat);
        }
        let value = match parse_value(tokens) {
            Ok(v) => v,
            Err(e) => {
                return Err(e);
            },
        };
        let ghost vm = value.model();
        let ghost key_view = key@;
        let ghost acc_old = acc;
        map.insert(key, value);
        proof {
            assert(acc_old.push((key_view, vm)).drop_last() =~= acc_old);
            acc = acc_old.push((key_view, vm));
            assert(acc =~= acc_old + seq![(key_view, vm)]);
        }
        match tokens.current().kind {
            TokenKind::Comma => {
                tokens.advance();
                proof {
                    match sp_members(toks, tokens.pos(), (f_cur - 1) as nat) {
                        Ok(pr2) => {
                            assert(acc_old + (seq![(key_view, vm)] + pr2.0) =~= acc + pr2.0);
                        },
                        Err(_) => {},
                    }
                    f_cur = (f_cur - 1) as nat;
                }
            },
            TokenKind::RightBrace => {
                tokens.advance();
                proof {
                    assert(acc_old + seq![(key_view, vm)] =~= acc);
                }
                return Ok(JsonElement::Object(map));
            },
            _ => {
                let m = msg_with_kind("Expected ',' or '}' in object, found ", tokens.current().kind);
                return Err(ParseError::new(m.as_str()));
            },
        }
    }
}

/// Parses an array at the cursor, as [`sp_array`] states.
#[verifier::loop_isolation(false)]
fn parse_array(tokens: &mut TokenStream) -> (r: Result<JsonElement, ParseError>)
    requires
        crate::tokenizer::eof_shape(old(tokens).toks()),
        0 <= old(tokens).pos() <= old(tokens).toks().len(),
    ensures
        final(tokens).toks() == old(tokens).toks(),
        match sp_array(old(tokens).toks(), old(tokens).pos(), fuel_for(old(tokens).toks())) {
            Ok(pr) => r matches Ok(e) && e.model() == pr.0 && final(tokens).pos() == pr.1,
            Err(m) => r matches Err(pe) && pe.message@ == m,
        },
    decreases old(tokens).toks().len() - old(tokens).pos(), 0int,
{
    let ghost toks = tokens.toks();
    let ghost p0 = tokens.pos();
    let ghost fuel0 = fuel_for(toks);
    let n = tokens.token_count();
    let start = tokens.current();
    if start.kind != TokenKind::LeftBracket {
        return Err(ParseError::new("Expected '[' at start of array"));
    }
    tokens.advance();
    let mut items: Vec<JsonElement> = Vec::new();
    if tokens.current().kind == TokenKind::RightBracket {
        tokens.advance();
        proof {
            assert(seq_models(items@) =~= Seq::<JsonVal>::empty());
        }
        return Ok(JsonElement::Array(items));
    }
    let ghost fi0 = (fuel0 - 1) as nat;
    let ghost mut acc: Seq<JsonVal> = Seq::empty();
    let ghost mut f_cur = fi0;
    proof {
        assert(seq_models(items@) =~= Seq::<JsonVal>::empty());
        match sp_items(toks, p0 + 1, fi0) {
            Ok(pr) => {
                assert(acc + pr.0 =~= pr.0);
            },
            Err(_) => {},
        }
    }
    loop
        invariant
            tokens.toks() == toks,
            p0 + 1 <= tokens.pos() <= toks.len(),
            f_cur >= 2 * (toks.len() - tokens.pos()) + 3,
            f_cur <= fi0,
            seq_models(items@) == acc,
            match sp_items(toks, tokens.pos(), f_cur) {
                Ok(pr) => sp_items(toks, p0 + 1, fi0) == Ok::<(Seq<JsonVal>, int), Seq<char>>(
                    (acc + pr.0, pr.1),
                ),
                Err(m) => sp_items(toks, p0 + 1, fi0) == Err::<(Seq<JsonVal>, int), Seq<char>>(m),
            },
        decreases toks.len() - tokens.pos(), 2int,
    {
        let ghost p_i = tokens.pos();
        proof {
            lemma_value_fuel(toks, p_i, fuel_for(toks), (f_cur - 1) as nat);
        }
        let value = match parse_value(tokens) {
            Ok(v) => v,
            Err(e) => {
                return Err(e);
            },
        };
        let ghost vm = value.model();
        let ghost pre_items = items@;
        let ghost acc_old = acc;
        items.push(value);
        proof {
            assert(items@.drop_last() =~= pre_items);
            acc = acc_old.push(vm);
            assert(acc =~= acc_old + seq![vm]);
        }
        match tokens.current().kind {
            TokenKind::Comma => {
                tokens.advance();
                proof {
                    match sp_items(toks, tokens.pos(), (f_cur - 1) as nat) {
                        Ok(pr2) => {
                            assert(acc_old + (seq![vm] + pr2.0) =~= acc + pr2.0);
                        },
                        Err(_) => {},
                    }
                    f_cur = (f_cur - 1) as nat;
                }
            },
            TokenKind::RightBracket => {
                tokens.advance();
                proof {
                    assert(acc_old + seq![vm] =~= acc);
                }
                return Ok(JsonElement::Array(items));
            },
            _ => {
                let m = msg_with_kind("Expected ',' or ']' in array, found ", tokens.current().kind);
                return Err(ParseError::new(m.as_str()));
            },
        }
    }
}


/// A parsed document: one root value.
#[derive(Debug)]
pub struct Json {
    pub root: JsonElement,
}

/// What parsing a source text yields: the model of the root value, or the
/// message of the first lexical or syntactic fault.
pub open spec fn spec_parse_text(src: Seq<char>) -> Result<JsonVal, Seq<char>> {
    match lex(src) {
        Err(le) => Err(lex_err_msg(le)),
        Ok(toks) => match sp_value(toks, 0, fuel_for(toks)) {
            Ok(pr) => Ok(pr.0),
            Err(m) => Err(m),
        },
    }
}

impl Json {
    /// Builds the root value from a token stream positioned at the start.
    fn parse_tokens(tokens: TokenStream) -> (r: Result<JsonElement, ParseError>)
        requires
            crate::tokenizer::eof_shape(tokens.toks()),
            tokens.pos() == 0,
        ensures
            match sp_value(tokens.toks(), 0, fuel_for(tokens.toks())) {
                Ok(pr) => r matches Ok(e) && e.model() == pr.0,
                Err(m) => r matches Err(pe) && pe.message@ == m,
            },
    {
        let mut tokens = tokens;
        parse_value(&mut tokens)
    }

    /// Parses an owned source text: tokenizes it fully, then builds the
    /// root value, surfacing the first fault of either stage.
    pub(crate) fn parse_text(source: &str) -> (r: Result<Json, ParseError>)
        requires
            source@.len() <= MAX_SOURCE_LEN,
        ensures
            match spec_parse_text(source@) {
                Ok(v) => r matches Ok(j) && j.root.model() == v,
                Err(m) => r matches Err(pe) && pe.message@ == m,
            },
    {
        let mut tokenizer = Tokenizer::new(source.to_owned());
        let tokens = match tokenizer.scan_tokens() {
            Ok(ts) => ts,
            Err(e) => {
                return Err(e);
            },
        };
        proof {
            crate::tokenizer::lemma_lex_shape(source@, 0, 1, 1, 0);
        }
        let root = match Self::parse_tokens(tokens) {
            Ok(v) => v,
            Err(e) => {
                return Err(e);
            },
        };
        Ok(Json { root })
    }
}

impl Parse for Json {
    /// Parses a source text into a document: the root value models exactly
    /// what [`spec_parse_text`] gives on the text, or the error carries
    /// exactly the first fault's message.
    fn parse(source: &str) -> (r: Result<Json, ParseError>)
        ensures
            match spec_parse_text(source@) {
                Ok(v) => r matches Ok(j) && j.root.model() == v,
                Err(m) => r matches Err(pe) && pe.message@ == m,
            },
    {
        Json::parse_text(source)
    }
}


/// Whether two tokens agree on what the tree builder reads: kind and
/// decoded text. Line, column and span metadata may differ.
pub open spec fn same_essence(a: SpecToken, b: SpecToken) -> bool {
    a.kind == b.kind && a.lexeme == b.lexeme
}

/// Whether two token lists agree pointwise on kind and decoded text.
pub open spec fn toks_equiv(a: Seq<SpecToken>, b: Seq<SpecToken>) -> bool {
    a.len() == b.len() && forall|i: int| 0 <= i < a.len() ==> same_essence(a[i], b[i])
}

/// Parsing the same source twice yields the same outcome: the parse is a
/// function of the input text alone, so independent parses of equal texts
/// agree exactly, tree and error message alike.
pub proof fn lemma_parse_deterministic(s1: Seq<char>, s2: Seq<char>)
    requires
        s1 == s2,
    ensures
        spec_parse_text(s1) == spec_parse_text(s2),
{
}

/// The tree builder reads only each token's kind and decoded text: over two
/// token lists that agree on those, every parse outcome is identical, so
/// line and column metadata never affect the resulting tree, only the
/// positions reported in messages of the scanning stage.
pub proof fn lemma_tree_ignores_metadata(a: Seq<SpecToken>, b: Seq<SpecToken>, p: int, fuel: nat)
    requires
        toks_equiv(a, b),
    ensures
        sp_value(a, p, fuel) == sp_value(b, p, fuel),
    decreases fuel, 1int,
{
    if fuel > 0 {
        assert(same_essence(tok_at(a, p), tok_at(b, p)));
        match tok_at(a, p).kind {
            TokenKind::LeftBrace => {
                lemma_object_ignores_metadata(a, b, p, fuel);
            },
            TokenKind::LeftBracket => {
                lemma_array_ignores_metadata(a, b, p, fuel);
            },
            _ => {},
        }
    }
}

/// The object form of [`lemma_tree_ignores_metadata`].
pub proof fn lemma_object_ignores_metadata(a: Seq<SpecToken>, b: Seq<SpecToken>, p: int, fuel: nat)
    requires
        toks_equiv(a, b),
    ensures
        sp_object(a, p, fuel) == sp_object(b, p, fuel),
    decreases fuel, 0int,
{
    assert(same_essence(tok_at(a, p), tok_at(b, p)));
    assert(same_essence(tok_at(a, p + 1), tok_at(b, p + 1)));
    if tok_at(a, p).kind == TokenKind::LeftBrace && tok_at(a, p + 1).kind != TokenKind::RightBrace
        && fuel > 0 {
        lemma_members_ignores_metadata(a, b, p + 1, (fuel - 1) as nat);
    }
}

/// The array form of [`lemma_tree_ignores_metadata`].
pub proof fn lemma_array_ignores_metadata(a: Seq<SpecToken>, b: Seq<SpecToken>, p: int, fuel: nat)
    requires
        toks_equiv(a, b),
    ensures
        sp_array(a, p, fuel) == sp_array(b, p, fuel),
    decreases fuel, 0int,
{
    assert(same_essence(tok_at(a, p), tok_at(b, p)));
    assert(same_essence(tok_at(a, p + 1), tok_at(b, p + 1)));
    if tok_at(a, p).kind == TokenKind::LeftBracket && tok_at(a, p + 1).kind
        != TokenKind::RightBracket && fuel > 0 {
        lemma_items_ignores_metadata(a, b, p + 1, (fuel - 1) as nat);
    }
}

/// The member-list form of [`lemma_tree_ignores_metadata`].
pub proof fn lemma_members_ignores_metadata(
    a: Seq<SpecToken>,
    b: Seq<SpecToken>,
    p: int,
    fuel: nat,
)
    requires
        toks_equiv(a, b),
    ensures
        sp_members(a, p, fuel) == sp_members(b, p, fuel),
    decreases fuel, 2int,
{
    if fuel > 0 {
        assert(same_essence(tok_at(a, p), tok_at(b, p)));
        assert(same_essence(tok_at(a, p + 1), tok_at(b, p + 1)));
        if tok_at(a, p).kind == TokenKind::String && tok_at(a, p + 1).kind == TokenKind::Colon {
            lemma_tree_ignores_metadata(a, b, p + 2, (fuel - 1) as nat);
            match sp_value(a, p + 2, (fuel - 1) as nat) {
                Ok(pr) => {
                    assert(same_essence(tok_at(a, pr.1), tok_at(b, pr.1)));
                    if tok_at(a, pr.1).kind == TokenKind::Comma {
                        lemma_members_ignores_metadata(a, b, pr.1 + 1, (fuel - 1) as nat);
                    }
                },
                Err(_) => {},
            }
        }
    }
}

/// The element-list form of [`lemma_tree_ignores_metadata`].
pub proof fn lemma_items_ignores_metadata(a: Seq<SpecToken>, b: Seq<SpecToken>, p: int, fuel: nat)
    requires
        toks_equiv(a, b),
    ensures
        sp_items(a, p, fuel) == sp_items(b, p, fuel),
    decreases fuel, 2int,
{
    if fuel > 0 {
        lemma_tree_ignores_metadata(a, b, p, (fuel - 1) as nat);
        match sp_value(a, p, (fuel - 1) as nat) {
            Ok(pr) => {
                assert(same_essence(tok_at(a, pr.1), tok_at(b, pr.1)));
                if tok_at(a, pr.1).kind == TokenKind::Comma {
                    lemma_items_ignores_metadata(a, b, pr.1 + 1, (fuel - 1) as nat);
                }
            },
            Err(_) => {},
        }
    }
}


/// Leading whitespace never affects the resulting tree: a document with any
/// run of spaces, tabs, carriage returns or newlines in front parses to
/// exactly the same value, and parses successfully exactly when the bare
/// document does. Only the line and column metadata inside reported
/// messages can move.
pub proof fn lemma_leading_whitespace(ws: Seq<char>, src: Seq<char>)
    requires
        forall|k: int| 0 <= k < ws.len() ==> crate::tokenizer::is_ws_char(#[trigger] ws[k]),
    ensures
        (spec_parse_text(ws + src) is Ok) == (spec_parse_text(src) is Ok),
        spec_parse_text(ws + src) is Ok ==> spec_parse_text(ws + src) == spec_parse_text(src),
    decreases ws.len(),
{
    if ws.len() == 0 {
        assert(ws + src =~= src);
    } else {
        let w = ws[0];
        let rest = ws.drop_first() + src;
        assert(ws + src =~= seq![w] + rest);
        lemma_one_leading_ws(w, rest);
        assert(forall|k: int|
            0 <= k < ws.drop_first().len() ==> crate::tokenizer::is_ws_char(
                #[trigger] ws.drop_first()[k],
            ));
        lemma_leading_whitespace(ws.drop_first(), src);
    }
}

/// One leading whitespace character never affects the resulting tree.
proof fn lemma_one_leading_ws(w: char, src: Seq<char>)
    requires
        crate::tokenizer::is_ws_char(w),
    ensures
        (spec_parse_text(seq![w] + src) is Ok) == (spec_parse_text(src) is Ok),
        spec_parse_text(seq![w] + src) is Ok ==> spec_parse_text(seq![w] + src)
            == spec_parse_text(src),
{
    let full = seq![w] + src;
    assert(full[0] == w);
    if w == '\n' {
        crate::tokenizer::lemma_lex_shift(seq![w], src, 0, 2, 1, 0, 1, 1, 0);
    } else {
        crate::tokenizer::lemma_lex_shift(seq![w], src, 0, 1, 2, 0, 1, 1, 0);
    }
    match (lex(full), lex(src)) {
        (Ok(a), Ok(b)) => {
            lemma_tree_ignores_metadata(a, b, 0, fuel_for(a));
            assert(fuel_for(a) == fuel_for(b));
        },
        _ => {},
    }
}

} // verus!
