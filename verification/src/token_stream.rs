//! A replayable, bounds-safe cursor over a fixed token list: forward
//! lookahead and single-step backtracking, every accessor clamping to the
//! final token instead of faulting.

use vstd::prelude::*;

use crate::tokenizer::{Span, SpecSpan, SpecToken, Token, TokenKind};

verus! {

/// The sentinel returned by accessors of an empty stream.
pub open spec fn empty_sentinel() -> SpecToken {
    SpecToken {
        kind: TokenKind::EndOfFile,
        lexeme: seq!['\0'],
        line: 0,
        column: 0,
        span: SpecSpan { lo: 0, hi: 0 },
    }
}

/// A read cursor over an owned, immutable token list.
#[derive(Debug)]
pub struct TokenStream {
    tokens: Vec<Token>,
    position: usize,
}

impl TokenStream {
    /// The models of the tokens, in order.
    pub closed spec fn toks(&self) -> Seq<SpecToken> {
        self.tokens@.map_values(|t: Token| t@)
    }

    /// The cursor position; it may exceed the token count.
    pub closed spec fn pos(&self) -> int {
        self.position as int
    }

    /// The token the cursor stands on, clamped to the last token past the
    /// end, and the sentinel when the stream is empty.
    pub open spec fn spec_current(&self) -> SpecToken {
        if self.toks().len() == 0 {
            empty_sentinel()
        } else if self.pos() >= self.toks().len() {
            self.toks().last()
        } else {
            self.toks()[self.pos()]
        }
    }

    /// The token just before the cursor, clamped to the first token at the
    /// start and to the last token past the end.
    pub open spec fn spec_previous(&self) -> SpecToken {
        if self.toks().len() == 0 {
            empty_sentinel()
        } else if self.pos() == 0 {
            self.toks()[0]
        } else if self.pos() > self.toks().len() {
            self.toks().last()
        } else {
            self.toks()[self.pos() - 1]
        }
    }

    /// A stream over the given tokens, positioned at the start.
    pub fn new(tokens: Vec<Token>) -> (r: TokenStream)
        ensures
            r.toks() == tokens@.map_values(|t: Token| t@),
            r.pos() == 0,
    {
        TokenStream { tokens, position: 0 }
    }

    fn sentinel() -> (r: Token)
        ensures
            r@ == empty_sentinel(),
    {
        let mut lexeme = String::new();
        crate::text::push_char(&mut lexeme, '\0');
        proof {
            assert(lexeme@ =~= seq!['\0']);
        }
        Token::new(TokenKind::EndOfFile, lexeme, 0, 0, Span(0, 0))
    }

    pub(crate) fn token_count(&self) -> (r: usize)
        ensures
            r == self.toks().len(),
    {
        self.tokens.len()
    }

    /// The token just before the cursor position.
    pub fn previous(&self) -> (r: Token)
        ensures
            r@ == self.spec_previous(),
    {
        if self.tokens.len() == 0 {
            return Self::sentinel();
        }
        if self.position == 0 {
            return self.tokens[0].clone();
        }
        let pos = if self.position > self.tokens.len() {
            self.tokens.len() - 1
        } else {
            self.position - 1
        };
        self.tokens[pos].clone()
    }

    /// The token at the cursor position.
    pub fn current(&self) -> (r: Token)
        ensures
            r@ == self.spec_current(),
    {
        if self.tokens.len() == 0 {
            return Self::sentinel();
        }
        if self.position >= self.tokens.len() {
            return self.tokens[self.tokens.len() - 1].clone();
        }
        self.tokens[self.position].clone()
    }

    /// Moves the cursor forward one position and returns the token that was
    /// just consumed: the one at the pre-advance position, clamped.
    pub fn advance(&mut self) -> (r: Token)
        requires
            old(self).pos() < usize::MAX,
        ensures
            final(self).toks() == old(self).toks(),
            final(self).pos() == old(self).pos() + 1,
            r@ == final(self).spec_previous(),
    {
        self.position = self.position + 1;
        self.previous()
    }

    /// The token `k` positions beyond the cursor, clamped to the last token.
    pub fn look_ahead(&self, k: usize) -> (r: Token)
        requires
            self.pos() + k <= usize::MAX,
        ensures
            r@ == (if self.toks().len() == 0 {
                empty_sentinel()
            } else if self.pos() + k >= self.toks().len() {
                self.toks().last()
            } else {
                self.toks()[self.pos() + k]
            }),
    {
        if self.tokens.len() == 0 {
            return Self::sentinel();
        }
        if self.position + k >= self.tokens.len() {
            return self.tokens[self.tokens.len() - 1].clone();
        }
        self.tokens[self.position + k].clone()
    }

    /// Moves the cursor back one position, undoing one speculative advance;
    /// the caller must not backtrack past the start.
    pub fn backtrack(&mut self)
        requires
            old(self).pos() >= 1,
        ensures
            final(self).toks() == old(self).toks(),
            final(self).pos() == old(self).pos() - 1,
    {
        self.position = self.position - 1;
    }
}

impl Default for TokenStream {
    /// An empty stream at the start position.
    fn default() -> (r: TokenStream)
        ensures
            r.toks() == Seq::<SpecToken>::empty(),
            r.pos() == 0,
    {
        let r = TokenStream { tokens: Vec::new(), position: 0 };
        proof {
            assert(r.toks() =~= Seq::<SpecToken>::empty());
        }
        r
    }
}

impl From<TokenStream> for Vec<Token> {
    /// The owned token list behind the stream, surrendering the cursor.
    fn from(value: TokenStream) -> (r: Vec<Token>)
        ensures
            r@.map_values(|t: Token| t@) == value.toks(),
    {
        value.tokens
    }
}

impl vstd::std_specs::convert::FromSpecImpl<TokenStream> for Vec<Token> {
    open spec fn obeys_from_spec() -> bool {
        true
    }

    closed spec fn from_spec(v: TokenStream) -> Vec<Token> {
        v.tokens
    }
}

} // verus!
