//! Lexical material fed to the time-literal parser: spans, tokens, and a
//! peekable cursor over a token sequence.
use vstd::prelude::*;

verus! {

/// A source-location range, used to anchor diagnostics to the original text.
#[derive(Clone, Copy, PartialEq, Eq, Structural, Debug)]
pub struct Span {
    pub start: usize,
    pub end: usize,
}

/// One lexical token: a number literal, a single-character punctuation mark,
/// or an identifier, each carrying its own span.
#[derive(Debug)]
pub enum Token {
    Number { text: String, span: Span },
    Punct { ch: char, span: Span },
    Ident { text: String, span: Span },
}

/// The mathematical image of a [`Token`]: the same shape with the text as a
/// sequence of characters.
#[verifier::ext_equal]
pub enum SpecToken {
    Number { text: Seq<char>, span: Span },
    Punct { ch: char, span: Span },
    Ident { text: Seq<char>, span: Span },
}

impl View for Token {
    type V = SpecToken;

    open spec fn view(&self) -> SpecToken {
        match self {
            Token::Number { text, span } => SpecToken::Number { text: text@, span: *span },
            Token::Punct { ch, span } => SpecToken::Punct { ch: *ch, span: *span },
            Token::Ident { text, span } => SpecToken::Ident { text: text@, span: *span },
        }
    }
}

/// Copies a token, field by field.
pub fn clone_token(t: &Token) -> (r: Token)
    ensures
        r@ == t@,
{
    match t {
        Token::Number { text, span } => Token::Number { text: text.clone(), span: *span },
        Token::Punct { ch, span } => Token::Punct { ch: *ch, span: *span },
        Token::Ident { text, span } => Token::Ident { text: text.clone(), span: *span },
    }
}

/// An ordered, peekable walk over lexical tokens with lookahead of one.
/// Tokens are consumed in place; a consumed token is never re-read.
pub struct Cursor {
    items: Vec<Token>,
    idx: usize,
}

impl Cursor {
    /// The full token sequence the cursor walks over, as mathematical tokens.
    pub closed spec fn toks(&self) -> Seq<SpecToken> {
        self.items@.map_values(|t: Token| t@)
    }

    /// The index of the next token to be consumed.
    pub closed spec fn pos(&self) -> int {
        self.idx as int
    }

    /// The cursor position never runs past the end of the token sequence.
    pub open spec fn wf(&self) -> bool {
        0 <= self.pos() <= self.toks().len()
    }

    /// Makes a cursor positioned at the first of the given tokens.
    pub fn new(items: Vec<Token>) -> (c: Cursor)
        ensures
            c.toks() == items@.map_values(|t: Token| t@),
            c.pos() == 0,
            c.wf(),
    {
        Cursor { items, idx: 0 }
    }

    /// The next unconsumed token, if any, without consuming it.
    pub fn peek(&self) -> (r: Option<&Token>)
        requires
            self.wf(),
        ensures
            match r {
                Option::Some(t) => self.pos() < self.toks().len() && t@ == self.toks()[self.pos()],
                Option::None => self.pos() == self.toks().len(),
            },
    {
        if self.idx < self.items.len() {
            Some(&self.items[self.idx])
        } else {
            None
        }
    }

    /// A copy of the next unconsumed token, if any, without consuming it.
    pub fn peek_cloned(&self) -> (r: Option<Token>)
        requires
            self.wf(),
        ensures
            match r {
                Option::Some(t) => self.pos() < self.toks().len() && t@ == self.toks()[self.pos()],
                Option::None => self.pos() == self.toks().len(),
            },
    {
        match self.peek() {
            Some(t) => Some(clone_token(t)),
            None => None,
        }
    }

    /// Consumes the next token.
    pub fn advance(&mut self)
        requires
            old(self).wf(),
            old(self).pos() < old(self).toks().len(),
        ensures
            final(self).toks() == old(self).toks(),
            final(self).pos() == old(self).pos() + 1,
            final(self).wf(),
    {
        proof {
            vstd::std_specs::vec::axiom_spec_len(&self.items);
        }
        self.idx = self.idx + 1;
    }

    /// The number of tokens already consumed.
    pub fn position(&self) -> (p: usize)
        ensures
            p as int == self.pos(),
    {
        self.idx
    }

    /// The total number of tokens, consumed or not.
    pub fn token_count(&self) -> (n: usize)
        ensures
            n as int == self.toks().len(),
    {
        self.items.len()
    }
}

} // verus!
