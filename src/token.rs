//! The token model: tokens, their source locations and their mathematical view.
use vstd::prelude::*;

verus! {

/// A position in source code: a file and a byte span within it.
#[derive(Clone, Copy, Debug, PartialEq, Eq, Structural)]
pub struct Location {
    pub file: usize,
    pub start: u32,
    pub end: u32,
}

impl Location {
    pub fn new(file: usize, start: u32, end: u32) -> (r: Location)
        ensures
            r == (Location { file, start, end }),
    {
        Location { file, start, end }
    }
}

/// Handle of an expression owned by the interpreter, not yet evaluated.
#[derive(Clone, Copy, Debug, PartialEq, Eq, Structural)]
pub struct ExprId(pub usize);

/// A lexical token. `Quote` holds a nested, unevaluated token template.
#[derive(Debug, PartialEq, Eq)]
pub enum Token {
    UnquoteMarker(ExprId),
    Quote(Tokens),
    Backslash,
    DollarSign,
    Ident(String),
    Int(u64),
    Bool(bool),
    Str(String),
    LeftParen,
    RightParen,
    LeftBrace,
    RightBrace,
    LeftBracket,
    RightBracket,
    Comma,
    Semicolon,
    Colon,
    Dot,
    Plus,
    Minus,
    Star,
    Slash,
    Assign,
    Equal,
    Less,
    Greater,
}

/// An ordered sequence of located tokens.
#[derive(Debug, PartialEq, Eq)]
pub struct Tokens(pub Vec<LocatedToken>);

/// A token together with the source location it stands for.
#[derive(Debug, PartialEq, Eq)]
pub struct LocatedToken {
    pub token: Token,
    pub location: Location,
}

impl LocatedToken {
    pub fn new(token: Token, location: Location) -> (r: LocatedToken)
        ensures
            r.token == token,
            r.location == location,
    {
        LocatedToken { token, location }
    }

    pub fn location(&self) -> (r: Location)
        ensures
            r == self.location,
    {
        self.location
    }

    pub fn token(&self) -> (r: &Token)
        ensures
            *r == self.token,
    {
        &self.token
    }

    pub fn into_token(self) -> (r: Token)
        ensures
            r == self.token,
    {
        self.token
    }
}

/// Mathematical view of a token: a quote is viewed through the view of its
/// contents, every other token is itself.
pub enum TokenView {
    Quote(Seq<LocatedTokenView>),
    Other(Token),
}

pub struct LocatedTokenView {
    pub token: TokenView,
    pub location: Location,
}

pub open spec fn token_view(t: Token) -> TokenView
    decreases t,
{
    match t {
        Token::Quote(inner) => TokenView::Quote(tokens_view(inner.0@)),
        other => TokenView::Other(other),
    }
}

pub open spec fn located_view(t: LocatedToken) -> LocatedTokenView
    decreases t,
{
    LocatedTokenView { token: token_view(t.token), location: t.location }
}

/// The view of a sequence of tokens, element by element.
pub open spec fn tokens_view(s: Seq<LocatedToken>) -> Seq<LocatedTokenView>
    decreases s,
{
    if s.len() == 0 {
        Seq::empty()
    } else {
        seq![located_view(s[0])] + tokens_view(s.drop_first())
    }
}


/// A forward cursor over tokens that hands each one out by value. The tokens
/// are stored last-first, so taking the next one is a pop.
pub struct TokenStream {
    rev: Vec<LocatedToken>,
}

impl TokenStream {
    /// The tokens not yet taken, in order.
    pub closed spec fn remaining(&self) -> Seq<LocatedToken> {
        Seq::new(self.rev@.len(), |i: int| self.rev@[self.rev@.len() - 1 - i])
    }

    pub fn new(tokens: Tokens) -> (r: TokenStream)
        ensures
            r.remaining() == tokens.0@,
    {
        let mut v = tokens.0;
        let ghost orig = v@;
        let mut rev: Vec<LocatedToken> = Vec::new();
        while v.len() > 0
            invariant
                v@.len() + rev@.len() == orig.len(),
                v@ == orig.subrange(0, v@.len() as int),
                forall|i: int| 0 <= i < rev@.len() ==> #[trigger] rev@[i] == orig[orig.len() - 1 - i],
            decreases v@.len(),
        {
            let t = v.pop().unwrap();
            rev.push(t);
        }
        let r = TokenStream { rev };
        assert(r.remaining() =~= orig);
        r
    }

    /// Takes the next token, or `None` at the end.
    pub fn next(&mut self) -> (r: Option<LocatedToken>)
        ensures
            old(self).remaining().len() == 0 ==> r is None && final(self).remaining() == old(self).remaining(),
            old(self).remaining().len() > 0 ==> r == Some(old(self).remaining()[0])
                && final(self).remaining() == old(self).remaining().drop_first(),
    {
        let r = self.rev.pop();
        proof {
            if old(self).remaining().len() > 0 {
                assert(self.remaining() =~= old(self).remaining().drop_first());
            } else {
                assert(self.remaining() =~= old(self).remaining());
            }
        }
        r
    }
}

} // verus!
