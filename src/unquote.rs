//! The substitution engine: one forward pass over a token sequence that
//! evaluates unquote markers, recurses into nested quotes and resolves escapes.
use vstd::prelude::*;
use crate::token::{ExprId, LocatedToken, LocatedTokenView, Location, Token, TokenStream, TokenView, Tokens, located_view, tokens_view};

verus! {

/// The compile-time interpreter as this engine sees it: it evaluates an
/// expression to a value and turns a value into tokens. Both may change the
/// interpreter's state; the spec functions give the outcome and the next
/// state of each call.
pub trait Evaluator: Sized {
    type Value;
    type Error;

    spec fn evaluated(&self, id: ExprId) -> Result<Self::Value, Self::Error>;

    spec fn after_evaluate(&self, id: ExprId) -> Self;

    spec fn converted(&self, value: Self::Value, location: Location) -> Result<Seq<LocatedToken>, Self::Error>;

    spec fn after_convert(&self, value: Self::Value, location: Location) -> Self;

    fn evaluate(&mut self, id: ExprId) -> (r: Result<Self::Value, Self::Error>)
        ensures
            r == old(self).evaluated(id),
            *final(self) == old(self).after_evaluate(id),
    ;

    /// Tokens that stand for `value`, located at `location`.
    fn into_tokens(&mut self, value: Self::Value, location: Location) -> (r: Result<Vec<LocatedToken>, Self::Error>)
        ensures
            *final(self) == old(self).after_convert(value, location),
            match r {
                Ok(v) => old(self).converted(value, location) == Ok::<Seq<LocatedToken>, Self::Error>(v@),
                Err(e) => old(self).converted(value, location) == Err::<Seq<LocatedToken>, Self::Error>(e),
            },
    ;
}

/// Why a substitution pass failed.
#[derive(Debug, PartialEq, Eq)]
pub enum UnquoteError<E> {
    /// An escape was followed by something other than `$` (`token` holds it),
    /// or by the end of the input (`token` is `None`, `location` is the escape's).
    UnexpectedEscapedTokenInQuote { token: Option<Token>, location: Location },
    /// An error of the evaluator or of the value conversion, unchanged.
    Evaluation(E),
}

/// Result of a pass as the contracts see it: the view of the tokens, or the error.
pub type Outcome<E> = Result<Seq<LocatedTokenView>, UnquoteError<E>>;

/// State and outcome of evaluating the marker `id` at `location` and converting its value.
pub open spec fn unquote_step<E: Evaluator>(ev: E, id: ExprId, location: Location) -> (E, Result<Seq<LocatedToken>, E::Error>) {
    match ev.evaluated(id) {
        Err(e) => (ev.after_evaluate(id), Err(e)),
        Ok(v) => {
            let ev1 = ev.after_evaluate(id);
            (ev1.after_convert(v, location), ev1.converted(v, location))
        },
    }
}

/// `front` followed by the tokens of `rest`, or the error of `rest`.
pub open spec fn prepend<E: Evaluator>(front: Seq<LocatedTokenView>, rest: (E, Outcome<E::Error>)) -> (E, Outcome<E::Error>) {
    match rest.1 {
        Ok(v) => (rest.0, Ok(front + v)),
        Err(e) => (rest.0, Err(e)),
    }
}

/// A substitution pass over `s` starting from the evaluator `ev`: the
/// evaluator's final state and the outcome.
pub open spec fn substituted<E: Evaluator>(ev: E, s: Seq<LocatedToken>) -> (E, Outcome<E::Error>)
    decreases s,
{
    if s.len() == 0 {
        (ev, Ok(Seq::empty()))
    } else {
        let t = s[0];
        let rest = s.drop_first();
        match t.token {
            Token::UnquoteMarker(id) => {
                let (ev1, r) = unquote_step(ev, id, t.location);
                match r {
                    Ok(out) => prepend(tokens_view(out), substituted(ev1, rest)),
                    Err(e) => (ev1, Err(UnquoteError::Evaluation(e))),
                }
            },
            Token::Quote(inner) => {
                let (ev1, r) = substituted(ev, inner.0@);
                match r {
                    Ok(v) => prepend(
                        seq![LocatedTokenView { token: TokenView::Quote(v), location: t.location }],
                        substituted(ev1, rest),
                    ),
                    Err(e) => (ev1, Err(e)),
                }
            },
            Token::Backslash => {
                if rest.len() == 0 {
                    (ev, Err(UnquoteError::UnexpectedEscapedTokenInQuote { token: None, location: t.location }))
                } else if rest[0].token is DollarSign {
                    prepend(seq![located_view(rest[0])], substituted(ev, rest.drop_first()))
                } else {
                    (ev, Err(UnquoteError::UnexpectedEscapedTokenInQuote { token: Some(rest[0].token), location: rest[0].location }))
                }
            },
            _ => prepend(seq![located_view(t)], substituted(ev, rest)),
        }
    }
}


/// The outcome that an executable result stands for.
pub open spec fn outcome_of<X>(r: Result<Vec<LocatedToken>, UnquoteError<X>>) -> Outcome<X> {
    match r {
        Ok(v) => Ok(tokens_view(v@)),
        Err(e) => Err(e),
    }
}

/// The view of a concatenation is the concatenation of the views.
pub proof fn lemma_view_concat(a: Seq<LocatedToken>, b: Seq<LocatedToken>)
    ensures
        tokens_view(a + b) == tokens_view(a) + tokens_view(b),
    decreases a.len(),
{
    if a.len() == 0 {
        assert(a + b =~= b);
    } else {
        assert((a + b).drop_first() =~= a.drop_first() + b);
        lemma_view_concat(a.drop_first(), b);
        assert(tokens_view(a + b) =~= tokens_view(a) + tokens_view(b));
    }
}

proof fn lemma_view_single(t: LocatedToken)
    ensures
        tokens_view(seq![t]) == seq![located_view(t)],
{
    assert(seq![t].drop_first() =~= Seq::<LocatedToken>::empty());
    assert(tokens_view(seq![t].drop_first()) == Seq::<LocatedTokenView>::empty());
    assert(tokens_view(seq![t]) =~= seq![located_view(t)]);
}

proof fn lemma_view_push(a: Seq<LocatedToken>, t: LocatedToken)
    ensures
        tokens_view(a.push(t)) == tokens_view(a) + seq![located_view(t)],
{
    assert(a.push(t) =~= a + seq![t]);
    lemma_view_concat(a, seq![t]);
    lemma_view_single(t);
}

proof fn lemma_prepend_twice<E: Evaluator>(a: Seq<LocatedTokenView>, b: Seq<LocatedTokenView>, rest: (E, Outcome<E::Error>))
    ensures
        prepend(a, prepend(b, rest)) == prepend(a + b, rest),
{
    if let Ok(v) = rest.1 {
        assert(a + (b + v) =~= (a + b) + v);
    }
}

/// A substitution pass together with the evaluator it runs against.
pub struct Interpreter<E> {
    pub evaluator: E,
}

impl<E: Evaluator> Interpreter<E> {
    pub fn new(evaluator: E) -> (r: Self)
        ensures
            r.evaluator == evaluator,
    {
        Interpreter { evaluator }
    }

    /// Evaluates every unquote marker in `tokens` and splices the tokens of
    /// its value in its place, at the marker's location; substitutes inside
    /// nested quotes; resolves escaped `$`. Stops at the first error.
    ///
    /// Nested quotes are handled by recursion, one call per level, with no
    /// bound of its own on the depth: quotes nest as deep as the call stack allows.
    pub fn substitute_unquoted_values_into_tokens(&mut self, tokens: Tokens) -> (r: Result<Vec<LocatedToken>, UnquoteError<E::Error>>)
        ensures
            (final(self).evaluator, outcome_of(r)) == substituted(old(self).evaluator, tokens.0@),
        decreases tokens,
    {
        let ghost input = tokens.0@;
        let ghost ev0 = self.evaluator;
        let mut new_tokens: Vec<LocatedToken> = Vec::new();
        let mut stream = TokenStream::new(tokens);
        let ghost mut k: int = 0;
        proof {
            assert(tokens_view(new_tokens@) =~= Seq::<LocatedTokenView>::empty());
            assert(input.subrange(0, input.len() as int) =~= input);
        }
        loop
            invariant
                0 <= k <= input.len(),
                input == tokens.0@,
                ev0 == old(self).evaluator,
                stream.remaining() == input.subrange(k, input.len() as int),
                substituted(ev0, input) == prepend(tokens_view(new_tokens@), substituted(self.evaluator, stream.remaining())),
            decreases input.len() - k,
        {
            let ghost ev = self.evaluator;
            let ghost rem = stream.remaining();
            let ghost before = new_tokens@;
            let token = match stream.next() {
                Some(token) => token,
                None => {
                    assert(tokens_view(new_tokens@) + Seq::<LocatedTokenView>::empty() =~= tokens_view(new_tokens@));
                    return Ok(new_tokens);
                },
            };
            proof {
                assert(token == input[k]);
                assert(rem[0] == token);
                assert(rem.drop_first() =~= stream.remaining());
                assert(stream.remaining() =~= input.subrange(k + 1, input.len() as int));
                k = k + 1;
            }
            let location = token.location();
            match token.into_token() {
                Token::UnquoteMarker(id) => {
                    let value = match self.evaluator.evaluate(id) {
                        Ok(value) => value,
                        Err(e) => {
                            return Err(UnquoteError::Evaluation(e));
                        },
                    };
                    let mut out = match self.evaluator.into_tokens(value, location) {
                        Ok(out) => out,
                        Err(e) => {
                            return Err(UnquoteError::Evaluation(e));
                        },
                    };
                    let ghost added = out@;
                    new_tokens.append(&mut out);
                    proof {
                        lemma_view_concat(before, added);
                        lemma_prepend_twice(tokens_view(before), tokens_view(added), substituted(self.evaluator, stream.remaining()));
                    }
                },
                Token::Quote(inner) => {
                    let nested = match self.substitute_unquoted_values_into_tokens(inner) {
                        Ok(nested) => nested,
                        Err(e) => {
                            return Err(e);
                        },
                    };
                    let t = LocatedToken::new(Token::Quote(Tokens(nested)), location);
                    new_tokens.push(t);
                    proof {
                        lemma_view_push(before, t);
                        lemma_prepend_twice(tokens_view(before), seq![located_view(t)], substituted(self.evaluator, stream.remaining()));
                    }
                },
                Token::Backslash => {
                    let ghost rem1 = stream.remaining();
                    match Self::escape_token(&mut stream, &mut new_tokens, location) {
                        Ok(()) => {},
                        Err(e) => {
                            return Err(e);
                        },
                    }
                    proof {
                        lemma_view_push(before, rem1[0]);
                        lemma_prepend_twice(tokens_view(before), seq![located_view(rem1[0])], substituted(self.evaluator, stream.remaining()));
                        assert(stream.remaining() =~= input.subrange(k + 1, input.len() as int));
                        k = k + 1;
                    }
                },
                other => {
                    let t = LocatedToken::new(other, location);
                    new_tokens.push(t);
                    proof {
                        assert(t == input[k - 1]);
                        lemma_view_push(before, t);
                        lemma_prepend_twice(tokens_view(before), seq![located_view(t)], substituted(self.evaluator, stream.remaining()));
                    }
                },
            }
        }
    }

    /// Takes the token after an escape: a `$` is appended to `new_tokens`,
    /// anything else, or the end of the input, is an error.
    pub fn escape_token(
        tokens: &mut TokenStream,
        new_tokens: &mut Vec<LocatedToken>,
        default_location: Location,
    ) -> (r: Result<(), UnquoteError<E::Error>>)
        ensures
            old(tokens).remaining().len() == 0 ==> {
                &&& r == Err::<(), UnquoteError<E::Error>>(UnquoteError::UnexpectedEscapedTokenInQuote { token: None, location: default_location })
                &&& final(new_tokens)@ == old(new_tokens)@
            },
            old(tokens).remaining().len() > 0 ==> {
                let t = old(tokens).remaining()[0];
                &&& final(tokens).remaining() == old(tokens).remaining().drop_first()
                &&& t.token is DollarSign ==> r is Ok && final(new_tokens)@ == old(new_tokens)@.push(t)
                &&& !(t.token is DollarSign) ==> {
                    &&& r == Err::<(), UnquoteError<E::Error>>(UnquoteError::UnexpectedEscapedTokenInQuote { token: Some(t.token), location: t.location })
                    &&& final(new_tokens)@ == old(new_tokens)@
                }
            },
    {
        match tokens.next() {
            Some(token) => {
                if matches!(token.token, Token::DollarSign) {
                    new_tokens.push(token);
                    Ok(())
                } else {
                    let location = token.location();
                    let token = Some(token.into_token());
                    Err(UnquoteError::UnexpectedEscapedTokenInQuote { token, location })
                }
            },
            None => Err(UnquoteError::UnexpectedEscapedTokenInQuote { token: None, location: default_location }),
        }
    }
}

} // verus!
