//! Properties of a substitution pass, stated over `substituted` and proved.
use vstd::prelude::*;
use crate::token::{ExprId, LocatedToken, LocatedTokenView, Location, Token, tokens_view};
use crate::unquote::{Evaluator, UnquoteError, substituted, unquote_step};

verus! {

/// No token of `s` is a marker, a quote or an escape.
pub open spec fn plain(s: Seq<LocatedToken>) -> bool {
    forall|i: int|
        0 <= i < s.len() ==> {
            let t = #[trigger] s[i].token;
            !(t is UnquoteMarker) && !(t is Quote) && !(t is Backslash)
        }
}

/// `s` holds no marker and no escape, at any depth of quoting.
pub open spec fn resolved(s: Seq<LocatedToken>) -> bool
    decreases s,
{
    if s.len() == 0 {
        true
    } else {
        let t = s[0].token;
        &&& !(t is UnquoteMarker)
        &&& !(t is Backslash)
        &&& match t {
            Token::Quote(inner) => resolved(inner.0@),
            _ => true,
        }
        &&& resolved(s.drop_first())
    }
}

/// Substituting into a resolved sequence evaluates nothing and returns the
/// sequence as it was, tokens and locations alike. In particular a second
/// pass over the result of a first one changes nothing.
pub proof fn lemma_resolved_unchanged<E: Evaluator>(ev: E, s: Seq<LocatedToken>)
    requires
        resolved(s),
    ensures
        substituted(ev, s) == (ev, Ok::<Seq<LocatedTokenView>, UnquoteError<E::Error>>(tokens_view(s))),
    decreases s,
{
    if s.len() > 0 {
        lemma_resolved_unchanged(ev, s.drop_first());
        if let Token::Quote(inner) = s[0].token {
            lemma_resolved_unchanged(ev, inner.0@);
        }
    }
}

proof fn lemma_plain_resolved(s: Seq<LocatedToken>)
    requires
        plain(s),
    ensures
        resolved(s),
    decreases s.len(),
{
    if s.len() > 0 {
        assert(plain(s.drop_first())) by {
            assert forall|i: int| 0 <= i < s.drop_first().len() implies {
                let t = #[trigger] s.drop_first()[i].token;
                !(t is UnquoteMarker) && !(t is Quote) && !(t is Backslash)
            } by {
                assert(s.drop_first()[i] == s[i + 1]);
            }
        }
        lemma_plain_resolved(s.drop_first());
        assert(!(s[0].token is Quote));
    }
}

/// A sequence without markers, quotes and escapes comes back equal: the same
/// tokens with the same locations in the same order, and nothing is evaluated.
pub proof fn lemma_plain_identity<E: Evaluator>(ev: E, s: Seq<LocatedToken>)
    requires
        plain(s),
    ensures
        substituted(ev, s) == (ev, Ok::<Seq<LocatedTokenView>, UnquoteError<E::Error>>(tokens_view(s))),
{
    lemma_plain_resolved(s);
    lemma_resolved_unchanged(ev, s);
}

/// A marker whose value turns into no tokens contributes nothing: what
/// follows it comes right after what precedes it.
pub proof fn lemma_empty_expansion<E: Evaluator>(ev: E, id: ExprId, location: Location, rest: Seq<LocatedToken>)
    requires
        unquote_step(ev, id, location).1 == Ok::<Seq<LocatedToken>, E::Error>(Seq::empty()),
    ensures
        substituted(ev, seq![LocatedToken { token: Token::UnquoteMarker(id), location }] + rest)
            == substituted(unquote_step(ev, id, location).0, rest),
{
    let s = seq![LocatedToken { token: Token::UnquoteMarker(id), location }] + rest;
    assert(s.drop_first() =~= rest);
    assert(tokens_view(Seq::<LocatedToken>::empty()) == Seq::<LocatedTokenView>::empty());
    let r = substituted(unquote_step(ev, id, location).0, rest);
    if let Ok(v) = r.1 {
        assert(Seq::<LocatedTokenView>::empty() + v =~= v);
    }
}

/// Once an evaluation fails, the pass is over: whatever follows the failing
/// part `p` is neither evaluated nor emitted, and the pass over `p + q`
/// leaves the evaluator and returns the error exactly as the pass over `p` does.
pub proof fn lemma_fail_fast<E: Evaluator>(ev: E, p: Seq<LocatedToken>, q: Seq<LocatedToken>)
    requires
        substituted(ev, p).1 matches Err(UnquoteError::Evaluation(_)),
    ensures
        substituted(ev, p + q) == substituted(ev, p),
    decreases p,
{
    let s = p + q;
    assert(p.len() > 0);
    assert(s[0] == p[0]);
    let rest = p.drop_first();
    assert(s.drop_first() =~= rest + q);
    match p[0].token {
        Token::UnquoteMarker(id) => {
            let (ev1, r) = unquote_step(ev, id, p[0].location);
            if r is Ok {
                lemma_fail_fast(ev1, rest, q);
            }
        },
        Token::Quote(inner) => {
            let (ev1, r) = substituted(ev, inner.0@);
            if r is Ok {
                lemma_fail_fast(ev1, rest, q);
            }
        },
        Token::Backslash => {
            assert(rest.len() > 0);
            assert((rest + q)[0] == rest[0]);
            assert((rest + q).drop_first() =~= rest.drop_first() + q);
            if rest[0].token is DollarSign {
                lemma_fail_fast(ev, rest.drop_first(), q);
            }
        },
        _ => {
            lemma_fail_fast(ev, rest, q);
        },
    }
}

} // verus!
