//! An evaluator with canned answers: each expression handle maps to a fixed
//! value. It keeps count of the evaluations it performed.
use vstd::prelude::*;
use crate::token::{ExprId, LocatedToken, Location, Token};
use crate::unquote::Evaluator;

verus! {

/// A value as the canned evaluator knows it.
#[derive(Clone, Copy, Debug, PartialEq, Eq, Structural)]
pub enum CannedValue {
    /// Stands for no tokens at all.
    Nothing,
    Int(u64),
    /// A negative integer, `-n`: two tokens.
    Negative(u64),
    Bool(bool),
    /// A function value, which has no token form.
    Function(u32),
}

#[derive(Clone, Copy, Debug, PartialEq, Eq, Structural)]
pub enum CannedError {
    UnknownExpression(ExprId),
    NotRepresentable(u32),
}

pub struct CannedEvaluator {
    pub values: Vec<(ExprId, CannedValue)>,
    /// How many evaluations were performed (saturating).
    pub evaluations: u64,
    pub last_evaluated: Option<ExprId>,
}

/// The value of the first entry for `id`.
pub open spec fn lookup(values: Seq<(ExprId, CannedValue)>, id: ExprId) -> Option<CannedValue>
    decreases values.len(),
{
    if values.len() == 0 {
        None
    } else if values[0].0 == id {
        Some(values[0].1)
    } else {
        lookup(values.drop_first(), id)
    }
}

/// The tokens of a canned value, all at `location`.
pub open spec fn canned_tokens(value: CannedValue, location: Location) -> Result<Seq<LocatedToken>, CannedError> {
    match value {
        CannedValue::Nothing => Ok(Seq::empty()),
        CannedValue::Int(n) => Ok(seq![LocatedToken { token: Token::Int(n), location }]),
        CannedValue::Negative(n) => Ok(
            seq![LocatedToken { token: Token::Minus, location }, LocatedToken { token: Token::Int(n), location }],
        ),
        CannedValue::Bool(b) => Ok(seq![LocatedToken { token: Token::Bool(b), location }]),
        CannedValue::Function(f) => Err(CannedError::NotRepresentable(f)),
    }
}

impl CannedEvaluator {
    pub fn new(values: Vec<(ExprId, CannedValue)>) -> (r: CannedEvaluator)
        ensures
            r.values == values,
            r.evaluations == 0,
            r.last_evaluated is None,
    {
        CannedEvaluator { values, evaluations: 0, last_evaluated: None }
    }
}

impl Evaluator for CannedEvaluator {
    type Value = CannedValue;
    type Error = CannedError;

    open spec fn evaluated(&self, id: ExprId) -> Result<CannedValue, CannedError> {
        match lookup(self.values@, id) {
            Some(v) => Ok(v),
            None => Err(CannedError::UnknownExpression(id)),
        }
    }

    open spec fn after_evaluate(&self, id: ExprId) -> CannedEvaluator {
        CannedEvaluator {
            values: self.values,
            evaluations: if self.evaluations < u64::MAX { (self.evaluations + 1) as u64 } else { self.evaluations },
            last_evaluated: Some(id),
        }
    }

    open spec fn converted(&self, value: CannedValue, location: Location) -> Result<Seq<LocatedToken>, CannedError> {
        canned_tokens(value, location)
    }

    open spec fn after_convert(&self, value: CannedValue, location: Location) -> CannedEvaluator {
        *self
    }

    fn evaluate(&mut self, id: ExprId) -> (r: Result<CannedValue, CannedError>) {
        let mut found: Option<CannedValue> = None;
        let mut i: usize = 0;
        proof {
            assert(self.values@.subrange(0, self.values@.len() as int) =~= self.values@);
        }
        while i < self.values.len()
            invariant_except_break
                found is None,
            invariant
                i <= self.values@.len(),
                lookup(self.values@, id) == lookup(self.values@.subrange(i as int, self.values@.len() as int), id),
            ensures
                found == lookup(self.values@, id),
            decreases self.values@.len() - i,
        {
            let ghost rest = self.values@.subrange(i as int, self.values@.len() as int);
            assert(rest.drop_first() =~= self.values@.subrange(i + 1, self.values@.len() as int));
            let (key, value) = self.values[i];
            if key == id {
                found = Some(value);
                break;
            }
            i = i + 1;
        }
        self.evaluations = self.evaluations.saturating_add(1);
        self.last_evaluated = Some(id);
        match found {
            Some(value) => Ok(value),
            None => Err(CannedError::UnknownExpression(id)),
        }
    }

    fn into_tokens(&mut self, value: CannedValue, location: Location) -> (r: Result<Vec<LocatedToken>, CannedError>) {
        let mut out: Vec<LocatedToken> = Vec::new();
        match value {
            CannedValue::Nothing => {},
            CannedValue::Int(n) => out.push(LocatedToken::new(Token::Int(n), location)),
            CannedValue::Negative(n) => {
                out.push(LocatedToken::new(Token::Minus, location));
                out.push(LocatedToken::new(Token::Int(n), location));
            },
            CannedValue::Bool(b) => out.push(LocatedToken::new(Token::Bool(b), location)),
            CannedValue::Function(f) => {
                return Err(CannedError::NotRepresentable(f));
            },
        }
        proof {
            if let Ok(expected) = canned_tokens(value, location) {
                assert(out@ =~= expected);
            }
        }
        Ok(out)
    }
}

} // verus!
