//! The term resolver: from what was asked for to a term in seconds.

use vstd::prelude::*;
use vstd::string::*;

verus! {

/// The term of a quarantine when none is asked for, in seconds.
pub const TERM_DEFAULT: u64 = 15;

/// The longest term of a quarantine, in seconds.
pub const TERM_MAX: u64 = 3600;

/// What the caller asked for, after the expression evaluator has run.
#[derive(Clone, Copy, Debug, PartialEq, Eq, Structural)]
pub enum TermRequest {
    /// No expression was given.
    Default,
    /// The expression evaluated to this integer.
    Evaluated(i64),
    /// The expression did not evaluate to an integer.
    Unevaluable,
}

/// Why a request yields no term.
#[derive(Clone, Copy, Debug, PartialEq, Eq, Structural)]
pub enum TermError {
    /// The expression has no integer value.
    TermInvalid,
    /// The expression has a value below 0.
    TermNegative,
}

/// What is said of a term that cannot be used: each error has a text of
/// its own.
pub open spec fn term_error_text(error: TermError) -> Seq<char> {
    match error {
        TermError::TermInvalid => "term invalid"@,
        TermError::TermNegative => "刑期が負だよ"@,
    }
}

impl TermError {
    /// The text of the error.
    pub fn text(&self) -> (text: String)
        ensures
            text@ == term_error_text(*self),
    {
        match self {
            TermError::TermInvalid => "term invalid".to_owned(),
            TermError::TermNegative => "刑期が負だよ".to_owned(),
        }
    }
}

/// A resolved term: at most `TERM_MAX` seconds, and whether the request
/// was cut down to that.
#[derive(Clone, Copy, Debug, PartialEq, Eq, Structural)]
pub struct Term {
    pub seconds: u64,
    pub clamped: bool,
}

/// The request that an evaluation makes: the default where no expression
/// was given, and otherwise the integer that the expression came to, if
/// it came to one.
pub open spec fn request_for(evaluation: Option<Option<i64>>) -> TermRequest {
    match evaluation {
        None => TermRequest::Default,
        Some(None) => TermRequest::Unevaluable,
        Some(Some(value)) => TermRequest::Evaluated(value),
    }
}

impl TermRequest {
    /// The request of a command, from what the evaluator made of its
    /// expression: `None` without an expression, `Some(None)` for one
    /// without an integer value.
    pub fn from_evaluation(evaluation: Option<Option<i64>>) -> (request: Self)
        ensures
            request == request_for(evaluation),
    {
        match evaluation {
            None => TermRequest::Default,
            Some(None) => TermRequest::Unevaluable,
            Some(Some(value)) => TermRequest::Evaluated(value),
        }
    }
}

/// The term that a request stands for.
pub open spec fn resolution(request: TermRequest) -> Result<Term, TermError> {
    match request {
        TermRequest::Default => Ok(Term { seconds: TERM_DEFAULT, clamped: false }),
        TermRequest::Unevaluable => Err(TermError::TermInvalid),
        TermRequest::Evaluated(value) => if value < 0 {
            Err(TermError::TermNegative)
        } else if value > TERM_MAX {
            Ok(Term { seconds: TERM_MAX, clamped: true })
        } else {
            Ok(Term { seconds: value as u64, clamped: false })
        },
    }
}

/// Resolves a request: the default without an expression, an error for a
/// negative or unevaluable one, and the value cut down to `TERM_MAX`
/// otherwise.
pub fn resolve_term(request: TermRequest) -> (resolved: Result<Term, TermError>)
    ensures
        resolved == resolution(request),
{
    match request {
        TermRequest::Default => Ok(Term { seconds: TERM_DEFAULT, clamped: false }),
        TermRequest::Unevaluable => Err(TermError::TermInvalid),
        TermRequest::Evaluated(value) => {
            if value < 0 {
                Err(TermError::TermNegative)
            } else if value > 3600 {
                Ok(Term { seconds: TERM_MAX, clamped: true })
            } else {
                Ok(Term { seconds: value as u64, clamped: false })
            }
        },
    }
}

/// No resolved term exceeds the ceiling, and a term is marked as clamped
/// exactly when more than the ceiling was asked for.
pub proof fn lemma_resolved_term_is_bounded(request: TermRequest)
    ensures
        resolution(request) matches Ok(term) ==> term.seconds <= TERM_MAX && (term.clamped <==> (
        request matches TermRequest::Evaluated(value) && value > TERM_MAX)),
{
}

} // verus!
