//! Errors of the services.

use vstd::prelude::*;
use vstd::string::*;

verus! {

broadcast use vstd::string::group_string_axioms;

/// Why a request was refused.
#[derive(Debug)]
pub enum CsiError {
    InvalidArgument(String),
    NotFound(String),
    FailedPrecondition(String),
    Internal(String),
}

/// Why a request was refused.
pub enum CsiErrorView {
    InvalidArgument(Seq<char>),
    NotFound(Seq<char>),
    FailedPrecondition(Seq<char>),
    Internal(Seq<char>),
}

impl View for CsiError {
    type V = CsiErrorView;

    open spec fn view(&self) -> CsiErrorView {
        match *self {
            CsiError::InvalidArgument(s) => CsiErrorView::InvalidArgument(s@),
            CsiError::NotFound(s) => CsiErrorView::NotFound(s@),
            CsiError::FailedPrecondition(s) => CsiErrorView::FailedPrecondition(s@),
            CsiError::Internal(s) => CsiErrorView::Internal(s@),
        }
    }
}

/// The texts `a`, `b` and `c` one behind the other.
pub fn text3(a: &str, b: &str, c: &str) -> (r: String)
    ensures
        r@ == a@ + b@ + c@,
{
    let mut r = a.to_owned();
    r.append(b);
    r.append(c);
    r
}

} // verus!
