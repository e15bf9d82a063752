//! The library's error taxonomy. Every error is returned to the immediate
//! caller; nothing is retried or swallowed inside the library.

use vstd::prelude::*;
use vstd::string::StringExecFns;

verus! {

/// An error of the translation layer.
///
/// - `ABIParseError`: the ABI document is malformed or lacks a constructor.
/// - `InvalidParam`: arity mismatch, unsupported JSON shape, unsupported
///   numeric form, or a string that no rule converts to its declared type.
/// - `AnyError`: a lower-level parse of an address or uint256 string failed;
///   the message preserves the parser's diagnostic.
#[derive(Debug, PartialEq, Eq)]
pub enum Error {
    ABIParseError(String),
    InvalidParam(String),
    AnyError(String),
}

/// The mathematical view of an `Error`: the same variant over `Seq<char>`.
pub enum ErrorView {
    ABIParseError(Seq<char>),
    InvalidParam(Seq<char>),
    AnyError(Seq<char>),
}

impl View for Error {
    type V = ErrorView;

    open spec fn view(&self) -> ErrorView {
        match self {
            Error::ABIParseError(m) => ErrorView::ABIParseError(m@),
            Error::InvalidParam(m) => ErrorView::InvalidParam(m@),
            Error::AnyError(m) => ErrorView::AnyError(m@),
        }
    }
}

impl Error {
    /// The diagnostic message the error carries.
    pub fn message(&self) -> (r: String)
        ensures
            r@ == self.spec_message(),
    {
        match self {
            Error::ABIParseError(m) => m.clone(),
            Error::InvalidParam(m) => m.clone(),
            Error::AnyError(m) => m.clone(),
        }
    }

    /// The message component of the view.
    pub open spec fn spec_message(&self) -> Seq<char> {
        match self@ {
            ErrorView::ABIParseError(m) => m,
            ErrorView::InvalidParam(m) => m,
            ErrorView::AnyError(m) => m,
        }
    }
}

/// An `InvalidParam` error carrying the given text.
pub fn invalid_param(msg: &str) -> (r: Error)
    ensures
        r@ == ErrorView::InvalidParam(msg@),
{
    Error::InvalidParam(String::from_str(msg))
}

/// An `ABIParseError` carrying the given text.
pub fn abi_parse_error(msg: &str) -> (r: Error)
    ensures
        r@ == ErrorView::ABIParseError(msg@),
{
    Error::ABIParseError(String::from_str(msg))
}

} // verus!
