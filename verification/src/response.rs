//! The envelope the service wraps every reply in: a status code, its
//! reason text, and the payload.

use vstd::prelude::*;
use vstd::string::StringExecFns;

use crate::error::Error;

verus! {

/// A reply envelope: status code, message, payload.
#[derive(Debug)]
pub struct ResultInfo<T> {
    pub code: u16,
    pub msg: String,
    pub data: T,
}

impl<T> ResultInfo<T> {
    /// Wraps a payload with its status code and message.
    pub fn new(code: u16, msg: String, data: T) -> (r: ResultInfo<T>)
        ensures
            r.code == code,
            r.msg@ == msg@,
            r.data == data,
    {
        ResultInfo { code, msg, data }
    }
}

/// Wraps an operation's outcome the way every route replies: a success
/// carries its value under status 200, a failure carries the fallback
/// value under status 500.
pub fn wrap_outcome<T>(r: Result<T, Error>, fallback: T) -> (ri: ResultInfo<T>)
    ensures
        r matches Ok(v) ==> ri.code == 200 && ri.msg@ == "OK"@ && ri.data == v,
        r is Err ==> ri.code == 500 && ri.msg@ == "Internal Server Error"@ && ri.data == fallback,
{
    match r {
        Ok(v) => ResultInfo::new(200, String::from_str("OK"), v),
        Err(_) => ResultInfo::new(500, String::from_str("Internal Server Error"), fallback),
    }
}

} // verus!
