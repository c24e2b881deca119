//! The errors that the library reports.
use vstd::prelude::*;

verus! {

/// A configuration or protocol error, with its message.
#[derive(Debug)]
pub enum Error {
    /// A stored or submitted configuration is invalid.
    Config(String),
    /// A request does not follow the protocol.
    Protocol(String),
}

/// Whether `e` is a protocol error with the message `m`.
pub open spec fn is_protocol(e: Error, m: Seq<char>) -> bool {
    match e {
        Error::Protocol(text) => text@ == m,
        _ => false,
    }
}

/// Whether `e` is a configuration error with the message `m`.
pub open spec fn is_config(e: Error, m: Seq<char>) -> bool {
    match e {
        Error::Config(text) => text@ == m,
        _ => false,
    }
}

/// Whether `r` reports the result `expected`: the same text, or a configuration error with
/// the same message.
pub open spec fn reports(r: Result<String, Error>, expected: Result<Seq<char>, Seq<char>>) -> bool {
    match (r, expected) {
        (Ok(s), Ok(t)) => s@ == t,
        (Err(e), Err(m)) => is_config(e, m),
        _ => false,
    }
}

/// A protocol error with the message `a` followed by `b`.
pub fn protocol_error(a: &str, b: &str) -> (e: Error)
    ensures
        is_protocol(e, a@ + b@),
{
    let mut m = crate::text::copy(a);
    crate::text::push_str(&mut m, b);
    Error::Protocol(m)
}

/// A protocol error with the message `m`.
pub fn protocol_message(m: &str) -> (e: Error)
    ensures
        is_protocol(e, m@),
{
    Error::Protocol(crate::text::copy(m))
}

/// A configuration error with the message `m`.
pub fn config_message(m: &str) -> (e: Error)
    ensures
        is_config(e, m@),
{
    Error::Config(crate::text::copy(m))
}

/// A configuration error with the message `a` followed by `b`.
pub fn config_error(a: &str, b: &str) -> (e: Error)
    ensures
        is_config(e, a@ + b@),
{
    let mut m = crate::text::copy(a);
    crate::text::push_str(&mut m, b);
    Error::Config(m)
}

} // verus!
