//! The control API's guard: loopback clients pass, remote clients present the access token.
use vstd::prelude::*;

use crate::error::{is_config, Error};
use crate::skills::{is_lower_hex, random_token};
use crate::text::trim;

verus! {

/// Where the access token comes from.
#[derive(Clone, Copy, Debug, PartialEq, Eq, Structural)]
pub enum AccessTokenSource {
    /// Pinned by the environment; the server cannot regenerate it.
    Environment,
    /// Generated and stored; it can be regenerated.
    Generated,
}

/// Whether a token is a fresh one: 64 lowercase hexadecimal digits.
pub open spec fn fresh_token(t: Seq<char>) -> bool {
    t.len() == 64 && forall|i: int| 0 <= i < 64 ==> is_lower_hex(#[trigger] t[i])
}

/// A token made of two identifiers, one after the other.
pub fn token_from(first: &str, second: &str) -> (r: String)
    ensures
        r@ == first@ + second@,
{
    let mut r = crate::text::copy(first);
    crate::text::push_str(&mut r, second);
    r
}

/// A fresh token: two random identifiers in their simple form, one after the other.
pub fn generate() -> (r: String)
    ensures
        fresh_token(r@),
{
    let first = random_token();
    let second = random_token();
    let r = token_from(first.as_str(), second.as_str());
    assert forall|i: int| 0 <= i < 64 implies is_lower_hex(#[trigger] r@[i]) by {
        if i < 32 {
            assert(r@[i] == first@[i]);
        } else {
            assert(r@[i] == second@[i - 32]);
        }
    }
    r
}

/// The stored token when it is not empty, kept as it is; otherwise a fresh token to store.
pub open spec fn stored_choice(token: Seq<char>, persist: bool, stored: Option<&str>) -> bool {
    match stored {
        Some(s) => if s@.len() > 0 {
            token == s@ && !persist
        } else {
            fresh_token(token) && persist
        },
        None => fresh_token(token) && persist,
    }
}

/// The access token a server starts with, where it comes from, and whether it has to be
/// stored: the trimmed environment value when it is not empty; else the stored token when it
/// is not empty; else a fresh one, to be stored.
pub fn resolve_token(environment: Option<&str>, stored: Option<&str>) -> (r: (
    String,
    AccessTokenSource,
    bool,
))
    ensures
        match environment {
            Some(e) => if trim(e@).len() > 0 {
                r.0@ == trim(e@) && r.1 == AccessTokenSource::Environment && !r.2
            } else {
                r.1 == AccessTokenSource::Generated && stored_choice(r.0@, r.2, stored)
            },
            None => r.1 == AccessTokenSource::Generated && stored_choice(r.0@, r.2, stored),
        },
{
    if let Some(e) = environment {
        let trimmed = crate::text::trim_str(e);
        if !trimmed.as_str().is_empty() {
            return (trimmed, AccessTokenSource::Environment, false);
        }
    }
    if let Some(s) = stored {
        if !s.is_empty() {
            return (crate::text::copy(s), AccessTokenSource::Generated, false);
        }
    }
    (generate(), AccessTokenSource::Generated, true)
}

/// The message when an environment-pinned token is asked to change.
pub const PINNED_TOKEN: &'static str = "access token is set by CURSOR_ACCESS_TOKEN; unset it to regenerate";

/// A replacement token; refused for a token the environment pins.
pub fn regenerate(source: AccessTokenSource) -> (r: Result<String, Error>)
    ensures
        source == AccessTokenSource::Environment ==> r is Err && is_config(r->Err_0, PINNED_TOKEN@),
        source == AccessTokenSource::Generated ==> r is Ok && fresh_token(r->Ok_0@),
{
    match source {
        AccessTokenSource::Environment => Err(crate::error::config_message(PINNED_TOKEN)),
        AccessTokenSource::Generated => Ok(generate()),
    }
}

/// Whether an `Authorization` header presents `token` as a bearer token.
pub open spec fn presents(authorization: Option<Seq<char>>, token: Seq<char>) -> bool {
    authorization matches Some(a) && a == "Bearer "@ + token
}

/// Whether the guard lets a request through: a loopback peer (or none, in process), or a
/// bearer token equal to the current one.
pub fn admits(loopback: bool, authorization: Option<&str>, current: &str) -> (r: bool)
    ensures
        r == (loopback || presents(
            match authorization {
                Some(a) => Some(a@),
                None => None,
            },
            current@,
        )),
{
    if loopback {
        return true;
    }
    match authorization {
        Some(a) => {
            if !crate::text::starts_with(a, "Bearer ") {
                proof {
                    reveal_strlit("Bearer ");
                    if a@ == "Bearer "@ + current@ {
                        assert(a@.take("Bearer "@.len() as int) == "Bearer "@);
                    }
                }
                return false;
            }
            let chars = crate::text::chars_of(a);
            proof {
                reveal_strlit("Bearer ");
            }
            let presented = crate::text::string_of_range(&chars, 7, chars.len());
            let r = crate::text::str_eq(presented.as_str(), current);
            proof {
                let tail = a@.subrange(7, a@.len() as int);
                assert(a@ == "Bearer "@ + tail);
                if a@ == "Bearer "@ + current@ {
                    assert(tail =~= ("Bearer "@ + current@).subrange(7, a@.len() as int));
                    assert(("Bearer "@ + current@).subrange(7, a@.len() as int) =~= current@);
                }
            }
            r
        },
        None => false,
    }
}

/// A guard whose peer is remote never admits a request without the current token, and always
/// admits one with it.
pub proof fn lemma_remote_needs_the_token(authorization: Option<Seq<char>>, current: Seq<char>)
    ensures
        presents(Some("Bearer "@ + current), current),
        authorization is None ==> !presents(authorization, current),
{
}

} // verus!
