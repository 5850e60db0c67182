use crate::text::{has_prefix, str_eq};
use vstd::prelude::*;
use vstd::string::*;

verus! {

/// Why a request is turned away before it reaches its handler.
#[derive(Debug, Clone, Copy, PartialEq, Eq, Structural)]
pub enum Denied {
    /// A forwarded push carries a secret that is not this node's.
    InvalidNodeToken,
    /// A forwarded push carries no secret.
    MissingNodeToken,
    /// The bearer token is not known.
    InvalidToken,
    /// The token store cannot be reached.
    StoreUnavailable,
    /// The request carries no bearer token.
    MissingToken,
}

/// What becomes of a request before it reaches its handler.
#[derive(Debug, PartialEq, Eq)]
pub enum Admission {
    /// The request goes on to its handler.
    Pass,
    /// The request is turned away.
    Reject(Denied),
    /// The request goes on if the token store holds the given key.
    CheckToken(String),
}

/// The path is open to requests without a bearer token.
pub open spec fn is_open_path(path: Seq<char>) -> bool {
    path == "/ws"@ || path == "/api/login"@ || path == "/api/node/push"@
}

/// `s` without every copy of `prefix` that it begins with.
pub open spec fn strip_repeated(s: Seq<char>, prefix: Seq<char>) -> Seq<char>
    decreases s.len(),
{
    if prefix.len() > 0 && has_prefix(s, prefix) {
        strip_repeated(s.skip(prefix.len() as int), prefix)
    } else {
        s
    }
}

/// The key under which the token store holds a bearer token.
pub open spec fn token_key_of(token: Seq<char>) -> Seq<char> {
    "user_token:"@ + token
}

/// Why a forwarded push is turned away, if it is: it has to carry this
/// node's secret.
pub open spec fn node_token_failure(loc_to_token: Option<Seq<char>>, node_token: Seq<char>) -> Option<
    Denied,
> {
    match loc_to_token {
        Some(t) => if t == node_token {
            None
        } else {
            Some(Denied::InvalidNodeToken)
        },
        None => Some(Denied::MissingNodeToken),
    }
}

/// The status code with which a request is turned away.
pub fn denied_status(why: Denied) -> (status: u16)
    ensures
        status == (if why == Denied::StoreUnavailable {
            500u16
        } else {
            401u16
        }),
{
    match why {
        Denied::StoreUnavailable => 500,
        _ => 401,
    }
}

/// What a request that is turned away is told.
pub fn denied_message(why: Denied) -> (message: String)
    ensures
        message@ == (match why {
            Denied::InvalidNodeToken => "Invalid node token"@,
            Denied::MissingNodeToken => "Missing node token"@,
            Denied::InvalidToken => "Invalid token"@,
            Denied::StoreUnavailable => "Redis connection not available"@,
            Denied::MissingToken => "Missing token"@,
        }),
{
    match why {
        Denied::InvalidNodeToken => String::from_str("Invalid node token"),
        Denied::MissingNodeToken => String::from_str("Missing node token"),
        Denied::InvalidToken => String::from_str("Invalid token"),
        Denied::StoreUnavailable => String::from_str("Redis connection not available"),
        Denied::MissingToken => String::from_str("Missing token"),
    }
}

/// Whether the path is open to requests without a bearer token.
pub fn should_ignore(path: &String) -> (open: bool)
    ensures
        open == is_open_path(path@),
{
    str_eq(path.as_str(), "/ws") || str_eq(path.as_str(), "/api/login") || str_eq(
        path.as_str(),
        "/api/node/push",
    )
}

/// The bearer token that an `Authorization` header carries: the header
/// without the word `Bearer ` in front, however often it stands there.
pub fn bearer_token(header: &String) -> (token: String)
    ensures
        token@ == strip_repeated(header@, "Bearer "@),
{
    proof {
        reveal_strlit("Bearer ");
    }
    let text = header.as_str();
    let len = text.unicode_len();
    let mut start: usize = 0;
    assert(header@.skip(0) =~= header@);
    while len >= 7 && start <= len - 7 && str_eq(text.substring_char(start, start + 7), "Bearer ")
        invariant
            start <= len,
            len == header@.len(),
            text@ == header@,
            "Bearer "@.len() == 7,
            strip_repeated(header@, "Bearer "@) == strip_repeated(
                header@.skip(start as int),
                "Bearer "@,
            ),
        decreases len - start,
    {
        proof {
            let rest = header@.skip(start as int);
            assert(rest.subrange(0, 7) =~= header@.subrange(start as int, start + 7));
            assert(has_prefix(rest, "Bearer "@));
            assert(rest.skip(7) =~= header@.skip(start + 7));
        }
        start += 7;
    }
    proof {
        let rest = header@.skip(start as int);
        if has_prefix(rest, "Bearer "@) {
            assert(rest.subrange(0, 7) =~= header@.subrange(start as int, start + 7));
        }
        assert(rest =~= header@.subrange(start as int, len as int));
    }
    String::from_str(text.substring_char(start, len))
}

/// The key under which the token store holds a bearer token.
pub fn token_key(token: &String) -> (key: String)
    ensures
        key@ == token_key_of(token@),
{
    let mut key = String::from_str("user_token:");
    key.append(token.as_str());
    key
}

/// Decides on a request from its path and its headers. A forwarded push has
/// to carry this node's secret. A request on an open path then goes on; any
/// other has to carry a bearer token, which the token store has to know.
pub fn call(
    path: &String,
    loc_to_token: &Option<String>,
    authorization: &Option<String>,
    node_token: &String,
) -> (step: Admission)
    ensures
        match step {
            Admission::Pass => is_open_path(path@) && (path@ == "/api/node/push"@
                ==> loc_to_token.is_some() && loc_to_token.unwrap()@ == node_token@),
            Admission::Reject(why) => if path@ == "/api/node/push"@ {
                node_token_failure(
                    match *loc_to_token {
                        Some(t) => Some(t@),
                        None => None,
                    },
                    node_token@,
                ) == Some(why)
            } else {
                !is_open_path(path@) && authorization.is_none() && why == Denied::MissingToken
            },
            Admission::CheckToken(key) => !is_open_path(path@) && authorization.is_some() && key@
                == token_key_of(strip_repeated(authorization.unwrap()@, "Bearer "@)),
        },
{
    if str_eq(path.as_str(), "/api/node/push") {
        match loc_to_token {
            Some(t) => {
                if *t != *node_token {
                    return Admission::Reject(Denied::InvalidNodeToken);
                }
            },
            None => {
                return Admission::Reject(Denied::MissingNodeToken);
            },
        }
    }
    if should_ignore(path) {
        return Admission::Pass;
    }
    match authorization {
        Some(header) => Admission::CheckToken(token_key(&bearer_token(header))),
        None => Admission::Reject(Denied::MissingToken),
    }
}

/// Decides on a request whose bearer token was looked up: it goes on where
/// the token store could be reached and knows the token.
pub fn token_checked(store_available: bool, token_known: bool) -> (verdict: Result<(), Denied>)
    ensures
        verdict == (if !store_available {
            Err::<(), Denied>(Denied::StoreUnavailable)
        } else if !token_known {
            Err::<(), Denied>(Denied::InvalidToken)
        } else {
            Ok::<(), Denied>(())
        }),
{
    if !store_available {
        Err(Denied::StoreUnavailable)
    } else if !token_known {
        Err(Denied::InvalidToken)
    } else {
        Ok(())
    }
}

} // verus!
