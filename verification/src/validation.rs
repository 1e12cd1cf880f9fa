//! Validation of the API key that a caller presents.
use crate::common::config::Config;
use crate::status::StatusCode;
use crate::text::{chars_of, starts_with, string_from_chars};
use vstd::prelude::*;

verus! {

broadcast use vstd::string::group_string_axioms;

/// The token of an `Authorization` header: what follows a leading
/// `Bearer ` (or `bearer `), or the whole header when it has neither.
pub open spec fn bearer_token(authorization: Seq<char>) -> Seq<char> {
    if "Bearer "@.is_prefix_of(authorization) {
        authorization.skip("Bearer "@.len() as int)
    } else if "bearer "@.is_prefix_of(authorization) {
        authorization.skip("bearer "@.len() as int)
    } else {
        authorization
    }
}

/// A header is accepted when its token is not empty and is the configured key.
pub open spec fn accepts(authorization: Seq<char>, api_key: Seq<char>) -> bool {
    bearer_token(authorization).len() > 0 && bearer_token(authorization) == api_key
}

/// Validates the API key from the Authorization header: `Ok(())` when the
/// token is the configured key, `Err` with 401 Unauthorized when it is
/// missing or wrong.
pub fn validate_api_key(authorization: &str, config: &Config) -> (r: Result<(), StatusCode>)
    ensures
        r is Ok <==> accepts(authorization@, config.api_key@),
        r matches Err(s) ==> s.code == 401,
{
    let auth = chars_of(authorization);
    let upper = chars_of("Bearer ");
    let lower = chars_of("bearer ");
    let start = if starts_with(&auth, &upper) {
        upper.len()
    } else if starts_with(&auth, &lower) {
        lower.len()
    } else {
        0
    };
    let token = string_from_chars(&auth, start, auth.len());
    assert(token@ == bearer_token(authorization@)) by {
        assert(auth@.subrange(start as int, auth@.len() as int) =~= auth@.skip(start as int));
    }
    if start == auth.len() {
        return Err(StatusCode::unauthorized());
    }
    if token != config.api_key {
        return Err(StatusCode::unauthorized());
    }
    Ok(())
}

/// A header `Bearer <key>` or `bearer <key>` is accepted exactly when the
/// key is not empty and is the configured key.
pub proof fn lemma_bearer_accepted(key: Seq<char>, api_key: Seq<char>)
    ensures
        accepts("Bearer "@ + key, api_key) <==> (key.len() > 0 && key == api_key),
        accepts("bearer "@ + key, api_key) <==> (key.len() > 0 && key == api_key),
{
    reveal_strlit("Bearer ");
    reveal_strlit("bearer ");
    let upper = "Bearer "@ + key;
    let lower = "bearer "@ + key;
    assert(upper.skip(7) =~= key);
    assert(lower.skip(7) =~= key);
    assert("Bearer "@.is_prefix_of(upper)) by {
        assert(upper.subrange(0, 7) =~= "Bearer "@);
    }
    assert(!"Bearer "@.is_prefix_of(lower)) by {
        assert(lower.subrange(0, 7)[0] == 'b');
        assert("Bearer "@[0] == 'B');
    }
    assert("bearer "@.is_prefix_of(lower)) by {
        assert(lower.subrange(0, 7) =~= "bearer "@);
    }
}

/// An empty header is never accepted.
pub proof fn lemma_empty_rejected(api_key: Seq<char>)
    ensures
        !accepts(Seq::empty(), api_key),
{
    reveal_strlit("Bearer ");
    reveal_strlit("bearer ");
}

} // verus!
