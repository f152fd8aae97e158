//! Control-token authorization of control and remote-access requests.
use vstd::prelude::*;
use crate::text::{chars_eq, chars_of, has_prefix_str, slice_chars};

verus! {

/// Why a request was not authorized, as the message sent back.
pub open spec fn control_denial(
    require_control_token: bool,
    control_token: Option<Seq<char>>,
    authorization: Option<Seq<char>>,
) -> Option<Seq<char>> {
    if !require_control_token {
        None
    } else {
        match control_token {
            None => Some("control token required but not configured"@),
            Some(expected) => match authorization {
                None => Some("missing Authorization header"@),
                Some(provided) => if !"Bearer "@.is_prefix_of(provided) {
                    Some("invalid Authorization scheme"@)
                } else if provided.skip(7) != expected {
                    Some("invalid control token"@)
                } else {
                    None
                },
            },
        }
    }
}

pub open spec fn opt_str_chars(o: Option<&str>) -> Option<Seq<char>> {
    match o {
        Some(s) => Some(s@),
        None => None,
    }
}

/// Authorizes a control request: when the server requires a control
/// token, the `Authorization` header (`None` when absent or not visible
/// ASCII) must be `Bearer ` followed by exactly the configured token.
pub fn authorize_control(
    require_control_token: bool,
    control_token: Option<&str>,
    authorization: Option<&str>,
) -> (r: Result<(), String>)
    ensures
        match control_denial(
            require_control_token,
            opt_str_chars(control_token),
            opt_str_chars(authorization),
        ) {
            None => r is Ok,
            Some(m) => r matches Err(e) && e@ == m,
        },
{
    if !require_control_token {
        return Ok(());
    }
    let expected = match control_token {
        Some(t) => t,
        None => return Err(String::from_str("control token required but not configured")),
    };
    let provided = match authorization {
        Some(p) => p,
        None => return Err(String::from_str("missing Authorization header")),
    };
    let pv = chars_of(provided);
    if !has_prefix_str(&pv, "Bearer ") {
        return Err(String::from_str("invalid Authorization scheme"));
    }
    proof {
        reveal_strlit("Bearer ");
    }
    let token = slice_chars(&pv, 7, pv.len());
    assert(token@ =~= provided@.skip(7));
    let ev = chars_of(expected);
    if !chars_eq(&token, &ev) {
        return Err(String::from_str("invalid control token"));
    }
    Ok(())
}

/// Authorizes a remote-access request: only when the server requires a
/// control token, and then as a control request.
pub fn authorize_remote_access(
    require_control_token: bool,
    control_token: Option<&str>,
    authorization: Option<&str>,
) -> (r: Result<(), String>)
    ensures
        match control_denial(
            require_control_token,
            opt_str_chars(control_token),
            opt_str_chars(authorization),
        ) {
            None => r is Ok,
            Some(m) => r matches Err(e) && e@ == m,
        },
{
    if require_control_token {
        authorize_control(require_control_token, control_token, authorization)
    } else {
        Ok(())
    }
}

/// A request is authorized exactly when no token is required or it
/// carries `Bearer ` and the configured token; without a configured
/// token nothing is authorized when one is required.
pub proof fn control_access_requires_the_configured_token(
    control_token: Option<Seq<char>>,
    authorization: Option<Seq<char>>,
)
    ensures
        control_denial(false, control_token, authorization) is None,
        control_denial(true, control_token, authorization) is None <==> (control_token matches Some(t)
            && authorization == Some("Bearer "@ + t)),
{
    reveal_strlit("Bearer ");
    if let Some(t) = control_token {
        if let Some(a) = authorization {
            if "Bearer "@.is_prefix_of(a) && a.skip(7) == t {
                assert(a =~= "Bearer "@ + t);
            }
            if a == "Bearer "@ + t {
                assert(a.skip(7) =~= t);
                assert("Bearer "@.is_prefix_of(a));
            }
        }
    }
}

} // verus!
