//! The proxy invocation's arguments, as plain data, and the login-user
//! default rule. The argument parser itself lives outside the library and
//! converts into this type.

use vstd::prelude::*;

verus! {

/// What one `proxy` invocation receives: the virtual hostname, an optional
/// login user, and the port OpenSSH passes along (accepted, never used).
#[derive(Debug, Clone)]
pub struct ProxyArgs {
    pub host: String,
    pub user: Option<String>,
    pub port: Option<u16>,
}

/// The login user for the session: the requested one when it is set and
/// non-empty (an empty string counts as unset), else the caller's own
/// username.
pub fn effective_login_user(requested: &Option<String>, fallback: &str) -> (r: String)
    ensures
        match requested {
            Option::Some(u) => {
                if u@.len() > 0 {
                    r@ == u@
                } else {
                    r@ == fallback@
                }
            },
            Option::None => r@ == fallback@,
        },
{
    match requested {
        Option::Some(u) => {
            if u.as_str().unicode_len() > 0 {
                u.clone()
            } else {
                fallback.to_owned()
            }
        },
        Option::None => fallback.to_owned(),
    }
}

} // verus!
