//! Bearer-token authentication of incoming requests.
use vstd::prelude::*;

use crate::bytes::str_eq;

verus! {

/// Checks the `authorization` header of each request against a configured token.
#[derive(Clone)]
pub struct AuthInterceptor {
    token: String,
}

/// The header value that a token admits: `Bearer <token>`.
pub open spec fn bearer(token: Seq<char>) -> Seq<char> {
    seq!['B', 'e', 'a', 'r', 'e', 'r', ' '] + token
}

/// The header value `Bearer <token>`.
pub fn bearer_value(token: &str) -> (r: String)
    ensures
        r@ == bearer(token@),
{
    let mut s = String::from_str("Bearer ");
    proof {
        reveal_strlit("Bearer ");
        assert(s@ =~= seq!['B', 'e', 'a', 'r', 'e', 'r', ' ']);
    }
    s.append(token);
    s
}

impl AuthInterceptor {
    /// The token that requests must carry.
    pub closed spec fn token_view(&self) -> Seq<char> {
        self.token@
    }

    /// An interceptor that admits requests carrying `token`.
    pub fn new(token: String) -> (r: AuthInterceptor)
        ensures
            r.token_view() == token@,
    {
        AuthInterceptor { token }
    }

    /// Whether a request with this `authorization` header is admitted: exactly
    /// when the header is `Bearer <token>`.
    pub fn authorize(&self, header: Option<&str>) -> (r: bool)
        ensures
            r == (header matches Some(h) && h@ == bearer(self.token_view())),
    {
        match header {
            Some(h) => {
                let expected = bearer_value(self.token.as_str());
                str_eq(h, expected.as_str())
            },
            None => false,
        }
    }
}

} // verus!
