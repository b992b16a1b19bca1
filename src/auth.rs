use vstd::prelude::*;

verus! {

/// What a bearer token asserts about its holder.
#[derive(Clone, Debug)]
pub struct Claims {
    /// The user id.
    pub sub: String,
    pub email: String,
    pub role: String,
    /// Expiry, in seconds since the Unix epoch.
    pub exp: i64,
}

/// Why a request was turned away.
#[derive(Clone, Copy, Debug, PartialEq, Eq, Structural)]
pub enum AuthRejection {
    MissingToken,
    InvalidToken,
}

impl AuthRejection {
    /// The message sent back with the refusal.
    pub fn message(&self) -> (r: String)
        ensures
            r@ == match self {
                AuthRejection::MissingToken => "Missing authorization token"@,
                AuthRejection::InvalidToken => "Invalid token"@,
            },
    {
        match self {
            AuthRejection::MissingToken => "Missing authorization token".to_owned(),
            AuthRejection::InvalidToken => "Invalid token".to_owned(),
        }
    }
}

/// The token of an `Authorization` header of the form `Bearer <token>`.
pub open spec fn bearer_token_of(h: Seq<char>) -> Option<Seq<char>> {
    if h.len() >= 7 && h.subrange(0, 7) == "Bearer "@ {
        Some(h.subrange(7, h.len() as int))
    } else {
        None
    }
}

/// The token carried by an `Authorization` header, if it has the `Bearer ` scheme.
pub fn bearer_token(header: Option<&str>) -> (r: Option<String>)
    ensures
        match header {
            None => r is None,
            Some(h) => match bearer_token_of(h@) {
                Some(t) => r is Some && r->Some_0@ == t,
                None => r is None,
            },
        },
{
    match header {
        None => None,
        Some(h) => {
            let n = h.unicode_len();
            if n < 7 {
                return None;
            }
            let scheme = h.substring_char(0, 7).to_owned();
            if scheme == "Bearer ".to_owned() {
                Some(h.substring_char(7, n).to_owned())
            } else {
                None
            }
        },
    }
}

/// Lets through a request whose token was found and verified into the claims, and otherwise says why
/// not: no token, or a token that did not verify.
pub fn authorize(token: &Option<String>, verified: Option<Claims>) -> (r: Result<Claims, AuthRejection>)
    ensures
        token is None ==> r == Err::<Claims, AuthRejection>(AuthRejection::MissingToken),
        token is Some ==> match verified {
            Some(c) => r == Ok::<Claims, AuthRejection>(c),
            None => r == Err::<Claims, AuthRejection>(AuthRejection::InvalidToken),
        },
{
    match token {
        None => Err(AuthRejection::MissingToken),
        Some(_) => match verified {
            Some(c) => Ok(c),
            None => Err(AuthRejection::InvalidToken),
        },
    }
}

/// Guards a service behind bearer tokens signed with `jwt_secret`.
pub struct AuthMiddleware {
    pub jwt_secret: String,
}

/// A service wrapped by `AuthMiddleware`.
pub struct AuthMiddlewareService<S> {
    service: S,
    jwt_secret: String,
}

impl AuthMiddleware {
    /// Wraps `service`, handing it this middleware's secret.
    pub fn new_transform<S>(&self, service: S) -> (r: AuthMiddlewareService<S>)
        ensures
            r.secret() == self.jwt_secret@,
            r.inner() == service,
    {
        AuthMiddlewareService { service, jwt_secret: self.jwt_secret.clone() }
    }
}

impl<S> AuthMiddlewareService<S> {
    pub closed spec fn secret(&self) -> Seq<char> {
        self.jwt_secret@
    }

    pub closed spec fn inner(&self) -> S {
        self.service
    }

    /// The secret that tokens are verified against.
    pub fn jwt_secret(&self) -> (r: &str)
        ensures
            r@ == self.secret(),
    {
        self.jwt_secret.as_str()
    }

    /// The wrapped service.
    pub fn service(&self) -> (r: &S)
        ensures
            *r == self.inner(),
    {
        &self.service
    }
}

} // verus!
