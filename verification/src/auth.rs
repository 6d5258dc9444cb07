//! The token-side of authentication: building the claims a token carries and
//! checking them against the clock and issuer. Signing and verifying the
//! token itself, password hashing, and the session store are the edge
//! layer's collaborators; the decisions over their plain results live here.
use vstd::prelude::*;
use crate::codec::new_string;
use crate::errors::{AuthError, CustomError};

verus! {

/// What a token asserts: subject, expiry, issuer, issue time, not-before
/// time, and the session identifier it is bound to.
pub struct Claims {
    pub sub: String,
    pub exp: usize,
    pub iss: String,
    pub iat: usize,
    pub nfb: usize,
    pub sid: String,
}

/// The claims issued for a subject at a given time: valid for one hour, not
/// before ten seconds from issue, bound to a fresh session identifier.
pub fn make_claims(user_id: &str, now: usize, sid: &str) -> (r: Claims)
    requires
        now + 3600 <= usize::MAX,
    ensures
        r.sub@ == user_id@,
        r.exp == now + 3600,
        r.iss@ == "auth"@,
        r.iat == now,
        r.nfb == now + 10,
        r.sid@ == sid@,
{
    Claims {
        sub: String::from_str(user_id),
        exp: now + 3600,
        iss: String::from_str("auth"),
        iat: now,
        nfb: now + 10,
        sid: String::from_str(sid),
    }
}

/// Why a set of claims was rejected.
pub open spec fn claims_ok(c: Claims, now: usize) -> bool {
    &&& now <= c.exp
    &&& c.iss@ == "auth"@
    &&& c.iat <= now
    &&& c.nfb <= now
}

/// Checks decoded claims against the clock and the expected issuer, exactly
/// as tokens are verified: expired, wrong issuer, issued in the future, or
/// not yet valid, in that order of precedence.
pub fn validate_claims(c: &Claims, now: usize) -> (r: Result<(), String>)
    ensures
        r is Ok <==> claims_ok(*c, now),
        now > c.exp ==> (r matches Err(m) && m@ == "Token expired"@),
        now <= c.exp && c.iss@ != "auth"@ ==> (r matches Err(m) && m@ == "Invalid issuer"@),
        now <= c.exp && c.iss@ == "auth"@ && c.iat > now ==> (r matches Err(m) && m@
            == "Token issued in the future"@),
        now <= c.exp && c.iss@ == "auth"@ && c.iat <= now && c.nfb > now ==> (r matches Err(m)
            && m@ == "Token not valid yet"@),
{
    if now > c.exp {
        return Err(String::from_str("Token expired"));
    }
    if !crate::codec::str_eq(c.iss.as_str(), "auth") {
        return Err(String::from_str("Invalid issuer"));
    }
    if c.iat > now {
        return Err(String::from_str("Token issued in the future"));
    }
    if c.nfb > now {
        return Err(String::from_str("Token not valid yet"));
    }
    Ok(())
}

/// The token text with every occurrence of the bearer prefix removed.
pub open spec fn without_bearer(s: Seq<char>) -> Seq<char>
    decreases s.len(),
{
    if s.len() >= 7 && s.take(7) == "Bearer "@ {
        without_bearer(s.skip(7))
    } else if s.len() == 0 {
        Seq::empty()
    } else {
        seq![s[0]] + without_bearer(s.skip(1))
    }
}

fn strip_bearer_from(v: &Vec<char>, pos: usize) -> (r: String)
    requires
        pos <= v.len(),
    ensures
        r@ == without_bearer(v@.skip(pos as int)),
    decreases v.len() - pos,
{
    let ghost s = v@.skip(pos as int);
    proof {
        reveal_strlit("Bearer ");
        assert("Bearer "@.len() == 7);
    }
    let is_prefix = if v.len() - pos >= 7 {
        match crate::codec::expect(v, pos, "Bearer ") {
            Some(_) => true,
            None => false,
        }
    } else {
        proof {
            if s.len() >= 7 && s.take(7) == "Bearer "@ {
                assert(s.len() <= v.len() - pos);
            }
        }
        false
    };
    if is_prefix {
        proof {
            assert(s.take(7) =~= "Bearer "@);
            assert(s.skip(7) =~= v@.skip(pos + 7));
        }
        strip_bearer_from(v, pos + 7)
    } else if pos == v.len() {
        new_string()
    } else {
        proof {
            if s.len() >= 7 && s.take(7) == "Bearer "@ {
                crate::codec::lemma_strip_pub(s.take(7), s.skip(7));
                assert(s.take(7) + s.skip(7) =~= s);
            }
            assert(s[0] == v@[pos as int]);
            assert(s.skip(1) =~= v@.skip(pos + 1));
        }
        let mut head = new_string();
        crate::codec::push_char(&mut head, v[pos]);
        let tail = strip_bearer_from(v, pos + 1);
        let joined = head.concat(tail.as_str());
        proof {
            assert(joined@ =~= seq![s[0]] + without_bearer(s.skip(1)));
        }
        joined
    }
}

/// Pulls the token out of an authorization header, as the middleware does:
/// a missing header or one that is empty after the bearer prefix is removed
/// is rejected with the middleware's message.
pub fn extract_token(header: Option<&str>) -> (r: Result<String, String>)
    ensures
        header is None ==> (r matches Err(m) && m@ == "Missing token"@),
        header matches Some(h) ==> ((without_bearer(h@).len() == 0 ==> (r matches Err(m) && m@
            == "Invalid token"@)) && (without_bearer(h@).len() > 0 ==> (r matches Ok(t) && t@
            == without_bearer(h@)))),
{
    match header {
        None => Err(String::from_str("Missing token")),
        Some(h) => {
            let chars = crate::codec::str_to_chars_pub(h);
            proof {
                assert(chars@.skip(0) =~= h@);
            }
            let token = strip_bearer_from(&chars, 0);
            if token.as_str().unicode_len() == 0 {
                Err(String::from_str("Invalid token"))
            } else {
                Ok(token)
            }
        },
    }
}

/// The outcome of a session lookup: a session that resolves to no user is an
/// invalid session.
pub fn session_user(lookup: Option<String>) -> (r: Result<String, CustomError>)
    ensures
        lookup matches Some(u) ==> (r matches Ok(v) && v == u),
        lookup is None ==> (r matches Err(e) && e matches CustomError::AuthenticationError(
            AuthError::InvalidSession(_),
        )),
{
    match lookup {
        Some(u) => Ok(u),
        None => Err(
            CustomError::AuthenticationError(
                AuthError::InvalidSession(String::from_str("Failed to get user for session")),
            ),
        ),
    }
}

/// The outcome of a credentials lookup: no stored row for the address means
/// invalid credentials, never a distinguishable "no such user".
pub fn credentials_row(row: Option<(u128, String)>) -> (r: Result<(u128, String), CustomError>)
    ensures
        row matches Some(p) ==> (r matches Ok(v) && v == p),
        row is None ==> (r matches Err(e) && e matches CustomError::AuthenticationError(
            AuthError::InvalidCredentials(_),
        )),
{
    match row {
        Some(p) => Ok(p),
        None => Err(
            CustomError::AuthenticationError(
                AuthError::InvalidCredentials(String::from_str("Invalid username or password")),
            ),
        ),
    }
}

/// The outcome of a password check against the stored hash.
pub fn login_outcome(user_id: u128, is_valid: bool) -> (r: Result<u128, CustomError>)
    ensures
        is_valid ==> r == Ok::<u128, CustomError>(user_id),
        !is_valid ==> (r matches Err(e) && e matches CustomError::AuthenticationError(
            AuthError::InvalidCredentials(_),
        )),
{
    if is_valid {
        Ok(user_id)
    } else {
        Err(
            CustomError::AuthenticationError(
                AuthError::InvalidCredentials(String::from_str("Invalid credentials")),
            ),
        )
    }
}

/// The outcome of reading the subject of a session as an identifier: text
/// that is no identifier is an invalid session.
pub fn parsed_session_user(parsed: Option<u128>) -> (r: Result<u128, CustomError>)
    ensures
        parsed matches Some(u) ==> r == Ok::<u128, CustomError>(u),
        parsed is None ==> (r matches Err(e) && e matches CustomError::AuthenticationError(
            AuthError::InvalidSession(m),
        ) && m@ == "Invalid session ID"@),
{
    match parsed {
        Some(u) => Ok(u),
        None => Err(
            CustomError::AuthenticationError(
                AuthError::InvalidSession(String::from_str("Invalid session ID")),
            ),
        ),
    }
}

/// The two principals the services distinguish.
#[derive(Debug, PartialEq, Eq, Structural, Clone, Copy)]
pub enum Role {
    User,
    Admin,
}

/// A protected surface names the one role it admits. The middleware rejects
/// a token whose role differs.
pub trait RoleRestrictor {
    /// The admitted role, as a mathematical value.
    spec fn spec_role() -> Role;

    /// The admitted role.
    fn role_allowed() -> (r: Role)
        ensures
            r == Self::spec_role(),
    ;
}

/// The role gate of the token middleware: a token passes exactly when its
/// role is the one the surface admits.
pub fn role_permitted<T: RoleRestrictor>(granted: Role) -> (r: bool)
    ensures
        r == (granted == T::spec_role()),
{
    granted == T::role_allowed()
}

/// The surface of the user-facing service.
pub struct UserRealm;

impl RoleRestrictor for UserRealm {
    open spec fn spec_role() -> Role {
        Role::User
    }

    fn role_allowed() -> (r: Role)
        ensures
            r == Self::spec_role(),
    {
        Role::User
    }
}

/// The surface of the administrative service.
pub struct AdminRealm;

impl RoleRestrictor for AdminRealm {
    open spec fn spec_role() -> Role {
        Role::Admin
    }

    fn role_allowed() -> (r: Role)
        ensures
            r == Self::spec_role(),
    {
        Role::Admin
    }
}

} // verus!
