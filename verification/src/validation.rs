//! Request-body validation: user names and e-mail addresses, with the exact
//! acceptance conditions stated as spec functions.
use vstd::prelude::*;
use crate::errors::CustomError;
use unicode_segmentation::UnicodeSegmentation;

verus! {

/// Number of extended grapheme clusters in a string, as segmented by the
/// Unicode text-segmentation rules. Too intricate to restate here; the
/// wrapper below is the only source of facts about it.
pub uninterp spec fn grapheme_clusters(s: Seq<char>) -> nat;

/// Relies on unicode_segmentation's `str::graphemes(true).count()`: the
/// number of extended grapheme clusters, a function of the characters alone.
#[verifier::external_body]
fn grapheme_count(s: &str) -> (r: usize)
    ensures
        r as nat == grapheme_clusters(s@),
{
    s.graphemes(true).count()
}

/// Characters a user name must not contain.
pub open spec fn is_forbidden_char(c: char) -> bool {
    c == '/' || c == '(' || c == ')' || c == '"' || c == '<' || c == '>' || c == '\\' || c == '{'
        || c == '}'
}

/// The Unicode `White_Space` code points, the set `char::is_whitespace` uses.
pub open spec fn is_space_char(c: char) -> bool {
    let u = c as u32;
    (0x9 <= u && u <= 0xD) || u == 0x20 || u == 0x85 || u == 0xA0 || u == 0x1680 || (0x2000 <= u
        && u <= 0x200A) || u == 0x2028 || u == 0x2029 || u == 0x202F || u == 0x205F || u == 0x3000
}

pub open spec fn all_whitespace(s: Seq<char>) -> bool {
    forall|i: int| 0 <= i < s.len() ==> is_space_char(s[i])
}

pub open spec fn has_forbidden_char(s: Seq<char>) -> bool {
    exists|i: int| 0 <= i < s.len() && is_forbidden_char(s[i])
}

/// A user name is accepted when it is not whitespace-only (so in particular
/// not empty), has at most 256 grapheme clusters, and contains none of the
/// forbidden characters.
pub open spec fn valid_username(s: Seq<char>) -> bool {
    &&& !all_whitespace(s)
    &&& grapheme_clusters(s) <= 256
    &&& !has_forbidden_char(s)
}

fn is_space(c: char) -> (r: bool)
    ensures
        r == is_space_char(c),
{
    let u = c as u32;
    (0x9 <= u && u <= 0xD) || u == 0x20 || u == 0x85 || u == 0xA0 || u == 0x1680 || (0x2000 <= u
        && u <= 0x200A) || u == 0x2028 || u == 0x2029 || u == 0x202F || u == 0x205F || u == 0x3000
}

fn is_forbidden(c: char) -> (r: bool)
    ensures
        r == is_forbidden_char(c),
{
    c == '/' || c == '(' || c == ')' || c == '"' || c == '<' || c == '>' || c == '\\' || c == '{'
        || c == '}'
}

/// A validated user name.
pub struct UserName(String);

impl View for UserName {
    type V = Seq<char>;

    closed spec fn view(&self) -> Seq<char> {
        self.0@
    }
}

impl UserName {
    /// The name as a plain string slice.
    pub fn as_str(&self) -> (r: &str)
        ensures
            r@ == self@,
    {
        self.0.as_str()
    }

    /// Accepts exactly the strings `valid_username` describes; any other
    /// input is rejected with a validation error.
    pub fn parse(s: String) -> (r: Result<UserName, CustomError>)
        ensures
            r is Ok <==> valid_username(s@),
            r matches Ok(u) ==> u@ == s@,
            r matches Err(e) ==> e matches CustomError::ValidationError(m) && m@ == s@
                + " is not a valid name"@,
    {
        let n = s.unicode_len();
        let mut i: usize = 0;
        let mut only_space = true;
        let mut forbidden = false;
        while i < n
            invariant
                n == s@.len(),
                0 <= i <= n,
                only_space == (forall|j: int| 0 <= j < i ==> is_space_char(s@[j])),
                forbidden == (exists|j: int| 0 <= j < i && is_forbidden_char(s@[j])),
            decreases n - i,
        {
            let c = s.as_str().get_char(i);
            if !is_space(c) {
                only_space = false;
            }
            if is_forbidden(c) {
                forbidden = true;
            }
            i = i + 1;
        }
        let too_long = grapheme_count(s.as_str()) > 256;
        if only_space || too_long || forbidden {
            Err(CustomError::ValidationError(s.concat(" is not a valid name")))
        } else {
            Ok(UserName(s))
        }
    }
}

/// Character classes of the e-mail shape `local@domain.tld`.
pub open spec fn is_alpha_char(c: char) -> bool {
    ('a' <= c && c <= 'z') || ('A' <= c && c <= 'Z')
}

pub open spec fn is_digit_char(c: char) -> bool {
    '0' <= c && c <= '9'
}

pub open spec fn is_local_char(c: char) -> bool {
    is_alpha_char(c) || is_digit_char(c) || c == '.' || c == '_' || c == '%' || c == '+' || c == '-'
}

pub open spec fn is_domain_char(c: char) -> bool {
    is_alpha_char(c) || is_digit_char(c) || c == '.' || c == '-'
}

/// The split of `s` at an `@` sign (position `a`) and a final dot (position
/// `b`) that makes it a well-shaped address: a non-empty local part, a
/// non-empty domain, and an alphabetic top-level domain of length at least 2.
pub open spec fn email_split_ok(s: Seq<char>, a: int, b: int) -> bool {
    &&& 1 <= a
    &&& a + 1 < b
    &&& b + 3 <= s.len()
    &&& s[a] == '@'
    &&& s[b] == '.'
    &&& forall|i: int| 0 <= i < a ==> is_local_char(s[i])
    &&& forall|i: int| a < i < b ==> is_domain_char(s[i])
    &&& forall|i: int| b < i < s.len() ==> is_alpha_char(s[i])
}

/// A string is a valid address when some split works.
pub open spec fn valid_email(s: Seq<char>) -> bool {
    exists|a: int, b: int| email_split_ok(s, a, b)
}

/// A validated e-mail address.
pub struct UserEmail(String);

impl View for UserEmail {
    type V = Seq<char>;

    closed spec fn view(&self) -> Seq<char> {
        self.0@
    }
}

fn is_alpha(c: char) -> (r: bool)
    ensures
        r == is_alpha_char(c),
{
    ('a' <= c && c <= 'z') || ('A' <= c && c <= 'Z')
}

fn is_local(c: char) -> (r: bool)
    ensures
        r == is_local_char(c),
{
    is_alpha(c) || ('0' <= c && c <= '9') || c == '.' || c == '_' || c == '%' || c == '+' || c
        == '-'
}

fn is_domain(c: char) -> (r: bool)
    ensures
        r == is_domain_char(c),
{
    is_alpha(c) || ('0' <= c && c <= '9') || c == '.' || c == '-'
}

/// In a valid split the `@` is the only one in the string, and the dot is
/// the last one: every other candidate position is ruled out by the
/// character classes around it.
proof fn lemma_split_unique(s: Seq<char>, a: int, b: int)
    requires
        email_split_ok(s, a, b),
    ensures
        forall|j: int| 0 <= j < s.len() && s[j] == '@' ==> j == a,
        forall|j: int| b < j < s.len() ==> s[j] != '.',
{
    assert forall|j: int| 0 <= j < s.len() && s[j] == '@' implies j == a by {
        if j < a {
            assert(is_local_char(s[j]));
        } else if a < j < b {
            assert(is_domain_char(s[j]));
        } else if j >= b {
            if j > b {
                assert(is_alpha_char(s[j]));
            }
        }
    }
    assert forall|j: int| b < j < s.len() implies s[j] != '.' by {
        assert(is_alpha_char(s[j]));
    }
}

impl UserEmail {
    /// The address as a plain string slice.
    pub fn as_str(&self) -> (r: &str)
        ensures
            r@ == self@,
    {
        self.0.as_str()
    }

    /// Accepts exactly the strings `valid_email` describes; any other input
    /// is rejected with a validation error.
    pub fn parse(s: String) -> (r: Result<UserEmail, CustomError>)
        ensures
            r is Ok <==> valid_email(s@),
            r matches Ok(u) ==> u@ == s@,
            r matches Err(e) ==> e matches CustomError::ValidationError(m) && m@ == s@
                + " is not a valid email address."@,
    {
        if Self::matches_shape(s.as_str()) {
            Ok(UserEmail(s))
        } else {
            Err(CustomError::ValidationError(s.concat(" is not a valid email address.")))
        }
    }

    fn matches_shape(s: &str) -> (r: bool)
        ensures
            r == valid_email(s@),
    {
        let n = s.unicode_len();
        // Find the first '@'; a valid split can only use it.
        let mut a: usize = 0;
        let mut found_at = false;
        while a < n && !found_at
            invariant
                n == s@.len(),
                0 <= a <= n,
                !found_at ==> forall|j: int| 0 <= j < a ==> s@[j] != '@',
                found_at ==> a < n && s@[a as int] == '@',
            decreases n - a + (if found_at { 0int } else { 1int }),
        {
            if s.get_char(a) == '@' {
                found_at = true;
            } else {
                a = a + 1;
            }
        }
        if !found_at {
            assert forall|x: int, y: int| !email_split_ok(s@, x, y) by {
                if email_split_ok(s@, x, y) {
                    assert(s@[x] == '@');
                }
            }
            return false;
        }
        // Find the last '.'; a valid split can only use it.
        let mut b: usize = n;
        let mut found_dot = false;
        while b > 0 && !found_dot
            invariant
                n == s@.len(),
                0 <= b <= n,
                !found_dot ==> forall|j: int| b <= j < n ==> s@[j] != '.',
                found_dot ==> b < n && s@[b as int] == '.' && forall|j: int|
                    b < j < n ==> s@[j] != '.',
            decreases b,
        {
            if s.get_char(b - 1) == '.' {
                found_dot = true;
            }
            b = b - 1;
        }
        if !found_dot {
            assert forall|x: int, y: int| !email_split_ok(s@, x, y) by {
                if email_split_ok(s@, x, y) {
                    assert(s@[y] == '.');
                }
            }
            return false;
        }
        // Check the candidate split; a failure rules every split out.
        let ok = Self::check_split(s, a, b);
        proof {
            if !ok && valid_email(s@) {
                let (x, y) = choose|x: int, y: int| email_split_ok(s@, x, y);
                lemma_split_unique(s@, x, y);
                assert(x == a);
                assert(s@[y] == '.');
                assert(y == b);
            }
        }
        ok
    }

    fn check_split(s: &str, a: usize, b: usize) -> (r: bool)
        requires
            a < s@.len(),
            b < s@.len(),
            s@[a as int] == '@',
            s@[b as int] == '.',
        ensures
            r == email_split_ok(s@, a as int, b as int),
    {
        let n = s.unicode_len();
        if a < 1 || b <= a || b - a < 2 || n < 3 || b > n - 3 {
            return false;
        }
        let mut i: usize = 0;
        while i < a
            invariant
                n == s@.len(),
                a < n,
                0 <= i <= a,
                forall|j: int| 0 <= j < i ==> is_local_char(s@[j]),
            decreases a - i,
        {
            if !is_local(s.get_char(i)) {
                return false;
            }
            i = i + 1;
        }
        let mut i: usize = a + 1;
        while i < b
            invariant
                n == s@.len(),
                b < n,
                a + 1 <= i <= b,
                forall|j: int| a < j < i ==> is_domain_char(s@[j]),
            decreases b - i,
        {
            if !is_domain(s.get_char(i)) {
                return false;
            }
            i = i + 1;
        }
        let mut i: usize = b + 1;
        while i < n
            invariant
                n == s@.len(),
                b + 1 <= i <= n,
                forall|j: int| b < j < i ==> is_alpha_char(s@[j]),
            decreases n - i,
        {
            if !is_alpha(s.get_char(i)) {
                return false;
            }
            i = i + 1;
        }
        true
    }
}

/// Body of a user-creation request.
pub struct CreateUserBody {
    pub username: String,
    pub password: String,
    pub email: String,
}

impl CreateUserBody {
    /// Validates name and address; the name is checked first, so its error
    /// wins when both are invalid.
    pub fn validate(self) -> (r: Result<(UserName, UserEmail), CustomError>)
        ensures
            r is Ok <==> valid_username(self.username@) && valid_email(self.email@),
            r matches Ok(p) ==> p.0@ == self.username@ && p.1@ == self.email@,
            !valid_username(self.username@) ==> (r matches Err(CustomError::ValidationError(m))
                && m@ == self.username@ + " is not a valid name"@),
            valid_username(self.username@) && !valid_email(self.email@) ==> (r matches Err(
                CustomError::ValidationError(m),
            ) && m@ == self.email@ + " is not a valid email address."@),
    {
        let user_name = UserName::parse(self.username)?;
        let user_email = UserEmail::parse(self.email)?;
        Ok((user_name, user_email))
    }
}

/// Body of a user-update request.
pub struct UpdateUserBody {
    pub username: String,
    pub email: String,
}

impl UpdateUserBody {
    /// Validates name and address exactly as `CreateUserBody::validate`.
    pub fn validate(self) -> (r: Result<(UserName, UserEmail), CustomError>)
        ensures
            r is Ok <==> valid_username(self.username@) && valid_email(self.email@),
            r matches Ok(p) ==> p.0@ == self.username@ && p.1@ == self.email@,
            !valid_username(self.username@) ==> (r matches Err(CustomError::ValidationError(m))
                && m@ == self.username@ + " is not a valid name"@),
            valid_username(self.username@) && !valid_email(self.email@) ==> (r matches Err(
                CustomError::ValidationError(m),
            ) && m@ == self.email@ + " is not a valid email address."@),
    {
        let user_name = UserName::parse(self.username)?;
        let user_email = UserEmail::parse(self.email)?;
        Ok((user_name, user_email))
    }
}

/// Body of a login request; credentials are checked against the store by the
/// edge layer, not here.
pub struct LoginUserBody {
    pub email: String,
    pub password: String,
}

} // verus!
