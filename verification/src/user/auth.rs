//! Identity tokens: signed, time-limited claims that name an account.

use vstd::prelude::*;
use crate::clock::{now_micros, seconds, spec_seconds};
use crate::errors::{fails_with, ErrorKind, FieldError};
use crate::user::errors::UserError;

verus! {

/// The secret that tokens are signed with.
pub const SIGNING_SECRET: &'static str = "real_world_rust_graphql";

/// The issuer named in every token.
pub const ISSUER: &'static str = "real_world_rust_graphql";

/// How long a token is valid after it was issued, in seconds.
pub const VALIDITY_SECONDS: u64 = 3600;

/// The claims of a token. Times are seconds since the Unix epoch.
#[derive(Debug)]
pub struct Claims {
    /// When the token expires.
    pub exp: u64,
    /// When the token was issued.
    pub iat: u64,
    /// Who issued the token.
    pub iss: String,
    /// The account the token names: its id in decimal.
    pub sub: String,
}

/// The claims of a token as plain values.
pub struct ClaimsView {
    pub exp: int,
    pub iat: int,
    pub iss: Seq<char>,
    pub sub: Seq<char>,
}

impl View for Claims {
    type V = ClaimsView;

    open spec fn view(&self) -> ClaimsView {
        ClaimsView { exp: self.exp as int, iat: self.iat as int, iss: self.iss@, sub: self.sub@ }
    }
}

/// The character of a decimal digit.
pub open spec fn digit_char(d: int) -> char
    recommends
        0 <= d < 10,
{
    seq!['0', '1', '2', '3', '4', '5', '6', '7', '8', '9'][d]
}

/// Whether the character is a decimal digit.
pub open spec fn is_digit(c: char) -> bool {
    '0' <= c <= '9'
}

/// The value of a decimal digit.
pub open spec fn digit_value(c: char) -> int {
    c as int - '0' as int
}

/// The decimal digits of a natural number, without leading zeros.
pub open spec fn digits(n: nat) -> Seq<char>
    decreases n,
{
    if n < 10 {
        seq![digit_char(n as int)]
    } else {
        digits(n / 10).push(digit_char((n % 10) as int))
    }
}

/// An integer in decimal: the digits, behind a minus sign where it is
/// negative.
pub open spec fn decimal(n: int) -> Seq<char> {
    if n < 0 {
        seq!['-'] + digits((-n) as nat)
    } else {
        digits(n as nat)
    }
}

/// Whether every character is a decimal digit.
pub open spec fn all_digits(s: Seq<char>) -> bool {
    forall|i: int| 0 <= i < s.len() ==> is_digit(#[trigger] s[i])
}

/// The number that a string of decimal digits stands for.
pub open spec fn value_of(s: Seq<char>) -> nat
    decreases s.len(),
{
    if s.len() == 0 {
        0
    } else {
        (value_of(s.drop_last()) * 10 + digit_value(s.last())) as nat
    }
}

/// The id that a subject claim stands for: an optional sign, then one or
/// more decimal digits, with a value that an `i32` holds.
pub open spec fn parsed_id(s: Seq<char>) -> Option<i32> {
    let signed = s.len() > 0 && (s[0] == '-' || s[0] == '+');
    let body = if signed {
        s.skip(1)
    } else {
        s
    };
    let value = if s.len() > 0 && s[0] == '-' {
        -(value_of(body) as int)
    } else {
        value_of(body) as int
    };
    if body.len() == 0 || !all_digits(body) || value < i32::MIN || value > i32::MAX {
        None
    } else {
        Some(value as i32)
    }
}


/// The digits of a number are digits, and stand for the number.
pub proof fn lemma_digits(n: nat)
    ensures
        digits(n).len() > 0,
        all_digits(digits(n)),
        value_of(digits(n)) == n,
    decreases n,
{
    let d = digits(n);
    if n < 10 {
        assert(d.drop_last() =~= Seq::<char>::empty());
        assert(value_of(d.drop_last()) == 0);
        assert(d.last() == digit_char(n as int));
        assert(digit_value(digit_char(n as int)) == n);
    } else {
        lemma_digits(n / 10);
        assert(d.drop_last() =~= digits(n / 10));
        assert(d.last() == digit_char((n % 10) as int));
        assert(digit_value(digit_char((n % 10) as int)) == n % 10);
        assert forall|i: int| 0 <= i < d.len() implies is_digit(#[trigger] d[i]) by {
            if i < d.len() - 1 {
                assert(d[i] == digits(n / 10)[i]);
            }
        }
    }
}

/// Reading an id back from its decimal form gives the id.
pub proof fn lemma_parse_decimal(id: i32)
    ensures
        parsed_id(decimal(id as int)) == Some(id),
{
    let s = decimal(id as int);
    if id < 0 {
        let body = digits((-id) as nat);
        lemma_digits((-id) as nat);
        assert(s[0] == '-');
        assert(s.skip(1) =~= body);
    } else {
        lemma_digits(id as nat);
        let first = s[0];
        assert(is_digit(first));
    }
}

/// A prefix of a string of digits stands for no more than the string.
pub proof fn lemma_value_prefix(s: Seq<char>, k: int)
    requires
        all_digits(s),
        0 <= k <= s.len(),
    ensures
        value_of(s.take(k)) <= value_of(s),
    decreases s.len(),
{
    if k == s.len() {
        assert(s.take(k) =~= s);
    } else {
        assert(is_digit(s.last()));
        lemma_value_prefix(s.drop_last(), k);
        assert(s.drop_last().take(k) =~= s.take(k));
    }
}

/// The one-character string of a decimal digit.
fn digit_str(d: u32) -> (r: &'static str)
    requires
        d < 10,
    ensures
        r@ == seq![digit_char(d as int)],
{
    proof {
        reveal_strlit("0");
        reveal_strlit("1");
        reveal_strlit("2");
        reveal_strlit("3");
        reveal_strlit("4");
        reveal_strlit("5");
        reveal_strlit("6");
        reveal_strlit("7");
        reveal_strlit("8");
        reveal_strlit("9");
    }
    let r = match d {
        0 => "0",
        1 => "1",
        2 => "2",
        3 => "3",
        4 => "4",
        5 => "5",
        6 => "6",
        7 => "7",
        8 => "8",
        _ => "9",
    };
    assert(r@ =~= seq![digit_char(d as int)]);
    r
}

/// Appends the decimal digits of a number.
fn push_digits(out: &mut String, n: u32)
    ensures
        final(out)@ == old(out)@ + digits(n as nat),
    decreases n,
{
    if n >= 10 {
        push_digits(out, n / 10);
    }
    out.append(digit_str(n % 10));
    proof {
        if n >= 10 {
            assert(out@ =~= old(out)@ + digits(n as nat));
        } else {
            assert(out@ =~= old(out)@ + digits(n as nat));
        }
    }
}

/// Writes an id in decimal.
pub fn format_id(id: i32) -> (r: String)
    ensures
        r@ == decimal(id as int),
{
    let mut out = String::new();
    if id < 0 {
        proof {
            reveal_strlit("-");
        }
        out.append("-");
        assert(out@ =~= seq!['-']);
        let magnitude: u32 = (-(id as i64)) as u32;
        push_digits(&mut out, magnitude);
    } else {
        push_digits(&mut out, id as u32);
        assert(out@ =~= digits(id as nat));
    }
    out
}

/// Reads an id from a subject claim: an optional sign, then decimal
/// digits. `None` where the claim has another form or the value does not
/// fit.
pub fn parse_id(s: &str) -> (r: Option<i32>)
    ensures
        r == parsed_id(s@),
{
    let n = s.unicode_len();
    if n == 0 {
        return None;
    }
    let first = s.get_char(0);
    let negative = first == '-';
    let start: usize = if first == '-' || first == '+' {
        1
    } else {
        0
    };
    if start == n {
        return None;
    }
    let ghost body = s@.skip(start as int);
    assert(body == if s@.len() > 0 && (s@[0] == '-' || s@[0] == '+') {
        s@.skip(1)
    } else {
        s@
    }) by {
        assert(s@.skip(0) =~= s@);
    }
    let mut acc: i64 = 0;
    let mut i: usize = start;
    proof {
        assert(body.take(0) =~= Seq::<char>::empty());
    }
    while i < n
        invariant
            start <= i <= n,
            n == s@.len(),
            body == s@.skip(start as int),
            body == if s@.len() > 0 && (s@[0] == '-' || s@[0] == '+') {
                s@.skip(1)
            } else {
                s@
            },
            negative == (s@[0] == '-'),
            all_digits(body.take(i - start)),
            acc == value_of(body.take(i - start)),
            0 <= acc <= 2147483648,
        decreases n - i,
    {
        let c = s.get_char(i);
        let ghost head = body.take(i - start);
        let ghost next = body.take(i - start + 1);
        proof {
            assert(body[i - start] == c);
            assert(next.drop_last() =~= head);
            assert(next.last() == c);
        }
        if !('0' <= c && c <= '9') {
            proof {
                assert(!is_digit(body[i - start]));
            }
            return None;
        }
        let d: i64 = (c as u32 - '0' as u32) as i64;
        acc = acc * 10 + d;
        proof {
            assert forall|j: int| 0 <= j < next.len() implies is_digit(#[trigger] next[j]) by {
                if j < head.len() {
                    assert(next[j] == head[j]);
                }
            }
        }
        if acc > 2147483648 {
            proof {
                if all_digits(body) {
                    lemma_value_prefix(body, i - start + 1);
                }
            }
            return None;
        }
        i += 1;
    }
    proof {
        assert(body.take(i - start) =~= body);
    }
    let value: i64 = if negative {
        -acc
    } else {
        acc
    };
    if value < -2147483648 || value > 2147483647 {
        None
    } else {
        Some(value as i32)
    }
}


/// The claims that a token carries when its signature is checked against a
/// secret: `None` where the text is no token, where its signature does not
/// match, or where a claim is missing or has the wrong type. Whether the
/// token has expired plays no part.
pub uninterp spec fn signed_claims(token: Seq<char>, secret: Seq<char>) -> Option<ClaimsView>;

/// Signs claims with `jsonwebtoken::encode`, under the default header
/// (HS256) and the secret as an HMAC key. The contract claims that a token
/// comes out, since encoding a JSON object of claims under an HMAC key has
/// no failing path, and that the token carries exactly these claims when it
/// is checked against the same secret.
#[verifier::external_body]
fn sign_claims(claims: &Claims, secret: &str) -> (r: Option<String>)
    ensures
        r is Some,
        r matches Some(token) ==> signed_claims(token@, secret@) == Some(claims@),
{
    let mut body = serde_json::Map::new();
    body.insert("exp".to_string(), claims.exp.into());
    body.insert("iat".to_string(), claims.iat.into());
    body.insert("iss".to_string(), claims.iss.clone().into());
    body.insert("sub".to_string(), claims.sub.clone().into());
    let key = jsonwebtoken::EncodingKey::from_secret(secret.as_bytes());
    jsonwebtoken::encode(&jsonwebtoken::Header::default(), &body, &key).ok()
}

/// Checks a token with `jsonwebtoken::decode`: the algorithm must be HS256
/// and the signature must match the secret; the expiry is not looked at.
/// The four claims are then read from the payload. The contract gives the
/// outcome its name.
#[verifier::external_body]
fn check_signature(token: &str, secret: &str) -> (r: Option<Claims>)
    ensures
        claims_view(r) == signed_claims(token@, secret@),
{
    let mut validation = jsonwebtoken::Validation::default();
    validation.validate_exp = false;
    let key = jsonwebtoken::DecodingKey::from_secret(secret.as_bytes());
    let data = jsonwebtoken::decode::<serde_json::Value>(token, &key, &validation).ok()?;
    Some(Claims {
        exp: data.claims.get("exp")?.as_u64()?,
        iat: data.claims.get("iat")?.as_u64()?,
        iss: data.claims.get("iss")?.as_str()?.to_string(),
        sub: data.claims.get("sub")?.as_str()?.to_string(),
    })
}

/// The view of claims that may be absent.
pub open spec fn claims_view(claims: Option<Claims>) -> Option<ClaimsView> {
    match claims {
        Some(c) => Some(c@),
        None => None,
    }
}

/// The text of a token that may be absent.
pub open spec fn token_text(token: Option<String>) -> Option<Seq<char>> {
    match token {
        Some(t) => Some(t@),
        None => None,
    }
}

/// The claims of the token issued for an account at a time: the subject is
/// the id in decimal, and the token expires 60 minutes after it was issued.
pub open spec fn issued_claims(id: i32, now: i64) -> ClaimsView {
    ClaimsView {
        exp: spec_seconds(now) + 3600,
        iat: spec_seconds(now),
        iss: ISSUER@,
        sub: decimal(id as int),
    }
}

/// The claims that are still valid at a time: those that have not expired.
pub open spec fn unexpired(claims: Option<ClaimsView>, now: i64) -> Option<ClaimsView> {
    match claims {
        Some(c) => if c.exp >= spec_seconds(now) {
            Some(c)
        } else {
            None
        },
        None => None,
    }
}

/// The account that claims name at a time, where they have not expired and
/// their subject is an id.
pub open spec fn identity_of(claims: Option<ClaimsView>, now: i64) -> Option<i32> {
    match unexpired(claims, now) {
        Some(c) => parsed_id(c.sub),
        None => None,
    }
}

/// The claims that a bearer token carries under the service's secret.
pub open spec fn bearer_claims(token: Option<Seq<char>>) -> Option<ClaimsView> {
    match token {
        Some(text) => signed_claims(text, SIGNING_SECRET@),
        None => None,
    }
}

/// The claims under which a token is accepted at a time: the token is
/// there, it is signed with the service's secret, and it has not expired.
pub open spec fn accepted_claims(token: Option<Seq<char>>, now: i64) -> Option<ClaimsView> {
    unexpired(bearer_claims(token), now)
}

/// The account that a token names at a time, where the token is accepted
/// and its subject is an id.
pub open spec fn identity_at(token: Option<Seq<char>>, now: i64) -> Option<i32> {
    identity_of(bearer_claims(token), now)
}

/// The token names no account at any time: it is absent, it carries no
/// claims under the service's secret, or its subject is no id.
pub open spec fn names_no_account(token: Option<Seq<char>>) -> bool {
    match bearer_claims(token) {
        Some(claims) => parsed_id(claims.sub) is None,
        None => true,
    }
}

impl Claims {
    /// The claims of a token issued for the account at the time `now`, in
    /// microseconds since the Unix epoch.
    pub fn issue(id: i32, now: i64) -> (r: Claims)
        ensures
            r@ == issued_claims(id, now),
    {
        let iat = seconds(now);
        Claims { exp: iat + VALIDITY_SECONDS, iat, iss: ISSUER.to_owned(), sub: format_id(id) }
    }

    /// Whether the token has expired at the time `now`.
    pub fn expired(&self, now: i64) -> (r: bool)
        ensures
            r == (self@.exp < spec_seconds(now)),
    {
        self.exp < seconds(now)
    }
}

/// Whether the text is a token of the account: signed with the service's
/// secret by the service, for 60 minutes, with the account's id as its
/// subject.
pub open spec fn names_account(token: Seq<char>, id: i32) -> bool {
    &&& signed_claims(token, SIGNING_SECRET@) matches Some(claims)
    &&& claims.sub == decimal(id as int)
    &&& parsed_id(claims.sub) == Some(id)
    &&& claims.iss == ISSUER@
    &&& claims.exp == claims.iat + 3600
}

/// Issues the token for an account at the time `now`, in microseconds
/// since the Unix epoch. The token names the account at every time up to
/// 60 minutes after `now`, and no account after that.
pub fn get_token_at(id: i32, now: i64) -> (token: String)
    ensures
        signed_claims(token@, SIGNING_SECRET@) == Some(issued_claims(id, now)),
        names_account(token@, id),
        forall|later: i64| #[trigger]
            identity_at(Some(token@), later) == if spec_seconds(later) <= spec_seconds(now) + 3600 {
                Some(id)
            } else {
                None
            },
{
    let claims = Claims::issue(id, now);
    let token = sign_claims(&claims, SIGNING_SECRET).unwrap();
    proof {
        lemma_parse_decimal(id);
        assert forall|later: i64| #[trigger]
            identity_at(Some(token@), later) == if spec_seconds(later) <= spec_seconds(now) + 3600 {
                Some(id)
            } else {
                None
            } by {
            lemma_issued_claims_name_account(id, now, later);
        }
    }
    token
}

/// Issues the token for an account now: its claims are those issued for
/// the account at the time the clock showed.
pub fn get_token(id: i32) -> (token: String)
    ensures
        names_account(token@, id),
        exists|now: i64|
            signed_claims(token@, SIGNING_SECRET@) == Some(#[trigger] issued_claims(id, now)),
{
    let now = now_micros();
    let token = get_token_at(id, now);
    assert(signed_claims(token@, SIGNING_SECRET@) == Some(issued_claims(id, now)));
    token
}

/// The viewer that a bearer token names at the time `now`: no one where no
/// token was sent. Fails with `Unauthenticated` where a token was sent and
/// is refused.
pub fn viewer_at(token: &Option<String>, now: i64) -> (r: Result<Option<i32>, FieldError>)
    ensures
        match *token {
            Some(_) => match identity_at(token_text(*token), now) {
                Some(id) => r == Ok::<Option<i32>, FieldError>(Some(id)),
                None => fails_with(r, ErrorKind::Unauthenticated),
            },
            None => r == Ok::<Option<i32>, FieldError>(None),
        },
{
    match token {
        Some(_) => match get_id_from_token_at(token, now) {
            Ok(id) => Ok(Some(id)),
            Err(e) => Err(e),
        },
        None => Ok(None),
    }
}

/// The viewer that a bearer token names now: no one where no token was
/// sent. Fails with `Unauthenticated` where a token was sent and is
/// refused.
pub fn viewer(token: &Option<String>) -> (r: Result<Option<i32>, FieldError>)
    ensures
        match r {
            Ok(Some(id)) => {
                &&& token_text(*token) matches Some(text)
                &&& signed_claims(text, SIGNING_SECRET@) matches Some(claims)
                &&& parsed_id(claims.sub) == Some(id)
            },
            Ok(None) => *token is None,
            Err(_) => *token is Some && fails_with(r, ErrorKind::Unauthenticated),
        },
        *token is None ==> r is Ok,
        *token is Some && names_no_account(token_text(*token)) ==> fails_with(
            r,
            ErrorKind::Unauthenticated,
        ),
        exists|now: i64|
            match *token {
                Some(_) => match #[trigger] identity_at(token_text(*token), now) {
                    Some(id) => r == Ok::<Option<i32>, FieldError>(Some(id)),
                    None => fails_with(r, ErrorKind::Unauthenticated),
                },
                None => r == Ok::<Option<i32>, FieldError>(None),
            },
{
    let now = now_micros();
    let r = viewer_at(token, now);
    assert(match *token {
        Some(_) => match identity_at(token_text(*token), now) {
            Some(id) => r == Ok::<Option<i32>, FieldError>(Some(id)),
            None => fails_with(r, ErrorKind::Unauthenticated),
        },
        None => r == Ok::<Option<i32>, FieldError>(None),
    });
    r
}

/// The claims of a token that is accepted at the time `now`, in
/// microseconds since the Unix epoch.
pub fn decode_token_at(token: &str, now: i64) -> (r: Option<Claims>)
    ensures
        claims_view(r) == accepted_claims(Some(token@), now),
{
    match check_signature(token, SIGNING_SECRET) {
        Some(claims) => if claims.expired(now) {
            None
        } else {
            Some(claims)
        },
        None => None,
    }
}

/// The claims of a token that is accepted now.
pub fn decode_token(token: &str) -> (r: Option<Claims>)
    ensures
        exists|now: i64| claims_view(r) == #[trigger] accepted_claims(Some(token@), now),
        r matches Some(claims) ==> signed_claims(token@, SIGNING_SECRET@) == Some(claims@),
        signed_claims(token@, SIGNING_SECRET@) is None ==> r is None,
{
    let now = now_micros();
    let r = decode_token_at(token, now);
    assert(claims_view(r) == accepted_claims(Some(token@), now));
    r
}

/// The account that accepted claims name. Fails with `Unauthenticated`
/// where there are no claims or the subject is no id.
pub fn id_from_claims(claims: Option<Claims>) -> (r: Result<i32, FieldError>)
    ensures
        match claims {
            Some(c) => match parsed_id(c.sub@) {
                Some(id) => r == Ok::<i32, FieldError>(id),
                None => fails_with(r, ErrorKind::Unauthenticated),
            },
            None => fails_with(r, ErrorKind::Unauthenticated),
        },
{
    match claims {
        Some(c) => match parse_id(c.sub.as_str()) {
            Some(id) => Ok(id),
            None => Err(UserError::Unauthenticated.into_field_error()),
        },
        None => Err(UserError::Unauthenticated.into_field_error()),
    }
}

/// The account that a bearer token names at the time `now`, in
/// microseconds since the Unix epoch. Fails with `Unauthenticated` where
/// the token is absent, malformed, wrongly signed or expired, or where its
/// subject is no id.
pub fn get_id_from_token_at(token: &Option<String>, now: i64) -> (r: Result<i32, FieldError>)
    ensures
        match identity_at(token_text(*token), now) {
            Some(id) => r == Ok::<i32, FieldError>(id),
            None => fails_with(r, ErrorKind::Unauthenticated),
        },
{
    match token {
        Some(text) => id_from_claims(decode_token_at(text.as_str(), now)),
        None => Err(UserError::Unauthenticated.into_field_error()),
    }
}

/// The account that a bearer token names now. Fails with `Unauthenticated`
/// where the token is absent, malformed, wrongly signed or expired, or
/// where its subject is no id.
pub fn get_id_from_token(token: &Option<String>) -> (r: Result<i32, FieldError>)
    ensures
        match r {
            Ok(id) => {
                &&& token_text(*token) matches Some(text)
                &&& signed_claims(text, SIGNING_SECRET@) matches Some(claims)
                &&& parsed_id(claims.sub) == Some(id)
            },
            Err(_) => fails_with(r, ErrorKind::Unauthenticated),
        },
        token is None ==> r is Err,
        names_no_account(token_text(*token)) ==> fails_with(r, ErrorKind::Unauthenticated),
        exists|now: i64|
            match #[trigger] identity_at(token_text(*token), now) {
                Some(id) => r == Ok::<i32, FieldError>(id),
                None => fails_with(r, ErrorKind::Unauthenticated),
            },
{
    let now = now_micros();
    let r = get_id_from_token_at(token, now);
    assert(match identity_at(token_text(*token), now) {
        Some(id) => r == Ok::<i32, FieldError>(id),
        None => fails_with(r, ErrorKind::Unauthenticated),
    });
    r
}

/// The claims issued for an account name that account until they expire,
/// 60 minutes after they were issued, and no account after that.
pub proof fn lemma_issued_claims_name_account(id: i32, issued_at: i64, checked_at: i64)
    ensures
        identity_of(Some(issued_claims(id, issued_at)), checked_at) == if spec_seconds(checked_at)
            <= spec_seconds(issued_at) + 3600 {
            Some(id)
        } else {
            None
        },
{
    lemma_parse_decimal(id);
}

} // verus!
