//! Passwords, session tokens and the session cookie.
//!
//! A session is a signed token whose subject is the user's id and which
//! expires seven days after it is made; it travels in an HTTP-only cookie
//! named `session`.
use vstd::prelude::*;
use vstd::string::StringSliceAdditionalSpecFns;
use crate::bindings::{
    argon2_hash, argon2_phc_head, argon2_random_salt, argon2_verify, cookie_parse_pair, cookie_set_line,
    jwt_decode_hs256, jwt_encode_hs256, set_cookie_line, spec_argon2_hash, spec_argon2_verify,
    is_jwt_char, spec_cookie_pair, spec_jwt_claims, spec_jwt_hs256, unix_now,
};
use crate::error::{ApiError, UNAUTHORIZED};
use crate::text::{
    is_whitespace, lemma_split_all, lemma_split_all_concat, lemma_split_all_single, lemma_split_first_at, lemma_trim_unchanged,
    split_all, split_str, str_equal, trim, trim_str,
};

verus! {

/// The name of the session cookie.
pub const COOKIE_NAME: &'static str = "session";
/// How long a session lasts, in seconds: seven days.
pub const TOKEN_TTL_SECS: i64 = 604800;
/// The path the session cookie applies to.
pub const COOKIE_PATH: &'static str = "/";
/// Message when a request carries no session cookie.
pub const MSG_NO_AUTENTICADO: &'static str = "no autenticado";
/// Message when the session cookie does not hold a valid token.
pub const MSG_SESION_INVALIDA: &'static str = "sesion invalida";

/// The claims of a session token: the user's id and the expiry time in
/// seconds since the Unix epoch.
#[derive(Debug)]
pub struct Claims {
    pub sub: i64,
    pub exp: i64,
}

/// The user a request was made by.
#[derive(Debug)]
pub struct AuthUser {
    pub user_id: i64,
}

/// A cookie to set on the client.
#[derive(Debug)]
pub struct SessionCookie {
    pub name: String,
    pub value: String,
    pub path: String,
    pub http_only: bool,
    pub max_age_secs: i64,
}

impl SessionCookie {
    /// The `Set-Cookie` header value for this cookie.
    pub fn header_value(&self) -> (line: String)
        ensures
            line@ == set_cookie_line(self.name@, self.value@, self.path@, self.http_only, self.max_age_secs),
    {
        cookie_set_line(self.name.as_str(), self.value.as_str(), self.path.as_str(), self.http_only, self.max_age_secs)
    }
}

/// The cookie that carries `token`: named `session`, for path `/`,
/// HTTP-only, living as long as a session.
pub fn session_cookie(token: String) -> (c: SessionCookie)
    ensures
        c.name@ == COOKIE_NAME@,
        c.value@ == token@,
        c.path@ == COOKIE_PATH@,
        c.http_only,
        c.max_age_secs == TOKEN_TTL_SECS,
{
    SessionCookie {
        name: String::from_str(COOKIE_NAME),
        value: token,
        path: String::from_str(COOKIE_PATH),
        http_only: true,
        max_age_secs: TOKEN_TTL_SECS,
    }
}

/// The cookie that ends a session: `session` with an empty value, for path
/// `/`, HTTP-only, expiring at once.
pub fn clear_cookie() -> (c: SessionCookie)
    ensures
        c.name@ == COOKIE_NAME@,
        c.value@.len() == 0,
        c.path@ == COOKIE_PATH@,
        c.http_only,
        c.max_age_secs == 0,
{
    proof { reveal_strlit(""); }
    SessionCookie {
        name: String::from_str(COOKIE_NAME),
        value: String::from_str(""),
        path: String::from_str(COOKIE_PATH),
        http_only: true,
        max_age_secs: 0,
    }
}

/// Hashes `password` with Argon2id and the given Base64 salt, giving the
/// PHC string `$argon2id$v=19$m=19456,t=2,p=1$<salt>$<hash>`; a hash it
/// gives verifies against the same password.
pub fn hash_password_with_salt(password: &str, salt: &str) -> (r: Result<String, ()>)
    ensures
        match r {
            Ok(h) => spec_argon2_hash(password.spec_bytes(), salt@) == Some(h@),
            Err(_) => spec_argon2_hash(password.spec_bytes(), salt@) is None,
        },
        r matches Ok(h) ==> h@.len() > argon2_phc_head(salt@).len()
            && h@.subrange(0, argon2_phc_head(salt@).len() as int) == argon2_phc_head(salt@),
        r matches Ok(h) ==> spec_argon2_verify(password.spec_bytes(), h@),
{
    argon2_hash(password, salt)
}

/// Hashes `password` with Argon2id and a fresh random salt: the outcome is
/// that of `hash_password_with_salt` for some salt, so it fails only where
/// hashing with that salt fails, which a fresh salt never does for a
/// password of at most `u32::MAX` bytes; a hash it gives is the PHC string
/// `$argon2id$v=19$m=19456,t=2,p=1$<salt>$<hash>` and verifies against the
/// same password.
pub fn hash_password(password: &str) -> (r: Result<String, ()>)
    ensures
        password.spec_bytes().len() <= 0xFFFF_FFFF ==> r is Ok,
        exists|salt: Seq<char>| match r {
            Ok(h) => #[trigger] spec_argon2_hash(password.spec_bytes(), salt) == Some(h@)
                && h@.len() > argon2_phc_head(salt).len()
                && h@.subrange(0, argon2_phc_head(salt).len() as int) == argon2_phc_head(salt),
            Err(_) => spec_argon2_hash(password.spec_bytes(), salt) is None,
        },
        r matches Ok(h) ==> spec_argon2_verify(password.spec_bytes(), h@),
{
    let salt = argon2_random_salt();
    let r = hash_password_with_salt(password, salt.as_str());
    assert(spec_argon2_hash(password.spec_bytes(), salt@) == spec_argon2_hash(password.spec_bytes(), salt@));
    r
}

/// Whether `password` matches the PHC hash string `hash`; a hash that does
/// not parse matches nothing, in particular an empty one or one that does
/// not start with `$`.
pub fn verify_password(password: &str, hash: &str) -> (ok: bool)
    ensures
        ok == spec_argon2_verify(password.spec_bytes(), hash@),
        (hash@.len() == 0 || hash@[0] != '$') ==> !ok,
{
    argon2_verify(password, hash)
}

/// The claims of a session for `user_id` made at time `now`: it expires a
/// session's lifetime later.
pub fn token_claims(user_id: i64, now: i64) -> (c: Claims)
    requires
        now + TOKEN_TTL_SECS <= i64::MAX,
    ensures
        c.sub == user_id,
        c.exp == now + TOKEN_TTL_SECS,
{
    Claims { sub: user_id, exp: now + TOKEN_TTL_SECS }
}

/// The session token for `user_id` made at time `now`, signed with
/// `secret`: it is always made, it is made of token characters, and (for a
/// time since the Unix epoch) decoding it reads back `user_id` and the
/// expiry.
pub fn create_token_at(user_id: i64, now: i64, secret: &str) -> (r: Result<String, ()>)
    requires
        now + TOKEN_TTL_SECS <= i64::MAX,
    ensures
        r matches Ok(t) && spec_jwt_hs256(user_id, (now + TOKEN_TTL_SECS) as i64, secret.spec_bytes()) == Some(t@),
        r matches Ok(t) ==> forall|k: int| 0 <= k < t@.len() ==> is_jwt_char(#[trigger] t@[k]),
        r matches Ok(t) ==> (now + TOKEN_TTL_SECS >= 0 ==> spec_jwt_claims(t@, secret.spec_bytes())
            == Some((Some(user_id), Some((now + TOKEN_TTL_SECS) as i64)))),
{
    let claims = token_claims(user_id, now);
    jwt_encode_hs256(&claims, secret.as_bytes())
}

/// The session token for `user_id`, made now and signed with `secret`: it is
/// always made; it is the token made at some time since the Unix epoch,
/// expiring a session's lifetime after it; it is made of token characters;
/// and decoding it reads back `user_id` and that expiry.
pub fn create_token(user_id: i64, secret: &str) -> (r: Result<String, ()>)
    ensures
        r is Ok,
        exists|exp: i64| TOKEN_TTL_SECS <= exp < 10_000_000_000_000 + TOKEN_TTL_SECS
            && match r {
                Ok(t) => #[trigger] spec_jwt_hs256(user_id, exp, secret.spec_bytes()) == Some(t@)
                    && spec_jwt_claims(t@, secret.spec_bytes()) == Some((Some(user_id), Some(exp))),
                Err(_) => spec_jwt_hs256(user_id, exp, secret.spec_bytes()) is None,
            },
        r matches Ok(t) ==> forall|k: int| 0 <= k < t@.len() ==> is_jwt_char(#[trigger] t@[k]),
{
    let now = unix_now();
    let r = create_token_at(user_id, now, secret);
    let ghost exp = (now + TOKEN_TTL_SECS) as i64;
    assert(spec_jwt_hs256(user_id, exp, secret.spec_bytes()) == spec_jwt_hs256(user_id, exp, secret.spec_bytes()));
    r
}

/// The value of the first cookie named `session` among `pieces`, each
/// trimmed and read as `name=value`; pieces that do not read are skipped.
pub open spec fn session_value(pieces: Seq<Seq<char>>) -> Option<Seq<char>>
    decreases pieces.len(),
{
    if pieces.len() == 0 {
        None
    } else {
        match spec_cookie_pair(trim(pieces[0])) {
            Some((n, v)) => if n == COOKIE_NAME@ { Some(v) } else { session_value(pieces.drop_first()) },
            None => session_value(pieces.drop_first()),
        }
    }
}

/// The session token in a `Cookie` header: the header split at `;`, and
/// the value of the first piece that reads as a cookie named `session`.
pub open spec fn spec_session_token(header: Seq<char>) -> Option<Seq<char>> {
    session_value(split_all(header, ';'))
}

/// A `Cookie` header that sends back the session cookie, `session=<token>`,
/// yields that token again, for any token without `;` that neither starts
/// nor ends with whitespace (as a signed token never does).
pub proof fn lemma_session_cookie_read_back(token: Seq<char>)
    requires
        !token.contains(';'),
        token.len() > 0 ==> !is_whitespace(token[0]) && !is_whitespace(token.last()),
    ensures
        spec_session_token(COOKIE_NAME@ + seq!['='] + token) == Some(token),
{
    reveal_strlit("session");
    let name = COOKIE_NAME@;
    let header = name + seq!['='] + token;
    assert(!header.contains(';')) by {
        if header.contains(';') {
            let i = choose|i: int| 0 <= i < header.len() && header[i] == ';';
            if i > name.len() {
                assert(token[i - name.len() - 1] == ';');
            }
        }
    }
    lemma_split_all_single(header, ';');
    assert(header[0] == 's');
    if token.len() > 0 {
        assert(header.last() == token.last());
    } else {
        assert(header.last() == '=');
    }
    lemma_trim_unchanged(header);
    assert(!name.contains('='));
    lemma_split_first_at(name, '=', token);
    lemma_trim_unchanged(name);
    lemma_trim_unchanged(token);
    let pieces = split_all(header, ';');
    assert(pieces[0] == header);
}

/// A token made at login (made of token characters, and decoding to the
/// user's id and an expiry, as `create_token` ensures), sent back as the
/// session cookie, is found again and names that user: `authenticate`
/// answers that user or, once the token has expired, `401`.
pub proof fn lemma_login_token_names_user(token: Seq<char>, secret: Seq<u8>, user_id: i64, exp: i64)
    requires
        forall|k: int| 0 <= k < token.len() ==> is_jwt_char(#[trigger] token[k]),
        spec_jwt_claims(token, secret) == Some((Some(user_id), Some(exp))),
    ensures
        spec_session_token(COOKIE_NAME@ + seq!['='] + token) == Some(token),
        spec_jwt_claims(spec_session_token(COOKIE_NAME@ + seq!['='] + token)->0, secret)
            matches Some((Some(s), Some(_))) && s == user_id,
{
    assert(!token.contains(';')) by {
        if token.contains(';') {
            let i = choose|i: int| 0 <= i < token.len() && token[i] == ';';
            assert(is_jwt_char(token[i]));
        }
    }
    if token.len() > 0 {
        assert(is_jwt_char(token[0]));
        assert(is_jwt_char(token[token.len() - 1]));
    }
    lemma_session_cookie_read_back(token);
}

/// Among pieces `a` followed by pieces `b`, the session cookie found is the
/// first one of `a`, and only when `a` has none, the first one of `b`.
pub proof fn lemma_session_value_concat(a: Seq<Seq<char>>, b: Seq<Seq<char>>)
    ensures
        session_value(a + b) == match session_value(a) {
            Some(v) => Some(v),
            None => session_value(b),
        },
    decreases a.len(),
{
    if a.len() == 0 {
        assert(a + b =~= b);
    } else {
        lemma_session_value_concat(a.drop_first(), b);
        assert((a + b)[0] == a[0]);
        assert((a + b).drop_first() =~= a.drop_first() + b);
    }
}

/// The session cookie is found wherever it stands in the header: cookies
/// before it that are not named `session` (or do not read as cookies) are
/// passed over, and the first session cookie wins over any later one. For a
/// header `front; back`: if `front` holds no session cookie the token is the
/// one `back` holds; if it holds one, that is the token.
pub proof fn lemma_session_token_position(front: Seq<char>, back: Seq<char>)
    ensures
        spec_session_token(front) is None ==>
            spec_session_token(front + seq![';'] + back) == spec_session_token(back),
        spec_session_token(front) is Some ==>
            spec_session_token(front + seq![';'] + back) == spec_session_token(front),
{
    lemma_split_all_concat(front, ';', back);
    lemma_session_value_concat(split_all(front, ';'), split_all(back, ';'));
}

/// The first piece that reads as a cookie named `session` gives the token,
/// whatever its position among the pieces.
pub proof fn lemma_session_value_first(pieces: Seq<Seq<char>>, k: int, token: Seq<char>)
    requires
        0 <= k < pieces.len(),
        forall|j: int| 0 <= j < k ==> !(spec_cookie_pair(trim(#[trigger] pieces[j])) matches Some((n, _)) && n == COOKIE_NAME@),
        spec_cookie_pair(trim(pieces[k])) == Some((COOKIE_NAME@, token)),
    ensures
        session_value(pieces) == Some(token),
    decreases k,
{
    if k > 0 {
        let rest = pieces.drop_first();
        assert forall|j: int| 0 <= j < k - 1 implies !(spec_cookie_pair(trim(#[trigger] rest[j])) matches Some((n, _)) && n == COOKIE_NAME@) by {
            assert(rest[j] == pieces[j + 1]);
        }
        assert(rest[k - 1] == pieces[k]);
        lemma_session_value_first(rest, k - 1, token);
        assert(!(spec_cookie_pair(trim(pieces[0])) matches Some((n, _)) && n == COOKIE_NAME@));
    }
}

/// Finds the session token in a `Cookie` header.
pub fn session_token(cookie_header: &str) -> (r: Option<String>)
    ensures
        match r {
            Some(t) => spec_session_token(cookie_header@) == Some(t@),
            None => spec_session_token(cookie_header@) is None,
        },
{
    let pieces = split_str(cookie_header, ';');
    let ghost all = split_all(cookie_header@, ';');
    proof { lemma_split_all(cookie_header@, ';'); }
    let n = pieces.len();
    let mut k: usize = 0;
    assert(all.subrange(0, n as int) =~= all);
    while k < n
        invariant
            n == pieces@.len(),
            n == all.len(),
            all == split_all(cookie_header@, ';'),
            k <= n,
            forall|j: int| 0 <= j < n ==> (#[trigger] pieces@[j])@ == all[j],
            forall|j: int| 0 <= j < all.len() ==> !(#[trigger] all[j]).contains(';'),
            session_value(all) == session_value(all.subrange(k as int, n as int)),
        decreases n - k,
    {
        let piece = trim_str(pieces[k]);
        proof {
            assert(pieces@[k as int]@ == all[k as int]);
            if piece@.contains(';') {
                let x = choose|x: int| 0 <= x < piece@.len() && piece@[x] == ';';
                assert(all[k as int].contains(piece@[x]));
            }
        }
        let ghost rest = all.subrange(k as int, n as int);
        assert(rest[0] == all[k as int]);
        assert(rest.drop_first() =~= all.subrange(k + 1, n as int));
        match cookie_parse_pair(piece) {
            Some((name, value)) => {
                if str_equal(name.as_str(), COOKIE_NAME) {
                    assert(session_value(rest) == Some(value@));
                    return Some(value);
                }
                assert(session_value(rest) == session_value(rest.drop_first()));
            },
            None => {
                assert(session_value(rest) == session_value(rest.drop_first()));
            },
        }
        k = k + 1;
    }
    None
}

/// The user of a request, from the outcome of decoding its session token:
/// a token that did not decode, or lacks a numeric `sub` or `exp`, is
/// refused with `401`.
pub fn user_from_decoded(decoded: Result<(Option<i64>, Option<i64>), ()>) -> (r: Result<AuthUser, ApiError>)
    ensures
        match decoded {
            Ok((Some(sub), Some(_))) => r matches Ok(u) && u.user_id == sub,
            _ => r matches Err(e) && e.status == UNAUTHORIZED && e.message@ == MSG_SESION_INVALIDA@,
        },
{
    match decoded {
        Ok((Some(sub), Some(_exp))) => Ok(AuthUser { user_id: sub }),
        _ => Err(ApiError::unauthorized(MSG_SESION_INVALIDA)),
    }
}

/// The user a request was made by, from its `Cookie` header: without a
/// session cookie the request is refused with `401` "no autenticado"; a
/// session token that does not decode with `secret` (forged, malformed,
/// without a numeric `sub` and `exp`, or expired) is refused with `401`
/// "sesion invalida"; an accepted token answers the user named by its `sub`.
pub fn authenticate(cookie_header: &str, secret: &str) -> (r: Result<AuthUser, ApiError>)
    ensures
        spec_session_token(cookie_header@) is None ==> (r matches Err(e)
            && e.status == UNAUTHORIZED && e.message@ == MSG_NO_AUTENTICADO@),
        spec_session_token(cookie_header@) is Some ==> match r {
            Ok(_) => true,
            Err(e) => e.status == UNAUTHORIZED && e.message@ == MSG_SESION_INVALIDA@,
        },
        r matches Ok(u) ==> spec_session_token(cookie_header@) matches Some(t)
            && spec_jwt_claims(t, secret.spec_bytes()) matches Some((Some(s), Some(_)))
            && u.user_id == s,
        spec_session_token(cookie_header@) matches Some(t)
            && !(spec_jwt_claims(t, secret.spec_bytes()) matches Some((Some(_), Some(_))))
            ==> (r matches Err(e) && e.message@ == MSG_SESION_INVALIDA@),
{
    match session_token(cookie_header) {
        None => Err(ApiError::unauthorized(MSG_NO_AUTENTICADO)),
        Some(token) => {
            let decoded = jwt_decode_hs256(token.as_str(), secret.as_bytes());
            user_from_decoded(decoded)
        },
    }
}

} // verus!
