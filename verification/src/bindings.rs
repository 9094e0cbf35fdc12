//! The calls this library makes into the password-hashing, token, cookie,
//! clock and PDF crates. The bodies here are not proved: each contract is
//! taken as given, and claims only what the called crate's source shows, as
//! its doc comment says.
use vstd::prelude::*;
use vstd::string::StringSliceAdditionalSpecFns;
use argon2::password_hash::rand_core::OsRng;
use argon2::password_hash::{PasswordHash, PasswordHasher, PasswordVerifier, Salt, SaltString};
use argon2::Argon2;
use jsonwebtoken::{DecodingKey, EncodingKey, Header, Validation};
use printpdf::{GeneratePdfOptions, PdfDocument, PdfSaveOptions};
use crate::auth::Claims;
use crate::text::{decimal_int, split_first, trim};

verus! {

/// The PHC string that Argon2id with default parameters derives from a
/// password (as UTF-8 bytes) and a Base64 salt, or nothing when hashing
/// fails on them.
pub uninterp spec fn spec_argon2_hash(password: Seq<u8>, salt: Seq<char>) -> Option<Seq<char>>;

/// Whether a password (as UTF-8 bytes) matches a PHC hash string.
pub uninterp spec fn spec_argon2_verify(password: Seq<u8>, phc: Seq<char>) -> bool;

/// The HS256 JSON Web Token, with the default header, for claims
/// `{"sub": sub, "exp": exp}` signed with `secret`, or nothing when
/// encoding fails.
pub uninterp spec fn spec_jwt_hs256(sub: i64, exp: i64, secret: Seq<u8>) -> Option<Seq<char>>;

/// Calls `SaltString::generate` with the operating system's random source
/// and gives the salt's Base64 text. Which salt is random; claimed: hashing
/// with it succeeds for every password of at most `u32::MAX` bytes, as the
/// salt is 16 bytes of Base64 (`Salt::from_b64` accepts it and Argon2 takes
/// salts of 8 bytes and more) and Argon2's only other refusal of an input is
/// a password longer than that.
#[verifier::external_body]
pub(crate) fn argon2_random_salt() -> (salt: String)
    ensures
        forall|password: Seq<u8>| password.len() <= 0xFFFF_FFFF
            ==> (#[trigger] spec_argon2_hash(password, salt@)) is Some,
{
    SaltString::generate(&mut OsRng).as_str().to_string()
}

/// The start of every PHC string that `Argon2::default()` writes: the
/// algorithm, the version (0x13, printed in decimal) and the default
/// parameters.
pub const ARGON2_PHC_PREFIX: &'static str = "$argon2id$v=19$m=19456,t=2,p=1$";

/// The PHC string of an Argon2 hash up to its output: the prefix, the salt
/// as given, and the `$` before the hash output.
pub open spec fn argon2_phc_head(salt: Seq<char>) -> Seq<char> {
    ARGON2_PHC_PREFIX@ + salt + seq!['$']
}

/// Calls `Argon2::default().hash_password` with the password's bytes and the
/// salt read by `Salt::from_b64`, and gives the PHC string of the result.
/// Claimed: the result is a function of the password and the salt
/// (`spec_argon2_hash`); the string is `$argon2id$v=19$m=19456,t=2,p=1$`,
/// the salt as given, `$`, then the Base64 hash output (not empty), as
/// `PasswordHash`'s `Display` writes it for the default algorithm, version
/// and parameters; and a hash it gives is accepted for the same password by
/// `argon2_verify`: verification re-derives the hash with the algorithm,
/// version, parameters and salt recorded in the PHC string and compares the
/// outputs.
#[verifier::external_body]
pub(crate) fn argon2_hash(password: &str, salt: &str) -> (r: Result<String, ()>)
    ensures
        match r {
            Ok(h) => spec_argon2_hash(password.spec_bytes(), salt@) == Some(h@)
                && spec_argon2_verify(password.spec_bytes(), h@),
            Err(_) => spec_argon2_hash(password.spec_bytes(), salt@) is None,
        },
        r matches Ok(h) ==> h@.len() > argon2_phc_head(salt@).len()
            && h@.subrange(0, argon2_phc_head(salt@).len() as int) == argon2_phc_head(salt@),
{
    match Salt::from_b64(salt) {
        Ok(s) => match Argon2::default().hash_password(password.as_bytes(), s) {
            Ok(h) => Ok(h.to_string()),
            Err(_) => Err(()),
        },
        Err(_) => Err(()),
    }
}

/// Calls `Argon2::default().verify_password` with the password's bytes and
/// the hash read by `PasswordHash::new` (a hash that does not parse is not
/// accepted). Claimed: the answer is a function of the password and the
/// hash string (`spec_argon2_verify`), and an empty hash, or one that does
/// not start with `$`, is refused, as `PasswordHash::parse` refuses them.
#[verifier::external_body]
pub(crate) fn argon2_verify(password: &str, hash: &str) -> (ok: bool)
    ensures
        ok == spec_argon2_verify(password.spec_bytes(), hash@),
        (hash@.len() == 0 || hash@[0] != '$') ==> !ok,
{
    match PasswordHash::new(hash) {
        Ok(parsed) => Argon2::default().verify_password(password.as_bytes(), &parsed).is_ok(),
        Err(_) => false,
    }
}

/// A character of a JSON Web Token: URL-safe Base64 or the `.` between parts.
pub open spec fn is_jwt_char(c: char) -> bool {
    ||| 'A' <= c <= 'Z'
    ||| 'a' <= c <= 'z'
    ||| '0' <= c <= '9'
    ||| c == '-'
    ||| c == '_'
    ||| c == '.'
}

/// What `jsonwebtoken::decode` with `DecodingKey::from_secret(secret)` and
/// the default validation reads from `token`, leaving the expiry time aside:
/// the `sub` and `exp` claims, each where it is an `i64` number, when the
/// header names HS256, the signature checks under `secret`, the claims are
/// a JSON object with a numeric `exp` and no `aud`; nothing otherwise.
pub uninterp spec fn spec_jwt_claims(token: Seq<char>, secret: Seq<u8>) -> Option<(Option<i64>, Option<i64>)>;

/// Calls `jsonwebtoken::encode` with the default header (HS256), the claims
/// as a JSON object with `sub` then `exp`, and `EncodingKey::from_secret`.
/// Claimed: it succeeds (the key is an HMAC key as HS256 needs, a header and
/// an object of integers always serialise, and HMAC signing cannot fail);
/// the token is a function of the claims and the secret (`spec_jwt_hs256`),
/// as HS256 signing involves no randomness; it is made of URL-safe Base64
/// parts joined by `.`; and, with a non-negative `exp`, decoding it with the
/// same secret reads the same `sub` and `exp` back (`spec_jwt_claims`).
#[verifier::external_body]
pub(crate) fn jwt_encode_hs256(claims: &Claims, secret: &[u8]) -> (r: Result<String, ()>)
    ensures
        r is Ok,
        match r {
            Ok(t) => spec_jwt_hs256(claims.sub, claims.exp, secret@) == Some(t@),
            Err(_) => spec_jwt_hs256(claims.sub, claims.exp, secret@) is None,
        },
        r matches Ok(t) ==> forall|k: int| 0 <= k < t@.len() ==> is_jwt_char(#[trigger] t@[k]),
        r matches Ok(t) ==> (claims.exp >= 0 ==> spec_jwt_claims(t@, secret@) == Some((Some(claims.sub), Some(claims.exp)))),
{
    let mut object = serde_json::Map::new();
    object.insert("sub".to_string(), serde_json::Value::from(claims.sub));
    object.insert("exp".to_string(), serde_json::Value::from(claims.exp));
    jsonwebtoken::encode(&Header::default(), &object, &EncodingKey::from_secret(secret))
        .map_err(|_| ())
}

/// Calls `jsonwebtoken::decode` with `DecodingKey::from_secret` and the
/// default validation (HS256, an `exp` claim that has not passed, with the
/// crate's leeway), and gives the `sub` and `exp` claims where they are
/// `i64` numbers. Claimed: what it reads is `spec_jwt_claims`, and a token
/// that fails the checks named there is refused. Whether a token that
/// passes them is accepted depends on the current time (its `exp`), so that
/// is not claimed.
#[verifier::external_body]
pub(crate) fn jwt_decode_hs256(token: &str, secret: &[u8]) -> (r: Result<(Option<i64>, Option<i64>), ()>)
    ensures
        r matches Ok(c) ==> spec_jwt_claims(token@, secret@) == Some(c),
        spec_jwt_claims(token@, secret@) is None ==> r is Err,
{
    match jsonwebtoken::decode::<serde_json::Map<String, serde_json::Value>>(
        token,
        &DecodingKey::from_secret(secret),
        &Validation::default(),
    ) {
        Ok(data) => Ok((
            data.claims.get("sub").and_then(serde_json::Value::as_i64),
            data.claims.get("exp").and_then(serde_json::Value::as_i64),
        )),
        Err(_) => Err(()),
    }
}

/// Calls `chrono::Utc::now().timestamp()`: seconds since the Unix epoch.
/// Claimed: it is not negative (the call panics on a clock before the epoch)
/// and below `10^13` (chrono's dates end in the year 262142).
#[verifier::external_body]
pub(crate) fn unix_now() -> (t: i64)
    ensures
        0 <= t < 10_000_000_000_000,
{
    chrono::Utc::now().timestamp()
}

/// Text of the `HttpOnly` attribute of a `Set-Cookie` line.
pub const SET_COOKIE_HTTP_ONLY: &'static str = "; HttpOnly";
/// Text before the path in a `Set-Cookie` line.
pub const SET_COOKIE_PATH: &'static str = "; Path=";
/// Text before the lifetime in a `Set-Cookie` line.
pub const SET_COOKIE_MAX_AGE: &'static str = "; Max-Age=";

/// The `Set-Cookie` line that `cookie` prints for a cookie with a name, a
/// value, a path, the `HttpOnly` flag and a lifetime in seconds.
pub open spec fn set_cookie_line(name: Seq<char>, value: Seq<char>, path: Seq<char>, http_only: bool, max_age: i64) -> Seq<char> {
    name + seq!['='] + value
        + (if http_only { SET_COOKIE_HTTP_ONLY@ } else { Seq::<char>::empty() })
        + SET_COOKIE_PATH@ + path + SET_COOKIE_MAX_AGE@ + decimal_int(max_age as int)
}

/// Calls `cookie::Cookie::build` with the name and value, sets the path,
/// `http_only` and `max_age` (as `Duration::seconds`), and prints the cookie
/// with `to_string`. Claimed: the printed line is `set_cookie_line`, as the
/// crate's `Display` writes `name=value`, then `; HttpOnly` when that flag is
/// set, then `; Path=` and `; Max-Age=` with the whole seconds (no
/// `SameSite`, `Secure`, `Domain` or `Expires` is set here).
#[verifier::external_body]
pub(crate) fn cookie_set_line(name: &str, value: &str, path: &str, http_only: bool, max_age_secs: i64) -> (line: String)
    ensures
        line@ == set_cookie_line(name@, value@, path@, http_only, max_age_secs),
{
    cookie::Cookie::build((name.to_string(), value.to_string()))
        .path(path.to_string())
        .http_only(http_only)
        .max_age(cookie::time::Duration::seconds(max_age_secs))
        .build()
        .to_string()
}

/// The name and value that `Cookie::parse` reads from `name=value` text
/// without `;`: the text before the first `=` and the text after it, each
/// trimmed; nothing when there is no `=` or the name is empty.
pub open spec fn spec_cookie_pair(s: Seq<char>) -> Option<(Seq<char>, Seq<char>)> {
    match split_first(s, '=') {
        None => None,
        Some((a, b)) => if trim(a).len() == 0 { None } else { Some((trim(a), trim(b))) },
    }
}

/// Calls `cookie::Cookie::parse` and gives the cookie's `name()` and
/// `value()`. Claimed, for text without `;` (no attributes): the result is
/// `spec_cookie_pair`, as the crate splits at the first `=`, trims both
/// sides and refuses a missing `=` or an empty name.
#[verifier::external_body]
pub(crate) fn cookie_parse_pair(s: &str) -> (r: Option<(String, String)>)
    requires
        !s@.contains(';'),
    ensures
        match r {
            Some((n, v)) => spec_cookie_pair(s@) == Some((n@, v@)),
            None => spec_cookie_pair(s@) is None,
        },
{
    match cookie::Cookie::parse(s) {
        Ok(c) => Some((c.name().to_string(), c.value().to_string())),
        Err(_) => None,
    }
}

#[verifier::external_type_specification]
#[verifier::external_body]
pub struct ExPdfDocument(PdfDocument);

/// Whether `bytes` is a PDF file that `printpdf` saves, with default
/// options, from its layout of `html` with no images, no fonts and default
/// options. A relation, not a function: the file carries random identifiers
/// and the current date, so one page has many such files.
pub uninterp spec fn spec_pdf_laid_out(bytes: Seq<u8>, html: Seq<char>) -> bool;

/// A document laid out by `printpdf`, with the HTML it was laid out from.
pub struct LaidOutPdf {
    doc: PdfDocument,
    source: Ghost<Seq<char>>,
}

impl LaidOutPdf {
    /// The HTML this document was laid out from.
    pub closed spec fn source(&self) -> Seq<char> {
        self.source@
    }
}

/// Calls `printpdf::PdfDocument::from_html` with no images, no fonts and
/// default options, and keeps the HTML it was given with the document.
/// Claimed: it succeeds, as the crate's only failures there are Base64
/// errors in the images and fonts it is given (layout problems become
/// warnings). Nothing is claimed of the document's contents: it carries
/// random identifiers and the current date, and layout uses the fonts of
/// the machine.
#[verifier::external_body]
pub(crate) fn pdf_from_html(html: &str) -> (r: Result<LaidOutPdf, String>)
    ensures
        r is Ok,
        r matches Ok(d) ==> d.source() == html@,
{
    let images = std::collections::BTreeMap::new();
    let fonts = std::collections::BTreeMap::new();
    let mut warnings = Vec::new();
    match PdfDocument::from_html(html, &images, &fonts, &GeneratePdfOptions::default(), &mut warnings) {
        Ok(doc) => Ok(LaidOutPdf { doc, source: Ghost(html@) }),
        Err(e) => Err(e),
    }
}

/// The bytes a PDF file starts with: `%PDF-`.
pub open spec fn pdf_magic() -> Seq<u8> {
    seq![0x25u8, 0x50u8, 0x44u8, 0x46u8, 0x2du8]
}

/// The bytes a PDF file ends with: `%%EOF`.
pub open spec fn pdf_end() -> Seq<u8> {
    seq![0x25u8, 0x25u8, 0x45u8, 0x4fu8, 0x46u8]
}

/// Calls `PdfDocument::save` with default options. Claimed: the bytes are
/// the file saved from the layout of the document's HTML
/// (`spec_pdf_laid_out`); they start with `%PDF-` and end with `%%EOF`,
/// the header and the last line that `lopdf` writes when it saves a
/// document into memory (writing into memory cannot fail).
#[verifier::external_body]
pub(crate) fn pdf_save(d: &LaidOutPdf) -> (bytes: Vec<u8>)
    ensures
        spec_pdf_laid_out(bytes@, d.source()),
        bytes@.len() >= 5,
        bytes@.subrange(0, 5) == pdf_magic(),
        bytes@.subrange(bytes@.len() - 5, bytes@.len() as int) == pdf_end(),
{
    let mut warnings = Vec::new();
    d.doc.save(&PdfSaveOptions::default(), &mut warnings)
}

} // verus!
