//! The decisions of the HTTP handlers: which lookups are answered with
//! `404`, how a login is judged, and the headers of a PDF download.
use vstd::prelude::*;
use vstd::string::StringSliceAdditionalSpecFns;
use crate::auth::{verify_password, MSG_NO_AUTENTICADO};
use crate::bindings::spec_argon2_verify;
use crate::error::{ApiError, NOT_FOUND, UNAUTHORIZED};
use crate::server::{digits_value, is_ascii_digit};
use crate::text::{
    digits, lemma_digits_len, lemma_digits_len_lower, lemma_zero_padded_reads_back, pow10,
    push_zero_padded, zero_padded,
};

verus! {

/// Message for an unknown customer.
pub const MSG_CLIENTE_NO_ENCONTRADO: &'static str = "cliente no encontrado";
/// Message for an unknown product.
pub const MSG_PRODUCTO_NO_ENCONTRADO: &'static str = "producto no encontrado";
/// Message for an unknown delivery note.
pub const MSG_REMITO_NO_ENCONTRADO: &'static str = "remito no encontrado";
/// Message for a failed login, whether the user is unknown or the
/// password is wrong.
pub const MSG_CREDENCIALES_INVALIDAS: &'static str = "usuario o contrasena invalidos";
/// The content type of a delivery-note download.
pub const PDF_CONTENT_TYPE: &'static str = "application/pdf";
/// Text before the note number in a download's file name.
pub const PDF_NAME_PREFIX: &'static str = "remito-";
/// Text after the note number in a download's file name.
pub const PDF_NAME_SUFFIX: &'static str = ".pdf";
/// Text before the file name in a download's `Content-Disposition`.
pub const DISPOSITION_PREFIX: &'static str = "attachment; filename=\"";
/// Text after the file name in a download's `Content-Disposition`.
pub const DISPOSITION_SUFFIX: &'static str = "\"";

/// A stored user, with the PHC hash of the password.
#[derive(Debug)]
pub struct UserRow {
    pub id: i64,
    pub username: String,
    pub password_hash: String,
}

/// What a client is told about a user.
#[derive(Debug)]
pub struct UserOut {
    pub id: i64,
    pub username: String,
}

/// The record that was looked up, or `404` with `message` when there is none.
pub fn found_or_not_found<T>(record: Option<T>, message: &str) -> (r: Result<T, ApiError>)
    ensures
        match record {
            Some(x) => r matches Ok(y) && y == x,
            None => r matches Err(e) && e.status == NOT_FOUND && e.message@ == message@,
        },
{
    match record {
        Some(x) => Ok(x),
        None => Err(ApiError::not_found(message)),
    }
}

/// Judges a login: the user with the given name (if any) and the password
/// offered. An unknown user and a wrong password are both refused with the
/// same `401`; otherwise the user's id and name are answered.
pub fn login_user(user: Option<UserRow>, password: &str) -> (r: Result<UserOut, ApiError>)
    ensures
        match user {
            Some(u) => if spec_argon2_verify(password.spec_bytes(), u.password_hash@) {
                r matches Ok(out) && out.id == u.id && out.username@ == u.username@
            } else {
                r matches Err(e) && e.status == UNAUTHORIZED && e.message@ == MSG_CREDENCIALES_INVALIDAS@
            },
            None => r matches Err(e) && e.status == UNAUTHORIZED && e.message@ == MSG_CREDENCIALES_INVALIDAS@,
        },
{
    match user {
        None => Err(ApiError::unauthorized(MSG_CREDENCIALES_INVALIDAS)),
        Some(u) => {
            if !verify_password(password, u.password_hash.as_str()) {
                return Err(ApiError::unauthorized(MSG_CREDENCIALES_INVALIDAS));
            }
            Ok(UserOut { id: u.id, username: u.username })
        },
    }
}

/// The signed-in user's own record: refused with `401` when the user of the
/// session no longer exists.
pub fn current_user(user: Option<UserRow>) -> (r: Result<UserOut, ApiError>)
    ensures
        match user {
            Some(u) => r matches Ok(out) && out.id == u.id && out.username@ == u.username@,
            None => r matches Err(e) && e.status == UNAUTHORIZED && e.message@ == MSG_NO_AUTENTICADO@,
        },
{
    match user {
        None => Err(ApiError::unauthorized(MSG_NO_AUTENTICADO)),
        Some(u) => Ok(UserOut { id: u.id, username: u.username }),
    }
}

/// The file name of a delivery note's PDF: `remito-` and the number on six
/// digits, then `.pdf`.
pub open spec fn spec_pdf_filename(id: int) -> Seq<char> {
    PDF_NAME_PREFIX@ + zero_padded(id, 6) + PDF_NAME_SUFFIX@
}

/// `format!("remito-{:06}.pdf", id)`.
pub fn pdf_filename(id: i64) -> (name: String)
    ensures
        name@ == spec_pdf_filename(id as int),
{
    let mut name = String::from_str(PDF_NAME_PREFIX);
    push_zero_padded(&mut name, id, 6);
    name.append(PDF_NAME_SUFFIX);
    name
}

/// `format!("attachment; filename=\"{}\"", filename)`.
pub fn content_disposition(filename: &str) -> (value: String)
    ensures
        value@ == DISPOSITION_PREFIX@ + filename@ + DISPOSITION_SUFFIX@,
{
    let mut value = String::from_str(DISPOSITION_PREFIX);
    value.append(filename);
    value.append(DISPOSITION_SUFFIX);
    value
}

/// The file name of note `id` is `remito-`, the number, `.pdf`. For a
/// number below a million the number part is exactly six digits whose value
/// is `id` (leading zeros fill it); from a million on it is the number's
/// decimal digits, unpadded.
pub proof fn lemma_pdf_filename_number(id: int)
    requires
        id >= 0,
    ensures
        id < 1_000_000 ==> exists|number: Seq<char>| {
            &&& #[trigger] spec_pdf_filename(id) == PDF_NAME_PREFIX@ + number + PDF_NAME_SUFFIX@
            &&& number.len() == 6
            &&& forall|k: int| 0 <= k < 6 ==> is_ascii_digit(#[trigger] number[k])
            &&& digits_value(number) == id
        },
        id >= 1_000_000 ==> spec_pdf_filename(id) == PDF_NAME_PREFIX@ + digits(id as nat) + PDF_NAME_SUFFIX@,
{
    assert(pow10(6) == 1_000_000) by { reveal_with_fuel(pow10, 7); }
    lemma_zero_padded_reads_back(id, 6);
    if id < 1_000_000 {
        lemma_digits_len(id as nat, 6);
        let number = zero_padded(id, 6);
        assert(spec_pdf_filename(id) == PDF_NAME_PREFIX@ + number + PDF_NAME_SUFFIX@);
    } else {
        lemma_digits_len_lower(id as nat, 6);
    }
}

} // verus!
