use remitos::auth::{
    authenticate, clear_cookie, create_token, create_token_at, hash_password, hash_password_with_salt,
    session_cookie, session_token, token_claims, user_from_decoded, verify_password, TOKEN_TTL_SECS,
};

const SECRET: &str = "una-clave-de-prueba";

#[test]
fn session_cookie_header_line() {
    let c = session_cookie("abc.def.ghi".to_string());
    assert_eq!(c.header_value(), "session=abc.def.ghi; HttpOnly; Path=/; Max-Age=604800");
}

#[test]
fn clear_cookie_header_line() {
    assert_eq!(clear_cookie().header_value(), "session=; HttpOnly; Path=/; Max-Age=0");
}

#[test]
fn session_token_finds_the_session_cookie() {
    assert_eq!(session_token("session=tok").as_deref(), Some("tok"));
    assert_eq!(session_token("foo=bar; session=tok; x=y").as_deref(), Some("tok"));
    assert_eq!(session_token("  session =  tok  ;other=1").as_deref(), Some("tok"));
    assert_eq!(session_token("session=a=b").as_deref(), Some("a=b"));
    assert_eq!(session_token("session=first; session=second").as_deref(), Some("first"));
    assert_eq!(session_token("sessionx=1;session=").as_deref(), Some(""));
}

#[test]
fn session_token_absent() {
    assert_eq!(session_token(""), None);
    assert_eq!(session_token("foo=bar"), None);
    assert_eq!(session_token("session"), None);
    assert_eq!(session_token(";;=session"), None);
    assert_eq!(session_token("Session=tok"), None);
}

#[test]
fn password_hash_verifies() {
    let h = hash_password("correcta").expect("hashing");
    assert!(h.starts_with("$argon2id$v=19$"));
    assert!(verify_password("correcta", &h));
    assert!(!verify_password("incorrecta", &h));
}

#[test]
fn password_hash_with_salt_is_deterministic() {
    let a = hash_password_with_salt("pw", "c2FsdHNhbHRzYWx0").unwrap();
    let b = hash_password_with_salt("pw", "c2FsdHNhbHRzYWx0").unwrap();
    assert_eq!(a, b);
    assert!(a.contains("$c2FsdHNhbHRzYWx0$"));
    assert!(verify_password("pw", &a));
    assert!(hash_password_with_salt("pw", "no salt!").is_err());
}

#[test]
fn verify_password_rejects_garbage_hash() {
    assert!(!verify_password("x", "not a hash"));
    assert!(!verify_password("x", ""));
}

#[test]
fn token_claims_expire_after_a_week() {
    let c = token_claims(7, 1_000);
    assert_eq!((c.sub, c.exp), (7, 1_000 + 604_800));
    assert_eq!(TOKEN_TTL_SECS, 60 * 60 * 24 * 7);
}

#[test]
fn token_at_fixed_time_is_deterministic() {
    let a = create_token_at(7, 1_700_000_000, SECRET).unwrap();
    let b = create_token_at(7, 1_700_000_000, SECRET).unwrap();
    assert_eq!(a, b);
    assert_eq!(a.split('.').count(), 3);
    assert_ne!(a, create_token_at(8, 1_700_000_000, SECRET).unwrap());
}

#[test]
fn created_token_authenticates() {
    let token = create_token(42, SECRET).unwrap();
    let header = format!("theme=dark; session={}", token);
    let user = authenticate(&header, SECRET).unwrap();
    assert_eq!(user.user_id, 42);
}

#[test]
fn authenticate_without_cookie() {
    let e = authenticate("theme=dark", SECRET).unwrap_err();
    assert_eq!((e.status, e.message.as_str()), (401, "no autenticado"));
}

#[test]
fn authenticate_with_bad_token() {
    let token = create_token(42, SECRET).unwrap();
    let e = authenticate(&format!("session={}", token), "otra-clave").unwrap_err();
    assert_eq!((e.status, e.message.as_str()), (401, "sesion invalida"));
    let e = authenticate("session=basura", SECRET).unwrap_err();
    assert_eq!((e.status, e.message.as_str()), (401, "sesion invalida"));
}

#[test]
fn authenticate_with_expired_token() {
    let token = create_token_at(42, 1_000_000, SECRET).unwrap();
    let e = authenticate(&format!("session={}", token), SECRET).unwrap_err();
    assert_eq!((e.status, e.message.as_str()), (401, "sesion invalida"));
}

#[test]
fn user_from_decoded_needs_both_claims() {
    assert_eq!(user_from_decoded(Ok((Some(3), Some(9)))).unwrap().user_id, 3);
    assert_eq!(user_from_decoded(Ok((None, Some(9)))).unwrap_err().status, 401);
    assert_eq!(user_from_decoded(Ok((Some(3), None))).unwrap_err().status, 401);
    assert_eq!(user_from_decoded(Err(())).unwrap_err().message, "sesion invalida");
}

#[test]
fn login_token_round_trip_names_the_user() {
    let token = create_token(77, SECRET).unwrap();
    assert!(token.chars().all(|c| c.is_ascii_alphanumeric() || c == '-' || c == '_' || c == '.'));
    let cookie = session_cookie(token.clone());
    let sent_back = format!("{}={}", cookie.name, cookie.value);
    assert_eq!(session_token(&sent_back).as_deref(), Some(token.as_str()));
    assert_eq!(authenticate(&sent_back, SECRET).unwrap().user_id, 77);
}

#[test]
fn password_hash_phc_form() {
    let h = hash_password_with_salt("pw", "c2FsdHNhbHRzYWx0").unwrap();
    assert!(h.starts_with("$argon2id$v=19$m=19456,t=2,p=1$c2FsdHNhbHRzYWx0$"));
    assert!(h.len() > "$argon2id$v=19$m=19456,t=2,p=1$c2FsdHNhbHRzYWx0$".len());
    let fresh = hash_password("pw").unwrap();
    assert!(fresh.starts_with("$argon2id$v=19$m=19456,t=2,p=1$"));
    assert_ne!(fresh, hash_password("pw").unwrap());
}

#[test]
fn verify_password_refuses_unparseable_hash() {
    let h = hash_password("pw").unwrap();
    assert!(!verify_password("pw", &h[1..]));
    assert!(!verify_password("pw", ""));
}
