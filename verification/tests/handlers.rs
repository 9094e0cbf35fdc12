use remitos::api::{current_user, found_or_not_found, login_user, UserRow, MSG_CLIENTE_NO_ENCONTRADO};
use remitos::auth::hash_password;
use remitos::error::ApiError;
use remitos::models::{Producto, RemitoInput, RemitoItemInput};
use remitos::remito::{DraftStep, RemitoDraft};

fn producto(id: i64, nombre: &str, precio: i64) -> Producto {
    Producto {
        id,
        nombre: nombre.to_string(),
        precio_centavos: precio,
        stock: None,
        created_at: String::new(),
        updated_at: String::new(),
    }
}

fn input(items: &[(i64, i64)]) -> RemitoInput {
    RemitoInput {
        cliente_id: 9,
        items: items
            .iter()
            .map(|&(producto_id, cantidad)| RemitoItemInput { producto_id, cantidad })
            .collect(),
    }
}

#[test]
fn empty_remito_is_refused() {
    let e = RemitoDraft::begin(input(&[])).unwrap_err();
    assert_eq!((e.status, e.message.as_str()), (400, "el remito debe tener al menos un producto"));
}

#[test]
fn remito_lines_and_total() {
    let mut d = RemitoDraft::begin(input(&[(1, 2), (2, 3)])).unwrap();
    match d.step() {
        DraftStep::LookupProducto(id) => assert_eq!(id, 1),
        other => panic!("unexpected {:?}", other),
    }
    let p = producto(1, "Yerba", 1500);
    assert!(d.fits(&p));
    d.add_producto(Some(p)).unwrap();
    match d.step() {
        DraftStep::LookupProducto(id) => assert_eq!(id, 2),
        other => panic!("unexpected {:?}", other),
    }
    d.add_producto(Some(producto(2, "Azucar", 99))).unwrap();
    assert!(matches!(d.step(), DraftStep::Complete));
    assert_eq!(d.cliente_id, 9);
    assert_eq!(d.total_centavos, 1500 * 2 + 99 * 3);
    assert_eq!(d.lines.len(), 2);
    assert_eq!(d.lines[0].nombre, "Yerba");
    assert_eq!((d.lines[0].producto_id, d.lines[0].precio_centavos, d.lines[0].cantidad), (1, 1500, 2));
    assert_eq!(d.lines[0].subtotal_centavos, 3000);
    assert_eq!(d.lines[1].subtotal_centavos, 297);
}

#[test]
fn non_positive_quantity_is_refused_before_lookup() {
    let mut d = RemitoDraft::begin(input(&[(1, 1), (2, 0)])).unwrap();
    d.add_producto(Some(producto(1, "Yerba", 10))).unwrap();
    match d.step() {
        DraftStep::Reject(e) => assert_eq!((e.status, e.message.as_str()), (400, "cantidad invalida")),
        other => panic!("unexpected {:?}", other),
    }
    let d = RemitoDraft::begin(input(&[(1, -4)])).unwrap();
    assert!(matches!(d.step(), DraftStep::Reject(_)));
}

#[test]
fn unknown_product_is_refused() {
    let mut d = RemitoDraft::begin(input(&[(7, 1)])).unwrap();
    let e = d.add_producto(None).unwrap_err();
    assert_eq!((e.status, e.message.as_str()), (400, "producto 7 no encontrado"));
    assert_eq!(d.lines.len(), 0);
    assert_eq!(d.total_centavos, 0);
    let mut d = RemitoDraft::begin(input(&[(-3, 1)])).unwrap();
    assert_eq!(d.add_producto(None).unwrap_err().message, "producto -3 no encontrado");
}

#[test]
fn overflowing_line_does_not_fit() {
    let d = RemitoDraft::begin(input(&[(1, 3)])).unwrap();
    assert!(!d.fits(&producto(1, "caro", i64::MAX / 2)));
    assert!(d.fits(&producto(1, "barato", i64::MAX / 3)));
    assert!(d.fits(&producto(1, "negativo", -5)));
}

#[test]
fn found_or_not_found_answers_404() {
    assert_eq!(found_or_not_found(Some(5), MSG_CLIENTE_NO_ENCONTRADO).unwrap(), 5);
    let e: ApiError = found_or_not_found::<i32>(None, MSG_CLIENTE_NO_ENCONTRADO).unwrap_err();
    assert_eq!((e.status, e.message.as_str()), (404, "cliente no encontrado"));
}

#[test]
fn login_checks_the_password() {
    let hash = hash_password("secreto").unwrap();
    let row = || UserRow { id: 4, username: "ana".to_string(), password_hash: hash.clone() };
    let ok = login_user(Some(row()), "secreto").unwrap();
    assert_eq!((ok.id, ok.username.as_str()), (4, "ana"));
    let e = login_user(Some(row()), "otro").unwrap_err();
    assert_eq!((e.status, e.message.as_str()), (401, "usuario o contrasena invalidos"));
    let e = login_user(None, "secreto").unwrap_err();
    assert_eq!((e.status, e.message.as_str()), (401, "usuario o contrasena invalidos"));
}

#[test]
fn current_user_requires_existing_user() {
    let u = current_user(Some(UserRow { id: 1, username: "x".to_string(), password_hash: String::new() })).unwrap();
    assert_eq!((u.id, u.username.as_str()), (1, "x"));
    let e = current_user(None).unwrap_err();
    assert_eq!((e.status, e.message.as_str()), (401, "no autenticado"));
}
