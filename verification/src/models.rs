//! The records the backend stores and exchanges: customers, the issuing
//! company, products and delivery notes with their lines.
use vstd::prelude::*;

verus! {

/// A customer.
#[derive(Debug)]
pub struct Cliente {
    pub id: i64,
    pub nombre: String,
    pub direccion: String,
    pub cuit_dni: String,
    pub telefono: String,
    pub created_at: String,
    pub updated_at: String,
}

/// The editable fields of a customer.
#[derive(Debug)]
pub struct ClienteInput {
    pub nombre: String,
    pub direccion: String,
    pub cuit_dni: String,
    pub telefono: String,
}

/// The company that issues the delivery notes.
#[derive(Debug)]
pub struct Empresa {
    pub id: i64,
    pub nombre: String,
    pub direccion: String,
    pub cuit: String,
    pub telefono: String,
    pub updated_at: String,
}

/// The editable fields of the company.
#[derive(Debug)]
pub struct EmpresaInput {
    pub nombre: String,
    pub direccion: String,
    pub cuit: String,
    pub telefono: String,
}

/// A product, priced in cents, with an optional stock count.
#[derive(Debug)]
pub struct Producto {
    pub id: i64,
    pub nombre: String,
    pub precio_centavos: i64,
    pub stock: Option<i64>,
    pub created_at: String,
    pub updated_at: String,
}

/// The editable fields of a product.
#[derive(Debug)]
pub struct ProductoInput {
    pub nombre: String,
    pub precio_centavos: i64,
    pub stock: Option<i64>,
}

/// The header of a delivery note.
#[derive(Debug)]
pub struct Remito {
    pub id: i64,
    pub cliente_id: i64,
    pub fecha: String,
    pub total_centavos: i64,
    pub created_at: String,
}

/// One line of a delivery note, with the product's name and price copied
/// at the time the note was made.
#[derive(Debug)]
pub struct RemitoItem {
    pub id: i64,
    pub remito_id: i64,
    pub producto_id: Option<i64>,
    pub nombre_producto: String,
    pub precio_unitario_centavos: i64,
    pub cantidad: i64,
    pub subtotal_centavos: i64,
}

/// A requested line: which product and how many.
#[derive(Debug)]
pub struct RemitoItemInput {
    pub producto_id: i64,
    pub cantidad: i64,
}

/// A request for a new delivery note.
#[derive(Debug)]
pub struct RemitoInput {
    pub cliente_id: i64,
    pub items: Vec<RemitoItemInput>,
}

/// A delivery note together with all of its lines.
#[derive(Debug)]
pub struct RemitoCompleto {
    pub remito: Remito,
    pub items: Vec<RemitoItem>,
}

} // verus!
