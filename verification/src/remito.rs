//! Building a delivery note from a request, one requested line at a time.
//!
//! A request names products and quantities. The note is refused when it has
//! no lines, when a quantity is not positive (checked before the product is
//! looked up) and when a product does not exist; the first such problem, in
//! the order of the lines, is the answer. Each accepted line copies the
//! product's name and price and carries `price * quantity` as its subtotal;
//! the note's total is the sum of the subtotals.
use vstd::prelude::*;
use crate::error::{ApiError, BAD_REQUEST};
use crate::models::{Producto, RemitoInput, RemitoItemInput};
use crate::text::{decimal_int, push_int};

verus! {

/// Message for a request without lines.
pub const MSG_REMITO_VACIO: &'static str = "el remito debe tener al menos un producto";
/// Message for a line whose quantity is not positive.
pub const MSG_CANTIDAD_INVALIDA: &'static str = "cantidad invalida";
/// Text before the product id in the message for an unknown product.
pub const MSG_PRODUCTO_PREFIJO: &'static str = "producto ";
/// Text after the product id in the message for an unknown product.
pub const MSG_PRODUCTO_SUFIJO: &'static str = " no encontrado";

/// The message for an unknown product: `format!("producto {} no encontrado", id)`.
pub open spec fn producto_no_encontrado(id: int) -> Seq<char> {
    MSG_PRODUCTO_PREFIJO@ + decimal_int(id) + MSG_PRODUCTO_SUFIJO@
}

/// An accepted line of a note being built.
#[derive(Debug)]
pub struct LineaRemito {
    pub nombre: String,
    pub producto_id: i64,
    pub precio_centavos: i64,
    pub cantidad: i64,
    pub subtotal_centavos: i64,
}

/// The sum of the subtotals of `lines`.
pub open spec fn sum_subtotals(lines: Seq<LineaRemito>) -> int
    decreases lines.len(),
{
    if lines.len() == 0 {
        0
    } else {
        sum_subtotals(lines.drop_last()) + lines.last().subtotal_centavos
    }
}

/// A note being built: the request, the lines accepted so far (one for each
/// of the first requested lines, in order), and their total.
#[derive(Debug)]
pub struct RemitoDraft {
    pub cliente_id: i64,
    pub items: Vec<RemitoItemInput>,
    pub lines: Vec<LineaRemito>,
    pub total_centavos: i64,
}

/// What building a note needs next.
#[derive(Debug)]
pub enum DraftStep {
    /// Look up the product with this id and hand it to `add_producto`.
    LookupProducto(i64),
    /// The request is refused with this error.
    Reject(ApiError),
    /// Every requested line has been accepted.
    Complete,
}

impl RemitoDraft {
    /// The note is well formed: accepted line `i` is requested line `i`,
    /// with a positive quantity, its subtotal is price times quantity, and
    /// the total is the sum of the subtotals.
    pub open spec fn wf(&self) -> bool {
        &&& self.items@.len() > 0
        &&& self.lines@.len() <= self.items@.len()
        &&& forall|i: int| 0 <= i < self.lines@.len() ==> {
            &&& (#[trigger] self.lines@[i]).producto_id == self.items@[i].producto_id
            &&& self.lines@[i].cantidad == self.items@[i].cantidad
            &&& self.lines@[i].cantidad > 0
            &&& self.lines@[i].subtotal_centavos == self.lines@[i].precio_centavos * self.lines@[i].cantidad
        }
        &&& self.total_centavos == sum_subtotals(self.lines@)
    }

    /// The requested line that comes next.
    pub open spec fn pending(&self) -> RemitoItemInput {
        self.items@[self.lines@.len() as int]
    }

    /// Every requested line has been accepted.
    pub open spec fn is_complete(&self) -> bool {
        self.lines@.len() == self.items@.len()
    }

    /// The next line, priced from `p`, fits in `i64`, and so does the new total.
    pub open spec fn spec_fits(&self, p: Producto) -> bool {
        let sub = p.precio_centavos * self.pending().cantidad;
        &&& i64::MIN <= sub <= i64::MAX
        &&& i64::MIN <= self.total_centavos + sub <= i64::MAX
    }

    /// Starts a note for `input`; refused with `400` when it has no lines.
    pub fn begin(input: RemitoInput) -> (r: Result<RemitoDraft, ApiError>)
        ensures
            input.items@.len() == 0 <==> r is Err,
            r matches Err(e) ==> e.status == BAD_REQUEST && e.message@ == MSG_REMITO_VACIO@,
            r matches Ok(d) ==> {
                &&& d.wf()
                &&& d.cliente_id == input.cliente_id
                &&& d.items@ == input.items@
                &&& d.lines@.len() == 0
                &&& d.total_centavos == 0
            },
    {
        if input.items.len() == 0 {
            return Err(ApiError::bad_request(MSG_REMITO_VACIO));
        }
        let d = RemitoDraft {
            cliente_id: input.cliente_id,
            items: input.items,
            lines: Vec::new(),
            total_centavos: 0,
        };
        proof {
            assert(sum_subtotals(d.lines@) == 0);
        }
        Ok(d)
    }

    /// What comes next: done when every line is accepted; otherwise the next
    /// line is refused with `400` if its quantity is not positive, and else
    /// its product is to be looked up.
    pub fn step(&self) -> (s: DraftStep)
        requires
            self.wf(),
        ensures
            self.is_complete() <==> s is Complete,
            s matches DraftStep::Reject(e) ==> {
                &&& !self.is_complete()
                &&& self.pending().cantidad <= 0
                &&& e.status == BAD_REQUEST
                &&& e.message@ == MSG_CANTIDAD_INVALIDA@
            },
            s matches DraftStep::LookupProducto(id) ==> {
                &&& !self.is_complete()
                &&& self.pending().cantidad > 0
                &&& id == self.pending().producto_id
            },
            !self.is_complete() ==> (self.pending().cantidad <= 0 <==> s is Reject),
    {
        let k = self.lines.len();
        if k == self.items.len() {
            DraftStep::Complete
        } else if self.items[k].cantidad <= 0 {
            DraftStep::Reject(ApiError::bad_request(MSG_CANTIDAD_INVALIDA))
        } else {
            DraftStep::LookupProducto(self.items[k].producto_id)
        }
    }

    /// Whether the next line priced from `p` and the new total fit in `i64`.
    pub fn fits(&self, p: &Producto) -> (b: bool)
        requires
            self.wf(),
            !self.is_complete(),
        ensures
            b == self.spec_fits(*p),
    {
        let k = self.lines.len();
        let a = p.precio_centavos;
        let q = self.items[k].cantidad;
        assert(-0x4000_0000_0000_0000_0000_0000_0000_0000 <= (a as int) * (q as int) <= 0x4000_0000_0000_0000_0000_0000_0000_0000)
            by (nonlinear_arith)
            requires
                i64::MIN <= a <= i64::MAX,
                i64::MIN <= q <= i64::MAX,
        ;
        let sub: i128 = (p.precio_centavos as i128) * (self.items[k].cantidad as i128);
        let total: i128 = (self.total_centavos as i128) + sub;
        (i64::MIN as i128) <= sub && sub <= (i64::MAX as i128)
            && (i64::MIN as i128) <= total && total <= (i64::MAX as i128)
    }

    /// Accepts the next line with the product that was looked up for it
    /// (the product with the requested id, if there is one).
    /// Without a product the request is refused with `400` and a message
    /// naming the requested product id, and the note is unchanged. With a
    /// product, a line copying its id, name and price, with the requested
    /// quantity and their product as subtotal, is appended and added to the
    /// total.
    pub fn add_producto(&mut self, producto: Option<Producto>) -> (r: Result<(), ApiError>)
        requires
            old(self).wf(),
            !old(self).is_complete(),
            old(self).pending().cantidad > 0,
            producto matches Some(p) ==> p.id == old(self).pending().producto_id,
            producto matches Some(p) ==> old(self).spec_fits(p),
        ensures
            final(self).wf(),
            producto is None <==> r is Err,
            r matches Err(e) ==> {
                &&& e.status == BAD_REQUEST
                &&& e.message@ == producto_no_encontrado(old(self).pending().producto_id as int)
                &&& *final(self) == *old(self)
            },
            producto matches Some(p) ==> {
                let line = final(self).lines@.last();
                &&& final(self).cliente_id == old(self).cliente_id
                &&& final(self).items@ == old(self).items@
                &&& final(self).lines@.drop_last() == old(self).lines@
                &&& final(self).lines@.len() == old(self).lines@.len() + 1
                &&& line.nombre@ == p.nombre@
                &&& line.producto_id == p.id
                &&& line.precio_centavos == p.precio_centavos
                &&& line.cantidad == old(self).pending().cantidad
                &&& line.subtotal_centavos == p.precio_centavos * old(self).pending().cantidad
                &&& final(self).total_centavos == old(self).total_centavos + line.subtotal_centavos
            },
    {
        let k = self.lines.len();
        let cantidad = self.items[k].cantidad;
        match producto {
            None => {
                let mut msg = String::from_str(MSG_PRODUCTO_PREFIJO);
                push_int(&mut msg, self.items[k].producto_id);
                msg.append(MSG_PRODUCTO_SUFIJO);
                Err(ApiError { status: BAD_REQUEST, message: msg })
            },
            Some(p) => {
                let subtotal = p.precio_centavos * cantidad;
                let line = LineaRemito {
                    nombre: p.nombre,
                    producto_id: p.id,
                    precio_centavos: p.precio_centavos,
                    cantidad,
                    subtotal_centavos: subtotal,
                };
                let ghost old_lines = self.lines@;
                self.lines.push(line);
                self.total_centavos = self.total_centavos + subtotal;
                proof {
                    assert(self.lines@.drop_last() =~= old_lines);
                }
                Ok(())
            },
        }
    }
}

/// Whether a line fits depends on nothing of the product but its price:
/// two products with the same price fit alike, whatever their stock, name
/// or dates. A product with price zero always fits, and so does any product
/// whose line and new total stay within `i64`.
pub proof fn lemma_fits_only_overflow(d: RemitoDraft, p: Producto, other: Producto)
    requires
        d.wf(),
        !d.is_complete(),
    ensures
        p.precio_centavos == other.precio_centavos ==> (d.spec_fits(p) <==> d.spec_fits(other)),
        p.precio_centavos == 0 ==> d.spec_fits(p),
        ({
            let sub = p.precio_centavos * d.pending().cantidad;
            i64::MIN <= sub <= i64::MAX && i64::MIN <= d.total_centavos + sub <= i64::MAX
        }) ==> d.spec_fits(p),
        d.spec_fits(p) ==> i64::MIN <= p.precio_centavos * d.pending().cantidad <= i64::MAX,
{
    if p.precio_centavos == 0 {
        assert(p.precio_centavos * d.pending().cantidad == 0);
    }
}

} // verus!
