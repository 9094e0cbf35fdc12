//! The printable delivery note: money formatting, the HTML page it is laid
//! out from, and the PDF rendered from that page.
use vstd::prelude::*;
use crate::models::{Cliente, Empresa, RemitoCompleto, RemitoItem};
use crate::bindings::{pdf_end, pdf_from_html, pdf_magic, pdf_save, spec_pdf_laid_out};
use crate::server::{digits_value, is_ascii_digit, lemma_digits_read_back, lemma_digits_value_concat};
use crate::text::{digits, pow10, zeros, decimal_int, magnitude, push_int, push_zero_padded, zero_padded};

verus! {

// The fixed text of one table row, between its four fields
// (product name, quantity, unit price, subtotal).
pub const ROW_0: &'static str = "<tr>\n                <td class=\"cell\">";
pub const ROW_1: &'static str = "</td>\n                <td class=\"cell right\">";
pub const ROW_2: &'static str = "</td>\n                <td class=\"cell right\">$";
pub const ROW_3: &'static str = "</td>\n                <td class=\"cell right\">$";
pub const ROW_4: &'static str = "</td>\n            </tr>";

// The fixed text of the page, between its twelve fields (note number, date,
// four company fields, four customer fields, the rows, the total).
pub const PAGE_0: &'static str = "<html>\n<head>\n<style>\n    body { font-family: Helvetica, Arial, sans-serif; font-size: 12px; color: #222; padding: 24px; }\n    .header { font-size: 22px; font-weight: bold; margin-bottom: 4px; }\n    .subheader { font-size: 13px; color: #555; margin-bottom: 20px; }\n    .info-flex { display: flex; justify-content: space-between; margin-bottom: 20px; }\n    .info-col { width: 46%; }\n    .left-col { border-right: 1px solid #999999; padding-right: 16px; }\n    .section-title { font-weight: bold; font-size: 13px; margin-bottom: 6px; }\n    .info-row { margin-bottom: 3px; }\n    .label { font-weight: bold; }\n    table { width: 100%; border-collapse: collapse; margin-top: 10px; }\n    .cell { border: 1px solid #ccc; padding: 6px; font-size: 12px; }\n    .head-cell { border: 1px solid #ccc; padding: 6px; font-size: 12px; font-weight: bold; background-color: #eeeeee; }\n    .right { text-align: right; }\n    .total-row { font-weight: bold; font-size: 14px; margin-top: 14px; text-align: right; }\n</style>\n</head>\n<body>\n    <div class=\"header\">Remito N° ";
pub const PAGE_1: &'static str = "</div>\n    <div class=\"subheader\">Fecha: ";
pub const PAGE_2: &'static str = "</div>\n\n    <div class=\"info-flex\">\n        <div class=\"info-col left-col\">\n            <div class=\"section-title\">Datos de la empresa</div>\n            <div class=\"info-row\"><span class=\"label\">Nombre:</span> ";
pub const PAGE_3: &'static str = "</div>\n            <div class=\"info-row\"><span class=\"label\">Direccion:</span> ";
pub const PAGE_4: &'static str = "</div>\n            <div class=\"info-row\"><span class=\"label\">CUIT:</span> ";
pub const PAGE_5: &'static str = "</div>\n            <div class=\"info-row\"><span class=\"label\">Telefono:</span> ";
pub const PAGE_6: &'static str = "</div>\n        </div>\n        <div class=\"info-col\">\n            <div class=\"section-title\">Datos del cliente</div>\n            <div class=\"info-row\"><span class=\"label\">Nombre:</span> ";
pub const PAGE_7: &'static str = "</div>\n            <div class=\"info-row\"><span class=\"label\">Direccion:</span> ";
pub const PAGE_8: &'static str = "</div>\n            <div class=\"info-row\"><span class=\"label\">CUIT/DNI:</span> ";
pub const PAGE_9: &'static str = "</div>\n            <div class=\"info-row\"><span class=\"label\">Telefono:</span> ";
pub const PAGE_10: &'static str = "</div>\n        </div>\n    </div>\n\n    <table>\n        <tr>\n            <td class=\"head-cell\">Producto</td>\n            <td class=\"head-cell right\">Cantidad</td>\n            <td class=\"head-cell right\">Precio unit.</td>\n            <td class=\"head-cell right\">Subtotal</td>\n        </tr>\n        ";
pub const PAGE_11: &'static str = "\n    </table>\n\n    <div class=\"total-row\">Total: $";
pub const PAGE_12: &'static str = "</div>\n</body>\n</html>";

/// The quotient of `a` by `b > 0`, rounded toward zero (Rust's `/`).
pub open spec fn trunc_quot(a: int, b: int) -> int {
    if a >= 0 { a / b } else { -((-a) / b) }
}

/// The remainder that goes with `trunc_quot` (Rust's `%`).
pub open spec fn trunc_rem(a: int, b: int) -> int {
    a - b * trunc_quot(a, b)
}

/// The absolute value of `x`.
pub open spec fn abs(x: int) -> int {
    if x < 0 { -x } else { x }
}

/// An amount of cents as text: the whole units (`centavos / 100`), a point,
/// and the absolute value of `centavos % 100` on two digits.
pub open spec fn centavos_text(c: int) -> Seq<char> {
    decimal_int(trunc_quot(c, 100)) + seq!['.'] + zero_padded(abs(trunc_rem(c, 100)), 2)
}

fn push_centavos(out: &mut String, c: i64)
    ensures
        final(out)@ == old(out)@ + centavos_text(c as int),
{
    let whole: u64 = magnitude(c) / 100;
    let q: i64 = if c >= 0 { whole as i64 } else { -(whole as i64) };
    let r: i64 = c - 100 * q;
    assert(q == trunc_quot(c as int, 100));
    push_int(out, q);
    proof { reveal_strlit("."); }
    out.append(".");
    let ar: i64 = if r < 0 { -r } else { r };
    push_zero_padded(out, ar, 2);
    proof {
        assert(old(out)@ + centavos_text(c as int) =~=
            old(out)@ + decimal_int(q as int) + seq!['.'] + zero_padded(ar as int, 2));
    }
}

/// `s` without any `c`.
pub open spec fn remove_char(s: Seq<char>, c: char) -> Seq<char>
    decreases s.len(),
{
    if s.len() == 0 {
        s
    } else {
        let r = remove_char(s.drop_last(), c);
        if s.last() == c { r } else { r.push(s.last()) }
    }
}

/// The integer that `str::parse::<i64>` reads from `s` when `s` is an
/// optional `-` followed by one or more ASCII digits (and the value fits).
pub open spec fn int_text_value(s: Seq<char>) -> Option<int> {
    if s.len() > 1 && s[0] == '-' && forall|k: int| 1 <= k < s.len() ==> is_ascii_digit(#[trigger] s[k]) {
        Some(-(digits_value(s.drop_first()) as int))
    } else if s.len() > 0 && forall|k: int| 0 <= k < s.len() ==> is_ascii_digit(#[trigger] s[k]) {
        Some(digits_value(s) as int)
    } else {
        None
    }
}

proof fn lemma_remove_char_concat(x: Seq<char>, y: Seq<char>, c: char)
    ensures
        remove_char(x + y, c) == remove_char(x, c) + remove_char(y, c),
    decreases y.len(),
{
    if y.len() == 0 {
        assert(x + y =~= x);
        assert(remove_char(x, c) + remove_char(y, c) =~= remove_char(x, c));
    } else {
        lemma_remove_char_concat(x, y.drop_last(), c);
        assert((x + y).drop_last() =~= x + y.drop_last());
        assert((x + y).last() == y.last());
        if y.last() != c {
            assert(remove_char(x, c) + remove_char(y, c) =~= (remove_char(x, c) + remove_char(y.drop_last(), c)).push(y.last()));
        }
    }
}

proof fn lemma_remove_char_absent(s: Seq<char>, c: char)
    requires
        forall|k: int| 0 <= k < s.len() ==> #[trigger] s[k] != c,
    ensures
        remove_char(s, c) == s,
    decreases s.len(),
{
    if s.len() > 0 {
        let p = s.drop_last();
        assert forall|k: int| 0 <= k < p.len() implies #[trigger] p[k] != c by {
            assert(p[k] == s[k]);
        }
        lemma_remove_char_absent(p, c);
        assert(s[s.len() - 1] != c);
        assert(p.push(s.last()) =~= s);
    }
}

/// `zero_padded(r, 2)` of `0 <= r < 100` is two digits whose value is `r`.
proof fn lemma_two_digits(r: int)
    requires
        0 <= r < 100,
    ensures
        zero_padded(r, 2).len() == 2,
        forall|k: int| 0 <= k < 2 ==> is_ascii_digit(#[trigger] zero_padded(r, 2)[k]),
        digits_value(zero_padded(r, 2)) == r,
{
    let t = zero_padded(r, 2);
    lemma_digits_read_back(r as nat);
    if r < 10 {
        assert(digits(r as nat).len() == 1);
        assert(t =~= zeros(1) + digits(r as nat));
        assert(t[0] == '0');
        assert(t[1] == digits(r as nat)[0]);
        lemma_digits_value_concat(zeros(1), digits(r as nat));
        assert(zeros(1).drop_last() =~= Seq::<char>::empty());
        assert(zeros(1).len() == 1);
        assert(zeros(1).last() == '0');
        assert(digits_value(Seq::<char>::empty()) == 0);
        assert(digits_value(zeros(1)) == digits_value(zeros(1).drop_last()) * 10 + 0);
        assert(digits_value(zeros(1)) == 0);
        assert(pow10(1) == 10) by { reveal_with_fuel(pow10, 2); }
    } else {
        assert(digits((r / 10) as nat).len() == 1);
        assert(digits(r as nat).len() == 2);
        assert(t =~= zeros(0) + digits(r as nat));
        assert(t =~= digits(r as nat));
    }
}

/// Removing the point from the text of an amount of cents and reading what
/// is left as an integer gives the amount back, for every amount but those
/// strictly between `-100` and `0` (there the text has no sign, as
/// `c / 100` is zero).
pub proof fn lemma_centavos_text_read_back(c: int)
    requires
        c >= 0 || c <= -100,
    ensures
        int_text_value(remove_char(centavos_text(c), '.')) == Some(c),
{
    let m: int = abs(c);
    let q: int = m / 100;
    let r: int = m % 100;
    assert(abs(trunc_rem(c, 100)) == r);
    let w = decimal_int(trunc_quot(c, 100));
    let f = zero_padded(r, 2);
    lemma_two_digits(r);
    lemma_digits_read_back(q as nat);
    let dq = digits(q as nat);
    assert forall|k: int| 0 <= k < w.len() implies #[trigger] w[k] != '.' by {
        if c < 0 {
            if k > 0 { assert(w[k] == dq[k - 1]); assert(is_ascii_digit(dq[k - 1])); }
        } else {
            assert(is_ascii_digit(dq[k]));
        }
    }
    assert forall|k: int| 0 <= k < f.len() implies #[trigger] f[k] != '.' by {
        assert(is_ascii_digit(f[k]));
    }
    lemma_remove_char_concat(w + seq!['.'], f, '.');
    lemma_remove_char_concat(w, seq!['.'], '.');
    lemma_remove_char_absent(w, '.');
    lemma_remove_char_absent(f, '.');
    assert(seq!['.'].drop_last() =~= Seq::<char>::empty());
    assert(seq!['.'].last() == '.');
    assert(remove_char(Seq::<char>::empty(), '.') =~= Seq::<char>::empty());
    assert(remove_char(seq!['.'], '.') =~= Seq::<char>::empty());
    assert(remove_char(centavos_text(c), '.') =~= w + f);
    lemma_digits_value_concat(dq, f);
    assert(pow10(2) == 100) by { reveal_with_fuel(pow10, 3); }
    assert(digits_value(dq + f) == q * 100 + r);
    assert(q * 100 + r == m);
    let t = w + f;
    if c >= 0 {
        assert(w =~= dq);
        assert forall|k: int| 0 <= k < t.len() implies is_ascii_digit(#[trigger] t[k]) by {
            if k < dq.len() { assert(t[k] == dq[k]); } else { assert(t[k] == f[k - dq.len()]); }
        }
        assert(t[0] == dq[0]);
    } else {
        assert(q >= 1);
        assert(w =~= seq!['-'] + dq);
        assert(t.drop_first() =~= dq + f);
        assert(t[0] == '-');
        assert forall|k: int| 1 <= k < t.len() implies is_ascii_digit(#[trigger] t[k]) by {
            if k - 1 < dq.len() { assert(t[k] == dq[k - 1]); } else { assert(t[k] == f[k - 1 - dq.len()]); }
        }
    }
}

/// Formats an amount of cents as `format!("{}.{:02}", c / 100, (c % 100).abs())` does.
pub fn format_centavos(centavos: i64) -> (s: String)
    ensures
        s@ == centavos_text(centavos as int),
{
    let mut s = String::new();
    push_centavos(&mut s, centavos);
    assert(s@ =~= centavos_text(centavos as int));
    s
}

/// The table row of one delivery-note line.
pub open spec fn row_html(item: RemitoItem) -> Seq<char> {
    ROW_0@ + item.nombre_producto@ + ROW_1@ + decimal_int(item.cantidad as int) + ROW_2@
        + centavos_text(item.precio_unitario_centavos as int) + ROW_3@
        + centavos_text(item.subtotal_centavos as int) + ROW_4@
}

/// The rows of all lines, in order.
pub open spec fn rows_html(items: Seq<RemitoItem>) -> Seq<char>
    decreases items.len(),
{
    if items.len() == 0 {
        seq![]
    } else {
        rows_html(items.drop_last()) + row_html(items.last())
    }
}

/// The whole page of a delivery note.
pub open spec fn remito_html(empresa: Empresa, cliente: Cliente, remito: RemitoCompleto) -> Seq<char> {
    PAGE_0@ + zero_padded(remito.remito.id as int, 6) + PAGE_1@ + remito.remito.fecha@
        + PAGE_2@ + empresa.nombre@ + PAGE_3@ + empresa.direccion@
        + PAGE_4@ + empresa.cuit@ + PAGE_5@ + empresa.telefono@
        + PAGE_6@ + cliente.nombre@ + PAGE_7@ + cliente.direccion@
        + PAGE_8@ + cliente.cuit_dni@ + PAGE_9@ + cliente.telefono@
        + PAGE_10@ + rows_html(remito.items@) + PAGE_11@
        + centavos_text(remito.remito.total_centavos as int) + PAGE_12@
}

fn push_row(out: &mut String, item: &RemitoItem)
    ensures
        final(out)@ == old(out)@ + row_html(*item),
{
    out.append(ROW_0);
    out.append(item.nombre_producto.as_str());
    out.append(ROW_1);
    push_int(out, item.cantidad);
    out.append(ROW_2);
    push_centavos(out, item.precio_unitario_centavos);
    out.append(ROW_3);
    push_centavos(out, item.subtotal_centavos);
    out.append(ROW_4);
    assert(out@ =~= old(out)@ + row_html(*item));
}

/// Lays out a delivery note as an HTML page: the note number on six digits,
/// its date, the company's and the customer's details, one table row per
/// line in order, and the total.
pub fn render_html(empresa: &Empresa, cliente: &Cliente, remito: &RemitoCompleto) -> (html: String)
    ensures
        html@ == remito_html(*empresa, *cliente, *remito),
{
    let mut rows = String::new();
    let n = remito.items.len();
    let mut i: usize = 0;
    while i < n
        invariant
            n == remito.items@.len(),
            i <= n,
            rows@ == rows_html(remito.items@.take(i as int)),
        decreases n - i,
    {
        push_row(&mut rows, &remito.items[i]);
        proof {
            assert(remito.items@.take(i + 1).drop_last() =~= remito.items@.take(i as int));
        }
        i = i + 1;
    }
    assert(remito.items@.take(n as int) =~= remito.items@);

    let mut html = String::new();
    html.append(PAGE_0);
    push_zero_padded(&mut html, remito.remito.id, 6);
    html.append(PAGE_1);
    html.append(remito.remito.fecha.as_str());
    html.append(PAGE_2);
    html.append(empresa.nombre.as_str());
    html.append(PAGE_3);
    html.append(empresa.direccion.as_str());
    html.append(PAGE_4);
    html.append(empresa.cuit.as_str());
    html.append(PAGE_5);
    html.append(empresa.telefono.as_str());
    html.append(PAGE_6);
    html.append(cliente.nombre.as_str());
    html.append(PAGE_7);
    html.append(cliente.direccion.as_str());
    html.append(PAGE_8);
    html.append(cliente.cuit_dni.as_str());
    html.append(PAGE_9);
    html.append(cliente.telefono.as_str());
    html.append(PAGE_10);
    html.append(rows.as_str());
    html.append(PAGE_11);
    push_centavos(&mut html, remito.remito.total_centavos);
    html.append(PAGE_12);
    assert(html@ =~= remito_html(*empresa, *cliente, *remito));
    html
}

/// Whether `part` occurs in `s`.
pub open spec fn contains(s: Seq<char>, part: Seq<char>) -> bool {
    exists|i: int| 0 <= i && i + part.len() <= s.len() && #[trigger] s.subrange(i, i + part.len()) == part
}

/// Text in the middle of a concatenation occurs in it.
pub proof fn lemma_contains_middle(x: Seq<char>, part: Seq<char>, y: Seq<char>)
    ensures
        contains(x + part + y, part),
{
    let s = x + part + y;
    assert(s.subrange(x.len() as int, (x.len() + part.len()) as int) =~= part);
}

/// The rows of lines `a` followed by lines `b` are the rows of `a` followed
/// by the rows of `b`.
pub proof fn lemma_rows_html_concat(a: Seq<RemitoItem>, b: Seq<RemitoItem>)
    ensures
        rows_html(a + b) == rows_html(a) + rows_html(b),
    decreases b.len(),
{
    if b.len() == 0 {
        assert(a + b =~= a);
        assert(rows_html(a) + rows_html(b) =~= rows_html(a));
    } else {
        lemma_rows_html_concat(a, b.drop_last());
        assert((a + b).drop_last() =~= a + b.drop_last());
        assert((a + b).last() == b.last());
    }
}

/// Text that occurs in `s` occurs in `s` followed by more text.
pub proof fn lemma_contains_extend(s: Seq<char>, t: Seq<char>, part: Seq<char>)
    requires
        contains(s, part),
    ensures
        contains(s + t, part),
{
    let i = choose|i: int| 0 <= i && i + part.len() <= s.len() && #[trigger] s.subrange(i, i + part.len()) == part;
    assert((s + t).subrange(i, i + part.len()) =~= s.subrange(i, i + part.len()));
}

/// Text at the end of `x + part` occurs in it.
pub proof fn lemma_contains_suffix(x: Seq<char>, part: Seq<char>)
    ensures
        contains(x + part, part),
{
    let s = x + part;
    assert(s.subrange(x.len() as int, (x.len() + part.len()) as int) =~= part);
}

/// The texts `ps`, one after another.
pub open spec fn concat_all(ps: Seq<Seq<char>>) -> Seq<char>
    decreases ps.len(),
{
    if ps.len() == 0 {
        Seq::<char>::empty()
    } else {
        concat_all(ps.drop_last()) + ps.last()
    }
}

/// Three neighbouring texts of `ps` occur, together, in `ps` put one after
/// another.
pub proof fn lemma_concat_all_contains(ps: Seq<Seq<char>>, i: int)
    requires
        0 <= i,
        i + 2 < ps.len(),
    ensures
        contains(concat_all(ps), ps[i] + ps[i + 1] + ps[i + 2]),
    decreases ps.len(),
{
    let part = ps[i] + ps[i + 1] + ps[i + 2];
    let d1 = ps.drop_last();
    if i + 3 == ps.len() {
        let d2 = d1.drop_last();
        let d3 = d2.drop_last();
        assert(d1.last() == ps[i + 1]);
        assert(d2.last() == ps[i]);
        let c = concat_all(d3);
        assert(concat_all(ps) == concat_all(d1) + ps[i + 2]);
        assert(concat_all(d1) == concat_all(d2) + ps[i + 1]);
        assert(concat_all(d2) == c + ps[i]);
        assert(concat_all(ps) =~= c + part);
        lemma_contains_suffix(c, part);
    } else {
        assert(d1[i] == ps[i] && d1[i + 1] == ps[i + 1] && d1[i + 2] == ps[i + 2]);
        lemma_concat_all_contains(d1, i);
        lemma_contains_extend(concat_all(d1), ps.last(), part);
    }
}

/// Each field of the page stands in its place: the note number (on six
/// digits) after "Remito N°", the date after "Fecha:", the company's name,
/// address, CUIT and phone under "Datos de la empresa" after their labels,
/// the customer's name, address, CUIT/DNI and phone under "Datos del
/// cliente" after theirs, the rows between the table head and its end, and
/// the total after "Total: $". Each is stated by the text on both sides of
/// it, which pins the field to its label.
pub proof fn lemma_page_fields(empresa: Empresa, cliente: Cliente, remito: RemitoCompleto)
    ensures
        contains(remito_html(empresa, cliente, remito), PAGE_0@ + zero_padded(remito.remito.id as int, 6) + PAGE_1@),
        contains(remito_html(empresa, cliente, remito), PAGE_1@ + remito.remito.fecha@ + PAGE_2@),
        contains(remito_html(empresa, cliente, remito), PAGE_2@ + empresa.nombre@ + PAGE_3@),
        contains(remito_html(empresa, cliente, remito), PAGE_3@ + empresa.direccion@ + PAGE_4@),
        contains(remito_html(empresa, cliente, remito), PAGE_4@ + empresa.cuit@ + PAGE_5@),
        contains(remito_html(empresa, cliente, remito), PAGE_5@ + empresa.telefono@ + PAGE_6@),
        contains(remito_html(empresa, cliente, remito), PAGE_6@ + cliente.nombre@ + PAGE_7@),
        contains(remito_html(empresa, cliente, remito), PAGE_7@ + cliente.direccion@ + PAGE_8@),
        contains(remito_html(empresa, cliente, remito), PAGE_8@ + cliente.cuit_dni@ + PAGE_9@),
        contains(remito_html(empresa, cliente, remito), PAGE_9@ + cliente.telefono@ + PAGE_10@),
        contains(remito_html(empresa, cliente, remito), PAGE_10@ + rows_html(remito.items@) + PAGE_11@),
        contains(remito_html(empresa, cliente, remito), PAGE_11@ + centavos_text(remito.remito.total_centavos as int) + PAGE_12@),
{
    let ps = seq![PAGE_0@, zero_padded(remito.remito.id as int, 6), PAGE_1@, remito.remito.fecha@, PAGE_2@, empresa.nombre@, PAGE_3@, empresa.direccion@, PAGE_4@, empresa.cuit@, PAGE_5@, empresa.telefono@, PAGE_6@, cliente.nombre@, PAGE_7@, cliente.direccion@, PAGE_8@, cliente.cuit_dni@, PAGE_9@, cliente.telefono@, PAGE_10@, rows_html(remito.items@), PAGE_11@, centavos_text(remito.remito.total_centavos as int), PAGE_12@];
    assert(concat_all(ps) == remito_html(empresa, cliente, remito)) by {
        reveal_with_fuel(concat_all, 26);
        assert(ps.drop_last() =~= seq![PAGE_0@, zero_padded(remito.remito.id as int, 6), PAGE_1@, remito.remito.fecha@, PAGE_2@, empresa.nombre@, PAGE_3@, empresa.direccion@, PAGE_4@, empresa.cuit@, PAGE_5@, empresa.telefono@, PAGE_6@, cliente.nombre@, PAGE_7@, cliente.direccion@, PAGE_8@, cliente.cuit_dni@, PAGE_9@, cliente.telefono@, PAGE_10@, rows_html(remito.items@), PAGE_11@, centavos_text(remito.remito.total_centavos as int)]);
    }
    lemma_concat_all_contains(ps, 0);
    lemma_concat_all_contains(ps, 2);
    lemma_concat_all_contains(ps, 4);
    lemma_concat_all_contains(ps, 6);
    lemma_concat_all_contains(ps, 8);
    lemma_concat_all_contains(ps, 10);
    lemma_concat_all_contains(ps, 12);
    lemma_concat_all_contains(ps, 14);
    lemma_concat_all_contains(ps, 16);
    lemma_concat_all_contains(ps, 18);
    lemma_concat_all_contains(ps, 20);
    lemma_concat_all_contains(ps, 22);
}

/// Every line of the note appears on the page as a row holding its product
/// name, quantity, unit price and subtotal, in the table's cells.
pub proof fn lemma_page_rows(empresa: Empresa, cliente: Cliente, remito: RemitoCompleto, i: int)
    requires
        0 <= i < remito.items@.len(),
    ensures
        ({
            let item = remito.items@[i];
            contains(remito_html(empresa, cliente, remito),
                ROW_0@ + item.nombre_producto@ + ROW_1@ + decimal_int(item.cantidad as int) + ROW_2@
                    + centavos_text(item.precio_unitario_centavos as int) + ROW_3@
                    + centavos_text(item.subtotal_centavos as int) + ROW_4@)
        }),
{
    let items = remito.items@;
    let item = items[i];
    let before = items.take(i);
    let after = items.skip(i + 1);
    assert(items =~= before + seq![item] + after);
    lemma_rows_html_concat(before + seq![item], after);
    lemma_rows_html_concat(before, seq![item]);
    assert(seq![item].drop_last() =~= Seq::<RemitoItem>::empty());
    assert(seq![item].last() == item);
    assert(rows_html(Seq::<RemitoItem>::empty()) == Seq::<char>::empty());
    assert(rows_html(seq![item]) =~= row_html(item));
    let row = row_html(item);
    let page = remito_html(empresa, cliente, remito);
    let x = PAGE_0@ + zero_padded(remito.remito.id as int, 6) + PAGE_1@ + remito.remito.fecha@ + PAGE_2@ + empresa.nombre@ + PAGE_3@ + empresa.direccion@ + PAGE_4@ + empresa.cuit@ + PAGE_5@ + empresa.telefono@ + PAGE_6@ + cliente.nombre@ + PAGE_7@ + cliente.direccion@ + PAGE_8@ + cliente.cuit_dni@ + PAGE_9@ + cliente.telefono@ + PAGE_10@ + rows_html(before);
    let y = rows_html(after) + PAGE_11@ + centavos_text(remito.remito.total_centavos as int) + PAGE_12@;
    assert(page =~= x + row + y);
    lemma_contains_middle(x, row, y);
}

/// Renders a delivery note to PDF: the page of `render_html`, laid out by
/// `printpdf`. It succeeds, and the bytes are a PDF file saved from
/// printpdf's layout of exactly that page (`remito_html`), starting with
/// `%PDF-` and ending with `%%EOF`.
pub fn generate_remito_pdf(empresa: &Empresa, cliente: &Cliente, remito: &RemitoCompleto) -> (r: Result<Vec<u8>, String>)
    ensures
        r matches Ok(bytes) && spec_pdf_laid_out(bytes@, remito_html(*empresa, *cliente, *remito)),
        r matches Ok(bytes) ==> bytes@.len() >= 5 && bytes@.subrange(0, 5) == pdf_magic()
            && bytes@.subrange(bytes@.len() - 5, bytes@.len() as int) == pdf_end(),
{
    let html = render_html(empresa, cliente, remito);
    match pdf_from_html(html.as_str()) {
        Ok(doc) => Ok(pdf_save(&doc)),
        Err(e) => Err(e),
    }
}

} // verus!
