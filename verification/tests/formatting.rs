use remitos::api::{content_disposition, pdf_filename};
use remitos::models::{Cliente, Empresa, Remito, RemitoCompleto, RemitoItem};
use remitos::pdf::{format_centavos, render_html};
use remitos::server::{admin_credentials, parse_port};

fn reference_centavos(centavos: i64) -> String {
    format!("{}.{:02}", centavos / 100, (centavos % 100).abs())
}

#[test]
fn format_centavos_whole_and_cents() {
    assert_eq!(format_centavos(12345), "123.45");
    assert_eq!(format_centavos(0), "0.00");
    assert_eq!(format_centavos(7), "0.07");
    assert_eq!(format_centavos(100), "1.00");
}

#[test]
fn format_centavos_negative_amounts() {
    assert_eq!(format_centavos(-150), "-1.50");
    // Below one unit the sign is lost, as `c / 100` is zero.
    assert_eq!(format_centavos(-5), "0.05");
    assert_eq!(format_centavos(i64::MIN), "-92233720368547758.08");
    assert_eq!(format_centavos(i64::MAX), "92233720368547758.07");
}

#[test]
fn format_centavos_matches_format_macro() {
    for c in [-100_001i64, -99, -1, 1, 99, 101, 999_999, 123_456_789] {
        assert_eq!(format_centavos(c), reference_centavos(c));
    }
}

#[test]
fn pdf_filename_pads_to_six_digits() {
    assert_eq!(pdf_filename(42), "remito-000042.pdf");
    assert_eq!(pdf_filename(1234567), "remito-1234567.pdf");
    assert_eq!(pdf_filename(-5), format!("remito-{:06}.pdf", -5));
    assert_eq!(pdf_filename(0), "remito-000000.pdf");
}

#[test]
fn content_disposition_quotes_the_name() {
    assert_eq!(
        content_disposition("remito-000042.pdf"),
        "attachment; filename=\"remito-000042.pdf\""
    );
}

#[test]
fn parse_port_accepts_port_numbers() {
    assert_eq!(parse_port(Some("8080")), 8080);
    assert_eq!(parse_port(Some("+80")), 80);
    assert_eq!(parse_port(Some("0")), 0);
    assert_eq!(parse_port(Some("65535")), 65535);
    assert_eq!(parse_port(Some("007")), 7);
}

#[test]
fn parse_port_falls_back_to_default() {
    assert_eq!(parse_port(None), 3000);
    assert_eq!(parse_port(Some("")), 3000);
    assert_eq!(parse_port(Some("+")), 3000);
    assert_eq!(parse_port(Some("-1")), 3000);
    assert_eq!(parse_port(Some("65536")), 3000);
    assert_eq!(parse_port(Some(" 80")), 3000);
    assert_eq!(parse_port(Some("8o")), 3000);
    for s in ["1", "443", "65535", "99999", "+1", "-0", "abc", "١٢"] {
        assert_eq!(parse_port(Some(s)), s.parse::<u16>().unwrap_or(3000));
    }
}

#[test]
fn admin_credentials_only_for_empty_user_table() {
    assert!(admin_credentials(1, None, None).is_none());
    let (u, p) = admin_credentials(0, None, None).unwrap();
    assert_eq!((u.as_str(), p.as_str()), ("admin", "admin"));
    let (u, p) = admin_credentials(0, Some("root".to_string()), Some("s3cret".to_string())).unwrap();
    assert_eq!((u.as_str(), p.as_str()), ("root", "s3cret"));
}

fn sample() -> (Empresa, Cliente, RemitoCompleto) {
    let empresa = Empresa {
        id: 1,
        nombre: "Distribuidora Sur".to_string(),
        direccion: "Av. Siempreviva 742".to_string(),
        cuit: "30-12345678-9".to_string(),
        telefono: "011-4444-5555".to_string(),
        updated_at: "2024-01-01".to_string(),
    };
    let cliente = Cliente {
        id: 3,
        nombre: "Almacen Don Jose".to_string(),
        direccion: "Calle 9 123".to_string(),
        cuit_dni: "20-11222333-4".to_string(),
        telefono: "221-555-0000".to_string(),
        created_at: "2024-01-01".to_string(),
        updated_at: "2024-01-01".to_string(),
    };
    let items = vec![
        RemitoItem {
            id: 1,
            remito_id: 42,
            producto_id: Some(5),
            nombre_producto: "Yerba 1kg".to_string(),
            precio_unitario_centavos: 250050,
            cantidad: 2,
            subtotal_centavos: 500100,
        },
        RemitoItem {
            id: 2,
            remito_id: 42,
            producto_id: None,
            nombre_producto: "Azucar".to_string(),
            precio_unitario_centavos: 99,
            cantidad: 3,
            subtotal_centavos: 297,
        },
    ];
    let remito = RemitoCompleto {
        remito: Remito {
            id: 42,
            cliente_id: 3,
            fecha: "2024-05-17".to_string(),
            total_centavos: 500397,
            created_at: "2024-05-17 10:00:00".to_string(),
        },
        items,
    };
    (empresa, cliente, remito)
}

#[test]
fn render_html_fills_the_page() {
    let (empresa, cliente, remito) = sample();
    let html = render_html(&empresa, &cliente, &remito);
    assert!(html.starts_with("<html>\n<head>\n<style>\n    body { font-family"));
    assert!(html.contains("<div class=\"header\">Remito N° 000042</div>"));
    assert!(html.contains("<div class=\"subheader\">Fecha: 2024-05-17</div>"));
    assert!(html.contains("<span class=\"label\">CUIT:</span> 30-12345678-9</div>"));
    assert!(html.contains("<span class=\"label\">CUIT/DNI:</span> 20-11222333-4</div>"));
    assert!(html.contains(
        "<tr>\n                <td class=\"cell\">Yerba 1kg</td>\n                <td class=\"cell right\">2</td>\n                <td class=\"cell right\">$2500.50</td>\n                <td class=\"cell right\">$5001.00</td>\n            </tr>"
    ));
    assert!(html.contains("<td class=\"cell right\">$0.99</td>"));
    assert!(html.contains("<div class=\"total-row\">Total: $5003.97</div>"));
    assert!(html.ends_with("</div>\n</body>\n</html>"));
    let first = html.find("Yerba 1kg").unwrap();
    let second = html.find("Azucar").unwrap();
    assert!(first < second);
}

#[test]
fn render_html_without_lines() {
    let (empresa, cliente, mut remito) = sample();
    remito.items.clear();
    remito.remito.total_centavos = 0;
    let html = render_html(&empresa, &cliente, &remito);
    assert!(!html.contains("<td class=\"cell\">"));
    assert!(html.contains("</tr>\n        \n    </table>"));
    assert!(html.contains("Total: $0.00"));
}

#[test]
fn format_centavos_reads_back_without_point() {
    for c in [0i64, 5, 99, 100, 12345, -100, -101, -150, -99999, i64::MAX, i64::MIN] {
        assert_eq!(format_centavos(c).replace(".", "").parse::<i64>(), Ok(c));
    }
    // Between -100 and 0 the sign is lost.
    assert_eq!(format_centavos(-5).replace(".", "").parse::<i64>(), Ok(5));
}
